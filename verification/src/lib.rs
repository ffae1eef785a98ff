//! A village of characters, some of them agents who decide what to do next
//! by asking a text-generation service, simulated tick by tick.
//!
//! The library holds the whole simulation and does no input or output. A
//! tick takes the player's intent, the time that has passed and the answers
//! that have come in, and hands back the requests to send; sending them and
//! bringing the answers back is the caller's part, and never blocks a tick.
//!
//! All quantities are whole numbers: lengths in thousandths of a world unit,
//! time in microseconds, satiety in millionths of a unit, growth in
//! thousandths. Every step of a tick is specified by a function on the
//! mathematical model of the world and proved to compute exactly that.

pub mod action;
pub mod behavior;
pub mod character;
pub mod context;
pub mod dispatch;
pub mod geometry;
pub mod history;
pub mod integrate;
pub mod item;
pub mod json;
pub mod laws;
pub mod npc;
pub mod plant;
pub mod region;
pub mod resolve;
pub mod saturation;
pub mod text;
pub mod world;
