//! Reading the arguments of an operation call, which arrive as JSON text.
//!
//! The parsing is `serde_json`'s. Of a parsed text the library reads only the
//! members of the top-level object whose values are strings.

use vstd::prelude::*;

verus! {

#[verifier::external_type_specification]
#[verifier::external_body]
pub struct ExJsonValue(serde_json::Value);

/// The string members of a JSON value: where the value is an object, its
/// keys whose values are strings, each with that string; else nothing.
pub uninterp spec fn json_string_members(value: serde_json::Value) -> Map<Seq<char>, Seq<char>>;

/// What parsing `text` as JSON gives: nothing where `text` is no JSON text,
/// else the string members of the value that it denotes.
pub uninterp spec fn json_text_members(text: Seq<char>) -> Option<Map<Seq<char>, Seq<char>>>;

/// `serde_json::from_str` for a `serde_json::Value`, with its error dropped.
/// Trusted: whether the text parses, and to which string members, depends on
/// the text alone; [`json_text_members`] names it.
#[verifier::external_body]
fn parse_json(text: &str) -> (r: Option<serde_json::Value>)
    ensures
        match r {
            Some(value) => json_text_members(text@) == Some(json_string_members(value)),
            None => json_text_members(text@) is None,
        },
{
    serde_json::from_str::<serde_json::Value>(text).ok()
}

/// Indexing a `serde_json::Value` by a key, then `Value::as_str`. Trusted:
/// the result is the string under `key` where the value is an object that has
/// a string there, and nothing otherwise.
#[verifier::external_body]
fn string_member(value: &serde_json::Value, key: &str) -> (r: Option<String>)
    ensures
        match r {
            Some(s) => json_string_members(*value).contains_key(key@) && json_string_members(
                *value,
            )[key@] == s@,
            None => !json_string_members(*value).contains_key(key@),
        },
{
    value[key].as_str().map(str::to_string)
}

/// The arguments of a `set_task` call, as far as they were given as strings.
#[derive(Debug)]
pub struct TaskArguments {
    pub task: Option<String>,
    pub destination: Option<String>,
}

/// The mathematical model of [`TaskArguments`].
pub struct TaskArgumentsView {
    pub task: Option<Seq<char>>,
    pub destination: Option<Seq<char>>,
}

impl View for TaskArguments {
    type V = TaskArgumentsView;

    open spec fn view(&self) -> TaskArgumentsView {
        TaskArgumentsView {
            task: self.task.deep_view(),
            destination: self.destination.deep_view(),
        }
    }
}

impl DeepView for TaskArguments {
    type V = TaskArgumentsView;

    open spec fn deep_view(&self) -> TaskArgumentsView {
        self@
    }
}

/// The string under `key`, if there is one.
pub open spec fn member(members: Map<Seq<char>, Seq<char>>, key: Seq<char>) -> Option<Seq<char>> {
    if members.contains_key(key) {
        Some(members[key])
    } else {
        None
    }
}

/// The arguments read from the result of parsing: nothing where the text
/// did not parse, else the strings under `task` and `destination`.
pub open spec fn task_arguments_of(parsed: Option<Map<Seq<char>, Seq<char>>>) -> Option<
    TaskArgumentsView,
> {
    match parsed {
        None => None,
        Some(members) => Some(
            TaskArgumentsView {
                task: member(members, "task"@),
                destination: member(members, "destination"@),
            },
        ),
    }
}

/// Reads the arguments of a `set_task` call from their JSON text.
pub fn parse_task_arguments(arguments: &str) -> (r: Option<TaskArguments>)
    ensures
        r.deep_view() == task_arguments_of(json_text_members(arguments@)),
{
    match parse_json(arguments) {
        Some(value) => Some(
            TaskArguments {
                task: string_member(&value, "task"),
                destination: string_member(&value, "destination"),
            },
        ),
        None => None,
    }
}

} // verus!
