//! What agents remember: the deeds of characters near them, and how that
//! memory is told.

use crate::action::{narrative, Action, ActionView};
use crate::character::{Character, CharacterView};
use crate::geometry::{within_range, Point};
use crate::npc::NPCView;
use itertools::Itertools;
use vstd::prelude::*;

verus! {

/// From how far an agent notices what a character does: six hundred world
/// units.
pub const HEARING_RANGE: u32 = 600_000;

/// `s` without the items that occurred earlier in it: of equal items the
/// first stays, and what stays keeps its order.
pub open spec fn first_occurrences<T>(s: Seq<T>) -> Seq<T>
    decreases s.len(),
{
    if s.len() == 0 {
        Seq::empty()
    } else if s.drop_last().contains(s.last()) {
        first_occurrences(s.drop_last())
    } else {
        first_occurrences(s.drop_last()).push(s.last())
    }
}

/// A history told in words: each distinct entry once, in the order of its
/// first occurrence, as the sentence of [`narrative`].
pub open spec fn history_text(history: Seq<(Seq<char>, ActionView)>) -> Seq<char> {
    first_occurrences(history).map_values(
        |entry: (Seq<char>, ActionView)| narrative(entry.0, entry.1),
    ).flatten()
}

/// The deeds a character has queued, each with the character's name.
pub open spec fn witnessed(c: CharacterView) -> Seq<(Seq<char>, ActionView)> {
    c.actions.map_values(|action: ActionView| (c.name, action))
}

/// The deeds queued by the characters closer than [`HEARING_RANGE`] to `at`,
/// character after character, each character's deeds in queue order.
pub open spec fn overheard(characters: Seq<CharacterView>, at: Point) -> Seq<
    (Seq<char>, ActionView),
>
    decreases characters.len(),
{
    if characters.len() == 0 {
        Seq::empty()
    } else if within_range(characters.last().position, at, HEARING_RANGE as int) {
        overheard(characters.drop_last(), at) + witnessed(characters.last())
    } else {
        overheard(characters.drop_last(), at)
    }
}

/// The character after it has taken note of what happens around it. Only
/// an agent takes note; its history grows by what it overhears, its own
/// deeds included.
pub open spec fn listened(c: CharacterView, all: Seq<CharacterView>) -> CharacterView {
    match c.npc {
        None => c,
        Some(npc) => CharacterView {
            npc: Some(NPCView { history: npc.history + overheard(all, c.position), ..npc }),
            ..c
        },
    }
}

/// Every character after it has taken note of what happens around it.
pub open spec fn histories_updated(characters: Seq<CharacterView>) -> Seq<CharacterView> {
    characters.map_values(|c: CharacterView| listened(c, characters))
}

/// `itertools::Itertools::unique` over the entries of a history. Trusted:
/// the adaptor yields the items that no earlier item equals, in their order,
/// where two entries are equal when their names and actions are.
#[verifier::external_body]
fn unique_entries(history: &Vec<(String, Action)>) -> (r: Vec<(String, Action)>)
    ensures
        r.deep_view() == first_occurrences(history.deep_view()),
{
    history.iter().unique().cloned().collect()
}

/// `itertools::Itertools::join` with an empty separator. Trusted: the result
/// is the texts one after another.
#[verifier::external_body]
fn concatenated(parts: &Vec<String>) -> (r: String)
    ensures
        r@ == parts.deep_view().flatten(),
{
    parts.iter().join("")
}

/// Tells a history in words: see [`history_text`].
pub fn history_context(history: &Vec<(String, Action)>) -> (r: String)
    ensures
        r@ == history_text(history.deep_view()),
{
    let entries: Vec<(String, Action)> = unique_entries(history);
    let n: usize = entries.len();
    let mut sentences: Vec<String> = Vec::new();
    let mut i: usize = 0;
    while i < n
        invariant
            n == entries.len(),
            i <= n,
            sentences.len() == i,
            forall|j: int|
                0 <= j < i ==> sentences[j]@ == narrative(entries[j].0@, entries[j].1@),
        decreases n - i,
    {
        sentences.push(entries[i].1.get_context(entries[i].0.as_str()));
        i = i + 1;
    }
    assert(sentences.deep_view() =~= entries.deep_view().map_values(
        |entry: (Seq<char>, ActionView)| narrative(entry.0, entry.1),
    ));
    concatenated(&sentences)
}

/// The deeds to be overheard at `at`: see [`overheard`].
pub fn overhear(characters: &Vec<Character>, at: &Point) -> (r: Vec<(String, Action)>)
    ensures
        r.deep_view() == overheard(characters.deep_view(), *at),
{
    let n: usize = characters.len();
    let mut heard: Vec<(String, Action)> = Vec::new();
    let mut i: usize = 0;
    assert(characters.deep_view().take(0) =~= Seq::empty());
    assert(heard.deep_view() =~= Seq::empty());
    while i < n
        invariant
            n == characters.len(),
            i <= n,
            heard.deep_view() == overheard(characters.deep_view().take(i as int), *at),
        decreases n - i,
    {
        let ghost before: Seq<(Seq<char>, ActionView)> = heard.deep_view();
        let ghost c: CharacterView = characters[i as int]@;
        assert(characters.deep_view().take(i + 1).drop_last() =~= characters.deep_view().take(
            i as int,
        ));
        if characters[i].position.within(at, HEARING_RANGE) {
            let m: usize = characters[i].actions.len();
            let mut k: usize = 0;
            assert(before =~= before + witnessed(c).take(0));
            while k < m
                invariant
                    i < n,
                    n == characters.len(),
                    c == characters[i as int]@,
                    m == characters[i as int].actions.len(),
                    k <= m,
                    heard.deep_view() == before + witnessed(c).take(k as int),
                decreases m - k,
            {
                let ghost so_far: Seq<(Seq<char>, ActionView)> = heard.deep_view();
                heard.push((characters[i].name.clone(), characters[i].actions[k].clone()));
                assert(heard.deep_view() =~= so_far.push((c.name, c.actions[k as int])));
                assert(before + witnessed(c).take(k + 1) =~= (before + witnessed(c).take(
                    k as int,
                )).push((c.name, c.actions[k as int])));
                k = k + 1;
            }
            assert(witnessed(c).take(m as int) =~= witnessed(c));
        }
        i = i + 1;
    }
    assert(characters.deep_view().take(n as int) =~= characters.deep_view());
    heard
}

/// What is overheard depends on the names, positions and queues alone.
pub proof fn lemma_overheard_reads(a: Seq<CharacterView>, b: Seq<CharacterView>, at: Point)
    requires
        a.len() == b.len(),
        forall|j: int|
            0 <= j < a.len() ==> a[j].name == b[j].name && a[j].position == b[j].position
                && a[j].actions == b[j].actions,
    ensures
        overheard(a, at) == overheard(b, at),
    decreases a.len(),
{
    if a.len() > 0 {
        lemma_overheard_reads(a.drop_last(), b.drop_last(), at);
    }
}

/// Lets every agent take note of the deeds queued around it this tick: see
/// [`listened`].
pub fn update_history(characters: &mut Vec<Character>)
    ensures
        final(characters).deep_view() == histories_updated(old(characters).deep_view()),
{
    let n: usize = characters.len();
    let ghost start: Seq<CharacterView> = characters.deep_view();
    let mut i: usize = 0;
    while i < n
        invariant
            n == characters.len(),
            start == old(characters).deep_view(),
            start.len() == n,
            i <= n,
            forall|j: int| 0 <= j < i ==> characters[j]@ == listened(start[j], start),
            forall|j: int| i <= j < n ==> characters[j]@ == start[j],
        decreases n - i,
    {
        if characters[i].npc.is_some() {
            let at: Point = characters[i].position;
            let mut heard: Vec<(String, Action)> = overhear(characters, &at);
            proof {
                lemma_overheard_reads(characters.deep_view(), start, at);
            }
            let ghost before: Seq<(Seq<char>, ActionView)> = start[i as int].npc.unwrap().history;
            match &mut characters[i].npc {
                Some(npc) => {
                    npc.history.append(&mut heard);
                    assert(npc.history.deep_view() =~= before + overheard(start, at));
                },
                None => {},
            }
        }
        i = i + 1;
    }
    assert(characters.deep_view() =~= histories_updated(start));
}

} // verus!
