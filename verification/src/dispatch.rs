//! Asking for decisions: every agent whose cooldown has run out and who is
//! not still waiting for an answer gets one request, and starts to wait.

use crate::character::{Character, CharacterView};
use crate::context::{decision_request, request_for, DecisionRequest, DecisionRequestView};
use crate::npc::{NPCView, CHAT_COOLDOWN};
use crate::region::{Region, RegionView};
use vstd::prelude::*;

verus! {

/// Whether a request is to be sent for `c` now: `c` is an agent, its
/// cooldown has run out, and no request of it is unanswered.
pub open spec fn due(c: CharacterView) -> bool {
    c.npc matches Some(npc) && npc.chat_cooldown <= 0 && !npc.pending
}

/// The character after the dispatch step of a tick that lasted `dt`.
///
/// An agent whose cooldown is still running has it run `dt` further. An
/// agent that is due starts to wait for an answer, with its cooldown set back
/// to [`CHAT_COOLDOWN`] at once. An agent whose cooldown has run out while
/// it still waits is left alone, as is anyone who is no agent.
pub open spec fn cooled(c: CharacterView, dt: int) -> CharacterView {
    match c.npc {
        None => c,
        Some(npc) => if npc.chat_cooldown > 0 {
            CharacterView {
                npc: Some(NPCView { chat_cooldown: npc.chat_cooldown - dt, ..npc }),
                ..c
            }
        } else if !npc.pending {
            CharacterView {
                npc: Some(NPCView { chat_cooldown: CHAT_COOLDOWN as int, pending: true, ..npc }),
                ..c
            }
        } else {
            c
        },
    }
}

/// The requests for the due agents among the first `n` characters, in the
/// order of the characters.
pub open spec fn requests_among(
    characters: Seq<CharacterView>,
    regions: Seq<RegionView>,
    n: int,
) -> Seq<DecisionRequestView>
    decreases n,
{
    if n <= 0 {
        Seq::empty()
    } else if due(characters[n - 1]) {
        requests_among(characters, regions, n - 1).push(request_for(characters, regions, n - 1))
    } else {
        requests_among(characters, regions, n - 1)
    }
}

/// The requests for all due agents, in the order of the characters.
pub open spec fn dispatched_requests(
    characters: Seq<CharacterView>,
    regions: Seq<RegionView>,
) -> Seq<DecisionRequestView> {
    requests_among(characters, regions, characters.len() as int)
}

/// Every character after the dispatch step of a tick that lasted `dt`.
pub open spec fn dispatched_characters(characters: Seq<CharacterView>, dt: int) -> Seq<
    CharacterView,
> {
    characters.map_values(|c: CharacterView| cooled(c, dt))
}

/// Whether a request is to be sent for the character at index `i` now.
pub fn is_due(characters: &Vec<Character>, i: usize) -> (r: bool)
    requires
        i < characters.len(),
    ensures
        r == due(characters[i as int]@),
{
    match &characters[i].npc {
        Some(npc) => npc.chat_cooldown <= 0 && !npc.pending,
        None => false,
    }
}

/// The dispatch step for one character: see [`cooled`].
fn cool(characters: &mut Vec<Character>, i: usize, dt: u32)
    requires
        i < old(characters).len(),
    ensures
        final(characters).len() == old(characters).len(),
        final(characters)[i as int]@ == cooled(old(characters)[i as int]@, dt as int),
        forall|j: int|
            0 <= j < old(characters).len() && j != i ==> final(characters)[j] == old(
                characters,
            )[j],
{
    match &mut characters[i].npc {
        Some(npc) => {
            if npc.chat_cooldown > 0 {
                npc.chat_cooldown = npc.chat_cooldown - dt as i64;
            } else if !npc.pending {
                npc.chat_cooldown = CHAT_COOLDOWN;
                npc.pending = true;
            }
        },
        None => {},
    }
}

/// The dispatch step of a tick that lasted `dt` microseconds.
///
/// Returns the requests to send, one for each agent that is due, built from
/// the world as it stands; the caller sends them without waiting and hands
/// each answer back under the request's `agent`. The agents asked for are
/// marked as waiting and their cooldowns start anew at once, so that a slow
/// or lost answer never makes an agent ask again early.
pub fn update_npcs(characters: &mut Vec<Character>, regions: &Vec<Region>, dt: u32) -> (requests:
    Vec<DecisionRequest>)
    ensures
        final(characters).deep_view() == dispatched_characters(
            old(characters).deep_view(),
            dt as int,
        ),
        requests.deep_view() == dispatched_requests(
            old(characters).deep_view(),
            regions.deep_view(),
        ),
{
    let n: usize = characters.len();
    let ghost start: Seq<CharacterView> = characters.deep_view();
    let mut requests: Vec<DecisionRequest> = Vec::new();
    let mut i: usize = 0;
    assert(requests.deep_view() =~= Seq::empty());
    while i < n
        invariant
            n == characters.len(),
            start == characters.deep_view(),
            i <= n,
            requests.deep_view() == requests_among(start, regions.deep_view(), i as int),
        decreases n - i,
    {
        if is_due(characters, i) {
            let ghost before: Seq<DecisionRequestView> = requests.deep_view();
            requests.push(decision_request(characters, regions, i));
            assert(requests.deep_view() =~= before.push(
                request_for(start, regions.deep_view(), i as int),
            ));
        }
        i = i + 1;
    }
    i = 0;
    while i < n
        invariant
            n == characters.len(),
            start == old(characters).deep_view(),
            start.len() == n,
            i <= n,
            forall|j: int| 0 <= j < i ==> characters[j]@ == cooled(start[j], dt as int),
            forall|j: int| i <= j < n ==> characters[j]@ == start[j],
        decreases n - i,
    {
        cool(characters, i, dt);
        i = i + 1;
    }
    assert(characters.deep_view() =~= dispatched_characters(start, dt as int));
    requests
}

} // verus!
