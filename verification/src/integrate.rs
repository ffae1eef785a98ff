//! Taking in the answers to decision requests.
//!
//! An answer either failed on its way or is a reply; a reply may hold a line
//! to say, calls of operations, or both. Whatever the answer holds, the agent
//! it is for stops waiting.

use crate::action::{Action, ActionView};
use crate::character::{Character, CharacterView};
use crate::json::{
    json_text_members, parse_task_arguments, task_arguments_of, TaskArguments, TaskArgumentsView,
};
use crate::npc::{NPCState, NPCStateView, NPCView};
use crate::text::strip_prefix;
use vstd::prelude::*;
use vstd::string::*;

verus! {

/// Why a request brought no reply.
#[derive(Clone, Copy, Debug, PartialEq, Eq, Structural)]
pub enum DecisionError {
    /// The request could not be sent, or no response came back.
    Transport,
    /// The response is neither a reply nor an error report.
    Protocol,
    /// The service reported an error.
    Application,
}

/// What was wrong with the arguments of a `set_task` call. The agent falls
/// back to idling on each of them.
#[derive(Clone, Copy, Debug, PartialEq, Eq, Structural)]
pub enum LogicError {
    /// The arguments are no JSON text.
    MalformedArguments,
    /// No task is given, or it is no string.
    MissingTask,
    /// The task is none of `idle`, `farming` and `traveling`.
    UnknownTask,
    /// The task is `traveling` and no destination is given.
    MissingDestination,
}

/// A call of an operation, as a reply holds it.
#[derive(Debug)]
pub struct ToolCall {
    pub name: String,
    /// The arguments, as JSON text.
    pub arguments: String,
}

/// The mathematical model of a [`ToolCall`].
pub struct ToolCallView {
    pub name: Seq<char>,
    pub arguments: Seq<char>,
}

impl View for ToolCall {
    type V = ToolCallView;

    open spec fn view(&self) -> ToolCallView {
        ToolCallView { name: self.name@, arguments: self.arguments@ }
    }
}

impl DeepView for ToolCall {
    type V = ToolCallView;

    open spec fn deep_view(&self) -> ToolCallView {
        self@
    }
}

/// A reply to a decision request.
#[derive(Debug)]
pub struct Reply {
    pub content: Option<String>,
    pub tool_calls: Vec<ToolCall>,
}

/// The mathematical model of a [`Reply`].
pub struct ReplyView {
    pub content: Option<Seq<char>>,
    pub tool_calls: Seq<ToolCallView>,
}

impl View for Reply {
    type V = ReplyView;

    open spec fn view(&self) -> ReplyView {
        ReplyView { content: self.content.deep_view(), tool_calls: self.tool_calls.deep_view() }
    }
}

impl DeepView for Reply {
    type V = ReplyView;

    open spec fn deep_view(&self) -> ReplyView {
        self@
    }
}

/// The mathematical model of an answer.
pub open spec fn outcome_view(outcome: Result<Reply, DecisionError>) -> Result<
    ReplyView,
    DecisionError,
> {
    match outcome {
        Ok(reply) => Ok(reply@),
        Err(e) => Err(e),
    }
}

/// The mathematical model of a list of answers, each with the identifier
/// of the agent it is for.
pub open spec fn outcomes_view(completed: Seq<(u64, Result<Reply, DecisionError>)>) -> Seq<
    (u64, Result<ReplyView, DecisionError>),
> {
    completed.map_values(
        |answer: (u64, Result<Reply, DecisionError>)| (answer.0, outcome_view(answer.1)),
    )
}

/// The state that a `set_task` call with these arguments asks for, and what
/// was wrong with them, if anything.
///
/// `idle` and `farming` name their states; `traveling` with a destination
/// is the state of traveling there. Anything else is answered by idling:
/// arguments that did not parse, no task, a task of another name, traveling
/// without a destination.
pub open spec fn task_state(arguments: Option<TaskArgumentsView>) -> (
    NPCStateView,
    Option<LogicError>,
) {
    match arguments {
        None => (NPCStateView::Idle, Some(LogicError::MalformedArguments)),
        Some(given) => match given.task {
            None => (NPCStateView::Idle, Some(LogicError::MissingTask)),
            Some(task) => if task == "idle"@ {
                (NPCStateView::Idle, None)
            } else if task == "farming"@ {
                (NPCStateView::Farming, None)
            } else if task == "traveling"@ {
                match given.destination {
                    Some(destination) => (NPCStateView::Traveling(destination), None),
                    None => (NPCStateView::Idle, Some(LogicError::MissingDestination)),
                }
            } else {
                (NPCStateView::Idle, Some(LogicError::UnknownTask))
            },
        },
    }
}

/// What the `set_task` call with this JSON text as arguments asks for.
pub open spec fn call_state(arguments: Seq<char>) -> (NPCStateView, Option<LogicError>) {
    task_state(task_arguments_of(json_text_members(arguments)))
}

/// The state that the calls of a reply ask for: that of the last `set_task`
/// call, or none where the reply holds no such call.
pub open spec fn directed(calls: Seq<ToolCallView>) -> Option<NPCStateView>
    decreases calls.len(),
{
    if calls.len() == 0 {
        None
    } else if calls.last().name == "set_task"@ {
        Some(call_state(calls.last().arguments).0)
    } else {
        directed(calls.drop_last())
    }
}

/// What was wrong with the `set_task` calls of a reply, call after call.
pub open spec fn warnings_of(calls: Seq<ToolCallView>) -> Seq<LogicError>
    decreases calls.len(),
{
    if calls.len() == 0 {
        Seq::empty()
    } else if calls.last().name == "set_task"@ && call_state(calls.last().arguments).1 is Some {
        warnings_of(calls.drop_last()).push(call_state(calls.last().arguments).1.unwrap())
    } else {
        warnings_of(calls.drop_last())
    }
}

/// The line that a character called `name` says on a reply with this
/// content: what follows the name, a colon and a space, where the content
/// begins with exactly these; else nothing.
pub open spec fn said(name: Seq<char>, content: Option<Seq<char>>) -> Option<Seq<char>> {
    match content {
        Some(text) => if (name + ": "@).is_prefix_of(text) {
            Some(text.skip((name + ": "@).len() as int))
        } else {
            None
        },
        None => None,
    }
}

/// Whether the character is an agent that waits for an answer.
pub open spec fn waiting(c: CharacterView) -> bool {
    c.npc matches Some(npc) && npc.pending
}

/// The character after an answer for it has come in.
///
/// Only an agent that waits for an answer takes one. It stops waiting
/// whatever the answer holds. A failed request changes nothing else. From a
/// reply the agent queues the line it is to say, and takes on the state its
/// calls ask for.
pub open spec fn answered(
    c: CharacterView,
    outcome: Result<ReplyView, DecisionError>,
) -> CharacterView {
    if waiting(c) {
        let npc = c.npc.unwrap();
        match outcome {
            Err(_) => CharacterView { npc: Some(NPCView { pending: false, ..npc }), ..c },
            Ok(reply) => CharacterView {
                actions: match said(c.name, reply.content) {
                    Some(speech) => c.actions.push(ActionView::Talk(speech)),
                    None => c.actions,
                },
                npc: Some(
                    NPCView {
                        state: match directed(reply.tool_calls) {
                            Some(state) => state,
                            None => npc.state,
                        },
                        pending: false,
                        ..npc
                    },
                ),
                ..c
            },
        }
    } else {
        c
    }
}

/// Every character after an answer for the agent `agent` has come in.
pub open spec fn integrated(
    characters: Seq<CharacterView>,
    agent: u64,
    outcome: Result<ReplyView, DecisionError>,
) -> Seq<CharacterView> {
    characters.map_values(
        |c: CharacterView| if c.id == agent {
            answered(c, outcome)
        } else {
            c
        },
    )
}

/// The warnings that an answer for the agent `agent` gives rise to: those
/// of its calls, once for each waiting agent of that identifier.
pub open spec fn noticed(
    characters: Seq<CharacterView>,
    agent: u64,
    outcome: Result<ReplyView, DecisionError>,
) -> Seq<LogicError>
    decreases characters.len(),
{
    if characters.len() == 0 {
        Seq::empty()
    } else if characters.last().id == agent && waiting(characters.last()) && outcome is Ok {
        noticed(characters.drop_last(), agent, outcome) + warnings_of(outcome->Ok_0.tool_calls)
    } else {
        noticed(characters.drop_last(), agent, outcome)
    }
}

/// Every character after the answers have come in, one after another.
pub open spec fn integrated_all(
    characters: Seq<CharacterView>,
    completed: Seq<(u64, Result<ReplyView, DecisionError>)>,
) -> Seq<CharacterView>
    decreases completed.len(),
{
    if completed.len() == 0 {
        characters
    } else {
        integrated(
            integrated_all(characters, completed.drop_last()),
            completed.last().0,
            completed.last().1,
        )
    }
}

/// The warnings that the answers give rise to, answer after answer.
pub open spec fn noticed_all(
    characters: Seq<CharacterView>,
    completed: Seq<(u64, Result<ReplyView, DecisionError>)>,
) -> Seq<LogicError>
    decreases completed.len(),
{
    if completed.len() == 0 {
        Seq::empty()
    } else {
        noticed_all(characters, completed.drop_last()) + noticed(
            integrated_all(characters, completed.drop_last()),
            completed.last().0,
            completed.last().1,
        )
    }
}

/// The state that a `set_task` call with these arguments asks for: see
/// [`task_state`].
pub fn state_for_task(arguments: Option<TaskArguments>) -> (r: (NPCState, Option<LogicError>))
    ensures
        r.0@ == task_state(arguments.deep_view()).0,
        r.1 == task_state(arguments.deep_view()).1,
{
    match arguments {
        None => (NPCState::Idle, Some(LogicError::MalformedArguments)),
        Some(given) => match given.task {
            None => (NPCState::Idle, Some(LogicError::MissingTask)),
            Some(task) => {
                if task == String::from_str("idle") {
                    (NPCState::Idle, None)
                } else if task == String::from_str("farming") {
                    (NPCState::Farming, None)
                } else if task == String::from_str("traveling") {
                    match given.destination {
                        Some(destination) => (NPCState::Traveling(destination), None),
                        None => (NPCState::Idle, Some(LogicError::MissingDestination)),
                    }
                } else {
                    (NPCState::Idle, Some(LogicError::UnknownTask))
                }
            },
        },
    }
}

/// The state that the calls of a reply ask for, and what was wrong with
/// them: see [`directed`] and [`warnings_of`].
pub fn read_calls(calls: &Vec<ToolCall>) -> (r: (Option<NPCState>, Vec<LogicError>))
    ensures
        r.0.deep_view() == directed(calls.deep_view()),
        r.1@ == warnings_of(calls.deep_view()),
{
    let n: usize = calls.len();
    let mut chosen: Option<NPCState> = None;
    let mut warnings: Vec<LogicError> = Vec::new();
    let mut k: usize = 0;
    assert(calls.deep_view().take(0) =~= Seq::empty());
    while k < n
        invariant
            n == calls.len(),
            k <= n,
            chosen.deep_view() == directed(calls.deep_view().take(k as int)),
            warnings@ == warnings_of(calls.deep_view().take(k as int)),
        decreases n - k,
    {
        assert(calls.deep_view().take(k + 1).drop_last() =~= calls.deep_view().take(k as int));
        if calls[k].name == String::from_str("set_task") {
            let asked = state_for_task(parse_task_arguments(calls[k].arguments.as_str()));
            chosen = Some(asked.0);
            match asked.1 {
                Some(warning) => {
                    warnings.push(warning);
                },
                None => {},
            }
        }
        k = k + 1;
    }
    assert(calls.deep_view().take(n as int) =~= calls.deep_view());
    (chosen, warnings)
}

/// Takes in an answer for the character at index `i`: see [`answered`].
fn answer(
    characters: &mut Vec<Character>,
    i: usize,
    outcome: &Result<Reply, DecisionError>,
    warnings: &mut Vec<LogicError>,
)
    requires
        i < old(characters).len(),
    ensures
        final(characters).len() == old(characters).len(),
        final(characters)[i as int]@ == answered(
            old(characters)[i as int]@,
            outcome_view(*outcome),
        ),
        forall|j: int|
            0 <= j < old(characters).len() && j != i ==> final(characters)[j] == old(
                characters,
            )[j],
        final(warnings)@ == old(warnings)@ + (if waiting(old(characters)[i as int]@)
            && outcome is Ok {
            warnings_of(outcome_view(*outcome)->Ok_0.tool_calls)
        } else {
            Seq::empty()
        }),
{
    let is_waiting: bool = match &characters[i].npc {
        Some(npc) => npc.pending,
        None => false,
    };
    if !is_waiting {
        assert(warnings@ =~= old(warnings)@ + Seq::empty());
        return ;
    }
    let ghost c: CharacterView = characters[i as int]@;
    match outcome {
        Err(_) => {
            match &mut characters[i].npc {
                Some(npc) => {
                    npc.pending = false;
                },
                None => {},
            }
            assert(warnings@ =~= old(warnings)@ + Seq::empty());
        },
        Ok(reply) => {
            match &reply.content {
                Some(text) => {
                    let mut prefix: String = characters[i].name.clone();
                    prefix.append(": ");
                    match strip_prefix(text.as_str(), prefix.as_str()) {
                        Some(speech) => {
                            characters[i].actions.push(Action::Talk(speech));
                            assert(characters[i as int].actions.deep_view() =~= c.actions.push(
                                ActionView::Talk(speech@),
                            ));
                        },
                        None => {},
                    }
                },
                None => {},
            }
            let (chosen, mut found) = read_calls(&reply.tool_calls);
            match &mut characters[i].npc {
                Some(npc) => {
                    match chosen {
                        Some(state) => {
                            npc.state = state;
                        },
                        None => {},
                    }
                    npc.pending = false;
                },
                None => {},
            }
            warnings.append(&mut found);
        },
    }
}

/// Takes in the answer to the request of the agent `agent`: see
/// [`integrated`]. Returns what was wrong with the calls it held, for the
/// caller to log.
pub fn integrate(
    characters: &mut Vec<Character>,
    agent: u64,
    outcome: &Result<Reply, DecisionError>,
) -> (warnings: Vec<LogicError>)
    ensures
        final(characters).deep_view() == integrated(
            old(characters).deep_view(),
            agent,
            outcome_view(*outcome),
        ),
        warnings@ == noticed(old(characters).deep_view(), agent, outcome_view(*outcome)),
{
    let n: usize = characters.len();
    let ghost start: Seq<CharacterView> = characters.deep_view();
    let ghost given: Result<ReplyView, DecisionError> = outcome_view(*outcome);
    let mut warnings: Vec<LogicError> = Vec::new();
    let mut i: usize = 0;
    assert(start.take(0) =~= Seq::empty());
    while i < n
        invariant
            n == characters.len(),
            start == old(characters).deep_view(),
            start.len() == n,
            given == outcome_view(*outcome),
            i <= n,
            forall|j: int|
                0 <= j < i ==> characters[j]@ == (if start[j].id == agent {
                    answered(start[j], given)
                } else {
                    start[j]
                }),
            forall|j: int| i <= j < n ==> characters[j]@ == start[j],
            warnings@ == noticed(start.take(i as int), agent, given),
        decreases n - i,
    {
        assert(start.take(i + 1).drop_last() =~= start.take(i as int));
        if characters[i].id == agent {
            answer(characters, i, outcome, &mut warnings);
        }
        i = i + 1;
    }
    assert(start.take(n as int) =~= start);
    assert(characters.deep_view() =~= integrated(start, agent, given));
    warnings
}

/// Takes in the answers that have come in since the last tick, in their
/// order: see [`integrated_all`]. Each answer comes with the identifier of
/// the agent that the request was sent for. Returns what was wrong with the
/// calls they held, for the caller to log.
pub fn handle_npc_dialog_requests(
    characters: &mut Vec<Character>,
    completed: &Vec<(u64, Result<Reply, DecisionError>)>,
) -> (warnings: Vec<LogicError>)
    ensures
        final(characters).deep_view() == integrated_all(
            old(characters).deep_view(),
            outcomes_view(completed@),
        ),
        warnings@ == noticed_all(old(characters).deep_view(), outcomes_view(completed@)),
{
    let n: usize = completed.len();
    let ghost start: Seq<CharacterView> = characters.deep_view();
    let ghost answers: Seq<(u64, Result<ReplyView, DecisionError>)> = outcomes_view(completed@);
    let mut warnings: Vec<LogicError> = Vec::new();
    let mut k: usize = 0;
    assert(answers.take(0) =~= Seq::empty());
    while k < n
        invariant
            n == completed.len(),
            start == old(characters).deep_view(),
            answers == outcomes_view(completed@),
            k <= n,
            characters.deep_view() == integrated_all(start, answers.take(k as int)),
            warnings@ == noticed_all(start, answers.take(k as int)),
        decreases n - k,
    {
        assert(answers.take(k + 1).drop_last() =~= answers.take(k as int));
        let mut found: Vec<LogicError> = integrate(characters, completed[k].0, &completed[k].1);
        warnings.append(&mut found);
        k = k + 1;
    }
    assert(answers.take(n as int) =~= answers);
    warnings
}

} // verus!
