//! What an agent is told when it is asked for a decision: its story, what
//! it remembers, whom it sees, where it is and what it is doing.

use crate::character::{Character, CharacterView};
use crate::geometry::{within_range, Point};
use crate::history::{history_context, history_text};
use crate::npc::narration;
use crate::region::{Region, RegionView};
use crate::text::{join_names, list_of, trim, trimmed};
use vstd::prelude::*;
use vstd::string::*;

verus! {

/// From how far an agent sees another character: three hundred world units.
pub const SIGHT_RANGE: u32 = 300_000;

/// Who speaks in a message of a conversation.
#[derive(Clone, Copy, Debug, PartialEq, Eq, Structural)]
pub enum Role {
    System,
    User,
    Assistant,
}

/// One message of a conversation.
#[derive(Debug)]
pub struct ChatMessage {
    pub role: Role,
    pub content: String,
}

/// The mathematical model of a [`ChatMessage`].
pub struct ChatMessageView {
    pub role: Role,
    pub content: Seq<char>,
}

impl View for ChatMessage {
    type V = ChatMessageView;

    open spec fn view(&self) -> ChatMessageView {
        ChatMessageView { role: self.role, content: self.content@ }
    }
}

impl DeepView for ChatMessage {
    type V = ChatMessageView;

    open spec fn deep_view(&self) -> ChatMessageView {
        self@
    }
}

/// The description of the one operation an agent may call: `set_task`, with
/// a task, and a destination for the task of traveling.
#[derive(Debug)]
pub struct ToolSchema {
    pub name: String,
    pub description: String,
    /// The values the `task` parameter may take.
    pub tasks: Vec<String>,
    /// The values the `destination` parameter may take.
    pub destinations: Vec<String>,
    /// The parameters that may not be left out.
    pub required: Vec<String>,
}

/// The mathematical model of a [`ToolSchema`].
pub struct ToolSchemaView {
    pub name: Seq<char>,
    pub description: Seq<char>,
    pub tasks: Seq<Seq<char>>,
    pub destinations: Seq<Seq<char>>,
    pub required: Seq<Seq<char>>,
}

impl View for ToolSchema {
    type V = ToolSchemaView;

    open spec fn view(&self) -> ToolSchemaView {
        ToolSchemaView {
            name: self.name@,
            description: self.description@,
            tasks: self.tasks.deep_view(),
            destinations: self.destinations.deep_view(),
            required: self.required.deep_view(),
        }
    }
}

impl DeepView for ToolSchema {
    type V = ToolSchemaView;

    open spec fn deep_view(&self) -> ToolSchemaView {
        self@
    }
}

/// A request for a decision, to be sent on behalf of one agent.
#[derive(Debug)]
pub struct DecisionRequest {
    /// The identifier of the agent's character; the answer comes back under
    /// it.
    pub agent: u64,
    pub messages: Vec<ChatMessage>,
    pub tools: Vec<ToolSchema>,
}

/// The mathematical model of a [`DecisionRequest`].
pub struct DecisionRequestView {
    pub agent: u64,
    pub messages: Seq<ChatMessageView>,
    pub tools: Seq<ToolSchemaView>,
}

impl View for DecisionRequest {
    type V = DecisionRequestView;

    open spec fn view(&self) -> DecisionRequestView {
        DecisionRequestView {
            agent: self.agent,
            messages: self.messages.deep_view(),
            tools: self.tools.deep_view(),
        }
    }
}

impl DeepView for DecisionRequest {
    type V = DecisionRequestView;

    open spec fn deep_view(&self) -> DecisionRequestView {
        self@
    }
}

/// Whether somebody called `name` standing at `at` sees `c`: `c` is closer
/// than [`SIGHT_RANGE`] and goes by another name.
pub open spec fn in_sight(c: CharacterView, name: Seq<char>, at: Point) -> bool {
    within_range(c.position, at, SIGHT_RANGE as int) && c.name != name
}

/// The names of the characters that somebody called `name` sees from `at`,
/// in the order of the characters.
pub open spec fn nearby_names(characters: Seq<CharacterView>, name: Seq<char>, at: Point) -> Seq<
    Seq<char>,
> {
    characters.filter(|c: CharacterView| in_sight(c, name, at)).map_values(
        |c: CharacterView| c.name,
    )
}

/// The names of the regions that `at` lies in, in the order of the regions.
pub open spec fn regions_around(regions: Seq<RegionView>, at: Point) -> Seq<Seq<char>> {
    regions.filter(|r: RegionView| r.range.contains(at)).map_values(|r: RegionView| r.name)
}

/// The sentence on whom an agent sees; nothing where it sees nobody.
pub open spec fn sight_sentence(names: Seq<Seq<char>>) -> Seq<char> {
    if names.len() == 0 {
        Seq::empty()
    } else {
        "You see "@ + list_of(names) + " near you. "@
    }
}

/// The sentence on where an agent is; nothing where it is in no region.
pub open spec fn place_sentence(names: Seq<Seq<char>>) -> Seq<char> {
    if names.len() == 0 {
        Seq::empty()
    } else {
        "You are currently in "@ + list_of(names) + ". "@
    }
}

/// All that the agent at index `i` is told about itself and the world: its
/// story, its history, whom it sees, where it is, what it is doing; without
/// white space at either end.
pub open spec fn context_text(
    characters: Seq<CharacterView>,
    regions: Seq<RegionView>,
    i: int,
) -> Seq<char>
    recommends
        0 <= i < characters.len(),
        characters[i].npc is Some,
{
    let c = characters[i];
    let npc = c.npc.unwrap();
    trimmed(
        npc.backstory + history_text(npc.history) + sight_sentence(
            nearby_names(characters, c.name, c.position),
        ) + place_sentence(regions_around(regions, c.position)) + narration(npc.state),
    )
}

/// The instruction that opens every request, for an agent called `name`.
pub open spec fn system_prompt(name: Seq<char>) -> Seq<char> {
    "You are playing the role of an npc in a video game. You will be given a large amount of context and should either come up with a short response from your character in the format '"@
        + name + ": Dialog', or call a function to change your behavior. "@
}

/// The `set_task` operation in a world with these regions: the task is one
/// of `idle`, `farming` and `traveling` and may not be left out; the
/// destination is the name of a region.
pub open spec fn set_task_schema(regions: Seq<RegionView>) -> ToolSchemaView {
    ToolSchemaView {
        name: "set_task"@,
        description: "Change what you are currently doing. destination parameter should be used when task is traveling"@,
        tasks: seq!["idle"@, "farming"@, "traveling"@],
        destinations: regions.map_values(|r: RegionView| r.name),
        required: seq!["task"@],
    }
}

/// The request sent for the agent at index `i`: the instruction, then the
/// agent's context, and the one operation it may call.
pub open spec fn request_for(
    characters: Seq<CharacterView>,
    regions: Seq<RegionView>,
    i: int,
) -> DecisionRequestView
    recommends
        0 <= i < characters.len(),
        characters[i].npc is Some,
{
    DecisionRequestView {
        agent: characters[i].id,
        messages: seq![
            ChatMessageView { role: Role::System, content: system_prompt(characters[i].name) },
            ChatMessageView { role: Role::User, content: context_text(characters, regions, i) },
        ],
        tools: seq![set_task_schema(regions)],
    }
}

/// The names of the characters that the character at index `i` sees.
pub fn nearby_people(characters: &Vec<Character>, i: usize) -> (r: Vec<String>)
    requires
        i < characters.len(),
    ensures
        r.deep_view() == nearby_names(
            characters.deep_view(),
            characters[i as int]@.name,
            characters[i as int].position,
        ),
{
    let n: usize = characters.len();
    let at: Point = characters[i].position;
    let ghost name: Seq<char> = characters[i as int]@.name;
    let ghost all: Seq<CharacterView> = characters.deep_view();
    let ghost seen = |c: CharacterView| in_sight(c, name, at);
    let mut names: Vec<String> = Vec::new();
    let mut k: usize = 0;
    assert(names.deep_view() =~= Seq::empty());
    assert(all.take(0).filter(seen) =~= Seq::empty()) by {
        reveal(Seq::filter);
    }
    assert(all.take(0).filter(seen).map_values(|c: CharacterView| c.name) =~= Seq::empty());
    while k < n
        invariant
            n == characters.len(),
            i < n,
            all == characters.deep_view(),
            name == characters[i as int]@.name,
            at == characters[i as int].position,
            seen == |c: CharacterView| in_sight(c, name, at),
            k <= n,
            names.deep_view() == all.take(k as int).filter(seen).map_values(
                |c: CharacterView| c.name,
            ),
        decreases n - k,
    {
        let ghost before: Seq<Seq<char>> = names.deep_view();
        proof {
            reveal(Seq::filter);
            assert(all.take(k + 1).drop_last() =~= all.take(k as int));
        }
        if characters[k].position.within(&at, SIGHT_RANGE) && characters[k].name
            != characters[i].name {
            names.push(characters[k].name.clone());
            assert(names.deep_view() =~= before.push(all[k as int].name));
            assert(all.take(k + 1).filter(seen).map_values(|c: CharacterView| c.name)
                =~= before.push(all[k as int].name));
        }
        k = k + 1;
    }
    assert(all.take(n as int) =~= all);
    names
}

/// The names of the regions that `at` lies in.
pub fn active_regions(regions: &Vec<Region>, at: &Point) -> (r: Vec<String>)
    ensures
        r.deep_view() == regions_around(regions.deep_view(), *at),
{
    let n: usize = regions.len();
    let ghost all: Seq<RegionView> = regions.deep_view();
    let ghost around = |r: RegionView| r.range.contains(*at);
    let mut names: Vec<String> = Vec::new();
    let mut k: usize = 0;
    assert(names.deep_view() =~= Seq::empty());
    assert(all.take(0).filter(around) =~= Seq::empty()) by {
        reveal(Seq::filter);
    }
    assert(all.take(0).filter(around).map_values(|r: RegionView| r.name) =~= Seq::empty());
    while k < n
        invariant
            n == regions.len(),
            all == regions.deep_view(),
            around == |r: RegionView| r.range.contains(*at),
            k <= n,
            names.deep_view() == all.take(k as int).filter(around).map_values(
                |r: RegionView| r.name,
            ),
        decreases n - k,
    {
        let ghost before: Seq<Seq<char>> = names.deep_view();
        proof {
            reveal(Seq::filter);
            assert(all.take(k + 1).drop_last() =~= all.take(k as int));
        }
        if regions[k].range.contains(*at) {
            names.push(regions[k].name.clone());
            assert(names.deep_view() =~= before.push(all[k as int].name));
            assert(all.take(k + 1).filter(around).map_values(|r: RegionView| r.name)
                =~= before.push(all[k as int].name));
        }
        k = k + 1;
    }
    assert(all.take(n as int) =~= all);
    names
}

/// All that the agent at index `i` is told: see [`context_text`].
pub fn format_context(characters: &Vec<Character>, regions: &Vec<Region>, i: usize) -> (r: String)
    requires
        i < characters.len(),
        characters[i as int].npc is Some,
    ensures
        r@ == context_text(characters.deep_view(), regions.deep_view(), i as int),
{
    let mut content: String = String::new();
    let ghost c: CharacterView = characters[i as int]@;
    match &characters[i].npc {
        Some(npc) => {
            content.append(npc.backstory.as_str());
            let told: String = history_context(&npc.history);
            content.append(told.as_str());
            let ghost story: Seq<char> = npc.backstory@ + history_text(npc.history.deep_view());
            assert(content@ =~= story);
            let people: Vec<String> = nearby_people(characters, i);
            let ghost sight: Seq<char> = sight_sentence(people.deep_view());
            if people.len() > 0 {
                content.append("You see ");
                content.append(join_names(&people).as_str());
                content.append(" near you. ");
            }
            assert(content@ =~= story + sight);
            let places: Vec<String> = active_regions(regions, &characters[i].position);
            let ghost place: Seq<char> = place_sentence(places.deep_view());
            if places.len() > 0 {
                content.append("You are currently in ");
                content.append(join_names(&places).as_str());
                content.append(". ");
            }
            assert(content@ =~= story + sight + place);
            content.append(npc.state.get_context().as_str());
            assert(content@ =~= story + sight + place + narration(npc.state@));
        },
        None => {},
    }
    trim(content.as_str())
}

/// The `set_task` operation in a world with these regions.
pub fn set_task_tool(regions: &Vec<Region>) -> (r: ToolSchema)
    ensures
        r@ == set_task_schema(regions.deep_view()),
{
    let mut tasks: Vec<String> = Vec::new();
    tasks.push(String::from_str("idle"));
    tasks.push(String::from_str("farming"));
    tasks.push(String::from_str("traveling"));
    let mut required: Vec<String> = Vec::new();
    required.push(String::from_str("task"));
    let n: usize = regions.len();
    let mut destinations: Vec<String> = Vec::new();
    let mut k: usize = 0;
    while k < n
        invariant
            n == regions.len(),
            k <= n,
            destinations.len() == k,
            forall|j: int| 0 <= j < k ==> destinations[j]@ == regions[j].name@,
        decreases n - k,
    {
        destinations.push(regions[k].name.clone());
        k = k + 1;
    }
    let r = ToolSchema {
        name: String::from_str("set_task"),
        description: String::from_str(
            "Change what you are currently doing. destination parameter should be used when task is traveling",
        ),
        tasks,
        destinations,
        required,
    };
    assert(r.tasks.deep_view() =~= seq!["idle"@, "farming"@, "traveling"@]);
    assert(r.required.deep_view() =~= seq!["task"@]);
    assert(r.destinations.deep_view() =~= regions.deep_view().map_values(
        |r: RegionView| r.name,
    ));
    r
}

/// The request sent for the agent at index `i`: see [`request_for`].
pub fn decision_request(characters: &Vec<Character>, regions: &Vec<Region>, i: usize) -> (r:
    DecisionRequest)
    requires
        i < characters.len(),
        characters[i as int].npc is Some,
    ensures
        r@ == request_for(characters.deep_view(), regions.deep_view(), i as int),
{
    let mut prompt: String = String::from_str(
        "You are playing the role of an npc in a video game. You will be given a large amount of context and should either come up with a short response from your character in the format '",
    );
    prompt.append(characters[i].name.as_str());
    prompt.append(": Dialog', or call a function to change your behavior. ");
    let mut messages: Vec<ChatMessage> = Vec::new();
    messages.push(ChatMessage { role: Role::System, content: prompt });
    messages.push(
        ChatMessage { role: Role::User, content: format_context(characters, regions, i) },
    );
    let mut tools: Vec<ToolSchema> = Vec::new();
    tools.push(set_task_tool(regions));
    let r = DecisionRequest { agent: characters[i].id, messages, tools };
    assert(r.messages.deep_view() =~= request_for(
        characters.deep_view(),
        regions.deep_view(),
        i as int,
    ).messages);
    assert(r.tools.deep_view() =~= seq![set_task_schema(regions.deep_view())]);
    r
}

} // verus!
