//! The state document: the loosely typed form in which a project's state
//! is written down, and the conversions between it and `ProjectState`.
//! Reading is lenient: a word that is not known becomes the safest value,
//! a timestamp that cannot be read becomes absent.
use vstd::prelude::*;
use vstd::string::StringExecFns;

use crate::clock::{instant_of, rfc3339_instant, rfc3339_text, Timestamp};
use crate::text::{debug_text, mark, opt_text, quoted, str_equals, texts};
use crate::types::{
    idle_status, AgentStatus, AgentStatusType, AgentStatusView, AgentStatuses, AgentStatusesView,
    AgentType, BMadError, BMadPhase, NextAction, NextActionView, ProjectState, ProjectStateType,
    ProjectStateView,
};

verus! {

/// What the state document records of one phase.
#[derive(Debug, Clone)]
pub struct RawPhaseInfo {
    pub status: String,
    pub artifacts: Option<Vec<String>>,
    pub stories_created: Option<u32>,
    pub stories_ready: Option<u32>,
    pub current_story: Option<String>,
    pub assigned_agent: Option<String>,
    pub completed_at: Option<String>,
    pub started_at: Option<String>,
}

pub struct RawPhaseInfoView {
    pub status: Seq<char>,
    pub artifacts: Option<Seq<Seq<char>>>,
    pub stories_created: Option<u32>,
    pub stories_ready: Option<u32>,
    pub current_story: Option<Seq<char>>,
    pub assigned_agent: Option<Seq<char>>,
    pub completed_at: Option<Seq<char>>,
    pub started_at: Option<Seq<char>>,
}

impl View for RawPhaseInfo {
    type V = RawPhaseInfoView;

    open spec fn view(&self) -> RawPhaseInfoView {
        RawPhaseInfoView {
            status: self.status@,
            artifacts: match self.artifacts {
                Some(list) => Some(texts(list@)),
                None => None,
            },
            stories_created: self.stories_created,
            stories_ready: self.stories_ready,
            current_story: opt_text(self.current_story),
            assigned_agent: opt_text(self.assigned_agent),
            completed_at: opt_text(self.completed_at),
            started_at: opt_text(self.started_at),
        }
    }
}

/// A queued step as the state document holds it.
#[derive(Debug, Clone)]
pub struct RawNextAction {
    pub agent: String,
    pub task: String,
    pub story: Option<String>,
    pub estimated_time: Option<String>,
    pub depends_on: Option<String>,
    pub auto_trigger: Option<bool>,
}

pub struct RawNextActionView {
    pub agent: Seq<char>,
    pub task: Seq<char>,
    pub story: Option<Seq<char>>,
    pub estimated_time: Option<Seq<char>>,
    pub depends_on: Option<Seq<char>>,
    pub auto_trigger: Option<bool>,
}

impl View for RawNextAction {
    type V = RawNextActionView;

    open spec fn view(&self) -> RawNextActionView {
        RawNextActionView {
            agent: self.agent@,
            task: self.task@,
            story: opt_text(self.story),
            estimated_time: opt_text(self.estimated_time),
            depends_on: opt_text(self.depends_on),
            auto_trigger: self.auto_trigger,
        }
    }
}

/// The status of an agent as the state document holds it.
#[derive(Debug, Clone)]
pub struct RawAgentStatus {
    pub status: String,
    pub current_task: Option<String>,
    pub last_activity: Option<String>,
    pub queue_position: Option<usize>,
    pub estimated_start: Option<String>,
}

pub struct RawAgentStatusView {
    pub status: Seq<char>,
    pub current_task: Option<Seq<char>>,
    pub last_activity: Option<Seq<char>>,
    pub queue_position: Option<usize>,
    pub estimated_start: Option<Seq<char>>,
}

impl View for RawAgentStatus {
    type V = RawAgentStatusView;

    open spec fn view(&self) -> RawAgentStatusView {
        RawAgentStatusView {
            status: self.status@,
            current_task: opt_text(self.current_task),
            last_activity: opt_text(self.last_activity),
            queue_position: self.queue_position,
            estimated_start: opt_text(self.estimated_start),
        }
    }
}

/// The state document. Its two maps, of phases and of agents, are keyed
/// by words. They are held as lists of named entries in the order of the
/// document, not as hash maps: vstd states what a hash map holds only for
/// keys with a key model, which it gives to integers and not to text.
/// What a map has of itself is stated of the lists: of two entries with
/// one name the first counts (`entry_named`), and what is written bears
/// each name once (`names_once`).
#[derive(Debug, Clone)]
pub struct RawProjectState {
    pub bmad_version: String,
    pub project_state: String,
    pub current_phase: String,
    pub active_story: Option<String>,
    pub phases: Vec<(String, RawPhaseInfo)>,
    pub next_actions: Vec<RawNextAction>,
    pub agents: Vec<(String, RawAgentStatus)>,
}

pub struct RawProjectStateView {
    pub bmad_version: Seq<char>,
    pub project_state: Seq<char>,
    pub current_phase: Seq<char>,
    pub active_story: Option<Seq<char>>,
    pub phases: Seq<(Seq<char>, RawPhaseInfoView)>,
    pub next_actions: Seq<RawNextActionView>,
    pub agents: Seq<(Seq<char>, RawAgentStatusView)>,
}

/// The views of the named phase entries of a state document.
pub open spec fn phase_views(phases: Seq<(String, RawPhaseInfo)>) -> Seq<
    (Seq<char>, RawPhaseInfoView),
> {
    Seq::new(phases.len(), |i: int| (phases[i].0@, phases[i].1@))
}

/// The views of the named agent entries of a state document.
pub open spec fn entry_views(entries: Seq<(String, RawAgentStatus)>) -> Seq<
    (Seq<char>, RawAgentStatusView),
> {
    Seq::new(entries.len(), |i: int| (entries[i].0@, entries[i].1@))
}

/// The views of the queued steps of a state document.
pub open spec fn raw_action_views(actions: Seq<RawNextAction>) -> Seq<RawNextActionView> {
    Seq::new(actions.len(), |i: int| actions[i]@)
}

/// The views of the queued steps of a project state.
pub open spec fn action_views(actions: Seq<NextAction>) -> Seq<NextActionView> {
    Seq::new(actions.len(), |i: int| actions[i]@)
}

impl View for RawProjectState {
    type V = RawProjectStateView;

    open spec fn view(&self) -> RawProjectStateView {
        RawProjectStateView {
            bmad_version: self.bmad_version@,
            project_state: self.project_state@,
            current_phase: self.current_phase@,
            active_story: opt_text(self.active_story),
            phases: phase_views(self.phases@),
            next_actions: raw_action_views(self.next_actions@),
            agents: entry_views(self.agents@),
        }
    }
}

/// The state of one working session.
#[derive(Debug, Clone)]
pub struct SessionState {
    pub session_id: Option<u128>,
    pub started_at: Option<Timestamp>,
    pub last_activity: Option<Timestamp>,
    pub active_agents: Vec<AgentType>,
    pub session_notes: String,
}

/// What reading a state file gave.
#[derive(Debug, Clone)]
pub enum StateDocument {
    /// There is no such file.
    Missing,
    /// The file does not hold a state document; the text says why.
    Malformed(String),
    /// The document that the file holds.
    Parsed(RawProjectState),
}

/// The project status that a word of the state document names;
/// Initializing for any other word.
pub open spec fn project_state_from_key(word: Seq<char>) -> ProjectStateType {
    if word == "initializing"@ {
        ProjectStateType::Initializing
    } else if word == "planning"@ {
        ProjectStateType::Planning
    } else if word == "development"@ {
        ProjectStateType::Development
    } else if word == "quality_assurance"@ {
        ProjectStateType::QualityAssurance
    } else if word == "complete"@ {
        ProjectStateType::Complete
    } else if word == "on_hold"@ {
        ProjectStateType::OnHold
    } else if word == "archived"@ {
        ProjectStateType::Archived
    } else {
        ProjectStateType::Initializing
    }
}

/// The word of the state document for a project status.
pub open spec fn project_state_key(state: ProjectStateType) -> Seq<char> {
    match state {
        ProjectStateType::Initializing => "initializing"@,
        ProjectStateType::Planning => "planning"@,
        ProjectStateType::Development => "development"@,
        ProjectStateType::QualityAssurance => "quality_assurance"@,
        ProjectStateType::Complete => "complete"@,
        ProjectStateType::OnHold => "on_hold"@,
        ProjectStateType::Archived => "archived"@,
    }
}

/// The phase that a word of the state document names; Planning for any
/// other word.
pub open spec fn phase_from_key(word: Seq<char>) -> BMadPhase {
    if word == "planning"@ {
        BMadPhase::Planning
    } else if word == "story_creation"@ {
        BMadPhase::StoryCreation
    } else if word == "development"@ {
        BMadPhase::Development
    } else if word == "quality_assurance"@ {
        BMadPhase::QualityAssurance
    } else if word == "complete"@ {
        BMadPhase::Complete
    } else {
        BMadPhase::Planning
    }
}

/// The word of the state document for a phase.
pub open spec fn phase_key(phase: BMadPhase) -> Seq<char> {
    match phase {
        BMadPhase::Planning => "planning"@,
        BMadPhase::StoryCreation => "story_creation"@,
        BMadPhase::Development => "development"@,
        BMadPhase::QualityAssurance => "quality_assurance"@,
        BMadPhase::Complete => "complete"@,
    }
}

/// The agent status that a word of the state document names; Idle for any
/// other word.
pub open spec fn agent_status_from_key(word: Seq<char>) -> AgentStatusType {
    if word == "idle"@ {
        AgentStatusType::Idle
    } else if word == "active"@ {
        AgentStatusType::Active
    } else if word == "waiting"@ {
        AgentStatusType::Waiting
    } else if word == "blocked"@ {
        AgentStatusType::Blocked
    } else if word == "offline"@ {
        AgentStatusType::Offline
    } else {
        AgentStatusType::Idle
    }
}

/// The word of the state document for an agent status.
pub open spec fn agent_status_key(status: AgentStatusType) -> Seq<char> {
    match status {
        AgentStatusType::Idle => "idle"@,
        AgentStatusType::Active => "active"@,
        AgentStatusType::Waiting => "waiting"@,
        AgentStatusType::Blocked => "blocked"@,
        AgentStatusType::Offline => "offline"@,
    }
}

/// The agent role that a word of the state document names, if any.
pub open spec fn agent_from_key(word: Seq<char>) -> Option<AgentType> {
    if word == "analyst"@ {
        Some(AgentType::Analyst)
    } else if word == "architect"@ {
        Some(AgentType::Architect)
    } else if word == "product_manager"@ {
        Some(AgentType::ProductManager)
    } else if word == "product_owner"@ {
        Some(AgentType::ProductOwner)
    } else if word == "scrum_master"@ {
        Some(AgentType::ScrumMaster)
    } else if word == "developer"@ {
        Some(AgentType::Developer)
    } else if word == "quality_assurance"@ {
        Some(AgentType::QualityAssurance)
    } else if word == "ux_expert"@ {
        Some(AgentType::UXExpert)
    } else if word == "bmad_orchestrator"@ {
        Some(AgentType::BMadOrchestrator)
    } else {
        None
    }
}

/// The word of the state document for an agent role.
pub open spec fn agent_key(agent: AgentType) -> Seq<char> {
    match agent {
        AgentType::Analyst => "analyst"@,
        AgentType::Architect => "architect"@,
        AgentType::ProductManager => "product_manager"@,
        AgentType::ProductOwner => "product_owner"@,
        AgentType::ScrumMaster => "scrum_master"@,
        AgentType::Developer => "developer"@,
        AgentType::QualityAssurance => "quality_assurance"@,
        AgentType::UXExpert => "ux_expert"@,
        AgentType::BMadOrchestrator => "bmad_orchestrator"@,
    }
}

/// The instant that an optional RFC 3339 text names; absent where the
/// text is absent or cannot be read.
pub open spec fn instant_from_text(text: Option<Seq<char>>) -> Option<Timestamp> {
    match text {
        Some(t) => instant_of(rfc3339_instant(t)),
        None => None,
    }
}

/// The RFC 3339 text of an optional instant; absent where the instant is
/// absent or the calendar has no date for it.
pub open spec fn instant_to_text(instant: Option<Timestamp>) -> Option<Seq<char>> {
    match instant {
        Some(t) => rfc3339_text(t.secs, t.nanos),
        None => None,
    }
}

/// The status of an agent, read from its entry in the state document.
pub open spec fn agent_status_from_raw(raw: RawAgentStatusView) -> AgentStatusView {
    AgentStatusView {
        status: agent_status_from_key(raw.status),
        current_task: raw.current_task,
        last_activity: instant_from_text(raw.last_activity),
        queue_position: raw.queue_position,
        estimated_start: instant_from_text(raw.estimated_start),
    }
}

/// The entry of the state document for the status of an agent.
pub open spec fn agent_status_to_raw(status: AgentStatusView) -> RawAgentStatusView {
    RawAgentStatusView {
        status: agent_status_key(status.status),
        current_task: status.current_task,
        last_activity: instant_to_text(status.last_activity),
        queue_position: status.queue_position,
        estimated_start: instant_to_text(status.estimated_start),
    }
}

/// Whether no name stands twice among named entries, as in a map keyed by
/// name.
pub open spec fn names_once(entries: Seq<(Seq<char>, RawAgentStatusView)>) -> bool {
    forall|i: int, j: int| 0 <= i < j < entries.len() ==> entries[i].0 != entries[j].0
}

/// The first entry with the given name.
pub open spec fn entry_named(entries: Seq<(Seq<char>, RawAgentStatusView)>, name: Seq<char>) -> Option<
    RawAgentStatusView,
>
    decreases entries.len(),
{
    if entries.len() == 0 {
        None
    } else if entries[0].0 == name {
        Some(entries[0].1)
    } else {
        entry_named(entries.drop_first(), name)
    }
}

/// The status of the agent with the given name; idle where the document
/// has no entry for it.
pub open spec fn agent_from_entries(entries: Seq<(Seq<char>, RawAgentStatusView)>, name: Seq<char>) -> AgentStatusView {
    match entry_named(entries, name) {
        Some(raw) => agent_status_from_raw(raw),
        None => idle_status(),
    }
}

/// The statuses of all eight roles, read from the entries of the state
/// document.
pub open spec fn agents_from_raw(entries: Seq<(Seq<char>, RawAgentStatusView)>) -> AgentStatusesView {
    AgentStatusesView {
        analyst: agent_from_entries(entries, "analyst"@),
        architect: agent_from_entries(entries, "architect"@),
        product_manager: agent_from_entries(entries, "product_manager"@),
        product_owner: agent_from_entries(entries, "product_owner"@),
        scrum_master: agent_from_entries(entries, "scrum_master"@),
        developer: agent_from_entries(entries, "developer"@),
        quality_assurance: agent_from_entries(entries, "quality_assurance"@),
        ux_expert: agent_from_entries(entries, "ux_expert"@),
    }
}

/// The eight entries of the state document for the statuses of a project.
pub open spec fn agents_to_raw(agents: AgentStatusesView) -> Seq<(Seq<char>, RawAgentStatusView)> {
    seq![
        ("analyst"@, agent_status_to_raw(agents.analyst)),
        ("architect"@, agent_status_to_raw(agents.architect)),
        ("product_manager"@, agent_status_to_raw(agents.product_manager)),
        ("product_owner"@, agent_status_to_raw(agents.product_owner)),
        ("scrum_master"@, agent_status_to_raw(agents.scrum_master)),
        ("developer"@, agent_status_to_raw(agents.developer)),
        ("quality_assurance"@, agent_status_to_raw(agents.quality_assurance)),
        ("ux_expert"@, agent_status_to_raw(agents.ux_expert)),
    ]
}

/// The queued step that an entry of the state document describes; none
/// where its agent is not known.
pub open spec fn action_from_raw(raw: RawNextActionView) -> Option<NextActionView> {
    match agent_from_key(raw.agent) {
        Some(agent) => Some(
            NextActionView {
                agent,
                task: raw.task,
                story: raw.story,
                estimated_time: raw.estimated_time,
                dependencies: match raw.depends_on {
                    Some(on) => seq![on],
                    None => Seq::empty(),
                },
                auto_trigger: match raw.auto_trigger {
                    Some(auto) => auto,
                    None => false,
                },
            },
        ),
        None => None,
    }
}

/// The entry of the state document for a queued step. The document holds
/// one dependency at most: the first.
pub open spec fn action_to_raw(action: NextActionView) -> RawNextActionView {
    RawNextActionView {
        agent: agent_key(action.agent),
        task: action.task,
        story: action.story,
        estimated_time: action.estimated_time,
        depends_on: if action.dependencies.len() > 0 {
            Some(action.dependencies[0])
        } else {
            None
        },
        auto_trigger: Some(action.auto_trigger),
    }
}

/// The queued steps that the entries of a state document describe, in
/// their order, without those whose agent is not known.
pub open spec fn actions_from_raw(raws: Seq<RawNextActionView>) -> Seq<NextActionView>
    decreases raws.len(),
{
    if raws.len() == 0 {
        Seq::empty()
    } else {
        match action_from_raw(raws.last()) {
            Some(action) => actions_from_raw(raws.drop_last()).push(action),
            None => actions_from_raw(raws.drop_last()),
        }
    }
}

/// The entries of the state document for a list of queued steps.
pub open spec fn actions_to_raw(actions: Seq<NextActionView>) -> Seq<RawNextActionView> {
    Seq::new(actions.len(), |i: int| action_to_raw(actions[i]))
}

/// The project state that a state document describes. The history of the
/// workflow is not part of the document: it starts empty.
pub open spec fn state_from_raw(raw: RawProjectStateView) -> ProjectStateView {
    ProjectStateView {
        bmad_version: raw.bmad_version,
        project_state: project_state_from_key(raw.project_state),
        current_phase: phase_from_key(raw.current_phase),
        active_story: raw.active_story,
        next_actions: actions_from_raw(raw.next_actions),
        workflow_history: Seq::empty(),
        agents: agents_from_raw(raw.agents),
    }
}

/// The state document for a project state. It records no phases.
pub open spec fn state_to_raw(state: ProjectStateView) -> RawProjectStateView {
    RawProjectStateView {
        bmad_version: state.bmad_version,
        project_state: project_state_key(state.project_state),
        current_phase: phase_key(state.current_phase),
        active_story: state.active_story,
        phases: Seq::empty(),
        next_actions: actions_to_raw(state.next_actions),
        agents: agents_to_raw(state.agents),
    }
}

/// What loading fails with where an agent's word is not known.
pub open spec fn unknown_agent(word: Seq<char>) -> Seq<char> {
    "Unknown agent type: "@ + word
}

/// What loading fails with where there is no state file.
pub open spec fn state_file_missing(state_file: Seq<char>) -> Seq<char> {
    "State file not found: "@ + debug_text(state_file)
}

/// Whether the state document can hold the status of an agent without
/// loss: its instants lie in the years 0000 to 9999 and name a second of
/// the calendar, plain or leap. Any other instant has no text and is
/// written as absent.
pub open spec fn storable_status(status: AgentStatusView) -> bool {
    &&& status.last_activity matches Some(t) ==> t.in_calendar()
    &&& status.estimated_start matches Some(t) ==> t.in_calendar()
}

/// Whether the state document can hold a project state without loss, its
/// history apart: no queued step has more than one dependency, and the
/// instants of every agent lie in the years 0000 to 9999 and name a second
/// of the calendar, plain or leap.
pub open spec fn storable(state: ProjectStateView) -> bool {
    &&& forall|i: int|
        0 <= i < state.next_actions.len() ==> (#[trigger] state.next_actions[i]).dependencies.len()
            <= 1
    &&& storable_status(state.agents.analyst)
    &&& storable_status(state.agents.architect)
    &&& storable_status(state.agents.product_manager)
    &&& storable_status(state.agents.product_owner)
    &&& storable_status(state.agents.scrum_master)
    &&& storable_status(state.agents.developer)
    &&& storable_status(state.agents.quality_assurance)
    &&& storable_status(state.agents.ux_expert)
}

/// A project state as it is after loading: with an empty history.
pub open spec fn without_history(state: ProjectStateView) -> ProjectStateView {
    ProjectStateView { workflow_history: Seq::empty(), ..state }
}

/// The word written for an agent role names that role.
pub proof fn lemma_agent_key_round_trip(agent: AgentType)
    ensures
        agent_from_key(agent_key(agent)) == Some(agent),
{
    reveal_strlit("analyst");
    assert(mark("analyst"@) == (7nat, 'a', 't'));
    reveal_strlit("architect");
    assert(mark("architect"@) == (9nat, 'a', 't'));
    reveal_strlit("product_manager");
    assert(mark("product_manager"@) == (15nat, 'p', 'r'));
    reveal_strlit("product_owner");
    assert(mark("product_owner"@) == (13nat, 'p', 'r'));
    reveal_strlit("scrum_master");
    assert(mark("scrum_master"@) == (12nat, 's', 'r'));
    reveal_strlit("developer");
    assert(mark("developer"@) == (9nat, 'd', 'r'));
    reveal_strlit("quality_assurance");
    assert(mark("quality_assurance"@) == (17nat, 'q', 'e'));
    reveal_strlit("ux_expert");
    assert(mark("ux_expert"@) == (9nat, 'u', 't'));
    reveal_strlit("bmad_orchestrator");
    assert(mark("bmad_orchestrator"@) == (17nat, 'b', 'r'));

}

/// The word written for an agent status names that status.
pub proof fn lemma_agent_status_key_round_trip(status: AgentStatusType)
    ensures
        agent_status_from_key(agent_status_key(status)) == status,
{
    reveal_strlit("idle");
    assert(mark("idle"@) == (4nat, 'i', 'e'));
    reveal_strlit("active");
    assert(mark("active"@) == (6nat, 'a', 'e'));
    reveal_strlit("waiting");
    assert(mark("waiting"@) == (7nat, 'w', 'g'));
    reveal_strlit("blocked");
    assert(mark("blocked"@) == (7nat, 'b', 'd'));
    reveal_strlit("offline");
    assert(mark("offline"@) == (7nat, 'o', 'e'));

}

/// The word written for a phase names that phase.
pub proof fn lemma_phase_key_round_trip(phase: BMadPhase)
    ensures
        phase_from_key(phase_key(phase)) == phase,
{
    reveal_strlit("planning");
    assert(mark("planning"@) == (8nat, 'p', 'g'));
    reveal_strlit("story_creation");
    assert(mark("story_creation"@) == (14nat, 's', 'n'));
    reveal_strlit("development");
    assert(mark("development"@) == (11nat, 'd', 't'));
    reveal_strlit("quality_assurance");
    assert(mark("quality_assurance"@) == (17nat, 'q', 'e'));
    reveal_strlit("complete");
    assert(mark("complete"@) == (8nat, 'c', 'e'));

}

/// The word written for a project status names that status.
pub proof fn lemma_project_state_key_round_trip(state: ProjectStateType)
    ensures
        project_state_from_key(project_state_key(state)) == state,
{
    reveal_strlit("initializing");
    assert(mark("initializing"@) == (12nat, 'i', 'g'));
    reveal_strlit("planning");
    assert(mark("planning"@) == (8nat, 'p', 'g'));
    reveal_strlit("development");
    assert(mark("development"@) == (11nat, 'd', 't'));
    reveal_strlit("quality_assurance");
    assert(mark("quality_assurance"@) == (17nat, 'q', 'e'));
    reveal_strlit("complete");
    assert(mark("complete"@) == (8nat, 'c', 'e'));
    reveal_strlit("on_hold");
    assert(mark("on_hold"@) == (7nat, 'o', 'd'));
    reveal_strlit("archived");
    assert(mark("archived"@) == (8nat, 'a', 'd'));

}

/// A queued step with one dependency at most is read back as it was
/// written.
pub proof fn lemma_action_round_trip(action: NextActionView)
    requires
        action.dependencies.len() <= 1,
    ensures
        action_from_raw(action_to_raw(action)) == Some(action),
{
    lemma_agent_key_round_trip(action.agent);
    let back = action_from_raw(action_to_raw(action))->0;
    assert(back.dependencies =~= action.dependencies);
}

/// Queued steps with one dependency each at most are read back as they
/// were written.
pub proof fn lemma_actions_round_trip(actions: Seq<NextActionView>)
    requires
        forall|i: int| 0 <= i < actions.len() ==> (#[trigger] actions[i]).dependencies.len() <= 1,
    ensures
        actions_from_raw(actions_to_raw(actions)) == actions,
    decreases actions.len(),
{
    let raws = actions_to_raw(actions);
    if actions.len() > 0 {
        lemma_action_round_trip(actions.last());
        assert(raws.drop_last() =~= actions_to_raw(actions.drop_last()));
        lemma_actions_round_trip(actions.drop_last());
        assert(actions.drop_last().push(actions.last()) =~= actions);
    } else {
        assert(actions =~= Seq::empty());
    }
}

/// The eight entries that are written bear eight names.
pub proof fn lemma_written_names_once(agents: AgentStatusesView)
    ensures
        names_once(agents_to_raw(agents)),
{
    reveal_strlit("analyst");
    assert(mark("analyst"@) == (7nat, 'a', 't'));
    reveal_strlit("architect");
    assert(mark("architect"@) == (9nat, 'a', 't'));
    reveal_strlit("product_manager");
    assert(mark("product_manager"@) == (15nat, 'p', 'r'));
    reveal_strlit("product_owner");
    assert(mark("product_owner"@) == (13nat, 'p', 'r'));
    reveal_strlit("scrum_master");
    assert(mark("scrum_master"@) == (12nat, 's', 'r'));
    reveal_strlit("developer");
    assert(mark("developer"@) == (9nat, 'd', 'r'));
    reveal_strlit("quality_assurance");
    assert(mark("quality_assurance"@) == (17nat, 'q', 'e'));
    reveal_strlit("ux_expert");
    assert(mark("ux_expert"@) == (9nat, 'u', 't'));
    let entries = agents_to_raw(agents);
    assert forall|i: int, j: int| 0 <= i < j < entries.len() implies entries[i].0
        != entries[j].0 by {
        assert(mark(entries[i].0) != mark(entries[j].0));
    }
}

/// Each role finds its own entry among the eight that are written.
pub proof fn lemma_entries_found(agents: AgentStatusesView)
    ensures
        entry_named(agents_to_raw(agents), "analyst"@) == Some(
            agent_status_to_raw(agents.analyst),
        ),
        entry_named(agents_to_raw(agents), "architect"@) == Some(
            agent_status_to_raw(agents.architect),
        ),
        entry_named(agents_to_raw(agents), "product_manager"@) == Some(
            agent_status_to_raw(agents.product_manager),
        ),
        entry_named(agents_to_raw(agents), "product_owner"@) == Some(
            agent_status_to_raw(agents.product_owner),
        ),
        entry_named(agents_to_raw(agents), "scrum_master"@) == Some(
            agent_status_to_raw(agents.scrum_master),
        ),
        entry_named(agents_to_raw(agents), "developer"@) == Some(
            agent_status_to_raw(agents.developer),
        ),
        entry_named(agents_to_raw(agents), "quality_assurance"@) == Some(
            agent_status_to_raw(agents.quality_assurance),
        ),
        entry_named(agents_to_raw(agents), "ux_expert"@) == Some(
            agent_status_to_raw(agents.ux_expert),
        ),
{
    reveal_strlit("analyst");
    assert(mark("analyst"@) == (7nat, 'a', 't'));
    reveal_strlit("architect");
    assert(mark("architect"@) == (9nat, 'a', 't'));
    reveal_strlit("product_manager");
    assert(mark("product_manager"@) == (15nat, 'p', 'r'));
    reveal_strlit("product_owner");
    assert(mark("product_owner"@) == (13nat, 'p', 'r'));
    reveal_strlit("scrum_master");
    assert(mark("scrum_master"@) == (12nat, 's', 'r'));
    reveal_strlit("developer");
    assert(mark("developer"@) == (9nat, 'd', 'r'));
    reveal_strlit("quality_assurance");
    assert(mark("quality_assurance"@) == (17nat, 'q', 'e'));
    reveal_strlit("ux_expert");
    assert(mark("ux_expert"@) == (9nat, 'u', 't'));
    let e0 = agents_to_raw(agents);
    let e1 = e0.drop_first();
    let e2 = e1.drop_first();
    let e3 = e2.drop_first();
    let e4 = e3.drop_first();
    let e5 = e4.drop_first();
    let e6 = e5.drop_first();
    let e7 = e6.drop_first();
    assert(e1[0] == e0[1]);
    assert(e2[0] == e0[2]);
    assert(e3[0] == e0[3]);
    assert(e4[0] == e0[4]);
    assert(e5[0] == e0[5]);
    assert(e6[0] == e0[6]);
    assert(e7[0] == e0[7]);
    reveal_with_fuel(entry_named, 9);
}

/// A state document without entries for the agents describes eight idle
/// agents: every role has a status, whatever the document holds.
pub proof fn lemma_missing_agents_are_idle(agent: AgentType)
    requires
        agent != AgentType::BMadOrchestrator,
    ensures
        agents_from_raw(Seq::empty()).entry(agent) == Some(idle_status()),
{
}

/// Converts between state documents and project states.
#[derive(Debug, Clone, Copy)]
pub struct StateManager;

fn clone_text(text: &Option<String>) -> (copy: Option<String>)
    ensures
        opt_text(copy) == opt_text(*text),
{
    match text {
        Some(t) => Some(t.clone()),
        None => None,
    }
}

fn read_instant(text: &Option<String>) -> (instant: Option<Timestamp>)
    ensures
        instant == instant_from_text(opt_text(*text)),
{
    match text {
        Some(t) => Timestamp::parse_rfc3339(t.as_str()),
        None => None,
    }
}

fn write_instant(instant: &Option<Timestamp>) -> (text: Option<String>)
    ensures
        opt_text(text) == instant_to_text(*instant),
        (*instant matches Some(t) ==> t.in_calendar()) ==> instant_from_text(opt_text(text))
            == *instant,
{
    match instant {
        Some(t) => t.to_rfc3339(),
        None => None,
    }
}

fn find_entry<'a>(entries: &'a Vec<(String, RawAgentStatus)>, name: &str) -> (found: Option<
    &'a RawAgentStatus,
>)
    ensures
        match found {
            Some(raw) => entry_named(entry_views(entries@), name@) == Some(raw@),
            None => entry_named(entry_views(entries@), name@) is None,
        },
{
    let ghost all = entry_views(entries@);
    let mut i: usize = 0;
    assert(all.skip(0) =~= all);
    while i < entries.len()
        invariant
            i <= entries@.len(),
            all == entry_views(entries@),
            entry_named(all, name@) == entry_named(all.skip(i as int), name@),
        decreases entries@.len() - i,
    {
        proof {
            let rest = all.skip(i as int);
            assert(rest[0] == all[i as int]);
            assert(rest.drop_first() =~= all.skip(i + 1));
        }
        if str_equals(entries[i].0.as_str(), name) {
            return Some(&entries[i].1);
        }
        i += 1;
    }
    None
}

impl StateManager {
    /// The converter; it holds nothing.
    pub fn new() -> StateManager {
        StateManager
    }

    /// Reads an agent role from its word in the state document.
    pub fn parse_agent_type(agent_str: &str) -> (agent: Result<AgentType, BMadError>)
        ensures
            match agent {
                Ok(a) => agent_from_key(agent_str@) == Some(a),
                Err(BMadError::InvalidProjectState(why)) => agent_from_key(agent_str@) is None
                    && why@ == unknown_agent(agent_str@),
                Err(_) => false,
            },
    {
        if str_equals(agent_str, "analyst") {
            Ok(AgentType::Analyst)
        } else if str_equals(agent_str, "architect") {
            Ok(AgentType::Architect)
        } else if str_equals(agent_str, "product_manager") {
            Ok(AgentType::ProductManager)
        } else if str_equals(agent_str, "product_owner") {
            Ok(AgentType::ProductOwner)
        } else if str_equals(agent_str, "scrum_master") {
            Ok(AgentType::ScrumMaster)
        } else if str_equals(agent_str, "developer") {
            Ok(AgentType::Developer)
        } else if str_equals(agent_str, "quality_assurance") {
            Ok(AgentType::QualityAssurance)
        } else if str_equals(agent_str, "ux_expert") {
            Ok(AgentType::UXExpert)
        } else if str_equals(agent_str, "bmad_orchestrator") {
            Ok(AgentType::BMadOrchestrator)
        } else {
            let mut why = String::from_str("Unknown agent type: ");
            why.append(agent_str);
            Err(BMadError::InvalidProjectState(why))
        }
    }

    /// The word of the state document for an agent role.
    pub fn agent_type_to_string(agent: &AgentType) -> (word: String)
        ensures
            word@ == agent_key(*agent),
    {
        String::from_str(
            match agent {
                AgentType::Analyst => "analyst",
                AgentType::Architect => "architect",
                AgentType::ProductManager => "product_manager",
                AgentType::ProductOwner => "product_owner",
                AgentType::ScrumMaster => "scrum_master",
                AgentType::Developer => "developer",
                AgentType::QualityAssurance => "quality_assurance",
                AgentType::UXExpert => "ux_expert",
                AgentType::BMadOrchestrator => "bmad_orchestrator",
            },
        )
    }

    /// Reads a queued step; fails where its agent is not known.
    pub fn convert_raw_action(raw: RawNextAction) -> (action: Result<NextAction, BMadError>)
        ensures
            match action {
                Ok(a) => action_from_raw(raw@) == Some(a@),
                Err(BMadError::InvalidProjectState(why)) => action_from_raw(raw@) is None && why@
                    == unknown_agent(raw@.agent),
                Err(_) => false,
            },
    {
        let agent = match Self::parse_agent_type(raw.agent.as_str()) {
            Ok(agent) => agent,
            Err(e) => {
                return Err(e);
            },
        };
        let mut dependencies: Vec<String> = Vec::new();
        match raw.depends_on {
            Some(on) => {
                dependencies.push(on);
            },
            None => {},
        }
        let action = NextAction {
            agent,
            task: raw.task,
            story: raw.story,
            estimated_time: raw.estimated_time,
            dependencies,
            auto_trigger: match raw.auto_trigger {
                Some(auto) => auto,
                None => false,
            },
        };
        assert(action@.dependencies =~= action_from_raw(raw@)->0.dependencies);
        Ok(action)
    }

    /// Writes a queued step down.
    pub fn convert_to_raw_action(action: &NextAction) -> (raw: RawNextAction)
        ensures
            raw@ == action_to_raw(action@),
    {
        RawNextAction {
            agent: Self::agent_type_to_string(&action.agent),
            task: action.task.clone(),
            story: clone_text(&action.story),
            estimated_time: clone_text(&action.estimated_time),
            depends_on: if action.dependencies.len() > 0 {
                Some(action.dependencies[0].clone())
            } else {
                None
            },
            auto_trigger: Some(action.auto_trigger),
        }
    }

    /// Reads the status of an agent from its entry.
    pub fn convert_raw_agent_status(raw: &RawAgentStatus) -> (status: AgentStatus)
        ensures
            status@ == agent_status_from_raw(raw@),
    {
        let word = raw.status.as_str();
        let status = if str_equals(word, "idle") {
            AgentStatusType::Idle
        } else if str_equals(word, "active") {
            AgentStatusType::Active
        } else if str_equals(word, "waiting") {
            AgentStatusType::Waiting
        } else if str_equals(word, "blocked") {
            AgentStatusType::Blocked
        } else if str_equals(word, "offline") {
            AgentStatusType::Offline
        } else {
            AgentStatusType::Idle
        };
        AgentStatus {
            status,
            current_task: clone_text(&raw.current_task),
            last_activity: read_instant(&raw.last_activity),
            queue_position: raw.queue_position,
            estimated_start: read_instant(&raw.estimated_start),
        }
    }

    /// Writes the status of an agent down. What is written reads back as
    /// the same status, where the document can hold its instants.
    pub fn convert_to_raw_agent_status(status: &AgentStatus) -> (raw: RawAgentStatus)
        ensures
            raw@ == agent_status_to_raw(status@),
            storable_status(status@) ==> agent_status_from_raw(raw@) == status@,
    {
        proof {
            lemma_agent_status_key_round_trip(status.status);
        }
        RawAgentStatus {
            status: String::from_str(
                match status.status {
                    AgentStatusType::Idle => "idle",
                    AgentStatusType::Active => "active",
                    AgentStatusType::Waiting => "waiting",
                    AgentStatusType::Blocked => "blocked",
                    AgentStatusType::Offline => "offline",
                },
            ),
            current_task: clone_text(&status.current_task),
            last_activity: write_instant(&status.last_activity),
            queue_position: status.queue_position,
            estimated_start: write_instant(&status.estimated_start),
        }
    }

    fn agent_entry(entries: &Vec<(String, RawAgentStatus)>, name: &str) -> (status: AgentStatus)
        ensures
            status@ == agent_from_entries(entry_views(entries@), name@),
    {
        match find_entry(entries, name) {
            Some(raw) => Self::convert_raw_agent_status(raw),
            None => AgentStatus::idle(),
        }
    }

    /// Reads the statuses of all eight roles; a role without an entry is
    /// idle.
    pub fn convert_raw_agents(raw_agents: &Vec<(String, RawAgentStatus)>) -> (agents: AgentStatuses)
        ensures
            agents@ == agents_from_raw(entry_views(raw_agents@)),
    {
        AgentStatuses {
            analyst: Self::agent_entry(raw_agents, "analyst"),
            architect: Self::agent_entry(raw_agents, "architect"),
            product_manager: Self::agent_entry(raw_agents, "product_manager"),
            product_owner: Self::agent_entry(raw_agents, "product_owner"),
            scrum_master: Self::agent_entry(raw_agents, "scrum_master"),
            developer: Self::agent_entry(raw_agents, "developer"),
            quality_assurance: Self::agent_entry(raw_agents, "quality_assurance"),
            ux_expert: Self::agent_entry(raw_agents, "ux_expert"),
        }
    }

    /// Writes the statuses of all eight roles down. What is written reads
    /// back as the same statuses, where the document can hold their
    /// instants.
    pub fn convert_to_raw_agents(agents: &AgentStatuses) -> (raw: Vec<(String, RawAgentStatus)>)
        ensures
            entry_views(raw@) == agents_to_raw(agents@),
            names_once(entry_views(raw@)),
            storable_status(agents@.analyst) && storable_status(agents@.architect)
                && storable_status(agents@.product_manager) && storable_status(
                agents@.product_owner,
            ) && storable_status(agents@.scrum_master) && storable_status(agents@.developer)
                && storable_status(agents@.quality_assurance) && storable_status(
                agents@.ux_expert,
            ) ==> agents_from_raw(entry_views(raw@)) == agents@,
    {
        proof {
            lemma_entries_found(agents@);
            lemma_written_names_once(agents@);
        }
        let mut raw: Vec<(String, RawAgentStatus)> = Vec::new();
        raw.push((String::from_str("analyst"), Self::convert_to_raw_agent_status(&agents.analyst)));
        raw.push(
            (String::from_str("architect"), Self::convert_to_raw_agent_status(&agents.architect)),
        );
        raw.push(
            (
                String::from_str("product_manager"),
                Self::convert_to_raw_agent_status(&agents.product_manager),
            ),
        );
        raw.push(
            (
                String::from_str("product_owner"),
                Self::convert_to_raw_agent_status(&agents.product_owner),
            ),
        );
        raw.push(
            (
                String::from_str("scrum_master"),
                Self::convert_to_raw_agent_status(&agents.scrum_master),
            ),
        );
        raw.push(
            (String::from_str("developer"), Self::convert_to_raw_agent_status(&agents.developer)),
        );
        raw.push(
            (
                String::from_str("quality_assurance"),
                Self::convert_to_raw_agent_status(&agents.quality_assurance),
            ),
        );
        raw.push(
            (String::from_str("ux_expert"), Self::convert_to_raw_agent_status(&agents.ux_expert)),
        );
        assert(entry_views(raw@) =~= agents_to_raw(agents@));
        raw
    }

    /// Reads a project state from a state document.
    pub fn convert_raw_state(raw: RawProjectState) -> (state: ProjectState)
        ensures
            state@ == state_from_raw(raw@),
    {
        let word = raw.project_state.as_str();
        let project_state = if str_equals(word, "initializing") {
            ProjectStateType::Initializing
        } else if str_equals(word, "planning") {
            ProjectStateType::Planning
        } else if str_equals(word, "development") {
            ProjectStateType::Development
        } else if str_equals(word, "quality_assurance") {
            ProjectStateType::QualityAssurance
        } else if str_equals(word, "complete") {
            ProjectStateType::Complete
        } else if str_equals(word, "on_hold") {
            ProjectStateType::OnHold
        } else if str_equals(word, "archived") {
            ProjectStateType::Archived
        } else {
            ProjectStateType::Initializing
        };
        let word = raw.current_phase.as_str();
        let current_phase = if str_equals(word, "planning") {
            BMadPhase::Planning
        } else if str_equals(word, "story_creation") {
            BMadPhase::StoryCreation
        } else if str_equals(word, "development") {
            BMadPhase::Development
        } else if str_equals(word, "quality_assurance") {
            BMadPhase::QualityAssurance
        } else if str_equals(word, "complete") {
            BMadPhase::Complete
        } else {
            BMadPhase::Planning
        };
        let agents = Self::convert_raw_agents(&raw.agents);
        let ghost all = raw_action_views(raw.next_actions@);
        let mut rest = raw.next_actions;
        let mut next_actions: Vec<NextAction> = Vec::new();
        let mut done: usize = 0;
        let total: usize = rest.len();
        assert(all.take(0) =~= Seq::empty());
        while rest.len() > 0
            invariant
                done + rest.len() == total,
                total == all.len(),
                raw_action_views(rest@) == all.skip(done as int),
                action_views(next_actions@) == actions_from_raw(all.take(done as int)),
            decreases rest.len(),
        {
            let item = rest.remove(0);
            proof {
                assert(all.skip(done as int)[0] == all[done as int]);
                let next = all.take(done + 1);
                assert(next.drop_last() =~= all.take(done as int));
                assert(next.last() == item@);
                assert(raw_action_views(rest@) =~= all.skip(done + 1)) by {
                    assert forall|i: int| 0 <= i < rest@.len() implies raw_action_views(rest@)[i]
                        == all.skip(done + 1)[i] by {
                        assert(all.skip(done as int)[i + 1] == all[done + 1 + i]);
                    }
                }
            }
            match Self::convert_raw_action(item) {
                Ok(action) => {
                    next_actions.push(action);
                    assert(action_views(next_actions@) =~= actions_from_raw(all.take(done + 1)));
                },
                Err(_) => {},
            }
            done += 1;
        }
        assert(all.take(done as int) =~= all);
        let state = ProjectState {
            bmad_version: raw.bmad_version,
            project_state,
            current_phase,
            active_story: raw.active_story,
            next_actions,
            workflow_history: Vec::new(),
            agents,
        };
        assert(state@.next_actions =~= state_from_raw(raw@).next_actions);
        assert(state@.workflow_history =~= Seq::empty());
        state
    }

    /// Writes a project state down as a state document. What is written
    /// reads back as the same state with an empty history, where the
    /// document can hold the state.
    pub fn convert_to_raw_state(state: &ProjectState) -> (raw: RawProjectState)
        ensures
            raw@ == state_to_raw(state@),
            names_once(raw@.agents),
            storable(state@) ==> state_from_raw(raw@) == without_history(state@),
    {
        proof {
            lemma_project_state_key_round_trip(state.project_state);
            lemma_phase_key_round_trip(state.current_phase);
            lemma_written_names_once(state@.agents);
            if storable(state@) {
                lemma_actions_round_trip(state@.next_actions);
            }
        }
        let project_state = String::from_str(
            match state.project_state {
                ProjectStateType::Initializing => "initializing",
                ProjectStateType::Planning => "planning",
                ProjectStateType::Development => "development",
                ProjectStateType::QualityAssurance => "quality_assurance",
                ProjectStateType::Complete => "complete",
                ProjectStateType::OnHold => "on_hold",
                ProjectStateType::Archived => "archived",
            },
        );
        let current_phase = String::from_str(
            match state.current_phase {
                BMadPhase::Planning => "planning",
                BMadPhase::StoryCreation => "story_creation",
                BMadPhase::Development => "development",
                BMadPhase::QualityAssurance => "quality_assurance",
                BMadPhase::Complete => "complete",
            },
        );
        let mut next_actions: Vec<RawNextAction> = Vec::new();
        let mut i: usize = 0;
        while i < state.next_actions.len()
            invariant
                i <= state.next_actions@.len(),
                next_actions@.len() == i,
                forall|k: int|
                    0 <= k < i ==> (#[trigger] next_actions@[k])@ == action_to_raw(
                        state.next_actions@[k]@,
                    ),
            decreases state.next_actions@.len() - i,
        {
            next_actions.push(Self::convert_to_raw_action(&state.next_actions[i]));
            i += 1;
        }
        let raw = RawProjectState {
            bmad_version: state.bmad_version.clone(),
            project_state,
            current_phase,
            active_story: clone_text(&state.active_story),
            phases: Vec::new(),
            next_actions,
            agents: Self::convert_to_raw_agents(&state.agents),
        };
        assert(raw@.next_actions =~= state_to_raw(state@).next_actions);
        assert(raw@.phases =~= state_to_raw(state@).phases);
        raw
    }

    /// The project state that reading the state file `state_file` gave:
    /// the state that the document describes; ProjectNotFound where the
    /// file is missing; the parsing error where it holds no document.
    pub fn load_project_state(state_file: &str, document: StateDocument) -> (state: Result<
        ProjectState,
        BMadError,
    >)
        ensures
            match document {
                StateDocument::Missing => state matches Err(BMadError::ProjectNotFound(why))
                    && why@ == state_file_missing(state_file@),
                StateDocument::Malformed(reason) => state matches Err(BMadError::YamlParsing(why))
                    && why@ == reason@,
                StateDocument::Parsed(raw) => state matches Ok(loaded) && loaded@
                    == state_from_raw(raw@),
            },
    {
        match document {
            StateDocument::Missing => {
                let mut why = String::from_str("State file not found: ");
                why.append(quoted(state_file).as_str());
                Err(BMadError::ProjectNotFound(why))
            },
            StateDocument::Malformed(reason) => Err(BMadError::YamlParsing(reason)),
            StateDocument::Parsed(raw) => Ok(Self::convert_raw_state(raw)),
        }
    }

    /// Whether a state file holds a state document: false where the file
    /// is missing or cannot be read as one.
    pub fn validate_state_file(document: &StateDocument) -> (valid: bool)
        ensures
            valid == (*document is Parsed),
    {
        match document {
            StateDocument::Parsed(_) => true,
            _ => false,
        }
    }

    /// The session state that reading the session file gave: what the
    /// file holds, or the empty session where there is no file.
    pub fn load_session_state(found: Option<SessionState>) -> (session: SessionState)
        ensures
            match found {
                Some(s) => session == s,
                None => session.session_id is None && session.started_at is None
                    && session.last_activity is None && session.active_agents@.len() == 0
                    && session.session_notes@.len() == 0,
            },
    {
        match found {
            Some(session) => session,
            None => SessionState {
                session_id: None,
                started_at: None,
                last_activity: None,
                active_agents: Vec::new(),
                session_notes: String::new(),
            },
        }
    }
}

} // verus!
