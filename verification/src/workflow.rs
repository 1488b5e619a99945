//! The phase machine and what happens to a project as it is worked on:
//! steps from phase to phase, stories that are started and completed,
//! blockers that are reported and resolved, and the digest of it all.
use vstd::prelude::*;
use vstd::string::StringExecFns;

use crate::clock::{shown, Timestamp};
use crate::ident::is_random_layout;
use crate::scheduler::{
    advice_views, recommendations, AgentRecommendation, AgentRecommendationView, ArtifactProbes,
};
use crate::state_manager::{
    lemma_phase_key_round_trip, lemma_project_state_key_round_trip, state_from_raw, state_to_raw,
};
use crate::text::{decimal_text, number_text, opt_text};
use crate::types::{
    agent_display_text, agent_variant_name, phase_name, project_state_name, AgentMessage,
    AgentMessageView, AgentStatusType, AgentStatusView, AgentStatusesView, AgentType, BMadError,
    BMadPhase, MessageStatus, MessageType, MetadataEntry, ProjectState, ProjectStateType,
    ProjectStateView, WorkflowEvent, WorkflowEventType, WorkflowEventView,
};

verus! {


/// Whether the phase machine has an edge from `from` to `to`: the four
/// steps forward and the three corrective steps back.
pub open spec fn transition_allowed(from: BMadPhase, to: BMadPhase) -> bool {
    match (from, to) {
        (BMadPhase::Planning, BMadPhase::StoryCreation) => true,
        (BMadPhase::StoryCreation, BMadPhase::Development) => true,
        (BMadPhase::Development, BMadPhase::QualityAssurance) => true,
        (BMadPhase::QualityAssurance, BMadPhase::Complete) => true,
        (BMadPhase::StoryCreation, BMadPhase::Planning) => true,
        (BMadPhase::Development, BMadPhase::StoryCreation) => true,
        (BMadPhase::QualityAssurance, BMadPhase::Development) => true,
        _ => false,
    }
}

/// The project status that goes with a phase.
pub open spec fn status_for(phase: BMadPhase) -> ProjectStateType {
    match phase {
        BMadPhase::Planning => ProjectStateType::Planning,
        BMadPhase::StoryCreation => ProjectStateType::Development,
        BMadPhase::Development => ProjectStateType::Development,
        BMadPhase::QualityAssurance => ProjectStateType::QualityAssurance,
        BMadPhase::Complete => ProjectStateType::Complete,
    }
}

/// A step of the phase machine with what it asks for.
#[derive(Debug, Clone)]
pub struct WorkflowTransition {
    pub from_phase: BMadPhase,
    pub to_phase: BMadPhase,
    pub trigger_agent: AgentType,
    pub required_artifacts: Vec<String>,
    pub validation_checks: Vec<String>,
}

/// The scheduler of one project.
#[derive(Debug, Clone)]
pub struct WorkflowManager {
    project_path: String,
}

impl WorkflowManager {
    /// The manager of the workflow of the project at `project_path`.
    pub fn new(project_path: &str) -> (manager: WorkflowManager)
        ensures
            manager.path() == project_path@,
    {
        WorkflowManager { project_path: String::from_str(project_path) }
    }

    /// The root of the project that this scheduler serves.
    pub closed spec fn path(&self) -> Seq<char> {
        self.project_path@
    }

    /// The root of the project that this manager serves.
    pub fn project_path(&self) -> (path: &str)
        ensures
            path@ == self.path(),
    {
        self.project_path.as_str()
    }

    /// The name under which the digest shows an agent role.
    pub fn agent_display_name(&self, agent: &AgentType) -> (name: &'static str)
        ensures
            name@ == agent_display_text(*agent),
    {
        agent.display_name()
    }

    /// Whether the phase machine has an edge from `from` to `to`.
    pub fn is_transition_valid(&self, from: BMadPhase, to: BMadPhase) -> (ok: bool)
        ensures
            ok == transition_allowed(from, to),
    {
        match (from, to) {
            (BMadPhase::Planning, BMadPhase::StoryCreation) => true,
            (BMadPhase::StoryCreation, BMadPhase::Development) => true,
            (BMadPhase::Development, BMadPhase::QualityAssurance) => true,
            (BMadPhase::QualityAssurance, BMadPhase::Complete) => true,
            (BMadPhase::StoryCreation, BMadPhase::Planning) => true,
            (BMadPhase::Development, BMadPhase::StoryCreation) => true,
            (BMadPhase::QualityAssurance, BMadPhase::Development) => true,
            _ => false,
        }
    }
}

/// The event that records a step of the workflow.
pub open spec fn event(
    id: u128,
    event_type: WorkflowEventType,
    agent: AgentType,
    description: Seq<char>,
    timestamp: Timestamp,
    metadata: Seq<(Seq<char>, Seq<char>)>,
) -> WorkflowEventView {
    WorkflowEventView { id, event_type, agent, description, timestamp, metadata }
}

/// A project state with one more event at the end of its history.
pub open spec fn recorded(state: ProjectStateView, entry: WorkflowEventView) -> ProjectStateView {
    ProjectStateView { workflow_history: state.workflow_history.push(entry), ..state }
}

/// The state after a step to the phase `to`, which `agent` set off.
pub open spec fn transitioned(
    state: ProjectStateView,
    to: BMadPhase,
    agent: AgentType,
    event_id: u128,
    now: Timestamp,
) -> ProjectStateView {
    recorded(
        ProjectStateView { current_phase: to, project_state: status_for(to), ..state },
        event(
            event_id,
            WorkflowEventType::PhaseStart,
            agent,
            "Transitioned from "@ + phase_name(state.current_phase) + " to "@ + phase_name(to),
            now,
            Seq::empty(),
        ),
    )
}

/// Whether an outcome is the refusal of a step from `from` to `to`.
pub open spec fn is_refusal(outcome: Result<(), BMadError>, from: BMadPhase, to: BMadPhase) -> bool {
    outcome matches Err(BMadError::Workflow(why)) && why@ == refusal(from, to)
}

/// What the refusal of a step from `from` to `to` says.
pub open spec fn refusal(from: BMadPhase, to: BMadPhase) -> Seq<char> {
    "Invalid transition from "@ + phase_name(from) + " to "@ + phase_name(to)
}

/// The entry of an agent after its status was set at the instant `now`.
pub open spec fn status_set(
    entry: AgentStatusView,
    status: AgentStatusType,
    task: Option<Seq<char>>,
    now: Timestamp,
) -> AgentStatusView {
    AgentStatusView { status, current_task: task, last_activity: Some(now), ..entry }
}

/// The statuses after that of `agent` was set; the orchestrator carries
/// none, so for it nothing changes.
pub open spec fn agent_updated(
    agents: AgentStatusesView,
    agent: AgentType,
    status: AgentStatusType,
    task: Option<Seq<char>>,
    now: Timestamp,
) -> AgentStatusesView {
    match agents.entry(agent) {
        Some(entry) => agents.with_entry(agent, status_set(entry, status, task, now)),
        None => agents,
    }
}

/// The state after `agent` took up the story `story`.
pub open spec fn story_started(
    state: ProjectStateView,
    story: Seq<char>,
    agent: AgentType,
    event_id: u128,
    now: Timestamp,
) -> ProjectStateView {
    let agents = if agent == AgentType::Developer {
        agent_updated(
            state.agents,
            agent,
            AgentStatusType::Active,
            Some("Implementing story: "@ + story),
            now,
        )
    } else {
        state.agents
    };
    recorded(
        ProjectStateView { active_story: Some(story), agents, ..state },
        event(
            event_id,
            WorkflowEventType::StoryStart,
            agent,
            "Started story: "@ + story,
            now,
            Seq::empty(),
        ),
    )
}

/// The state after `agent` completed the story `story`.
pub open spec fn story_completed(
    state: ProjectStateView,
    story: Seq<char>,
    agent: AgentType,
    event_id: u128,
    now: Timestamp,
) -> ProjectStateView {
    let agents = if agent == AgentType::Developer {
        agent_updated(state.agents, agent, AgentStatusType::Idle, None, now)
    } else {
        state.agents
    };
    let active = if state.active_story == Some(story) {
        None
    } else {
        state.active_story
    };
    recorded(
        ProjectStateView { active_story: active, agents, ..state },
        event(
            event_id,
            WorkflowEventType::StoryComplete,
            agent,
            "Completed story: "@ + story,
            now,
            Seq::empty(),
        ),
    )
}

/// The handoff that goes to quality assurance when a story is completed.
pub open spec fn completion_handoff(
    story: Seq<char>,
    agent: AgentType,
    message_id: u128,
    now: Timestamp,
) -> AgentMessageView {
    AgentMessageView {
        id: message_id,
        from_agent: agent,
        to_agent: Some(AgentType::QualityAssurance),
        content: "Story '"@ + story
            + "' completed and ready for QA review. Please test functionality and verify requirements are met."@,
        message_type: MessageType::Handoff,
        files_referenced: Seq::empty(),
        timestamp: now,
        status: MessageStatus::Pending,
    }
}

/// The story that a blocker report names: the affected one, or "General".
pub open spec fn affected_name(story: Option<Seq<char>>) -> Seq<char> {
    match story {
        Some(name) => name,
        None => "General"@,
    }
}

/// The state after `agent` reported a blocker.
pub open spec fn blocker_reported(
    state: ProjectStateView,
    agent: AgentType,
    description: Seq<char>,
    story: Option<Seq<char>>,
    event_id: u128,
    now: Timestamp,
) -> ProjectStateView {
    recorded(
        ProjectStateView {
            agents: agent_updated(
                state.agents,
                agent,
                AgentStatusType::Blocked,
                Some(description),
                now,
            ),
            ..state
        },
        event(
            event_id,
            WorkflowEventType::BlockerReported,
            agent,
            "Blocker reported: "@ + description,
            now,
            match story {
                Some(name) => seq![("affected_story"@, name)],
                None => Seq::empty(),
            },
        ),
    )
}

/// The broadcast that tells the team of a blocker.
pub open spec fn blocker_broadcast(
    agent: AgentType,
    description: Seq<char>,
    story: Option<Seq<char>>,
    message_id: u128,
    now: Timestamp,
) -> AgentMessageView {
    AgentMessageView {
        id: message_id,
        from_agent: agent,
        to_agent: None,
        content: "🚫 **Blocker Reported**\n\n"@ + description + "\n\n**Affected Story:** "@
            + affected_name(story) + "\n\nPlease assist in resolving this blocker."@,
        message_type: MessageType::BlockerReport,
        files_referenced: Seq::empty(),
        timestamp: now,
        status: MessageStatus::Pending,
    }
}

/// The state after `resolver` resolved the blocker of `blocked`.
pub open spec fn blocker_resolved(
    state: ProjectStateView,
    resolver: AgentType,
    blocked: AgentType,
    resolution: Seq<char>,
    event_id: u128,
    now: Timestamp,
) -> ProjectStateView {
    recorded(
        ProjectStateView {
            agents: agent_updated(state.agents, blocked, AgentStatusType::Idle, None, now),
            ..state
        },
        event(
            event_id,
            WorkflowEventType::BlockerResolved,
            resolver,
            "Resolved blocker for "@ + agent_variant_name(blocked) + ": "@ + resolution,
            now,
            Seq::empty(),
        ),
    )
}

/// The message that tells a formerly blocked agent to go on.
pub open spec fn resolution_notice(
    resolver: AgentType,
    blocked: AgentType,
    resolution: Seq<char>,
    message_id: u128,
    now: Timestamp,
) -> AgentMessageView {
    AgentMessageView {
        id: message_id,
        from_agent: resolver,
        to_agent: Some(blocked),
        content: "✅ **Blocker Resolved**\n\n"@ + resolution
            + "\n\nYou can now continue with your tasks."@,
        message_type: MessageType::Update,
        files_referenced: Seq::empty(),
        timestamp: now,
        status: MessageStatus::Pending,
    }
}

fn record(
    state: &mut ProjectState,
    id: u128,
    event_type: WorkflowEventType,
    agent: AgentType,
    description: String,
    timestamp: Timestamp,
    metadata: Vec<MetadataEntry>,
)
    ensures
        final(state)@ == recorded(
            old(state)@,
            event(
                id,
                event_type,
                agent,
                description@,
                timestamp,
                Seq::new(metadata@.len(), |i: int| metadata@[i]@),
            ),
        ),
        metadata@.len() == 0 ==> final(state)@ == recorded(
            old(state)@,
            event(id, event_type, agent, description@, timestamp, Seq::empty()),
        ),
{
    assert(metadata@.len() == 0 ==> Seq::new(metadata@.len(), |i: int| metadata@[i]@)
        =~= Seq::<(Seq<char>, Seq<char>)>::empty());
    let entry = WorkflowEvent { id, event_type, agent, description, timestamp, metadata };
    state.workflow_history.push(entry);
    assert(state@.workflow_history =~= old(state)@.workflow_history.push(entry@));
    assert(state@.next_actions =~= old(state)@.next_actions);
}

impl WorkflowManager {
    /// Sets the status and the task of `agent` at the instant `now`.
    pub fn update_agent_status(
        &self,
        state: &mut ProjectState,
        agent: AgentType,
        status: AgentStatusType,
        task: Option<String>,
        now: Timestamp,
    )
        ensures
            final(state)@ == (ProjectStateView {
                agents: agent_updated(old(state)@.agents, agent, status, opt_text(task), now),
                ..old(state)@
            }),
    {
        let entry = match agent {
            AgentType::Analyst => &mut state.agents.analyst,
            AgentType::Architect => &mut state.agents.architect,
            AgentType::ProductManager => &mut state.agents.product_manager,
            AgentType::ProductOwner => &mut state.agents.product_owner,
            AgentType::ScrumMaster => &mut state.agents.scrum_master,
            AgentType::Developer => &mut state.agents.developer,
            AgentType::QualityAssurance => &mut state.agents.quality_assurance,
            AgentType::UXExpert => &mut state.agents.ux_expert,
            AgentType::BMadOrchestrator => {
                return ;
            },
        };
        entry.status = status;
        entry.current_task = task;
        entry.last_activity = Some(now);
    }

    /// Steps to the phase `to_phase` where the phase machine allows it,
    /// recording the event `event_id` at the instant `now`.
    pub fn transition_phase_at(
        &self,
        state: &mut ProjectState,
        to_phase: BMadPhase,
        trigger_agent: AgentType,
        event_id: u128,
        now: Timestamp,
    ) -> (outcome: Result<(), BMadError>)
        ensures
            transition_allowed(old(state)@.current_phase, to_phase) ==> outcome is Ok
                && final(state)@ == transitioned(
                old(state)@,
                to_phase,
                trigger_agent,
                event_id,
                now,
            ),
            !transition_allowed(old(state)@.current_phase, to_phase) ==> *final(state) == *old(state)
                && is_refusal(outcome, old(state)@.current_phase, to_phase),
    {
        let from_phase = state.current_phase;
        if !self.is_transition_valid(from_phase, to_phase) {
            let mut why = String::from_str("Invalid transition from ");
            why.append(from_phase.name());
            why.append(" to ");
            why.append(to_phase.name());
            return Err(BMadError::Workflow(why));
        }
        state.current_phase = to_phase;
        state.project_state = match to_phase {
            BMadPhase::Planning => ProjectStateType::Planning,
            BMadPhase::StoryCreation => ProjectStateType::Development,
            BMadPhase::Development => ProjectStateType::Development,
            BMadPhase::QualityAssurance => ProjectStateType::QualityAssurance,
            BMadPhase::Complete => ProjectStateType::Complete,
        };
        let mut description = String::from_str("Transitioned from ");
        description.append(from_phase.name());
        description.append(" to ");
        description.append(to_phase.name());
        record(
            state,
            event_id,
            WorkflowEventType::PhaseStart,
            trigger_agent,
            description,
            now,
            Vec::new(),
        );
        Ok(())
    }

    /// Steps to the phase `to_phase` where the phase machine allows it,
    /// with a fresh event identifier and the system clock.
    pub fn transition_phase(
        &self,
        state: &mut ProjectState,
        to_phase: BMadPhase,
        trigger_agent: AgentType,
    ) -> (outcome: Result<(), BMadError>)
        ensures
            transition_allowed(old(state)@.current_phase, to_phase) ==> outcome is Ok && exists|
                event_id: u128,
                now: Timestamp,
            |
                is_random_layout(event_id) && now.is_plain_second() && final(state)@ == transitioned(
                    old(state)@,
                    to_phase,
                    trigger_agent,
                    event_id,
                    now,
                ),
            !transition_allowed(old(state)@.current_phase, to_phase) ==> *final(state) == *old(state)
                && is_refusal(outcome, old(state)@.current_phase, to_phase),
    {
        let event_id = crate::ident::fresh_id();
        let now = Timestamp::now();
        self.transition_phase_at(state, to_phase, trigger_agent, event_id, now)
    }

    /// Takes up a story: it becomes the active one, and a developer who
    /// takes it up becomes active on it.
    pub fn start_story_at(
        &self,
        state: &mut ProjectState,
        story_name: String,
        assigned_agent: AgentType,
        event_id: u128,
        now: Timestamp,
    )
        ensures
            final(state)@ == story_started(
                old(state)@,
                story_name@,
                assigned_agent,
                event_id,
                now,
            ),
    {
        let mut description = String::from_str("Started story: ");
        description.append(story_name.as_str());
        if assigned_agent == AgentType::Developer {
            let mut task = String::from_str("Implementing story: ");
            task.append(story_name.as_str());
            self.update_agent_status(
                state,
                assigned_agent,
                AgentStatusType::Active,
                Some(task),
                now,
            );
        }
        state.active_story = Some(story_name);
        record(
            state,
            event_id,
            WorkflowEventType::StoryStart,
            assigned_agent,
            description,
            now,
            Vec::new(),
        );
    }

    /// Takes up a story, with a fresh event identifier and the system
    /// clock.
    pub fn start_story(&self, state: &mut ProjectState, story_name: String, assigned_agent: AgentType)
        ensures
            exists|event_id: u128, now: Timestamp|
                is_random_layout(event_id) && now.is_plain_second() && final(state)@ == story_started(
                    old(state)@,
                    story_name@,
                    assigned_agent,
                    event_id,
                    now,
                ),
    {
        let event_id = crate::ident::fresh_id();
        let now = Timestamp::now();
        self.start_story_at(state, story_name, assigned_agent, event_id, now)
    }

    /// Completes a story: it is no longer the active one, a developer who
    /// completes it becomes idle, and quality assurance is handed the
    /// story. Returns the handoff, which is to be saved.
    pub fn complete_story_at(
        &self,
        state: &mut ProjectState,
        story_name: String,
        completing_agent: AgentType,
        event_id: u128,
        message_id: u128,
        now: Timestamp,
    ) -> (handoff: AgentMessage)
        ensures
            final(state)@ == story_completed(
                old(state)@,
                story_name@,
                completing_agent,
                event_id,
                now,
            ),
            handoff@ == completion_handoff(story_name@, completing_agent, message_id, now),
    {
        let same = match &state.active_story {
            Some(active) => crate::text::str_equals(active.as_str(), story_name.as_str()),
            None => false,
        };
        if same {
            state.active_story = None;
        }
        if completing_agent == AgentType::Developer {
            self.update_agent_status(state, completing_agent, AgentStatusType::Idle, None, now);
        }
        let mut description = String::from_str("Completed story: ");
        description.append(story_name.as_str());
        record(
            state,
            event_id,
            WorkflowEventType::StoryComplete,
            completing_agent,
            description,
            now,
            Vec::new(),
        );
        let mut content = String::from_str("Story '");
        content.append(story_name.as_str());
        content.append(
            "' completed and ready for QA review. Please test functionality and verify requirements are met.",
        );
        let handoff = AgentMessage::pending(
            message_id,
            now,
            completing_agent,
            Some(AgentType::QualityAssurance),
            content,
            MessageType::Handoff,
            Vec::new(),
        );
        assert(handoff@.files_referenced =~= Seq::<Seq<char>>::empty());
        handoff
    }

    /// Completes a story, with fresh identifiers and the system clock.
    pub fn complete_story(
        &self,
        state: &mut ProjectState,
        story_name: String,
        completing_agent: AgentType,
    ) -> (handoff: AgentMessage)
        ensures
            exists|event_id: u128, message_id: u128, now: Timestamp|
                is_random_layout(event_id) && is_random_layout(message_id) && now.is_plain_second()
                    && final(state)@ == story_completed(
                    old(state)@,
                    story_name@,
                    completing_agent,
                    event_id,
                    now,
                ) && handoff@ == completion_handoff(
                    story_name@,
                    completing_agent,
                    message_id,
                    now,
                ),
    {
        let event_id = crate::ident::fresh_id();
        let message_id = crate::ident::fresh_id();
        let now = Timestamp::now();
        self.complete_story_at(state, story_name, completing_agent, event_id, message_id, now)
    }

    /// Records a blocker: the reporting agent becomes blocked on it, and
    /// the team is told. Returns the broadcast, which is to be saved.
    pub fn report_blocker_at(
        &self,
        state: &mut ProjectState,
        agent: AgentType,
        description: String,
        affected_story: Option<String>,
        event_id: u128,
        message_id: u128,
        now: Timestamp,
    ) -> (broadcast: AgentMessage)
        ensures
            final(state)@ == blocker_reported(
                old(state)@,
                agent,
                description@,
                opt_text(affected_story),
                event_id,
                now,
            ),
            broadcast@ == blocker_broadcast(
                agent,
                description@,
                opt_text(affected_story),
                message_id,
                now,
            ),
    {
        let mut words = String::from_str("Blocker reported: ");
        words.append(description.as_str());
        let mut content = String::from_str("🚫 **Blocker Reported**\n\n");
        content.append(description.as_str());
        content.append("\n\n**Affected Story:** ");
        let mut metadata: Vec<MetadataEntry> = Vec::new();
        match affected_story {
            Some(story) => {
                content.append(story.as_str());
                metadata.push(
                    MetadataEntry { key: String::from_str("affected_story"), value: story },
                );
            },
            None => {
                content.append("General");
            },
        }
        content.append("\n\nPlease assist in resolving this blocker.");
        self.update_agent_status(state, agent, AgentStatusType::Blocked, Some(description), now);
        let ghost listed = Seq::new(metadata@.len(), |i: int| metadata@[i]@);
        assert(listed =~= match opt_text(affected_story) {
            Some(name) => seq![("affected_story"@, name)],
            None => Seq::empty(),
        });
        record(state, event_id, WorkflowEventType::BlockerReported, agent, words, now, metadata);
        let broadcast = AgentMessage::pending(
            message_id,
            now,
            agent,
            None,
            content,
            MessageType::BlockerReport,
            Vec::new(),
        );
        assert(broadcast@.files_referenced =~= Seq::<Seq<char>>::empty());
        broadcast
    }

    /// Records a blocker, with fresh identifiers and the system clock.
    pub fn report_blocker(
        &self,
        state: &mut ProjectState,
        agent: AgentType,
        description: String,
        affected_story: Option<String>,
    ) -> (broadcast: AgentMessage)
        ensures
            exists|event_id: u128, message_id: u128, now: Timestamp|
                is_random_layout(event_id) && is_random_layout(message_id) && now.is_plain_second()
                    && final(state)@ == blocker_reported(
                    old(state)@,
                    agent,
                    description@,
                    opt_text(affected_story),
                    event_id,
                    now,
                ) && broadcast@ == blocker_broadcast(
                    agent,
                    description@,
                    opt_text(affected_story),
                    message_id,
                    now,
                ),
    {
        let event_id = crate::ident::fresh_id();
        let message_id = crate::ident::fresh_id();
        let now = Timestamp::now();
        self.report_blocker_at(state, agent, description, affected_story, event_id, message_id, now)
    }

    /// Resolves a blocker: the blocked agent becomes idle and is told to
    /// go on. Returns the notice, which is to be saved.
    pub fn resolve_blocker_at(
        &self,
        state: &mut ProjectState,
        resolver_agent: AgentType,
        blocked_agent: AgentType,
        resolution: String,
        event_id: u128,
        message_id: u128,
        now: Timestamp,
    ) -> (notice: AgentMessage)
        ensures
            final(state)@ == blocker_resolved(
                old(state)@,
                resolver_agent,
                blocked_agent,
                resolution@,
                event_id,
                now,
            ),
            notice@ == resolution_notice(
                resolver_agent,
                blocked_agent,
                resolution@,
                message_id,
                now,
            ),
    {
        self.update_agent_status(state, blocked_agent, AgentStatusType::Idle, None, now);
        let mut words = String::from_str("Resolved blocker for ");
        words.append(blocked_agent.name());
        words.append(": ");
        words.append(resolution.as_str());
        record(
            state,
            event_id,
            WorkflowEventType::BlockerResolved,
            resolver_agent,
            words,
            now,
            Vec::new(),
        );
        let mut content = String::from_str("✅ **Blocker Resolved**\n\n");
        content.append(resolution.as_str());
        content.append("\n\nYou can now continue with your tasks.");
        let notice = AgentMessage::pending(
            message_id,
            now,
            resolver_agent,
            Some(blocked_agent),
            content,
            MessageType::Update,
            Vec::new(),
        );
        assert(notice@.files_referenced =~= Seq::<Seq<char>>::empty());
        notice
    }

    /// Resolves a blocker, with fresh identifiers and the system clock.
    pub fn resolve_blocker(
        &self,
        state: &mut ProjectState,
        resolver_agent: AgentType,
        blocked_agent: AgentType,
        resolution: String,
    ) -> (notice: AgentMessage)
        ensures
            exists|event_id: u128, message_id: u128, now: Timestamp|
                is_random_layout(event_id) && is_random_layout(message_id) && now.is_plain_second()
                    && final(state)@ == blocker_resolved(
                    old(state)@,
                    resolver_agent,
                    blocked_agent,
                    resolution@,
                    event_id,
                    now,
                ) && notice@ == resolution_notice(
                    resolver_agent,
                    blocked_agent,
                    resolution@,
                    message_id,
                    now,
                ),
    {
        let event_id = crate::ident::fresh_id();
        let message_id = crate::ident::fresh_id();
        let now = Timestamp::now();
        self.resolve_blocker_at(
            state,
            resolver_agent,
            blocked_agent,
            resolution,
            event_id,
            message_id,
            now,
        )
    }
}

/// The format in which the summary shows the instant of an event.
pub const ACTIVITY_TIME_FORMAT: &'static str = "%m/%d %H:%M";

/// One numbered line of advice in the summary.
pub open spec fn advice_line(number: nat, item: AgentRecommendationView) -> Seq<char> {
    decimal_text(number) + ". **"@ + agent_display_text(item.agent) + "** - "@ + item.reason
        + " (Priority: "@ + decimal_text(item.priority as nat) + "/10)\n"@
}

/// The lines of the first `count` recommendations, numbered from 1.
pub open spec fn advice_lines(items: Seq<AgentRecommendationView>, count: nat) -> Seq<char>
    decreases count,
{
    if count == 0 {
        Seq::empty()
    } else {
        advice_lines(items, (count - 1) as nat) + advice_line(count, items[count - 1])
    }
}

/// The line of one event in the summary.
pub open spec fn activity_line(entry: WorkflowEventView) -> Seq<char> {
    "- "@ + shown(entry.timestamp, ACTIVITY_TIME_FORMAT@) + " - "@ + entry.description + " ("@
        + agent_display_text(entry.agent) + ")\n"@
}

/// The lines of the last `count` events, the newest first.
pub open spec fn activity_lines(history: Seq<WorkflowEventView>, count: nat) -> Seq<char>
    decreases count,
{
    if count == 0 || history.len() == 0 {
        Seq::empty()
    } else {
        activity_line(history.last()) + activity_lines(history.drop_last(), (count - 1) as nat)
    }
}

/// The smaller of a length and a limit.
pub open spec fn up_to(len: nat, limit: nat) -> nat {
    if len < limit {
        len
    } else {
        limit
    }
}

/// The digest of a project: phase and status, the active story, the three
/// foremost recommendations and the five latest events.
pub open spec fn summary_text(state: ProjectStateView, advice: Seq<AgentRecommendationView>) -> Seq<
    char,
> {
    "# BMAD Workflow Summary\n\n**Current Phase:** "@ + phase_name(state.current_phase)
        + "\n**Project State:** "@ + project_state_name(state.project_state) + "\n"@ + (
    match state.active_story {
        Some(story) => "**Active Story:** "@ + story + "\n"@,
        None => Seq::empty(),
    }) + "\n## Recommended Next Actions\n"@ + advice_lines(advice, up_to(advice.len(), 3))
        + "\n## Recent Activity\n"@ + activity_lines(state.workflow_history, 5)
}

fn push_advice_line(summary: &mut String, number: u64, item: &AgentRecommendation)
    ensures
        final(summary)@ == old(summary)@ + advice_line(number as nat, item@),
{
    let ghost before = summary@;
    let n = number_text(number);
    summary.append(n.as_str());
    summary.append(". **");
    summary.append(item.agent.display_name());
    summary.append("** - ");
    summary.append(item.reason.as_str());
    summary.append(" (Priority: ");
    let p = number_text(item.priority as u64);
    summary.append(p.as_str());
    summary.append("/10)\n");
    assert(summary@ =~= before + advice_line(number as nat, item@));
}

fn push_activity_line(summary: &mut String, entry: &WorkflowEvent)
    ensures
        final(summary)@ == old(summary)@ + activity_line(entry@),
{
    let ghost before = summary@;
    summary.append("- ");
    let at = entry.timestamp.format(ACTIVITY_TIME_FORMAT);
    summary.append(at.as_str());
    summary.append(" - ");
    summary.append(entry.description.as_str());
    summary.append(" (");
    summary.append(entry.agent.display_name());
    summary.append(")\n");
    assert(summary@ =~= before + activity_line(entry@));
}

impl WorkflowManager {
    /// The digest of a project with the given recommendations.
    pub fn summarize(&self, state: &ProjectState, recommendations: &Vec<AgentRecommendation>) -> (summary:
        String)
        ensures
            summary@ == summary_text(state@, advice_views(recommendations@)),
    {
        let mut summary = String::from_str("# BMAD Workflow Summary\n\n**Current Phase:** ");
        summary.append(state.current_phase.name());
        summary.append("\n**Project State:** ");
        summary.append(state.project_state.name());
        summary.append("\n");
        match &state.active_story {
            Some(story) => {
                summary.append("**Active Story:** ");
                summary.append(story.as_str());
                summary.append("\n");
            },
            None => {},
        }
        summary.append("\n## Recommended Next Actions\n");
        let ghost head = summary@;
        let ghost advice = advice_views(recommendations@);
        let shown_count: usize = if recommendations.len() < 3 {
            recommendations.len()
        } else {
            3
        };
        let mut i: usize = 0;
        while i < shown_count
            invariant
                i <= shown_count <= recommendations@.len(),
                shown_count <= 3,
                advice == advice_views(recommendations@),
                summary@ == head + advice_lines(advice, i as nat),
            decreases shown_count - i,
        {
            push_advice_line(&mut summary, (i + 1) as u64, &recommendations[i]);
            i += 1;
            assert(summary@ =~= head + advice_lines(advice, i as nat));
        }
        summary.append("\n## Recent Activity\n");
        let ghost middle = summary@;
        let ghost history = state@.workflow_history;
        let len: usize = state.workflow_history.len();
        let mut k: usize = 0;
        assert(history.take(len as int) =~= history);
        while k < 5 && k < len
            invariant
                k <= 5,
                k <= len,
                len == state.workflow_history@.len(),
                history == state@.workflow_history,
                middle + activity_lines(history, 5) == summary@ + activity_lines(
                    history.take(len - k),
                    (5 - k) as nat,
                ),
            decreases len - k,
        {
            let entry = &state.workflow_history[len - 1 - k];
            proof {
                let now = history.take(len - k);
                assert(now.last() == entry@);
                assert(now.drop_last() =~= history.take(len - k - 1));
            }
            let ghost before = summary@;
            push_activity_line(&mut summary, entry);
            assert(before + activity_lines(history.take(len - k), (5 - k) as nat) =~= summary@
                + activity_lines(history.take(len - k - 1), (5 - k - 1) as nat));
            k += 1;
        }
        proof {
            let rest = history.take(len - k);
            assert(activity_lines(rest, (5 - k) as nat) =~= Seq::<char>::empty());
            assert(summary@ =~= middle + activity_lines(history, 5));
        }
        summary
    }

    /// The digest of a project as it stands now, by the system clock.
    pub fn get_workflow_summary(&self, state: &ProjectState, probes: &ArtifactProbes) -> (summary:
        String)
        ensures
            exists|now: Timestamp|
                now.is_plain_second() && summary@ == summary_text(
                    state@,
                    recommendations(state@, *probes, now),
                ),
    {
        let advice = self.recommend_next_agent(state, probes);
        self.summarize(state, &advice)
    }
}

/// A step of the phase machine is kept by the state document: written
/// down and read back, the state has the new phase and the status that
/// goes with it.
pub proof fn lemma_transition_is_kept(
    state: ProjectStateView,
    to: BMadPhase,
    agent: AgentType,
    event_id: u128,
    now: Timestamp,
)
    ensures
        state_from_raw(state_to_raw(transitioned(state, to, agent, event_id, now))).current_phase
            == to,
        state_from_raw(state_to_raw(transitioned(state, to, agent, event_id, now))).project_state
            == status_for(to),
{
    lemma_phase_key_round_trip(to);
    lemma_project_state_key_round_trip(status_for(to));
}

} // verus!
