use bmad::clock::Timestamp;
use bmad::state_manager::{
    RawAgentStatus, RawNextAction, RawProjectState, SessionState, StateDocument, StateManager,
};
use bmad::types::{
    AgentStatus, AgentStatusType, AgentStatuses, AgentType, BMadError, BMadPhase, MetadataEntry,
    NextAction, ProjectState, ProjectStateType, WorkflowEvent, WorkflowEventType,
};

fn raw_agent(status: &str) -> RawAgentStatus {
    RawAgentStatus {
        status: status.to_string(),
        current_task: None,
        last_activity: None,
        queue_position: None,
        estimated_start: None,
    }
}

fn raw_state(project_state: &str, phase: &str) -> RawProjectState {
    RawProjectState {
        bmad_version: "1.0.0".to_string(),
        project_state: project_state.to_string(),
        current_phase: phase.to_string(),
        active_story: None,
        phases: Vec::new(),
        next_actions: Vec::new(),
        agents: Vec::new(),
    }
}

fn full_state() -> ProjectState {
    let mut agents = AgentStatuses::all_idle();
    agents.developer = AgentStatus {
        status: AgentStatusType::Active,
        current_task: Some("Implementing story: Login Form".to_string()),
        last_activity: Some(Timestamp::new(1_700_000_000, 123_000_000)),
        queue_position: Some(2),
        estimated_start: Some(Timestamp::new(1_700_003_600, 0)),
    };
    agents.ux_expert.status = AgentStatusType::Offline;
    agents.analyst.status = AgentStatusType::Waiting;
    agents.architect.status = AgentStatusType::Blocked;
    ProjectState {
        bmad_version: "1.0.0".to_string(),
        project_state: ProjectStateType::Development,
        current_phase: BMadPhase::StoryCreation,
        active_story: Some("Login Form".to_string()),
        next_actions: vec![
            NextAction {
                agent: AgentType::QualityAssurance,
                task: "Test it".to_string(),
                story: Some("Login Form".to_string()),
                estimated_time: Some("1 hour".to_string()),
                dependencies: vec!["implementation".to_string()],
                auto_trigger: true,
            },
            NextAction {
                agent: AgentType::BMadOrchestrator,
                task: "Plan".to_string(),
                story: None,
                estimated_time: None,
                dependencies: Vec::new(),
                auto_trigger: false,
            },
        ],
        workflow_history: vec![WorkflowEvent {
            id: 9,
            event_type: WorkflowEventType::StoryStart,
            agent: AgentType::Developer,
            description: "Started story: Login Form".to_string(),
            timestamp: Timestamp::new(1_700_000_000, 0),
            metadata: vec![MetadataEntry { key: "k".to_string(), value: "v".to_string() }],
        }],
        agents,
    }
}

fn same_status(a: &AgentStatus, b: &AgentStatus) -> bool {
    a.status == b.status
        && a.current_task == b.current_task
        && a.last_activity == b.last_activity
        && a.queue_position == b.queue_position
        && a.estimated_start == b.estimated_start
}

#[test]
fn state_manager_is_made() {
    let _ = StateManager::new();
}

#[test]
fn written_state_reads_back_without_its_history() {
    let state = full_state();
    let raw = StateManager::convert_to_raw_state(&state);
    assert_eq!(raw.project_state, "development");
    assert_eq!(raw.current_phase, "story_creation");
    assert!(raw.phases.is_empty());
    assert_eq!(raw.agents.len(), 8);
    let back = StateManager::convert_raw_state(raw);
    assert_eq!(back.bmad_version, state.bmad_version);
    assert_eq!(back.project_state, state.project_state);
    assert_eq!(back.current_phase, state.current_phase);
    assert_eq!(back.active_story, state.active_story);
    assert_eq!(back.next_actions.len(), 2);
    for (a, b) in back.next_actions.iter().zip(state.next_actions.iter()) {
        assert_eq!(a.agent, b.agent);
        assert_eq!(a.task, b.task);
        assert_eq!(a.story, b.story);
        assert_eq!(a.estimated_time, b.estimated_time);
        assert_eq!(a.dependencies, b.dependencies);
        assert_eq!(a.auto_trigger, b.auto_trigger);
    }
    for agent in [
        AgentType::Analyst,
        AgentType::Architect,
        AgentType::ProductManager,
        AgentType::ProductOwner,
        AgentType::ScrumMaster,
        AgentType::Developer,
        AgentType::QualityAssurance,
        AgentType::UXExpert,
    ] {
        assert!(same_status(back.agents.get(agent).unwrap(), state.agents.get(agent).unwrap()));
    }
    assert_eq!(state.workflow_history.len(), 1);
    assert!(back.workflow_history.is_empty());
}

#[test]
fn written_agents_bear_eight_names_and_the_first_of_a_name_counts() {
    let state = full_state();
    let raw = StateManager::convert_to_raw_state(&state);
    let names: Vec<&str> = raw.agents.iter().map(|(name, _)| name.as_str()).collect();
    assert_eq!(
        names,
        vec!["analyst", "architect", "product_manager", "product_owner", "scrum_master", "developer", "quality_assurance", "ux_expert"]
    );
    let mut twice = StateManager::convert_to_raw_state(&state);
    let mut other = twice.agents[5].clone();
    other.1.status = "blocked".to_string();
    other.1.current_task = Some("something else".to_string());
    twice.agents.push(other);
    let back = StateManager::convert_raw_state(twice);
    assert!(same_status(back.agents.get(AgentType::Developer).unwrap(), state.agents.get(AgentType::Developer).unwrap()));
}

#[test]
fn a_state_with_a_leap_second_reads_back() {
    let mut state = full_state();
    let leap = Timestamp::new(1_700_000_039, 1_250_000_000);
    state.agents.developer.last_activity = Some(leap);
    state.agents.analyst.estimated_start = Some(Timestamp::new(-1, 1_999_999_999));
    let back = StateManager::convert_raw_state(StateManager::convert_to_raw_state(&state));
    assert_eq!(back.agents.developer.last_activity, Some(leap));
    assert_eq!(back.agents.analyst.estimated_start, Some(Timestamp::new(-1, 1_999_999_999)));
    assert!(same_status(back.agents.get(AgentType::Developer).unwrap(), state.agents.get(AgentType::Developer).unwrap()));
}

#[test]
fn every_phase_and_status_reads_back() {
    for phase in [
        BMadPhase::Planning,
        BMadPhase::StoryCreation,
        BMadPhase::Development,
        BMadPhase::QualityAssurance,
        BMadPhase::Complete,
    ] {
        for status in [
            ProjectStateType::Initializing,
            ProjectStateType::Planning,
            ProjectStateType::Development,
            ProjectStateType::QualityAssurance,
            ProjectStateType::Complete,
            ProjectStateType::OnHold,
            ProjectStateType::Archived,
        ] {
            let mut state = full_state();
            state.current_phase = phase;
            state.project_state = status;
            let back = StateManager::convert_raw_state(StateManager::convert_to_raw_state(&state));
            assert_eq!(back.current_phase, phase);
            assert_eq!(back.project_state, status);
        }
    }
}

#[test]
fn only_the_first_dependency_is_written() {
    let action = NextAction {
        agent: AgentType::Developer,
        task: "t".to_string(),
        story: None,
        estimated_time: None,
        dependencies: vec!["a".to_string(), "b".to_string()],
        auto_trigger: false,
    };
    let raw = StateManager::convert_to_raw_action(&action);
    assert_eq!(raw.agent, "developer");
    assert_eq!(raw.depends_on.as_deref(), Some("a"));
    assert_eq!(raw.auto_trigger, Some(false));
    let back = StateManager::convert_raw_action(raw).unwrap();
    assert_eq!(back.dependencies, vec!["a".to_string()]);
}

#[test]
fn unknown_words_fall_back_to_the_safest_values() {
    let mut raw = raw_state("paused", "testing");
    raw.agents.push(("developer".to_string(), raw_agent("sleeping")));
    raw.agents.push(("qa".to_string(), raw_agent("blocked")));
    let state = StateManager::convert_raw_state(raw);
    assert_eq!(state.project_state, ProjectStateType::Initializing);
    assert_eq!(state.current_phase, BMadPhase::Planning);
    assert_eq!(state.agents.developer.status, AgentStatusType::Idle);
    assert_eq!(state.agents.quality_assurance.status, AgentStatusType::Idle);
}

#[test]
fn known_words_are_read() {
    let mut raw = raw_state("on_hold", "quality_assurance");
    raw.agents.push(("analyst".to_string(), raw_agent("active")));
    raw.agents.push(("architect".to_string(), raw_agent("waiting")));
    raw.agents.push(("product_manager".to_string(), raw_agent("blocked")));
    raw.agents.push(("product_owner".to_string(), raw_agent("offline")));
    raw.agents.push(("scrum_master".to_string(), raw_agent("idle")));
    let state = StateManager::convert_raw_state(raw);
    assert_eq!(state.project_state, ProjectStateType::OnHold);
    assert_eq!(state.current_phase, BMadPhase::QualityAssurance);
    assert_eq!(state.agents.analyst.status, AgentStatusType::Active);
    assert_eq!(state.agents.architect.status, AgentStatusType::Waiting);
    assert_eq!(state.agents.product_manager.status, AgentStatusType::Blocked);
    assert_eq!(state.agents.product_owner.status, AgentStatusType::Offline);
    assert_eq!(state.agents.scrum_master.status, AgentStatusType::Idle);
    assert_eq!(state.agents.ux_expert.status, AgentStatusType::Idle);
}

#[test]
fn the_first_entry_of_a_name_is_taken() {
    let entries = vec![
        ("developer".to_string(), raw_agent("active")),
        ("developer".to_string(), raw_agent("blocked")),
    ];
    let agents = StateManager::convert_raw_agents(&entries);
    assert_eq!(agents.developer.status, AgentStatusType::Active);
}

#[test]
fn unreadable_instants_become_absent() {
    let mut raw = raw_agent("active");
    raw.last_activity = Some("yesterday".to_string());
    raw.estimated_start = Some("2023-11-14T22:13:20+00:00".to_string());
    raw.current_task = Some("t".to_string());
    raw.queue_position = Some(3);
    let status = StateManager::convert_raw_agent_status(&raw);
    assert_eq!(status.last_activity, None);
    assert_eq!(status.estimated_start, Some(Timestamp::new(1_700_000_000, 0)));
    assert_eq!(status.current_task.as_deref(), Some("t"));
    assert_eq!(status.queue_position, Some(3));
}

#[test]
fn instants_are_written_as_rfc_3339() {
    let status = AgentStatus {
        status: AgentStatusType::Blocked,
        current_task: None,
        last_activity: Some(Timestamp::new(1_700_000_000, 500_000_000)),
        queue_position: None,
        estimated_start: None,
    };
    let raw = StateManager::convert_to_raw_agent_status(&status);
    assert_eq!(raw.status, "blocked");
    assert_eq!(raw.last_activity.as_deref(), Some("2023-11-14T22:13:20.500+00:00"));
    assert_eq!(raw.estimated_start, None);
}

#[test]
fn actions_of_unknown_agents_are_passed_over() {
    let mut raw = raw_state("planning", "planning");
    for agent in ["developer", "robot", "ux_expert"] {
        raw.next_actions.push(RawNextAction {
            agent: agent.to_string(),
            task: agent.to_string(),
            story: None,
            estimated_time: None,
            depends_on: None,
            auto_trigger: None,
        });
    }
    let state = StateManager::convert_raw_state(raw);
    let tasks: Vec<&str> = state.next_actions.iter().map(|a| a.task.as_str()).collect();
    assert_eq!(tasks, vec!["developer", "ux_expert"]);
    assert!(!state.next_actions[0].auto_trigger);
    assert!(state.next_actions[0].dependencies.is_empty());
}

#[test]
fn agent_words_are_read_and_written() {
    let words = [
        (AgentType::Analyst, "analyst"),
        (AgentType::Architect, "architect"),
        (AgentType::ProductManager, "product_manager"),
        (AgentType::ProductOwner, "product_owner"),
        (AgentType::ScrumMaster, "scrum_master"),
        (AgentType::Developer, "developer"),
        (AgentType::QualityAssurance, "quality_assurance"),
        (AgentType::UXExpert, "ux_expert"),
        (AgentType::BMadOrchestrator, "bmad_orchestrator"),
    ];
    for (agent, word) in words {
        assert_eq!(StateManager::agent_type_to_string(&agent), word);
        assert_eq!(StateManager::parse_agent_type(word).unwrap(), agent);
    }
    match StateManager::parse_agent_type("Developer") {
        Err(BMadError::InvalidProjectState(why)) => assert_eq!(why, "Unknown agent type: Developer"),
        _ => panic!("expected an invalid project state"),
    }
}

#[test]
fn a_missing_state_file_is_a_missing_project() {
    match StateManager::load_project_state("/p/.bmad/state.yaml", StateDocument::Missing) {
        Err(BMadError::ProjectNotFound(why)) => {
            assert_eq!(why, "State file not found: \"/p/.bmad/state.yaml\"");
        }
        _ => panic!("expected a missing project"),
    }
    assert!(!StateManager::validate_state_file(&StateDocument::Missing));
}

#[test]
fn a_malformed_state_file_is_a_parsing_error() {
    let document = StateDocument::Malformed("mapping values are not allowed".to_string());
    assert!(!StateManager::validate_state_file(&document));
    match StateManager::load_project_state("state.yaml", document) {
        Err(e @ BMadError::YamlParsing(_)) => {
            assert_eq!(e.message(), "YAML parsing error: mapping values are not allowed");
        }
        _ => panic!("expected a parsing error"),
    }
}

#[test]
fn a_state_document_is_loaded() {
    let document = StateDocument::Parsed(raw_state("complete", "complete"));
    assert!(StateManager::validate_state_file(&document));
    let state = StateManager::load_project_state("state.yaml", document).unwrap();
    assert_eq!(state.current_phase, BMadPhase::Complete);
    assert_eq!(state.project_state, ProjectStateType::Complete);
}

#[test]
fn a_missing_session_file_gives_the_empty_session() {
    let session = StateManager::load_session_state(None);
    assert_eq!(session.session_id, None);
    assert_eq!(session.started_at, None);
    assert_eq!(session.last_activity, None);
    assert!(session.active_agents.is_empty());
    assert_eq!(session.session_notes, "");
    let kept = StateManager::load_session_state(Some(SessionState {
        session_id: Some(5),
        started_at: None,
        last_activity: None,
        active_agents: vec![AgentType::Developer],
        session_notes: "n".to_string(),
    }));
    assert_eq!(kept.session_id, Some(5));
    assert_eq!(kept.active_agents, vec![AgentType::Developer]);
}

#[test]
fn errors_are_shown_with_their_kind() {
    assert_eq!(BMadError::FileSystem("x".to_string()).message(), "File system error: x");
    assert_eq!(BMadError::JsonParsing("x".to_string()).message(), "JSON parsing error: x");
    assert_eq!(BMadError::ProjectNotFound("x".to_string()).message(), "Project not found: x");
    assert_eq!(BMadError::InvalidProjectState("x".to_string()).message(), "Invalid project state: x");
    assert_eq!(BMadError::Communication("x".to_string()).message(), "Communication error: x");
    assert_eq!(BMadError::Workflow("x".to_string()).message(), "Workflow error: x");
}

#[test]
fn a_project_without_records_has_eight_idle_agents() {
    let agents = AgentStatuses::all_idle();
    for agent in [
        AgentType::Analyst,
        AgentType::Architect,
        AgentType::ProductManager,
        AgentType::ProductOwner,
        AgentType::ScrumMaster,
        AgentType::Developer,
        AgentType::QualityAssurance,
        AgentType::UXExpert,
    ] {
        assert!(same_status(agents.get(agent).unwrap(), &AgentStatus::idle()));
    }
    assert!(agents.get(AgentType::BMadOrchestrator).is_none());
    let idle = AgentStatus::idle();
    assert_eq!(idle.status, AgentStatusType::Idle);
    assert_eq!(idle.current_task, None);
    assert_eq!(idle.last_activity, None);
    assert_eq!(idle.queue_position, None);
    assert_eq!(idle.estimated_start, None);
}
