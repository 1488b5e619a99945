use bmad::clock::Timestamp;
use bmad::types::{
    AgentStatus, AgentStatusType, AgentStatuses, AgentType, BMadError, BMadPhase, MessageStatus,
    MessageType, ProjectState, ProjectStateType, WorkflowEventType,
};
use bmad::scheduler::{
    agent_workload, speaks_of_design, speaks_of_interface, AgentRecommendation, ArtifactProbes,
    StoryCompletion,
};
use bmad::workflow::WorkflowManager;

const NOW: i64 = 1_700_000_000;

fn now() -> Timestamp {
    Timestamp::new(NOW, 0)
}

fn state_in(phase: BMadPhase, status: ProjectStateType) -> ProjectState {
    ProjectState {
        bmad_version: "1.0.0".to_string(),
        project_state: status,
        current_phase: phase,
        active_story: None,
        next_actions: Vec::new(),
        workflow_history: Vec::new(),
        agents: AgentStatuses::all_idle(),
    }
}

fn no_artifacts() -> ArtifactProbes {
    ArtifactProbes {
        requirements_doc: false,
        architecture_doc: false,
        ready_stories: false,
        designs: false,
        mockups: false,
        wireframes: false,
        story_implementation: false,
        story_tests: false,
        story_document: false,
    }
}

fn manager() -> WorkflowManager {
    WorkflowManager::new("/work/project")
}

fn all_phases() -> Vec<BMadPhase> {
    vec![
        BMadPhase::Planning,
        BMadPhase::StoryCreation,
        BMadPhase::Development,
        BMadPhase::QualityAssurance,
        BMadPhase::Complete,
    ]
}

fn allowed(from: BMadPhase, to: BMadPhase) -> bool {
    matches!(
        (from, to),
        (BMadPhase::Planning, BMadPhase::StoryCreation)
            | (BMadPhase::StoryCreation, BMadPhase::Development)
            | (BMadPhase::Development, BMadPhase::QualityAssurance)
            | (BMadPhase::QualityAssurance, BMadPhase::Complete)
            | (BMadPhase::StoryCreation, BMadPhase::Planning)
            | (BMadPhase::Development, BMadPhase::StoryCreation)
            | (BMadPhase::QualityAssurance, BMadPhase::Development)
    )
}

fn status_for(phase: BMadPhase) -> ProjectStateType {
    match phase {
        BMadPhase::Planning => ProjectStateType::Planning,
        BMadPhase::StoryCreation | BMadPhase::Development => ProjectStateType::Development,
        BMadPhase::QualityAssurance => ProjectStateType::QualityAssurance,
        BMadPhase::Complete => ProjectStateType::Complete,
    }
}

#[test]
fn manager_keeps_its_project_path() {
    assert_eq!(manager().project_path(), "/work/project");
}

#[test]
fn every_pair_of_phases_is_allowed_or_refused_by_the_table() {
    for from in all_phases() {
        for to in all_phases() {
            assert_eq!(manager().is_transition_valid(from, to), allowed(from, to));
            let mut state = state_in(from, ProjectStateType::OnHold);
            let outcome = manager().transition_phase_at(&mut state, to, AgentType::ScrumMaster, 7, now());
            if allowed(from, to) {
                assert!(outcome.is_ok());
                assert_eq!(state.current_phase, to);
                assert_eq!(state.project_state, status_for(to));
                assert_eq!(state.workflow_history.len(), 1);
                let event = &state.workflow_history[0];
                assert_eq!(event.id, 7);
                assert_eq!(event.event_type, WorkflowEventType::PhaseStart);
                assert_eq!(event.agent, AgentType::ScrumMaster);
                assert_eq!(event.timestamp, now());
                assert_eq!(
                    event.description,
                    format!("Transitioned from {:?} to {:?}", from, to)
                );
                assert!(event.metadata.is_empty());
            } else {
                match outcome {
                    Err(BMadError::Workflow(why)) => {
                        assert_eq!(why, format!("Invalid transition from {:?} to {:?}", from, to));
                    }
                    _ => panic!("expected a workflow error"),
                }
                assert_eq!(state.current_phase, from);
                assert_eq!(state.project_state, ProjectStateType::OnHold);
                assert!(state.workflow_history.is_empty());
            }
        }
    }
}

#[test]
fn transition_with_the_system_clock_steps_forward() {
    let mut state = state_in(BMadPhase::Planning, ProjectStateType::Planning);
    assert!(manager().transition_phase(&mut state, BMadPhase::StoryCreation, AgentType::Analyst).is_ok());
    assert_eq!(state.current_phase, BMadPhase::StoryCreation);
    assert_eq!(state.project_state, ProjectStateType::Development);
    assert!(manager().transition_phase(&mut state, BMadPhase::Complete, AgentType::Analyst).is_err());
    assert_eq!(state.current_phase, BMadPhase::StoryCreation);
    assert_eq!(state.workflow_history.len(), 1);
}

#[test]
fn workload_of_a_busy_agent_is_full() {
    let status = AgentStatus {
        status: AgentStatusType::Active,
        current_task: Some("Implementing story: Login Form".to_string()),
        last_activity: Some(Timestamp::new(NOW - 3_600, 0)),
        queue_position: None,
        estimated_start: None,
    };
    assert_eq!(agent_workload(&status, now()), 10);
}

#[test]
fn workload_of_an_idle_agent_is_zero() {
    assert_eq!(agent_workload(&AgentStatus::idle(), now()), 0);
}

#[test]
fn workload_adds_status_task_and_recency_in_tenths() {
    let mut status = AgentStatus::idle();
    status.status = AgentStatusType::Waiting;
    assert_eq!(agent_workload(&status, now()), 3);
    status.current_task = Some("review".to_string());
    assert_eq!(agent_workload(&status, now()), 5);
    status.last_activity = Some(Timestamp::new(NOW - 7_199, 0));
    assert_eq!(agent_workload(&status, now()), 6);
    status.last_activity = Some(Timestamp::new(NOW - 7_200, 0));
    assert_eq!(agent_workload(&status, now()), 5);
    status.last_activity = Some(Timestamp::new(NOW - 24 * 3_600, 0));
    assert_eq!(agent_workload(&status, now()), 5);
    status.last_activity = Some(Timestamp::new(NOW - 24 * 3_600 - 1, 999_999_999));
    assert_eq!(agent_workload(&status, now()), 4);
    status.last_activity = Some(Timestamp::new(NOW - 24 * 3_600 - 1_800, 0));
    assert_eq!(agent_workload(&status, now()), 4);
    status.last_activity = Some(Timestamp::new(NOW + 3_600, 0));
    assert_eq!(agent_workload(&status, now()), 6);
    status.last_activity = Some(Timestamp::new(NOW - 25 * 3_600, 0));
    assert_eq!(agent_workload(&status, now()), 4);
    status.status = AgentStatusType::Blocked;
    assert_eq!(agent_workload(&status, now()), 10);
    status.status = AgentStatusType::Offline;
    status.current_task = None;
    assert_eq!(agent_workload(&status, now()), 0);
    status.status = AgentStatusType::Active;
    assert_eq!(agent_workload(&status, now()), 7);
}

#[test]
fn activity_of_more_than_a_day_ago_takes_a_tenth_off() {
    let mut status = AgentStatus::idle();
    status.status = AgentStatusType::Waiting;
    status.last_activity = Some(Timestamp::new(NOW - 24 * 3_600 - 30 * 60, 0));
    assert_eq!(agent_workload(&status, now()), 2);
    status.last_activity = Some(Timestamp::new(NOW - 24 * 3_600, 0));
    assert_eq!(agent_workload(&status, now()), 3);
    status.status = AgentStatusType::Idle;
    status.last_activity = Some(Timestamp::new(NOW - 24 * 3_600 - 30 * 60, 0));
    assert_eq!(agent_workload(&status, now()), 0);
}

#[test]
fn workload_is_taken_for_every_role() {
    let mut state = state_in(BMadPhase::Development, ProjectStateType::Development);
    state.agents.developer.status = AgentStatusType::Active;
    state.agents.ux_expert.status = AgentStatusType::Waiting;
    let load = manager().analyze_agent_workload(&state, now());
    assert_eq!(load.get(AgentType::Developer), 8);
    assert_eq!(load.get(AgentType::UXExpert), 3);
    assert_eq!(load.get(AgentType::Analyst), 0);
    assert_eq!(load.get(AgentType::BMadOrchestrator), 0);
}

#[test]
fn a_blocked_agent_preempts_every_other_recommendation() {
    for blocked in [
        AgentType::Analyst,
        AgentType::Architect,
        AgentType::ProductManager,
        AgentType::ProductOwner,
        AgentType::ScrumMaster,
        AgentType::Developer,
        AgentType::QualityAssurance,
        AgentType::UXExpert,
    ] {
        for phase in all_phases() {
            let mut state = state_in(phase, ProjectStateType::Development);
            let mut entry = AgentStatus::idle();
            entry.status = AgentStatusType::Blocked;
            state.agents.set(blocked, entry);
            let advice = manager().recommend_next_agent_at(&state, &no_artifacts(), now());
            assert_eq!(advice.len(), 1);
            assert_eq!(advice[0].agent, AgentType::ProductManager);
            assert_eq!(advice[0].priority, 10);
            assert!(advice[0].reason.contains("Resolve blocker"));
            assert_eq!(advice[0].reason, format!("Resolve blocker for {:?}", blocked));
            assert_eq!(advice[0].estimated_time.as_deref(), Some("30 minutes - 2 hours"));
            assert_eq!(advice[0].prerequisites, vec!["Investigate blocker cause".to_string()]);
            let by_clock = manager().recommend_next_agent(&state, &no_artifacts());
            assert_eq!(by_clock.len(), 1);
            assert!(by_clock[0].reason.contains("Resolve blocker"));
        }
    }
}

#[test]
fn the_first_blocked_agent_of_the_roster_is_named() {
    let mut state = state_in(BMadPhase::Development, ProjectStateType::Development);
    state.agents.developer.status = AgentStatusType::Blocked;
    state.agents.architect.status = AgentStatusType::Blocked;
    let found = manager().check_for_blockers(&state).unwrap();
    assert_eq!(found.reason, "Resolve blocker for Architect");
    assert!(manager().check_for_blockers(&state_in(BMadPhase::Planning, ProjectStateType::Planning)).is_none());
}

#[test]
fn login_form_story_calls_for_developer_and_design() {
    let mut state = state_in(BMadPhase::Development, ProjectStateType::Development);
    state.active_story = Some("Login Form".to_string());
    let probes = no_artifacts();
    let done = manager().estimate_story_completion(&probes);
    assert_eq!(done, StoryCompletion { present: 0, checked: 3 });
    assert_eq!(done.as_percent(), 0);
    assert!(!done.at_least(5));
    let items = manager().candidates(&state, &probes);
    assert_eq!(items.len(), 2);
    assert_eq!(items[0].agent, AgentType::Developer);
    assert_eq!(items[0].reason, "Begin/continue implementation of: Login Form");
    assert_eq!(items[0].priority, 9);
    assert_eq!(items[0].estimated_time.as_deref(), Some("3-6 hours"));
    assert!(items[0].prerequisites.is_empty());
    assert_eq!(items[1].agent, AgentType::UXExpert);
    assert_eq!(items[1].reason, "Provide design specifications and mockups for development");
    assert_eq!(items[1].priority, 8);
}

#[test]
fn login_form_story_after_adjustment_to_idle_agents() {
    let mut state = state_in(BMadPhase::Development, ProjectStateType::Development);
    state.active_story = Some("Login Form".to_string());
    let advice = manager().recommend_next_agent_at(&state, &no_artifacts(), now());
    // Both agents are idle: 9 is raised to 10 and dropped, 8 is raised to 9.
    assert_eq!(advice.len(), 1);
    assert_eq!(advice[0].agent, AgentType::UXExpert);
    assert_eq!(advice[0].priority, 9);
}

#[test]
fn a_busy_agent_has_its_priority_cut_and_a_note_added() {
    let mut state = state_in(BMadPhase::Development, ProjectStateType::Development);
    state.active_story = Some("Login Form".to_string());
    state.agents.developer.status = AgentStatusType::Active;
    state.agents.ux_expert.status = AgentStatusType::Waiting;
    let advice = manager().recommend_next_agent_at(&state, &no_artifacts(), now());
    assert_eq!(advice.len(), 2);
    assert_eq!(advice[0].agent, AgentType::UXExpert);
    assert_eq!(advice[0].priority, 8);
    assert_eq!(advice[0].reason, "Provide design specifications and mockups for development");
    assert_eq!(advice[1].agent, AgentType::Developer);
    assert_eq!(advice[1].priority, 6);
    assert_eq!(
        advice[1].reason,
        "Begin/continue implementation of: Login Form (Agent currently busy)"
    );
}

#[test]
fn story_with_design_artifacts_needs_no_clarification() {
    let mut probes = no_artifacts();
    assert!(manager().story_needs_design_clarification("Login Form", &probes));
    assert!(!manager().story_needs_design_clarification("Database index", &probes));
    probes.mockups = true;
    assert!(!manager().story_needs_design_clarification("Login Form", &probes));
    assert!(!manager().story_needs_ux_review("Login Form"));
    assert!(manager().story_needs_ux_review("Settings PAGE"));
    assert!(manager().story_needs_ux_review("Build the UI"));
    assert!(manager().story_needs_qa("anything"));
}

#[test]
fn completion_bands_choose_the_candidates() {
    let mut state = state_in(BMadPhase::Development, ProjectStateType::Development);
    state.active_story = Some("User page".to_string());
    let mut probes = no_artifacts();
    probes.story_implementation = true;
    let one = manager().estimate_story_completion(&probes);
    assert_eq!(one.as_percent(), 33);
    assert_eq!(manager().candidates(&state, &probes).len(), 2);
    probes.story_tests = true;
    let two = manager().estimate_story_completion(&probes);
    assert_eq!(two.as_percent(), 67);
    assert!(two.at_least(5) && two.at_least(6) && !two.at_least(8));
    let items = manager().candidates(&state, &probes);
    assert_eq!(items.len(), 3);
    assert_eq!(items[0].reason, "Continue development of: User page (~67% complete)");
    assert_eq!(items[0].priority, 9);
    assert_eq!(items[1].agent, AgentType::Architect);
    assert_eq!(items[1].priority, 5);
    assert_eq!(items[2].agent, AgentType::UXExpert);
    assert_eq!(items[2].reason, "Review user experience and interface implementation");
    assert_eq!(items[2].priority, 7);
    probes.story_document = true;
    let three = manager().estimate_story_completion(&probes);
    assert_eq!(three.as_percent(), 100);
    let items = manager().candidates(&state, &probes);
    assert_eq!(items.len(), 3);
    assert_eq!(items[0].agent, AgentType::QualityAssurance);
    assert_eq!(items[0].reason, "Review and test completed story: User page (~100% complete)");
    assert_eq!(items[0].priority, 10);
    assert_eq!(items[1].agent, AgentType::ScrumMaster);
    assert_eq!(items[1].priority, 6);
}

#[test]
fn completion_without_indicators_counts_as_three_tenths() {
    let none = StoryCompletion { present: 0, checked: 0 };
    assert_eq!(none.as_percent(), 30);
    assert!(none.at_least(3));
    assert!(!none.at_least(4));
}

#[test]
fn candidates_of_every_phase() {
    let m = manager();
    let p = no_artifacts();
    let init = m.candidates(&state_in(BMadPhase::Planning, ProjectStateType::Initializing), &p);
    assert_eq!(init.len(), 2);
    assert_eq!(init[0].agent, AgentType::ProductOwner);
    assert_eq!(init[0].priority, 10);
    assert_eq!(init[1].agent, AgentType::Analyst);
    let planning = m.candidates(&state_in(BMadPhase::Planning, ProjectStateType::Planning), &p);
    assert_eq!(planning.len(), 2);
    assert_eq!(planning[0].reason, "Create Product Requirements Document (PRD)");
    assert_eq!(planning[1].reason, "Design technical architecture and system design");
    let mut both = p;
    both.requirements_doc = true;
    both.architecture_doc = true;
    let next = m.candidates(&state_in(BMadPhase::Planning, ProjectStateType::Planning), &both);
    assert_eq!(next.len(), 2);
    assert_eq!(next[0].agent, AgentType::ScrumMaster);
    assert_eq!(next[0].priority, 8);
    assert_eq!(next[1].agent, AgentType::ProductOwner);
    assert_eq!(next[1].priority, 7);
    assert!(m.candidates(&state_in(BMadPhase::Planning, ProjectStateType::OnHold), &p).is_empty());
    assert_eq!(m.candidates(&state_in(BMadPhase::StoryCreation, ProjectStateType::Development), &p).len(), 1);
    let mut ready = p;
    ready.ready_stories = true;
    assert_eq!(m.candidates(&state_in(BMadPhase::StoryCreation, ProjectStateType::Development), &ready).len(), 2);
    let idle_dev = m.candidates(&state_in(BMadPhase::Development, ProjectStateType::Development), &p);
    assert_eq!(idle_dev.len(), 1);
    assert_eq!(idle_dev[0].reason, "Create additional development stories - backlog appears empty");
    assert_eq!(m.candidates(&state_in(BMadPhase::Development, ProjectStateType::Development), &ready).len(), 2);
    let qa = m.candidates(&state_in(BMadPhase::QualityAssurance, ProjectStateType::QualityAssurance), &p);
    assert_eq!(qa.len(), 2);
    assert_eq!(qa[1].agent, AgentType::Architect);
    let done = m.candidates(&state_in(BMadPhase::Complete, ProjectStateType::Complete), &p);
    assert_eq!(done.len(), 1);
    assert_eq!(done[0].priority, 5);
}

fn item(agent: AgentType, reason: &str, priority: u8, time: Option<&str>, prerequisites: Vec<&str>) -> AgentRecommendation {
    AgentRecommendation {
        agent,
        reason: reason.to_string(),
        priority,
        estimated_time: time.map(|t| t.to_string()),
        prerequisites: prerequisites.into_iter().map(|p| p.to_string()).collect(),
    }
}

#[test]
fn impact_score_adds_its_bonuses_up_to_ten() {
    let m = manager();
    assert_eq!(m.estimate_impact_score(&item(AgentType::Developer, "work", 5, Some("2 days"), vec!["x"])), 5);
    assert_eq!(m.estimate_impact_score(&item(AgentType::Developer, "work", 5, Some("2 days"), vec![])), 7);
    assert_eq!(m.estimate_impact_score(&item(AgentType::Developer, "work", 5, Some("30 minutes"), vec!["x"])), 6);
    assert_eq!(m.estimate_impact_score(&item(AgentType::Developer, "work", 5, Some("1 hour"), vec!["x"])), 6);
    assert_eq!(m.estimate_impact_score(&item(AgentType::Developer, "phase transition", 5, None, vec!["x"])), 7);
    assert_eq!(m.estimate_impact_score(&item(AgentType::Developer, "complete it", 5, Some("1 hour"), vec![])), 10);
    assert_eq!(m.estimate_impact_score(&item(AgentType::Developer, "complete it", 9, Some("1 hour"), vec![])), 10);
    assert_eq!(m.estimate_impact_score(&item(AgentType::Developer, "work", 255, None, vec![])), 10);
}

#[test]
fn ranking_orders_by_priority_then_impact_and_is_stable() {
    let m = manager();
    let ranked = m.rank(vec![
        item(AgentType::Analyst, "a", 5, None, vec!["x"]),
        item(AgentType::Architect, "b", 7, None, vec!["x"]),
        item(AgentType::Developer, "c", 5, None, vec![]),
        item(AgentType::ProductOwner, "d", 7, None, vec!["x"]),
        item(AgentType::ScrumMaster, "e", 5, None, vec!["x"]),
    ]);
    let order: Vec<&str> = ranked.iter().map(|r| r.reason.as_str()).collect();
    assert_eq!(order, vec!["b", "d", "c", "a", "e"]);
}

#[test]
fn at_most_five_recommendations_are_given() {
    let m = manager();
    let many: Vec<AgentRecommendation> = (1..=8).map(|p| item(AgentType::Developer, "r", p, None, vec!["x"])).collect();
    let mut state = state_in(BMadPhase::Development, ProjectStateType::Development);
    state.agents.developer.status = AgentStatusType::Waiting;
    let kept = m.apply_intelligent_prioritization(many, &state, now());
    assert_eq!(kept.len(), 8);
    let mut ranked = m.rank(kept);
    ranked.truncate(5);
    let priorities: Vec<u8> = ranked.iter().map(|r| r.priority).collect();
    assert_eq!(priorities, vec![8, 7, 6, 5, 4]);
}

#[test]
fn candidates_of_priority_ten_are_dropped() {
    let state = state_in(BMadPhase::QualityAssurance, ProjectStateType::QualityAssurance);
    let advice = manager().recommend_next_agent_at(&state, &no_artifacts(), now());
    assert_eq!(advice.len(), 1);
    assert_eq!(advice[0].agent, AgentType::Architect);
    assert_eq!(advice[0].priority, 9);
}

#[test]
fn starting_a_story_makes_the_developer_active() {
    let mut state = state_in(BMadPhase::Development, ProjectStateType::Development);
    manager().start_story_at(&mut state, "Login Form".to_string(), AgentType::Developer, 11, now());
    assert_eq!(state.active_story.as_deref(), Some("Login Form"));
    assert_eq!(state.agents.developer.status, AgentStatusType::Active);
    assert_eq!(state.agents.developer.current_task.as_deref(), Some("Implementing story: Login Form"));
    assert_eq!(state.agents.developer.last_activity, Some(now()));
    assert_eq!(state.workflow_history.len(), 1);
    assert_eq!(state.workflow_history[0].event_type, WorkflowEventType::StoryStart);
    assert_eq!(state.workflow_history[0].description, "Started story: Login Form");

    let mut other = state_in(BMadPhase::Development, ProjectStateType::Development);
    manager().start_story(&mut other, "Docs".to_string(), AgentType::Analyst);
    assert_eq!(other.active_story.as_deref(), Some("Docs"));
    assert_eq!(other.agents.analyst.status, AgentStatusType::Idle);
    assert_eq!(other.workflow_history.len(), 1);
}

#[test]
fn completing_a_story_hands_it_to_quality_assurance() {
    let mut state = state_in(BMadPhase::Development, ProjectStateType::Development);
    manager().start_story_at(&mut state, "Login Form".to_string(), AgentType::Developer, 11, now());
    let later = Timestamp::new(NOW + 60, 5);
    let handoff = manager().complete_story_at(&mut state, "Login Form".to_string(), AgentType::Developer, 12, 13, later);
    assert_eq!(state.active_story, None);
    assert_eq!(state.agents.developer.status, AgentStatusType::Idle);
    assert_eq!(state.agents.developer.current_task, None);
    assert_eq!(state.agents.developer.last_activity, Some(later));
    assert_eq!(state.workflow_history.len(), 2);
    assert_eq!(state.workflow_history[1].event_type, WorkflowEventType::StoryComplete);
    assert_eq!(state.workflow_history[1].description, "Completed story: Login Form");
    assert_eq!(handoff.id, 13);
    assert_eq!(handoff.from_agent, AgentType::Developer);
    assert_eq!(handoff.to_agent, Some(AgentType::QualityAssurance));
    assert_eq!(handoff.message_type, MessageType::Handoff);
    assert_eq!(handoff.status, MessageStatus::Pending);
    assert_eq!(handoff.timestamp, later);
    assert_eq!(
        handoff.content,
        "Story 'Login Form' completed and ready for QA review. Please test functionality and verify requirements are met."
    );
    assert!(handoff.files_referenced.is_empty());
}

#[test]
fn completing_another_story_keeps_the_active_one() {
    let mut state = state_in(BMadPhase::Development, ProjectStateType::Development);
    state.active_story = Some("Login Form".to_string());
    let handoff = manager().complete_story(&mut state, "Other".to_string(), AgentType::Analyst);
    assert_eq!(state.active_story.as_deref(), Some("Login Form"));
    assert_eq!(handoff.to_agent, Some(AgentType::QualityAssurance));
    assert_eq!(state.workflow_history.len(), 1);
}

#[test]
fn reporting_a_blocker_blocks_the_agent_and_tells_the_team() {
    let mut state = state_in(BMadPhase::Development, ProjectStateType::Development);
    let broadcast = manager().report_blocker_at(
        &mut state,
        AgentType::Developer,
        "No database".to_string(),
        Some("Login Form".to_string()),
        21,
        22,
        now(),
    );
    assert_eq!(state.agents.developer.status, AgentStatusType::Blocked);
    assert_eq!(state.agents.developer.current_task.as_deref(), Some("No database"));
    assert_eq!(state.agents.developer.last_activity, Some(now()));
    let event = &state.workflow_history[0];
    assert_eq!(event.event_type, WorkflowEventType::BlockerReported);
    assert_eq!(event.description, "Blocker reported: No database");
    assert_eq!(event.metadata.len(), 1);
    assert_eq!(event.metadata[0].key, "affected_story");
    assert_eq!(event.metadata[0].value, "Login Form");
    assert_eq!(broadcast.to_agent, None);
    assert_eq!(broadcast.message_type, MessageType::BlockerReport);
    assert_eq!(
        broadcast.content,
        "\u{1F6AB} **Blocker Reported**\n\nNo database\n\n**Affected Story:** Login Form\n\nPlease assist in resolving this blocker."
    );
    let advice = manager().recommend_next_agent_at(&state, &no_artifacts(), now());
    assert_eq!(advice.len(), 1);
    assert_eq!(advice[0].reason, "Resolve blocker for Developer");
}

#[test]
fn a_blocker_without_a_story_is_general() {
    let mut state = state_in(BMadPhase::Development, ProjectStateType::Development);
    let broadcast = manager().report_blocker(&mut state, AgentType::BMadOrchestrator, "Stuck".to_string(), None);
    assert!(broadcast.content.contains("**Affected Story:** General"));
    assert!(state.workflow_history[0].metadata.is_empty());
    // The orchestrator carries no status: nobody is blocked.
    assert!(manager().check_for_blockers(&state).is_none());
}

#[test]
fn resolving_a_blocker_frees_the_agent_and_tells_it() {
    let mut state = state_in(BMadPhase::Development, ProjectStateType::Development);
    manager().report_blocker_at(&mut state, AgentType::Developer, "No database".to_string(), None, 1, 2, now());
    let notice = manager().resolve_blocker_at(
        &mut state,
        AgentType::ProductManager,
        AgentType::Developer,
        "Database is up".to_string(),
        3,
        4,
        now(),
    );
    assert_eq!(state.agents.developer.status, AgentStatusType::Idle);
    assert_eq!(state.agents.developer.current_task, None);
    assert_eq!(state.workflow_history[1].event_type, WorkflowEventType::BlockerResolved);
    assert_eq!(state.workflow_history[1].agent, AgentType::ProductManager);
    assert_eq!(state.workflow_history[1].description, "Resolved blocker for Developer: Database is up");
    assert_eq!(notice.from_agent, AgentType::ProductManager);
    assert_eq!(notice.to_agent, Some(AgentType::Developer));
    assert_eq!(notice.message_type, MessageType::Update);
    assert_eq!(
        notice.content,
        "\u{2705} **Blocker Resolved**\n\nDatabase is up\n\nYou can now continue with your tasks."
    );
    let again = manager().resolve_blocker(&mut state, AgentType::ProductManager, AgentType::Developer, "ok".to_string());
    assert_eq!(again.to_agent, Some(AgentType::Developer));
}

#[test]
fn summary_shows_phase_story_advice_and_activity() {
    let mut state = state_in(BMadPhase::Development, ProjectStateType::Development);
    state.active_story = Some("Login Form".to_string());
    for n in 0..7u128 {
        manager().start_story_at(&mut state, format!("S{}", n), AgentType::Analyst, n, Timestamp::new(NOW + 60 * n as i64, 0));
    }
    let advice = vec![
        item(AgentType::QualityAssurance, "first", 9, None, vec![]),
        item(AgentType::ProductManager, "second", 8, None, vec![]),
        item(AgentType::UXExpert, "third", 7, None, vec![]),
        item(AgentType::Developer, "fourth", 6, None, vec![]),
    ];
    let summary = manager().summarize(&state, &advice);
    let expected = "# BMAD Workflow Summary\n\n**Current Phase:** Development\n**Project State:** Development\n**Active Story:** S6\n\n## Recommended Next Actions\n1. **QA** - first (Priority: 9/10)\n2. **Product Manager** - second (Priority: 8/10)\n3. **UX Expert** - third (Priority: 7/10)\n\n## Recent Activity\n- 11/14 22:19 - Started story: S6 (Analyst)\n- 11/14 22:18 - Started story: S5 (Analyst)\n- 11/14 22:17 - Started story: S4 (Analyst)\n- 11/14 22:16 - Started story: S3 (Analyst)\n- 11/14 22:15 - Started story: S2 (Analyst)\n";
    assert_eq!(summary, expected);
}

#[test]
fn summary_of_an_empty_project() {
    let state = state_in(BMadPhase::Complete, ProjectStateType::Complete);
    let summary = manager().get_workflow_summary(&state, &no_artifacts());
    assert_eq!(
        summary,
        "# BMAD Workflow Summary\n\n**Current Phase:** Complete\n**Project State:** Complete\n\n## Recommended Next Actions\n1. **Product Owner** - Project review and stakeholder sign-off (Priority: 5/10)\n\n## Recent Activity\n"
    );
}

#[test]
fn status_of_an_agent_is_set_with_task_and_instant() {
    let mut state = state_in(BMadPhase::Planning, ProjectStateType::Planning);
    manager().update_agent_status(&mut state, AgentType::Architect, AgentStatusType::Waiting, Some("wait".to_string()), now());
    assert_eq!(state.agents.architect.status, AgentStatusType::Waiting);
    assert_eq!(state.agents.architect.current_task.as_deref(), Some("wait"));
    assert_eq!(state.agents.architect.last_activity, Some(now()));
    assert_eq!(state.agents.get(AgentType::Architect).unwrap().status, AgentStatusType::Waiting);
    assert!(state.agents.get(AgentType::BMadOrchestrator).is_none());
}

#[test]
fn the_paths_of_the_artifacts_follow_the_story() {
    let mut state = state_in(BMadPhase::Development, ProjectStateType::Development);
    let paths = manager().artifact_paths(&state);
    assert_eq!(paths.requirements_doc, "docs/prd.md");
    assert_eq!(paths.architecture_doc, "docs/architecture.md");
    assert_eq!(paths.stories_directory, "docs/stories");
    assert_eq!(paths.designs, "docs/designs");
    assert_eq!(paths.mockups, "docs/mockups");
    assert_eq!(paths.wireframes, "docs/wireframes");
    assert_eq!(paths.story_implementation, None);
    assert_eq!(paths.story_tests, None);
    assert_eq!(paths.story_document, None);
    state.active_story = Some("Login Form V2".to_string());
    let paths = manager().artifact_paths(&state);
    assert_eq!(manager().slug("Login Form V2"), "login_form_v2");
    assert_eq!(paths.story_implementation.as_deref(), Some("src/login_form_v2"));
    assert_eq!(paths.story_tests.as_deref(), Some("tests/login_form_v2"));
    assert_eq!(paths.story_document.as_deref(), Some("docs/stories/login_form_v2.md"));
}

#[test]
fn a_story_file_makes_the_backlog_ready() {
    let m = manager();
    assert!(!m.has_ready_stories(&Vec::new()));
    assert!(!m.has_ready_stories(&vec!["notes.txt".to_string(), ".md".to_string()]));
    assert!(m.has_ready_stories(&vec!["notes.txt".to_string(), "login.md".to_string()]));
}

#[test]
fn words_of_interface_and_design_work() {
    for word in ["ui", "interface", "design", "user", "frontend", "page", "component"] {
        assert!(speaks_of_interface(&format!("the {} story", word)));
    }
    for word in ["interface", "design", "user", "frontend", "page", "component", "layout", "form"] {
        assert!(speaks_of_design(&format!("the {} story", word)));
    }
    assert!(!speaks_of_interface("login form"));
    assert!(!speaks_of_design("build the ui"));
    assert!(speaks_of_interface("build"));
    assert!(!speaks_of_interface("database index"));
    assert!(!speaks_of_design("FORM"));
}

#[test]
fn a_ranked_list_stays_as_it_is() {
    let m = manager();
    let list = || {
        vec![
            item(AgentType::Architect, "b", 7, None, vec!["x"]),
            item(AgentType::ProductOwner, "d", 7, None, vec!["x"]),
            item(AgentType::Developer, "c", 5, None, vec![]),
            item(AgentType::Analyst, "a", 5, None, vec!["x"]),
        ]
    };
    let once: Vec<String> = m.rank(list()).iter().map(|r| r.reason.clone()).collect();
    let twice: Vec<String> = m.rank(m.rank(list())).iter().map(|r| r.reason.clone()).collect();
    assert_eq!(once, vec!["b", "d", "c", "a"]);
    assert_eq!(once, twice);
    assert!(m.rank(Vec::new()).is_empty());
}

#[test]
fn roles_are_shown_by_their_display_names() {
    let m = manager();
    assert_eq!(m.agent_display_name(&AgentType::QualityAssurance), "QA");
    assert_eq!(m.agent_display_name(&AgentType::ProductManager), "Product Manager");
    assert_eq!(m.agent_display_name(&AgentType::BMadOrchestrator), "BMAD Orchestrator");
    assert_eq!(AgentType::UXExpert.name(), "UXExpert");
    assert_eq!(BMadPhase::StoryCreation.name(), "StoryCreation");
    assert_eq!(ProjectStateType::OnHold.name(), "OnHold");
    assert_eq!(MessageStatus::Processed.name(), "Processed");
}
