use bmad::clock::Timestamp;
use bmad::file_watcher::{
    ChangedPath, FileWatcher, FoundEntry, ScaffoldStep, StructureProbes, INITIAL_SESSION,
    INITIAL_STATE, MAX_DISCOVERY_DEPTH,
};
use bmad::project::{ProjectCreationRequest, ProjectManager, ProjectMetadata, StatisticValue};
use bmad::state_manager::{RawProjectState, StateDocument, StateManager};
use bmad::types::{
    AgentStatuses, AgentType, BMadError, BMadPhase, BMadProject, ProjectSettings, ProjectState,
    ProjectStateType,
};
use bmad::workflow::WorkflowTransition;

const NOW: i64 = 1_700_000_000;

fn state_in(phase: BMadPhase) -> ProjectState {
    ProjectState {
        bmad_version: "1.0.0".to_string(),
        project_state: ProjectStateType::Development,
        current_phase: phase,
        active_story: None,
        next_actions: Vec::new(),
        workflow_history: Vec::new(),
        agents: AgentStatuses::all_idle(),
    }
}

fn request(name: &str, path: &str) -> ProjectCreationRequest {
    let mut request = ProjectCreationRequest::default();
    request.name = name.to_string();
    request.path = path.to_string();
    request
}

fn entry(depth: usize, name: &str, parent: &str, state_file: bool) -> FoundEntry {
    FoundEntry {
        depth,
        is_directory: true,
        file_name: Some(name.to_string()),
        has_state_file: state_file,
        parent: Some(parent.to_string()),
    }
}

#[test]
fn a_request_has_standard_values() {
    let request = ProjectCreationRequest::default();
    assert_eq!(request.name, "New BMAD Project");
    assert_eq!(request.path, "");
    assert_eq!(request.description, None);
    assert_eq!(request.ide_preference, None);
    assert!(request.auto_trigger_agents);
    assert!(request.notification_settings.desktop_notifications);
    assert!(request.notification_settings.blockers);
    assert!(request.quality_gates.require_tests);
    assert!(!request.quality_gates.require_security_review);
    let standard = ProjectSettings::standard();
    assert_eq!(standard.notification_settings, request.notification_settings);
    assert_eq!(standard.quality_gates, request.quality_gates);
}

#[test]
fn creation_needs_a_directory_without_a_project() {
    let manager = ProjectManager::new();
    let request = request("Shop", "/work/shop");
    assert!(manager.check_creation(&request, true, false).is_ok());
    match manager.check_creation(&request, false, false) {
        Err(BMadError::ProjectNotFound(why)) => {
            assert_eq!(why, "Project directory does not exist: \"/work/shop\"");
        }
        _ => panic!("expected a missing project"),
    }
    match manager.check_creation(&request, true, true) {
        Err(BMadError::InvalidProjectState(why)) => {
            assert_eq!(why, "BMAD project already exists at: \"/work/shop\"");
        }
        _ => panic!("expected an invalid project state"),
    }
    assert!(matches!(manager.check_creation(&request, false, true), Err(BMadError::ProjectNotFound(_))));
}

#[test]
fn a_project_is_not_created_without_its_directory() {
    let mut manager = ProjectManager::new();
    match manager.create_project(request("Shop", "/work/shop"), false, false, state_in(BMadPhase::Planning)) {
        Err(BMadError::ProjectNotFound(why)) => {
            assert_eq!(why, "Project directory does not exist: \"/work/shop\"");
        }
        _ => panic!("expected a missing project"),
    }
    assert_eq!(manager.len(), 0);
    match manager.create_project_at(request("Shop", "/work/shop"), false, true, state_in(BMadPhase::Planning), 7, Timestamp::new(NOW, 0)) {
        Err(BMadError::ProjectNotFound(_)) => {}
        _ => panic!("expected a missing project"),
    }
    assert_eq!(manager.len(), 0);
    assert!(manager.get_project(7).is_none());
}

#[test]
fn a_project_is_not_created_over_another() {
    let mut manager = ProjectManager::new();
    manager.create_project_at(request("A", "/a"), true, false, state_in(BMadPhase::Planning), 1, Timestamp::new(NOW, 0)).unwrap();
    match manager.create_project(request("Shop", "/work/shop"), true, true, state_in(BMadPhase::Planning)) {
        Err(BMadError::InvalidProjectState(why)) => {
            assert_eq!(why, "BMAD project already exists at: \"/work/shop\"");
        }
        _ => panic!("expected an invalid project state"),
    }
    assert_eq!(manager.len(), 1);
    assert_eq!(manager.get_project(1).unwrap().name, "A");
    match manager.create_project_at(request("B", "/b"), true, true, state_in(BMadPhase::Planning), 1, Timestamp::new(NOW, 0)) {
        Err(BMadError::InvalidProjectState(_)) => {}
        _ => panic!("expected an invalid project state"),
    }
    assert_eq!(manager.get_project(1).unwrap().name, "A");
}

#[test]
fn a_created_project_is_registered() {
    let mut manager = ProjectManager::new();
    assert_eq!(manager.len(), 0);
    let mut asked = request("Shop", "/work/shop");
    asked.ide_preference = Some("vim".to_string());
    asked.auto_trigger_agents = false;
    let project = manager.create_project_at(asked, true, false, state_in(BMadPhase::Planning), 42, Timestamp::new(NOW, 0)).unwrap();
    assert_eq!(project.id, 42);
    assert_eq!(project.name, "Shop");
    assert_eq!(project.path, "/work/shop");
    assert_eq!(project.created_at, Timestamp::new(NOW, 0));
    assert_eq!(project.last_modified, Timestamp::new(NOW, 0));
    assert!(project.communications.is_empty());
    assert_eq!(project.settings.ide_preference.as_deref(), Some("vim"));
    assert!(!project.settings.auto_trigger_agents);
    assert_eq!(manager.len(), 1);
    assert_eq!(manager.get_project(42).unwrap().name, "Shop");
    assert!(manager.get_project(43).is_none());
    let other = manager.create_project(request("Blog", "/work/blog"), true, false, state_in(BMadPhase::Complete)).unwrap().id;
    assert_eq!(manager.len(), 2);
    assert_eq!(manager.get_project(other).unwrap().name, "Blog");
}

#[test]
fn one_project_is_active() {
    let mut manager = ProjectManager::new();
    assert!(manager.get_active_project().is_none());
    manager.create_project_at(request("A", "/a"), true, false, state_in(BMadPhase::Planning), 1, Timestamp::new(NOW, 0)).unwrap();
    manager.create_project_at(request("B", "/b"), true, false, state_in(BMadPhase::Planning), 2, Timestamp::new(NOW, 0)).unwrap();
    assert!(manager.set_active_project(1).is_ok());
    assert_eq!(manager.get_active_project().unwrap().name, "A");
    assert!(manager.set_active_project(2).is_ok());
    assert_eq!(manager.get_active_project().unwrap().name, "B");
    match manager.set_active_project(3) {
        Err(BMadError::ProjectNotFound(why)) => {
            assert_eq!(why, "Project not found: 00000000-0000-0000-0000-000000000003");
        }
        _ => panic!("expected a missing project"),
    }
    assert_eq!(manager.get_active_project().unwrap().name, "B");
}

#[test]
fn a_deleted_project_is_gone_and_no_longer_active() {
    let mut manager = ProjectManager::new();
    manager.create_project_at(request("A", "/a"), true, false, state_in(BMadPhase::Planning), 1, Timestamp::new(NOW, 0)).unwrap();
    manager.create_project_at(request("B", "/b"), true, false, state_in(BMadPhase::Planning), 2, Timestamp::new(NOW, 0)).unwrap();
    manager.set_active_project(1).unwrap();
    let gone = manager.delete_project(2).unwrap();
    assert_eq!(gone.name, "B");
    assert_eq!(manager.get_active_project().unwrap().name, "A");
    let gone = manager.delete_project(1).unwrap();
    assert_eq!(gone.path, "/a");
    assert!(manager.get_active_project().is_none());
    assert_eq!(manager.len(), 0);
    assert!(matches!(manager.delete_project(1), Err(BMadError::ProjectNotFound(_))));
}

#[test]
fn a_project_is_read_anew() {
    let mut manager = ProjectManager::new();
    manager.create_project_at(request("A", "/a"), true, false, state_in(BMadPhase::Planning), 1, Timestamp::new(NOW, 0)).unwrap();
    let later = Timestamp::new(NOW + 5, 0);
    assert!(manager.load_project_at(1, state_in(BMadPhase::Development), Vec::new(), later).is_ok());
    let project = manager.get_project(1).unwrap();
    assert_eq!(project.state.current_phase, BMadPhase::Development);
    assert_eq!(project.last_modified, later);
    assert_eq!(project.created_at, Timestamp::new(NOW, 0));
    assert_eq!(project.name, "A");
    assert!(manager.load_project(1, state_in(BMadPhase::Complete), Vec::new()).is_ok());
    assert!(manager.refresh_project(1, state_in(BMadPhase::QualityAssurance), Vec::new()).is_ok());
    assert_eq!(manager.get_project(1).unwrap().state.current_phase, BMadPhase::QualityAssurance);
    assert!(matches!(
        manager.load_project_at(9, state_in(BMadPhase::Planning), Vec::new(), later),
        Err(BMadError::ProjectNotFound(_))
    ));
    assert!(manager.refresh_project(9, state_in(BMadPhase::Planning), Vec::new()).is_err());
}

#[test]
fn settings_are_replaced() {
    let mut manager = ProjectManager::new();
    manager.create_project_at(request("A", "/a"), true, false, state_in(BMadPhase::Planning), 1, Timestamp::new(NOW, 0)).unwrap();
    let mut settings = ProjectSettings::standard();
    settings.ide_preference = Some("emacs".to_string());
    settings.quality_gates.require_security_review = true;
    let later = Timestamp::new(NOW + 9, 0);
    assert!(manager.update_project_settings_at(1, settings.duplicate(), later).is_ok());
    let project = manager.get_project(1).unwrap();
    assert_eq!(project.settings.ide_preference.as_deref(), Some("emacs"));
    assert!(project.settings.quality_gates.require_security_review);
    assert_eq!(project.last_modified, later);
    assert!(manager.update_project_settings(1, ProjectSettings::standard()).is_ok());
    assert_eq!(manager.get_project(1).unwrap().settings.ide_preference, None);
    assert!(matches!(
        manager.update_project_settings(2, ProjectSettings::standard()),
        Err(BMadError::ProjectNotFound(_))
    ));
}

#[test]
fn projects_are_listed_and_counted() {
    let mut manager = ProjectManager::new();
    let at = Timestamp::new(NOW, 0);
    manager.create_project_at(request("A", "/a"), true, false, state_in(BMadPhase::Planning), 1, at).unwrap();
    manager.create_project_at(request("B", "/b"), true, false, state_in(BMadPhase::Development), 2, at).unwrap();
    manager.create_project_at(request("C", "/c"), true, false, state_in(BMadPhase::Development), 3, at).unwrap();
    manager.create_project_at(request("D", "/d"), true, false, state_in(BMadPhase::StoryCreation), 4, at).unwrap();
    let mut names: Vec<String> = manager.list_projects().iter().map(|p| p.name.clone()).collect();
    names.sort();
    assert_eq!(names, vec!["A", "B", "C", "D"]);
    let statistics = manager.get_project_statistics();
    let shown: Vec<(String, String)> = statistics
        .iter()
        .map(|(k, v)| {
            (
                k.clone(),
                match v {
                    StatisticValue::Number(n) => n.to_string(),
                    StatisticValue::Text(t) => t.clone(),
                },
            )
        })
        .collect();
    let expected: Vec<(String, String)> = [
        ("total_projects", "4"),
        ("active_project", "None"),
        ("projects_in_planning", "1"),
        ("projects_in_storycreation", "1"),
        ("projects_in_development", "2"),
    ]
    .iter()
    .map(|(k, v)| (k.to_string(), v.to_string()))
    .collect();
    assert_eq!(shown, expected);
    manager.set_active_project(3).unwrap();
    match &manager.get_project_statistics()[1].1 {
        StatisticValue::Text(t) => assert_eq!(t, "00000000-0000-0000-0000-000000000003"),
        _ => panic!("expected a text"),
    }
    assert_eq!(ProjectManager::new().get_project_statistics().len(), 2);
}

#[test]
fn the_summary_of_a_project_shows_its_metadata() {
    let mut manager = ProjectManager::new();
    manager.create_project_at(request("Shop", "/work/shop"), true, false, state_in(BMadPhase::Planning), 1, Timestamp::new(NOW, 0)).unwrap();
    manager.load_project_at(1, state_in(BMadPhase::Planning), Vec::new(), Timestamp::new(NOW + 3_600, 0)).unwrap();
    assert_eq!(
        manager.get_project_summary(1, "# BMAD Workflow Summary\n").unwrap(),
        "# Project: Shop\n\n**Path:** \"/work/shop\"\n**Created:** 2023-11-14 22:13 UTC\n**Last Modified:** 2023-11-14 23:13 UTC\n\n# BMAD Workflow Summary\n"
    );
    assert!(matches!(manager.get_project_summary(2, ""), Err(BMadError::ProjectNotFound(_))));
}

#[test]
fn metadata_is_resolved_with_defaults() {
    let now = Timestamp::new(NOW, 0);
    let full = ProjectMetadata {
        id: Some("550e8400-e29b-41d4-a716-446655440000".to_string()),
        name: Some("Shop".to_string()),
        created_at: Some("2020-01-01T00:00:00Z".to_string()),
        settings: Some(ProjectSettings {
            ide_preference: Some("vim".to_string()),
            ..ProjectSettings::standard()
        }),
    };
    let (id, name, created, settings) = ProjectManager::load_project_metadata(full, 7, now);
    assert_eq!(id, 0x550e8400_e29b_41d4_a716_446655440000);
    assert_eq!(name, "Shop");
    assert_eq!(created, Timestamp::new(1_577_836_800, 0));
    assert_eq!(settings.ide_preference.as_deref(), Some("vim"));
    let broken = ProjectMetadata {
        id: Some("nothing".to_string()),
        name: None,
        created_at: Some("never".to_string()),
        settings: None,
    };
    let (id, name, created, settings) = ProjectManager::load_project_metadata(broken, 7, now);
    assert_eq!(id, 7);
    assert_eq!(name, "Unknown Project");
    assert_eq!(created, now);
    assert!(settings.auto_trigger_agents);
    assert_eq!(settings.ide_preference, None);
}

#[test]
fn a_found_project_takes_its_name_from_its_directory() {
    let now = Timestamp::new(NOW, 0);
    let found = ProjectManager::load_project_from_path("/work/shop", Some("shop"), state_in(BMadPhase::Planning), Vec::new(), None, 7, now);
    assert_eq!(found.id, 7);
    assert_eq!(found.name, "shop");
    assert_eq!(found.path, "/work/shop");
    assert_eq!(found.created_at, now);
    assert_eq!(found.last_modified, now);
    let nameless = ProjectManager::load_project_from_path("/", None, state_in(BMadPhase::Planning), Vec::new(), None, 8, now);
    assert_eq!(nameless.name, "Unknown Project");
    let document = ProjectManager::save_project_metadata(&found);
    assert_eq!(document.id.as_deref(), Some("00000000-0000-0000-0000-000000000007"));
    assert_eq!(document.name.as_deref(), Some("shop"));
    assert_eq!(document.created_at.as_deref(), Some("2023-11-14T22:13:20+00:00"));
    let later = Timestamp::new(NOW + 60, 0);
    let again = ProjectManager::load_project_from_path("/work/shop", Some("other"), state_in(BMadPhase::Planning), Vec::new(), Some(document), 9, later);
    assert_eq!(again.id, 7);
    assert_eq!(again.name, "shop");
    assert_eq!(again.created_at, now);
    assert_eq!(again.last_modified, later);
}

#[test]
fn found_projects_are_registered() {
    let mut manager = ProjectManager::new();
    let now = Timestamp::new(NOW, 0);
    let found: Vec<BMadProject> = (1..=3u128)
        .map(|id| ProjectManager::load_project_from_path("/p", Some("p"), state_in(BMadPhase::Planning), Vec::new(), None, id, now))
        .collect();
    assert_eq!(manager.discover_projects(found), 3);
    assert_eq!(manager.len(), 3);
    assert!(manager.get_project(2).is_some());
}

#[test]
fn a_project_is_valid_with_structure_and_state_document() {
    let parsed = StateDocument::Parsed(RawProjectState {
        bmad_version: String::new(),
        project_state: String::new(),
        current_phase: String::new(),
        active_story: None,
        phases: Vec::new(),
        next_actions: Vec::new(),
        agents: Vec::new(),
    });
    assert!(ProjectManager::validate_project(true, &parsed));
    assert!(!ProjectManager::validate_project(false, &parsed));
    assert!(!ProjectManager::validate_project(true, &StateDocument::Missing));
    assert!(!ProjectManager::validate_project(true, &StateDocument::Malformed("bad".to_string())));
    let _ = StateManager::new();
}

#[test]
fn discovery_stops_at_the_depth_limit() {
    assert_eq!(MAX_DISCOVERY_DEPTH, 5);
    let entries = vec![
        FoundEntry { depth: 0, is_directory: true, file_name: Some("root".to_string()), has_state_file: false, parent: None },
        entry(5, ".bmad", "/root/a/b/c/near", true),
        entry(6, ".bmad", "/root/a/b/c/d/far", true),
    ];
    let roots = FileWatcher::discover_bmad_projects("/root", true, &entries).unwrap();
    assert_eq!(roots, vec!["/root/a/b/c/near".to_string()]);
}

#[test]
fn discovery_takes_coordination_directories_with_a_state_file() {
    let mut file = entry(2, ".bmad", "/root/file", true);
    file.is_directory = false;
    let mut orphan = entry(1, ".bmad", "", true);
    orphan.parent = None;
    let entries = vec![
        entry(1, ".bmad", "/root", true),
        entry(2, ".bmad", "/root/empty", false),
        entry(2, "bmad", "/root/other", true),
        file,
        orphan,
        entry(3, ".bmad", "/root/x/y", true),
    ];
    assert_eq!(
        FileWatcher::discover_bmad_projects("/root", true, &entries).unwrap(),
        vec!["/root".to_string(), "/root/x/y".to_string()]
    );
    match FileWatcher::discover_bmad_projects("/gone", false, &entries) {
        Err(e @ BMadError::FileSystem(_)) => {
            assert_eq!(e.message(), "File system error: Root directory does not exist: \"/gone\"");
        }
        _ => panic!("expected a file system error"),
    }
}

#[test]
fn only_changes_of_coordination_files_matter() {
    assert!(FileWatcher::is_bmad_relevant_file(Some("state.yaml"), "/p/.bmad/state.yaml"));
    assert!(FileWatcher::is_bmad_relevant_file(Some("session.yaml"), "/p/.bmad/session.yaml"));
    assert!(FileWatcher::is_bmad_relevant_file(Some("dev-to-qa.md"), "/p/.bmad/communications/dev-to-qa.md"));
    assert!(FileWatcher::is_bmad_relevant_file(Some("a.txt"), "/p/.bmad/context/a.txt"));
    assert!(FileWatcher::is_bmad_relevant_file(Some("x.log"), "/p/.bmad/logs/deep/x.log"));
    assert!(!FileWatcher::is_bmad_relevant_file(Some("project.yaml"), "/p/.bmad/project.yaml"));
    assert!(!FileWatcher::is_bmad_relevant_file(Some("state.yaml.backup"), "/p/.bmad/state.yaml.backup"));
    assert!(!FileWatcher::is_bmad_relevant_file(Some("communications"), "/p/.bmad/communications"));
    assert!(!FileWatcher::is_bmad_relevant_file(None, "/p/.bmad/logs/.."));
    let changed = vec![
        ChangedPath { file_name: Some("main.rs".to_string()), path: "/p/src/main.rs".to_string() },
        ChangedPath { file_name: Some("state.yaml".to_string()), path: "/p/.bmad/state.yaml".to_string() },
        ChangedPath { file_name: None, path: "/p/.bmad/context/..".to_string() },
        ChangedPath { file_name: Some("n.md".to_string()), path: "/p/.bmad/context/n.md".to_string() },
    ];
    assert_eq!(
        FileWatcher::process_event(&changed),
        vec!["/p/.bmad/state.yaml".to_string(), "/p/.bmad/context/n.md".to_string()]
    );
}

#[test]
fn the_structure_of_a_project_is_checked_by_presence() {
    let mut probes = StructureProbes { coordination_directory: true, state_file: true, session_file: false, communications_directory: true };
    assert!(FileWatcher::validate_bmad_project(&probes));
    probes.communications_directory = false;
    assert!(!FileWatcher::validate_bmad_project(&probes));
    probes.communications_directory = true;
    probes.state_file = false;
    assert!(!FileWatcher::validate_bmad_project(&probes));
    probes.state_file = true;
    probes.coordination_directory = false;
    assert!(!FileWatcher::validate_bmad_project(&probes));
}

#[test]
fn a_new_project_is_given_directories_and_documents() {
    let nothing = StructureProbes { coordination_directory: false, state_file: false, session_file: false, communications_directory: false };
    let steps = FileWatcher::create_bmad_structure(&nothing);
    let shown: Vec<String> = steps
        .iter()
        .map(|s| match s {
            ScaffoldStep::CreateDirectory(path) => format!("dir {}", path),
            ScaffoldStep::WriteFile(path, content) => format!("file {} {}", path, content.len()),
        })
        .collect();
    assert_eq!(
        shown,
        vec![
            "dir .bmad".to_string(),
            "dir .bmad/communications".to_string(),
            "dir .bmad/context".to_string(),
            "dir .bmad/logs".to_string(),
            format!("file .bmad/state.yaml {}", INITIAL_STATE.len()),
            format!("file .bmad/session.yaml {}", INITIAL_SESSION.len()),
        ]
    );
    assert!(INITIAL_STATE.starts_with("bmad_version: \"1.0.0\"\nproject_state: \"initializing\"\n"));
    assert!(INITIAL_STATE.ends_with("  ux_expert:\n    status: \"idle\"\n    current_task: null\n    last_activity: null\n"));
    assert_eq!(INITIAL_SESSION, "session_id: null\nstarted_at: null\nlast_activity: null\nactive_agents: []\nsession_notes: \"\"\n");
    let there = StructureProbes { coordination_directory: true, state_file: true, session_file: true, communications_directory: true };
    assert_eq!(FileWatcher::create_bmad_structure(&there).len(), 4);
    let half = StructureProbes { session_file: false, ..there };
    let steps = FileWatcher::create_bmad_structure(&half);
    assert_eq!(steps.len(), 5);
    assert!(matches!(&steps[4], ScaffoldStep::WriteFile(path, _) if path == ".bmad/session.yaml"));
}

#[test]
fn watched_directories_are_kept_by_project() {
    let mut watcher = FileWatcher::new();
    assert!(watcher.watch_project(1, "/a/.bmad", true).is_ok());
    match watcher.watch_project(2, "/b/.bmad", false) {
        Err(BMadError::ProjectNotFound(why)) => assert_eq!(why, "BMAD directory not found: \"/b/.bmad\""),
        _ => panic!("expected a missing project"),
    }
    assert_eq!(watcher.unwatch_project(2), None);
    assert_eq!(watcher.unwatch_project(1).as_deref(), Some("/a/.bmad"));
    assert_eq!(watcher.unwatch_project(1), None);
}

#[test]
fn a_transition_names_its_phases_and_agent() {
    let step = WorkflowTransition {
        from_phase: BMadPhase::Planning,
        to_phase: BMadPhase::StoryCreation,
        trigger_agent: AgentType::ScrumMaster,
        required_artifacts: vec!["docs/prd.md".to_string()],
        validation_checks: Vec::new(),
    };
    assert_eq!(step.to_phase, BMadPhase::StoryCreation);
    assert_eq!(step.trigger_agent, AgentType::ScrumMaster);
}
