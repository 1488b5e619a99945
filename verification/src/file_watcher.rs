//! The rules of the project tree: which changed paths matter, which
//! directories are projects, what a new project is given, and which
//! projects are watched. The watching itself is done elsewhere; here it
//! is decided what to watch and what to pass on.
use std::collections::HashMap;
use vstd::prelude::*;
use vstd::string::StringExecFns;

use crate::text::{contains_text, debug_text, holds, opt_text, quoted, str_equals, to_chars};
use crate::types::BMadError;

verus! {

broadcast use vstd::std_specs::hash::group_hash_axioms;

/// How deep below a root a coordination directory may lie to be found.
pub const MAX_DISCOVERY_DEPTH: usize = 5;

/// How often the watcher looks at the trees, in milliseconds.
pub const POLL_INTERVAL_MILLIS: u64 = 500;

/// How many changes wait for a listener before the oldest is dropped.
pub const EVENT_QUEUE_CAPACITY: usize = 100;

/// The name of the coordination directory of a project.
pub const COORDINATION_DIRECTORY: &'static str = ".bmad";

/// The state document that a new project is given.
pub const INITIAL_STATE: &'static str =
    "bmad_version: \"1.0.0\"\nproject_state: \"initializing\"\ncurrent_phase: \"planning\"\nactive_story: null\n\nphases:\n  planning:\n    status: \"not_started\"\n    artifacts: []\n  \n  story_creation:\n    status: \"not_started\"\n    stories_created: 0\n    stories_ready: 0\n  \n  story_execution:\n    status: \"not_started\"\n    current_story: null\n    assigned_agent: null\n\nnext_actions: []\n\nagents:\n  analyst:\n    status: \"idle\"\n    current_task: null\n    last_activity: null\n  architect:\n    status: \"idle\"\n    current_task: null\n    last_activity: null\n  product_manager:\n    status: \"idle\"\n    current_task: null\n    last_activity: null\n  product_owner:\n    status: \"idle\"\n    current_task: null\n    last_activity: null\n  scrum_master:\n    status: \"idle\"\n    current_task: null\n    last_activity: null\n  developer:\n    status: \"idle\"\n    current_task: null\n    last_activity: null\n  quality_assurance:\n    status: \"idle\"\n    current_task: null\n    last_activity: null\n  ux_expert:\n    status: \"idle\"\n    current_task: null\n    last_activity: null\n";

/// The session document that a new project is given.
pub const INITIAL_SESSION: &'static str =
    "session_id: null\nstarted_at: null\nlast_activity: null\nactive_agents: []\nsession_notes: \"\"\n";

/// A path of which a change was reported: the whole path and its last
/// component, where it has one.
#[derive(Debug, Clone)]
pub struct ChangedPath {
    pub file_name: Option<String>,
    pub path: String,
}

impl View for ChangedPath {
    type V = (Option<Seq<char>>, Seq<char>);

    open spec fn view(&self) -> (Option<Seq<char>>, Seq<char>) {
        (opt_text(self.file_name), self.path@)
    }
}

/// What a walk of a tree found at one place.
#[derive(Debug, Clone)]
pub struct FoundEntry {
    /// How many levels below the root the entry lies; the root lies at 0.
    pub depth: usize,
    pub is_directory: bool,
    /// The last component of the path of the entry.
    pub file_name: Option<String>,
    /// Whether the entry is a directory that holds a state file.
    pub has_state_file: bool,
    /// The path of the directory that holds the entry.
    pub parent: Option<String>,
}

pub struct FoundEntryView {
    pub depth: usize,
    pub is_directory: bool,
    pub file_name: Option<Seq<char>>,
    pub has_state_file: bool,
    pub parent: Option<Seq<char>>,
}

impl View for FoundEntry {
    type V = FoundEntryView;

    open spec fn view(&self) -> FoundEntryView {
        FoundEntryView {
            depth: self.depth,
            is_directory: self.is_directory,
            file_name: opt_text(self.file_name),
            has_state_file: self.has_state_file,
            parent: opt_text(self.parent),
        }
    }
}

/// What is there of the structure of a project.
#[derive(Debug, Clone, Copy, PartialEq, Eq, Structural)]
pub struct StructureProbes {
    /// The coordination directory exists.
    pub coordination_directory: bool,
    /// The state file exists.
    pub state_file: bool,
    /// The session file exists.
    pub session_file: bool,
    /// The communications directory exists.
    pub communications_directory: bool,
}

/// A step that gives a project its structure. Paths are given from the
/// root of the project, with `/` between their components.
#[derive(Debug, Clone)]
pub enum ScaffoldStep {
    /// Make a directory, with those above it, unless it is there.
    CreateDirectory(String),
    /// Write a file.
    WriteFile(String, String),
}

/// A step as the characters of its texts.
pub enum ScaffoldStepView {
    CreateDirectory(Seq<char>),
    WriteFile(Seq<char>, Seq<char>),
}

impl View for ScaffoldStep {
    type V = ScaffoldStepView;

    open spec fn view(&self) -> ScaffoldStepView {
        match self {
            ScaffoldStep::CreateDirectory(path) => ScaffoldStepView::CreateDirectory(path@),
            ScaffoldStep::WriteFile(path, content) => ScaffoldStepView::WriteFile(
                path@,
                content@,
            ),
        }
    }
}

/// The views of a list of steps.
pub open spec fn step_views(steps: Seq<ScaffoldStep>) -> Seq<ScaffoldStepView> {
    Seq::new(steps.len(), |i: int| steps[i]@)
}

/// The views of a list of changed paths.
pub open spec fn path_views(paths: Seq<ChangedPath>) -> Seq<(Option<Seq<char>>, Seq<char>)> {
    Seq::new(paths.len(), |i: int| paths[i]@)
}

/// The views of a list of found entries.
pub open spec fn entry_views(entries: Seq<FoundEntry>) -> Seq<FoundEntryView> {
    Seq::new(entries.len(), |i: int| entries[i]@)
}

/// The views of a list of texts.
pub open spec fn text_views(items: Seq<String>) -> Seq<Seq<char>> {
    Seq::new(items.len(), |i: int| items[i]@)
}

/// Whether a change of a path matters: the path has a last component,
/// and it is the state file or the session file, or the path lies under
/// the communications, the context or the logs of a project.
pub open spec fn is_relevant(file_name: Option<Seq<char>>, path: Seq<char>) -> bool {
    file_name matches Some(name) && (name == "state.yaml"@ || name == "session.yaml"@
        || contains_text(path, ".bmad/communications/"@) || contains_text(path, ".bmad/context/"@)
        || contains_text(path, ".bmad/logs/"@))
}

/// The paths whose change matters, in their order.
pub open spec fn relevant_paths(paths: Seq<(Option<Seq<char>>, Seq<char>)>) -> Seq<Seq<char>>
    decreases paths.len(),
{
    if paths.len() == 0 {
        Seq::empty()
    } else if is_relevant(paths.last().0, paths.last().1) {
        relevant_paths(paths.drop_last()).push(paths.last().1)
    } else {
        relevant_paths(paths.drop_last())
    }
}

/// Whether an entry of a walk is the coordination directory of a project
/// that is to be found: a directory of that name, not deeper than the
/// limit, which holds a state file and lies in some directory.
pub open spec fn marks_project(entry: FoundEntryView) -> bool {
    &&& entry.depth <= MAX_DISCOVERY_DEPTH
    &&& entry.is_directory
    &&& entry.file_name == Some(COORDINATION_DIRECTORY@)
    &&& entry.has_state_file
    &&& entry.parent is Some
}

/// The roots of the projects that a walk found, in its order: for each
/// coordination directory the directory that holds it.
pub open spec fn project_roots(entries: Seq<FoundEntryView>) -> Seq<Seq<char>>
    decreases entries.len(),
{
    if entries.len() == 0 {
        Seq::empty()
    } else if marks_project(entries.last()) {
        project_roots(entries.drop_last()).push(entries.last().parent->0)
    } else {
        project_roots(entries.drop_last())
    }
}

/// What discovery fails with where the root is missing.
pub open spec fn root_missing(root: Seq<char>) -> Seq<char> {
    "Root directory does not exist: "@ + debug_text(root)
}

/// What watching fails with where the coordination directory is missing.
pub open spec fn coordination_missing(directory: Seq<char>) -> Seq<char> {
    "BMAD directory not found: "@ + debug_text(directory)
}

/// The steps that give a project its structure: the four directories,
/// and the state file and the session file where they are not there yet.
pub open spec fn scaffold(probes: StructureProbes) -> Seq<ScaffoldStepView> {
    seq![
        ScaffoldStepView::CreateDirectory(".bmad"@),
        ScaffoldStepView::CreateDirectory(".bmad/communications"@),
        ScaffoldStepView::CreateDirectory(".bmad/context"@),
        ScaffoldStepView::CreateDirectory(".bmad/logs"@),
    ] + (if probes.state_file {
        Seq::empty()
    } else {
        seq![ScaffoldStepView::WriteFile(".bmad/state.yaml"@, INITIAL_STATE@)]
    }) + (if probes.session_file {
        Seq::empty()
    } else {
        seq![ScaffoldStepView::WriteFile(".bmad/session.yaml"@, INITIAL_SESSION@)]
    })
}

/// The coordination directories that are watched, by the identifiers of
/// their projects.
#[derive(Debug)]
pub struct FileWatcher {
    watched_projects: HashMap<u128, String>,
}

impl FileWatcher {
    /// The watched directories by the identifiers of their projects.
    pub closed spec fn watched(&self) -> Map<u128, Seq<char>> {
        self.watched_projects@.map_values(|path: String| path@)
    }

    /// The watcher that watches nothing.
    pub fn new() -> (watcher: FileWatcher)
        ensures
            watcher.watched() == Map::<u128, Seq<char>>::empty(),
    {
        let watcher = FileWatcher { watched_projects: HashMap::new() };
        assert(watcher.watched() =~= Map::<u128, Seq<char>>::empty());
        watcher
    }

    /// Takes the coordination directory of a project under watch. Fails
    /// where the directory does not exist.
    pub fn watch_project(&mut self, project_id: u128, coordination_directory: &str, exists: bool) -> (outcome:
        Result<(), BMadError>)
        ensures
            exists ==> outcome is Ok && final(self).watched() == old(self).watched().insert(
                project_id,
                coordination_directory@,
            ),
            !exists ==> final(self).watched() == old(self).watched() && (outcome matches Err(
                BMadError::ProjectNotFound(why),
            ) && why@ == coordination_missing(coordination_directory@)),
    {
        if !exists {
            let mut why = String::from_str("BMAD directory not found: ");
            why.append(quoted(coordination_directory).as_str());
            return Err(BMadError::ProjectNotFound(why));
        }
        let ghost before = self.watched();
        self.watched_projects.insert(project_id, String::from_str(coordination_directory));
        assert(self.watched() =~= before.insert(project_id, coordination_directory@));
        Ok(())
    }

    /// Takes a project from under watch, and hands back the directory
    /// that was watched for it, if one was.
    pub fn unwatch_project(&mut self, project_id: u128) -> (directory: Option<String>)
        ensures
            final(self).watched() == old(self).watched().remove(project_id),
            match directory {
                Some(path) => old(self).watched().contains_key(project_id) && path@ == old(
                    self,
                ).watched()[project_id],
                None => !old(self).watched().contains_key(project_id),
            },
    {
        let ghost before = self.watched();
        let directory = self.watched_projects.remove(&project_id);
        assert(self.watched() =~= before.remove(project_id));
        directory
    }

    /// Whether a change of a path matters.
    pub fn is_bmad_relevant_file(file_name: Option<&str>, path: &str) -> (relevant: bool)
        ensures
            relevant == is_relevant(
                match file_name {
                    Some(name) => Some(name@),
                    None => None,
                },
                path@,
            ),
    {
        match file_name {
            Some(name) => {
                if str_equals(name, "state.yaml") || str_equals(name, "session.yaml") {
                    return true;
                }
                let text = to_chars(path);
                holds(&text, ".bmad/communications/") || holds(&text, ".bmad/context/") || holds(
                    &text,
                    ".bmad/logs/",
                )
            },
            None => false,
        }
    }

    /// The paths of a reported change that are passed on to those who
    /// listen, in their order.
    pub fn process_event(paths: &Vec<ChangedPath>) -> (passed: Vec<String>)
        ensures
            text_views(passed@) == relevant_paths(path_views(paths@)),
    {
        let ghost all = path_views(paths@);
        let mut passed: Vec<String> = Vec::new();
        let mut i: usize = 0;
        assert(all.take(0) =~= Seq::empty());
        while i < paths.len()
            invariant
                i <= paths@.len(),
                all == path_views(paths@),
                text_views(passed@) == relevant_paths(all.take(i as int)),
            decreases paths@.len() - i,
        {
            let changed = &paths[i];
            proof {
                assert(all.take(i + 1).drop_last() =~= all.take(i as int));
                assert(all.take(i + 1).last() == changed@);
            }
            let name = match &changed.file_name {
                Some(name) => Some(name.as_str()),
                None => None,
            };
            if Self::is_bmad_relevant_file(name, changed.path.as_str()) {
                passed.push(changed.path.clone());
                assert(text_views(passed@) =~= relevant_paths(all.take(i + 1)));
            }
            i += 1;
        }
        assert(all.take(i as int) =~= all);
        passed
    }

    /// The roots of the projects that a walk below `root` found. Fails
    /// where the root does not exist.
    pub fn discover_bmad_projects(root: &str, root_exists: bool, entries: &Vec<FoundEntry>) -> (outcome:
        Result<Vec<String>, BMadError>)
        ensures
            match outcome {
                Ok(roots) => root_exists && text_views(roots@) == project_roots(
                    entry_views(entries@),
                ),
                Err(BMadError::FileSystem(why)) => !root_exists && why@ == root_missing(root@),
                Err(_) => false,
            },
    {
        if !root_exists {
            let mut why = String::from_str("Root directory does not exist: ");
            why.append(quoted(root).as_str());
            return Err(BMadError::FileSystem(why));
        }
        let ghost all = entry_views(entries@);
        let mut roots: Vec<String> = Vec::new();
        let mut i: usize = 0;
        assert(all.take(0) =~= Seq::empty());
        while i < entries.len()
            invariant
                i <= entries@.len(),
                all == entry_views(entries@),
                text_views(roots@) == project_roots(all.take(i as int)),
            decreases entries@.len() - i,
        {
            let entry = &entries[i];
            proof {
                assert(all.take(i + 1).drop_last() =~= all.take(i as int));
                assert(all.take(i + 1).last() == entry@);
            }
            let named = match &entry.file_name {
                Some(name) => str_equals(name.as_str(), COORDINATION_DIRECTORY),
                None => false,
            };
            if entry.depth <= MAX_DISCOVERY_DEPTH && entry.is_directory && named
                && entry.has_state_file {
                match &entry.parent {
                    Some(parent) => {
                        roots.push(parent.clone());
                        assert(text_views(roots@) =~= project_roots(all.take(i + 1)));
                    },
                    None => {},
                }
            }
            i += 1;
        }
        assert(all.take(i as int) =~= all);
        Ok(roots)
    }

    /// Whether a directory holds the structure of a project: the
    /// coordination directory, the state file and the communications
    /// directory. What the files hold is not looked at.
    pub fn validate_bmad_project(probes: &StructureProbes) -> (valid: bool)
        ensures
            valid == (probes.coordination_directory && probes.state_file
                && probes.communications_directory),
    {
        probes.coordination_directory && probes.state_file && probes.communications_directory
    }

    /// The steps that give a project its structure. What is there
    /// already stays as it is.
    pub fn create_bmad_structure(probes: &StructureProbes) -> (steps: Vec<ScaffoldStep>)
        ensures
            step_views(steps@) == scaffold(*probes),
    {
        let mut steps: Vec<ScaffoldStep> = Vec::new();
        steps.push(ScaffoldStep::CreateDirectory(String::from_str(".bmad")));
        steps.push(ScaffoldStep::CreateDirectory(String::from_str(".bmad/communications")));
        steps.push(ScaffoldStep::CreateDirectory(String::from_str(".bmad/context")));
        steps.push(ScaffoldStep::CreateDirectory(String::from_str(".bmad/logs")));
        if !probes.state_file {
            steps.push(
                ScaffoldStep::WriteFile(
                    String::from_str(".bmad/state.yaml"),
                    String::from_str(INITIAL_STATE),
                ),
            );
        }
        if !probes.session_file {
            steps.push(
                ScaffoldStep::WriteFile(
                    String::from_str(".bmad/session.yaml"),
                    String::from_str(INITIAL_SESSION),
                ),
            );
        }
        assert(step_views(steps@) =~= scaffold(*probes));
        steps
    }
}

/// Every root that discovery gives is the directory of a coordination
/// directory that the walk found within the depth limit, with a state
/// file in it; what lies deeper is never found.
pub proof fn lemma_roots_lie_within_depth(entries: Seq<FoundEntryView>, k: int)
    requires
        0 <= k < project_roots(entries).len(),
    ensures
        exists|i: int|
            0 <= i < entries.len() && marks_project(#[trigger] entries[i]) && entries[i].depth
                <= MAX_DISCOVERY_DEPTH && entries[i].parent == Some(project_roots(entries)[k]),
    decreases entries.len(),
{
    let rest = entries.drop_last();
    if marks_project(entries.last()) && k == project_roots(rest).len() {
        assert(entries[entries.len() - 1] == entries.last());
    } else {
        lemma_roots_lie_within_depth(rest, k);
        let i = choose|i: int|
            0 <= i < rest.len() && marks_project(#[trigger] rest[i]) && rest[i].depth
                <= MAX_DISCOVERY_DEPTH && rest[i].parent == Some(project_roots(rest)[k]);
        assert(entries[i] == rest[i]);
    }
}

/// Giving a project its structure a second time writes nothing: once
/// the state file and the session file are there, the steps only make
/// sure of the directories.
pub proof fn lemma_scaffold_keeps_files(probes: StructureProbes)
    requires
        probes.state_file,
        probes.session_file,
    ensures
        scaffold(probes) == seq![
            ScaffoldStepView::CreateDirectory(".bmad"@),
            ScaffoldStepView::CreateDirectory(".bmad/communications"@),
            ScaffoldStepView::CreateDirectory(".bmad/context"@),
            ScaffoldStepView::CreateDirectory(".bmad/logs"@),
        ],
{
    assert(scaffold(probes) =~= seq![
        ScaffoldStepView::CreateDirectory(".bmad"@),
        ScaffoldStepView::CreateDirectory(".bmad/communications"@),
        ScaffoldStepView::CreateDirectory(".bmad/context"@),
        ScaffoldStepView::CreateDirectory(".bmad/logs"@),
    ]);
}

} // verus!
