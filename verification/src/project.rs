//! The registry of the projects that are known, with the one that is
//! active, and what a project is made of when it is created or found.
use std::collections::HashMap;
use vstd::prelude::*;
use vstd::std_specs::iter::IteratorSpec;
use vstd::string::StringExecFns;

use crate::clock::{instant_of, rfc3339_instant, shown, Timestamp, MINUTE_FORMAT};
use crate::ident::{is_random_layout, uuid_parsed, uuid_text};
use crate::messages::message_views;
use crate::state_manager::{StateDocument, StateManager};
use crate::text::{debug_text, opt_text, quoted};
use crate::types::{
    default_settings, AgentMessage, BMadError, BMadPhase, BMadProject, BMadProjectView,
    NotificationSettings, ProjectSettings, ProjectSettingsView, ProjectState, QualityGates,
};

verus! {

broadcast use vstd::std_specs::hash::group_hash_axioms;

/// What is asked for when a project is created.
#[derive(Debug, Clone)]
pub struct ProjectCreationRequest {
    pub name: String,
    pub path: String,
    pub description: Option<String>,
    pub ide_preference: Option<String>,
    pub auto_trigger_agents: bool,
    pub notification_settings: NotificationSettings,
    pub quality_gates: QualityGates,
}

impl Default for ProjectCreationRequest {
    fn default() -> (request: ProjectCreationRequest)
        ensures
            request.name@ == "New BMAD Project"@,
            request.path@ == Seq::<char>::empty(),
            request.description is None,
            request.ide_preference is None,
            request.auto_trigger_agents,
            request.notification_settings == default_settings().notification_settings,
            request.quality_gates == default_settings().quality_gates,
    {
        ProjectCreationRequest {
            name: String::from_str("New BMAD Project"),
            path: String::new(),
            description: None,
            ide_preference: None,
            auto_trigger_agents: true,
            notification_settings: NotificationSettings {
                desktop_notifications: true,
                agent_handoffs: true,
                story_completions: true,
                blockers: true,
            },
            quality_gates: QualityGates {
                require_tests: true,
                require_documentation: true,
                require_architecture_approval: true,
                require_security_review: false,
            },
        }
    }
}

/// What the metadata document of a project holds, as far as it holds it.
#[derive(Debug, Clone)]
pub struct ProjectMetadata {
    pub id: Option<String>,
    pub name: Option<String>,
    pub created_at: Option<String>,
    pub settings: Option<ProjectSettings>,
}

/// The projects of a registry by their identifiers.
pub type Registry = Map<u128, BMadProjectView>;

/// The views of the projects of a map.
pub open spec fn project_views(projects: Map<u128, BMadProject>) -> Registry {
    projects.map_values(|p: BMadProject| p@)
}

/// Whether every project of a map stands under its own identifier.
pub open spec fn keyed_by_id(projects: Map<u128, BMadProject>) -> bool {
    forall|id: u128| #[trigger] projects.contains_key(id) ==> projects[id].id == id
}

/// What a lookup fails with where the registry holds no such project.
pub open spec fn project_missing(id: u128) -> Seq<char> {
    "Project not found: "@ + uuid_text(id)
}

/// Whether an outcome is the failure of a lookup of the project `id`.
pub open spec fn fails_as_missing<T>(outcome: Result<T, BMadError>, id: u128) -> bool {
    outcome matches Err(BMadError::ProjectNotFound(why)) && why@ == project_missing(id)
}

/// The registry of the known projects. Each project stands under its own
/// identifier; at most one of them is the active one.
#[derive(Debug)]
pub struct ProjectManager {
    projects: HashMap<u128, BMadProject>,
    active_project: Option<u128>,
}

fn missing(id: u128) -> (e: BMadError)
    ensures
        e matches BMadError::ProjectNotFound(why) && why@ == project_missing(id),
{
    let mut why = String::from_str("Project not found: ");
    why.append(crate::ident::id_to_text(id).as_str());
    BMadError::ProjectNotFound(why)
}

impl ProjectManager {
    #[verifier::type_invariant]
    closed spec fn well_formed(self) -> bool {
        keyed_by_id(self.projects@)
    }

    /// The projects of the registry by their identifiers.
    pub closed spec fn registry(&self) -> Registry {
        project_views(self.projects@)
    }

    /// The identifier of the active project, if one is active. It need
    /// not be the identifier of a project that is still known.
    pub closed spec fn active(&self) -> Option<u128> {
        self.active_project
    }

    /// The registry without projects.
    pub fn new() -> (manager: ProjectManager)
        ensures
            manager.registry() == Registry::empty(),
            manager.active() is None,
    {
        let manager = ProjectManager { projects: HashMap::new(), active_project: None };
        assert(manager.registry() =~= Registry::empty());
        manager
    }

    /// How many projects are known.
    pub fn len(&self) -> (n: usize)
        ensures
            n == self.registry().len(),
    {
        assert(self.registry().dom() =~= self.projects@.dom());
        self.projects.len()
    }

    /// Takes a project into the registry, in place of the one with the
    /// same identifier, if there is one.
    pub fn register(&mut self, project: BMadProject)
        ensures
            final(self).registry() == old(self).registry().insert(project.id, project@),
            final(self).active() == old(self).active(),
    {
        proof {
            use_type_invariant(&*self);
        }
        let ghost before = self.projects@;
        let mut projects: HashMap<u128, BMadProject> = HashMap::new();
        std::mem::swap(&mut projects, &mut self.projects);
        let id = project.id;
        projects.insert(id, project);
        proof {
            assert(project_views(projects@) =~= project_views(before).insert(id, project@));
        }
        self.projects = projects;
    }

    /// The project with the given identifier.
    pub fn get_project(&self, project_id: u128) -> (project: Option<&BMadProject>)
        ensures
            match project {
                Some(p) => self.registry().contains_key(project_id) && p@
                    == self.registry()[project_id] && p.id == project_id,
                None => !self.registry().contains_key(project_id),
            },
    {
        proof {
            use_type_invariant(self);
        }
        self.projects.get(&project_id)
    }

    /// Makes the project with the given identifier the active one.
    pub fn set_active_project(&mut self, project_id: u128) -> (outcome: Result<(), BMadError>)
        ensures
            final(self).registry() == old(self).registry(),
            old(self).registry().contains_key(project_id) ==> outcome is Ok && final(self).active()
                == Some(project_id),
            !old(self).registry().contains_key(project_id) ==> final(self).active()
                == old(self).active() && fails_as_missing(outcome, project_id),
    {
        proof {
            use_type_invariant(&*self);
        }
        if !self.projects.contains_key(&project_id) {
            return Err(missing(project_id));
        }
        self.active_project = Some(project_id);
        Ok(())
    }

    /// The active project, if one is active and still known.
    pub fn get_active_project(&self) -> (project: Option<&BMadProject>)
        ensures
            match project {
                Some(p) => self.active() is Some && self.registry().contains_key(
                    self.active()->0,
                ) && p@ == self.registry()[self.active()->0],
                None => self.active() is None || !self.registry().contains_key(self.active()->0),
            },
    {
        match self.active_project {
            Some(id) => self.projects.get(&id),
            None => None,
        }
    }

    /// Takes the project with the given identifier out of the registry
    /// and hands it back; it is no longer the active one.
    pub fn delete_project(&mut self, project_id: u128) -> (outcome: Result<BMadProject, BMadError>)
        ensures
            (match outcome {
                Ok(gone) => {
                    &&& old(self).registry().contains_key(project_id)
                    &&& gone@ == old(self).registry()[project_id]
                    &&& final(self).registry() == old(self).registry().remove(project_id)
                    &&& final(self).active() == (if old(self).active() == Some(project_id) {
                        None
                    } else {
                        old(self).active()
                    })
                },
                Err(_) => {
                    &&& !old(self).registry().contains_key(project_id)
                    &&& fails_as_missing(outcome, project_id)
                    &&& final(self).registry() == old(self).registry()
                    &&& final(self).active() == old(self).active()
                },
            }),
    {
        proof {
            use_type_invariant(&*self);
        }
        let ghost before = self.projects@;
        let mut projects: HashMap<u128, BMadProject> = HashMap::new();
        std::mem::swap(&mut projects, &mut self.projects);
        let gone = projects.remove(&project_id);
        proof {
            assert(project_views(projects@) =~= project_views(before).remove(project_id));
            if !before.contains_key(project_id) {
                assert(projects@ =~= before);
            }
        }
        self.projects = projects;
        match gone {
            Some(project) => {
                match self.active_project {
                    Some(active) => {
                        if active == project_id {
                            proof {
                                use_type_invariant(&*self);
                            }
                            self.active_project = None;
                        }
                    },
                    None => {},
                }
                Ok(project)
            },
            None => Err(missing(project_id)),
        }
    }
}

pub struct ProjectMetadataView {
    pub id: Option<Seq<char>>,
    pub name: Option<Seq<char>>,
    pub created_at: Option<Seq<char>>,
    pub settings: Option<ProjectSettingsView>,
}

impl View for ProjectMetadata {
    type V = ProjectMetadataView;

    open spec fn view(&self) -> ProjectMetadataView {
        ProjectMetadataView {
            id: opt_text(self.id),
            name: opt_text(self.name),
            created_at: opt_text(self.created_at),
            settings: match self.settings {
                Some(s) => Some(s@),
                None => None,
            },
        }
    }
}

/// A value of the statistics of the registry: a number or a text.
#[derive(Debug, Clone)]
pub enum StatisticValue {
    Number(u64),
    Text(String),
}

/// A value of the statistics as a number or the characters of a text.
pub enum StatisticView {
    Number(u64),
    Text(Seq<char>),
}

impl View for StatisticValue {
    type V = StatisticView;

    open spec fn view(&self) -> StatisticView {
        match self {
            StatisticValue::Number(n) => StatisticView::Number(*n),
            StatisticValue::Text(t) => StatisticView::Text(t@),
        }
    }
}

/// The views of a list of named values.
pub open spec fn statistic_views(items: Seq<(String, StatisticValue)>) -> Seq<
    (Seq<char>, StatisticView),
> {
    Seq::new(items.len(), |i: int| (items[i].0@, items[i].1@))
}

/// The views of a list of projects.
pub open spec fn listed_views(items: Seq<&BMadProject>) -> Seq<BMadProjectView> {
    Seq::new(items.len(), |i: int| items[i]@)
}

/// Whether a list holds every project of the registry once.
pub open spec fn is_listing(registry: Registry, listing: Seq<BMadProjectView>) -> bool {
    &&& listing.len() == registry.len()
    &&& forall|i: int|
        0 <= i < listing.len() ==> registry.contains_key((#[trigger] listing[i]).id)
            && registry[listing[i].id] == listing[i]
    &&& forall|id: u128| #[trigger]
        registry.contains_key(id) ==> exists|i: int|
            0 <= i < listing.len() && (#[trigger] listing[i]).id == id
}

/// The registry after a list of projects was taken into it, one after the
/// other: of projects with the same identifier the last one stays.
pub open spec fn registered_all(registry: Registry, found: Seq<BMadProject>) -> Registry
    decreases found.len(),
{
    if found.len() == 0 {
        registry
    } else {
        registered_all(registry, found.drop_last()).insert(found.last().id, found.last()@)
    }
}

/// What creating fails with where the directory of the project is
/// missing.
pub open spec fn directory_missing(path: Seq<char>) -> Seq<char> {
    "Project directory does not exist: "@ + debug_text(path)
}

/// What creating fails with where the directory holds a project already.
pub open spec fn already_exists(path: Seq<char>) -> Seq<char> {
    "BMAD project already exists at: "@ + debug_text(path)
}

/// The project that is made for a request, with the given state,
/// identifier and instant of creation.
pub open spec fn created_project(
    request: ProjectCreationRequest,
    state: ProjectState,
    id: u128,
    now: Timestamp,
) -> BMadProjectView {
    BMadProjectView {
        id,
        name: request.name@,
        path: request.path@,
        state: state@,
        communications: Seq::empty(),
        created_at: now,
        last_modified: now,
        settings: ProjectSettingsView {
            ide_preference: opt_text(request.ide_preference),
            auto_trigger_agents: request.auto_trigger_agents,
            notification_settings: request.notification_settings,
            quality_gates: request.quality_gates,
        },
    }
}

/// A project after it was read anew at the instant `now`.
pub open spec fn reloaded(
    project: BMadProjectView,
    state: crate::types::ProjectStateView,
    communications: Seq<crate::types::AgentMessageView>,
    now: Timestamp,
) -> BMadProjectView {
    BMadProjectView { state, communications, last_modified: now, ..project }
}

/// A project after it was given other settings at the instant `now`.
pub open spec fn with_settings(
    project: BMadProjectView,
    settings: ProjectSettingsView,
    now: Timestamp,
) -> BMadProjectView {
    BMadProjectView { settings, last_modified: now, ..project }
}

/// Identifier, name, instant of creation and settings of a project from
/// its metadata document; for what the document does not hold, or what
/// cannot be read, the given identifier, the name "Unknown Project", the
/// given instant and the standard settings.
pub open spec fn resolved_metadata(document: ProjectMetadataView, fresh: u128, now: Timestamp) -> (
    u128,
    Seq<char>,
    Timestamp,
    ProjectSettingsView,
) {
    (
        match document.id {
            Some(text) => match uuid_parsed(text) {
                Some(id) => id,
                None => fresh,
            },
            None => fresh,
        },
        match document.name {
            Some(name) => name,
            None => "Unknown Project"@,
        },
        match document.created_at {
            Some(text) => match instant_of(rfc3339_instant(text)) {
                Some(t) => t,
                None => now,
            },
            None => now,
        },
        match document.settings {
            Some(settings) => settings,
            None => default_settings(),
        },
    )
}

/// The metadata of a project without a metadata document: the given
/// identifier, the name of its directory, the given instant and the
/// standard settings.
pub open spec fn fresh_metadata(directory_name: Option<Seq<char>>, fresh: u128, now: Timestamp) -> (
    u128,
    Seq<char>,
    Timestamp,
    ProjectSettingsView,
) {
    (
        fresh,
        match directory_name {
            Some(name) => name,
            None => "Unknown Project"@,
        },
        now,
        default_settings(),
    )
}

/// The digest of a project: its name, path and instants, then the digest
/// of its workflow.
pub open spec fn project_summary(project: BMadProjectView, workflow: Seq<char>) -> Seq<char> {
    "# Project: "@ + project.name + "\n\n**Path:** "@ + debug_text(project.path)
        + "\n**Created:** "@ + shown(project.created_at, MINUTE_FORMAT@)
        + "\n**Last Modified:** "@ + shown(project.last_modified, MINUTE_FORMAT@) + "\n\n"@
        + workflow
}

/// How many projects of a list are in a phase.
pub open spec fn count_in_phase(listing: Seq<BMadProjectView>, phase: BMadPhase) -> nat
    decreases listing.len(),
{
    if listing.len() == 0 {
        0
    } else {
        count_in_phase(listing.drop_last(), phase) + if listing.last().state.current_phase
            == phase {
            1nat
        } else {
            0nat
        }
    }
}

/// The name under which the statistics count the projects of a phase.
pub open spec fn phase_statistic(phase: BMadPhase) -> Seq<char> {
    match phase {
        BMadPhase::Planning => "projects_in_planning"@,
        BMadPhase::StoryCreation => "projects_in_storycreation"@,
        BMadPhase::Development => "projects_in_development"@,
        BMadPhase::QualityAssurance => "projects_in_qualityassurance"@,
        BMadPhase::Complete => "projects_in_complete"@,
    }
}

/// The entry of a phase in the statistics: none where no project is in
/// it.
pub open spec fn phase_entry(listing: Seq<BMadProjectView>, phase: BMadPhase) -> Seq<
    (Seq<char>, StatisticView),
> {
    if count_in_phase(listing, phase) > 0 {
        seq![
            (phase_statistic(phase), StatisticView::Number(count_in_phase(listing, phase) as u64)),
        ]
    } else {
        Seq::empty()
    }
}

/// The statistics of a list of projects: how many there are, which one is
/// active, and how many are in each phase that any is in.
pub open spec fn statistics_of(listing: Seq<BMadProjectView>, active: Option<u128>) -> Seq<
    (Seq<char>, StatisticView),
> {
    seq![
        ("total_projects"@, StatisticView::Number(listing.len() as u64)),
        (
            "active_project"@,
            StatisticView::Text(
                match active {
                    Some(id) => uuid_text(id),
                    None => "None"@,
                },
            ),
        ),
    ] + phase_entry(listing, BMadPhase::Planning) + phase_entry(listing, BMadPhase::StoryCreation)
        + phase_entry(listing, BMadPhase::Development) + phase_entry(
        listing,
        BMadPhase::QualityAssurance,
    ) + phase_entry(listing, BMadPhase::Complete)
}

fn count_phase(projects: &Vec<&BMadProject>, phase: BMadPhase) -> (count: usize)
    ensures
        count == count_in_phase(listed_views(projects@), phase),
{
    let ghost all = listed_views(projects@);
    let mut count: usize = 0;
    let mut i: usize = 0;
    assert(all.take(0) =~= Seq::empty());
    while i < projects.len()
        invariant
            i <= projects@.len(),
            all == listed_views(projects@),
            count <= i,
            count == count_in_phase(all.take(i as int), phase),
        decreases projects@.len() - i,
    {
        proof {
            assert(all.take(i + 1).drop_last() =~= all.take(i as int));
            assert(all.take(i + 1).last() == projects@[i as int]@);
        }
        if projects[i].state.current_phase == phase {
            count += 1;
        }
        i += 1;
    }
    assert(all.take(i as int) =~= all);
    count
}

fn phase_key(phase: BMadPhase) -> (key: &'static str)
    ensures
        key@ == phase_statistic(phase),
{
    match phase {
        BMadPhase::Planning => "projects_in_planning",
        BMadPhase::StoryCreation => "projects_in_storycreation",
        BMadPhase::Development => "projects_in_development",
        BMadPhase::QualityAssurance => "projects_in_qualityassurance",
        BMadPhase::Complete => "projects_in_complete",
    }
}

fn push_phase(
    out: &mut Vec<(String, StatisticValue)>,
    projects: &Vec<&BMadProject>,
    phase: BMadPhase,
)
    ensures
        statistic_views(final(out)@) == statistic_views(old(out)@) + phase_entry(
            listed_views(projects@),
            phase,
        ),
{
    let count = count_phase(projects, phase);
    let ghost before = statistic_views(out@);
    if count > 0 {
        out.push((String::from_str(phase_key(phase)), StatisticValue::Number(count as u64)));
        assert(statistic_views(out@) =~= before + phase_entry(listed_views(projects@), phase));
    } else {
        assert(statistic_views(out@) =~= before + phase_entry(listed_views(projects@), phase));
    }
}

impl ProjectManager {
    /// The known projects, each once, in no particular order.
    pub fn list_projects(&self) -> (out: Vec<&BMadProject>)
        ensures
            is_listing(self.registry(), listed_views(out@)),
    {
        proof {
            use_type_invariant(self);
        }
        let mut out: Vec<&BMadProject> = Vec::new();
        for project in it: self.projects.values()
            invariant
                out@.len() == it.index(),
                forall|i: int| 0 <= i < out@.len() ==> out@[i] == it.seq()[i],
                it.seq() == vstd::std_specs::hash::spec_values_iter(&self.projects).remaining(),
        {
            out.push(project);
        }
        proof {
            let all = vstd::std_specs::hash::spec_values_iter(&self.projects).remaining();
            assert(out@ =~= all);
            let map = self.projects@;
            let listing = listed_views(out@);
            assert(all.unref().to_set() == map.values());
            assert(listing.len() == self.registry().len()) by {
                assert(self.registry().dom() =~= map.dom());
            }
            assert forall|i: int| 0 <= i < listing.len() implies self.registry().contains_key(
                (#[trigger] listing[i]).id,
            ) && self.registry()[listing[i].id] == listing[i] by {
                assert(all.unref()[i] == *out@[i]);
                assert(all.unref().to_set().contains(all.unref()[i]));
                assert(map.values().contains(*out@[i]));
                let k = choose|k: u128| map.contains_key(k) && map[k] == *out@[i];
                assert(k == out@[i].id);
            }
            assert forall|id: u128| #[trigger] self.registry().contains_key(id) implies exists|
                i: int,
            |
                0 <= i < listing.len() && (#[trigger] listing[i]).id == id by {
                assert(map.contains_key(id));
                assert(map.values().contains(map[id]));
                assert(all.unref().to_set().contains(map[id]));
                let i = choose|i: int| 0 <= i < all.unref().len() && all.unref()[i] == map[id];
                assert(listing[i].id == id);
            }
        }
        out
    }

    /// Whether a project can be created in a directory: the directory has
    /// to exist and must not hold a coordination directory yet.
    pub fn check_creation(
        &self,
        request: &ProjectCreationRequest,
        path_exists: bool,
        coordination_exists: bool,
    ) -> (outcome: Result<(), BMadError>)
        ensures
            path_exists && !coordination_exists ==> outcome is Ok,
            !path_exists ==> (outcome matches Err(BMadError::ProjectNotFound(why)) && why@
                == directory_missing(request.path@)),
            path_exists && coordination_exists ==> (outcome matches Err(
                BMadError::InvalidProjectState(why),
            ) && why@ == already_exists(request.path@)),
    {
        if !path_exists {
            let mut why = String::from_str("Project directory does not exist: ");
            why.append(quoted(request.path.as_str()).as_str());
            return Err(BMadError::ProjectNotFound(why));
        }
        if coordination_exists {
            let mut why = String::from_str("BMAD project already exists at: ");
            why.append(quoted(request.path.as_str()).as_str());
            return Err(BMadError::InvalidProjectState(why));
        }
        Ok(())
    }

    /// Makes the project that a request asks for, with the given state,
    /// identifier and instant, and takes it into the registry. The
    /// directory has to exist and must not hold a coordination directory
    /// yet: where it is otherwise the registry stays as it was.
    pub fn create_project_at(
        &mut self,
        request: ProjectCreationRequest,
        path_exists: bool,
        coordination_exists: bool,
        state: ProjectState,
        id: u128,
        now: Timestamp,
    ) -> (outcome: Result<&BMadProject, BMadError>)
        ensures
            final(self).active() == old(self).active(),
            path_exists && !coordination_exists ==> ({
                &&& outcome matches Ok(project) && project@ == created_project(
                    request,
                    state,
                    id,
                    now,
                )
                &&& final(self).registry() == old(self).registry().insert(
                    id,
                    created_project(request, state, id, now),
                )
            }),
            !path_exists ==> ({
                &&& outcome matches Err(BMadError::ProjectNotFound(why)) && why@
                    == directory_missing(request.path@)
                &&& final(self).registry() == old(self).registry()
            }),
            path_exists && coordination_exists ==> ({
                &&& outcome matches Err(BMadError::InvalidProjectState(why)) && why@
                    == already_exists(request.path@)
                &&& final(self).registry() == old(self).registry()
            }),
    {
        match self.check_creation(&request, path_exists, coordination_exists) {
            Err(refusal) => {
                return Err(refusal);
            },
            Ok(()) => {},
        }
        let project = BMadProject {
            id,
            name: request.name,
            path: request.path,
            state,
            communications: Vec::new(),
            created_at: now,
            last_modified: now,
            settings: ProjectSettings {
                ide_preference: request.ide_preference,
                auto_trigger_agents: request.auto_trigger_agents,
                notification_settings: request.notification_settings,
                quality_gates: request.quality_gates,
            },
        };
        assert(project@.communications =~= Seq::empty());
        self.register(project);
        match self.get_project(id) {
            Some(project) => Ok(project),
            None => {
                assert(false);
                vstd::pervasive::unreached()
            },
        }
    }

    /// Makes the project that a request asks for, with a fresh identifier
    /// and the system clock, and takes it into the registry. The
    /// directory has to exist and must not hold a coordination directory
    /// yet: where it is otherwise the registry stays as it was.
    pub fn create_project(
        &mut self,
        request: ProjectCreationRequest,
        path_exists: bool,
        coordination_exists: bool,
        state: ProjectState,
    ) -> (outcome: Result<&BMadProject, BMadError>)
        ensures
            final(self).active() == old(self).active(),
            path_exists && !coordination_exists ==> (outcome matches Ok(project) && ({
                &&& is_random_layout(project.id)
                &&& exists|now: Timestamp|
                    now.is_plain_second() && project@ == #[trigger] created_project(
                        request,
                        state,
                        project.id,
                        now,
                    )
                &&& final(self).registry() == old(self).registry().insert(project.id, project@)
            })),
            !path_exists ==> ({
                &&& outcome matches Err(BMadError::ProjectNotFound(why)) && why@
                    == directory_missing(request.path@)
                &&& final(self).registry() == old(self).registry()
            }),
            path_exists && coordination_exists ==> ({
                &&& outcome matches Err(BMadError::InvalidProjectState(why)) && why@
                    == already_exists(request.path@)
                &&& final(self).registry() == old(self).registry()
            }),
    {
        let id = crate::ident::fresh_id();
        let now = Timestamp::now();
        self.create_project_at(request, path_exists, coordination_exists, state, id, now)
    }

    /// Takes what was read anew of a project into its entry: its state,
    /// its messages and the instant of the reading.
    pub fn load_project_at(
        &mut self,
        project_id: u128,
        state: ProjectState,
        communications: Vec<AgentMessage>,
        now: Timestamp,
    ) -> (outcome: Result<(), BMadError>)
        ensures
            final(self).active() == old(self).active(),
            old(self).registry().contains_key(project_id) ==> outcome is Ok
                && final(self).registry() == old(self).registry().insert(
                project_id,
                reloaded(
                    old(self).registry()[project_id],
                    state@,
                    message_views(communications@),
                    now,
                ),
            ),
            !old(self).registry().contains_key(project_id) ==> final(self).registry()
                == old(self).registry() && fails_as_missing(outcome, project_id),
    {
        proof {
            use_type_invariant(&*self);
        }
        let ghost before = self.projects@;
        let mut projects: HashMap<u128, BMadProject> = HashMap::new();
        std::mem::swap(&mut projects, &mut self.projects);
        let outcome = match projects.remove(&project_id) {
            Some(found) => {
                let mut project = found;
                project.state = state;
                project.communications = communications;
                project.last_modified = now;
                projects.insert(project_id, project);
                Ok(())
            },
            None => Err(missing(project_id)),
        };
        proof {
            if before.contains_key(project_id) {
                assert(project_views(projects@) =~= project_views(before).insert(
                    project_id,
                    reloaded(
                        project_views(before)[project_id],
                        state@,
                        message_views(communications@),
                        now,
                    ),
                ));
            } else {
                assert(projects@ =~= before);
            }
        }
        self.projects = projects;
        outcome
    }

    /// Takes what was read anew of a project into its entry, by the
    /// system clock.
    pub fn load_project(
        &mut self,
        project_id: u128,
        state: ProjectState,
        communications: Vec<AgentMessage>,
    ) -> (outcome: Result<(), BMadError>)
        ensures
            final(self).active() == old(self).active(),
            old(self).registry().contains_key(project_id) <==> outcome is Ok,
            old(self).registry().contains_key(project_id) ==> exists|now: Timestamp|
                now.is_plain_second() && final(self).registry() == old(self).registry().insert(
                    project_id,
                    #[trigger] reloaded(
                        old(self).registry()[project_id],
                        state@,
                        message_views(communications@),
                        now,
                    ),
                ),
            !old(self).registry().contains_key(project_id) ==> final(self).registry()
                == old(self).registry() && fails_as_missing(outcome, project_id),
    {
        let now = Timestamp::now();
        self.load_project_at(project_id, state, communications, now)
    }

    /// Reads a project anew: the same as loading it.
    pub fn refresh_project(
        &mut self,
        project_id: u128,
        state: ProjectState,
        communications: Vec<AgentMessage>,
    ) -> (outcome: Result<(), BMadError>)
        ensures
            final(self).active() == old(self).active(),
            old(self).registry().contains_key(project_id) <==> outcome is Ok,
            old(self).registry().contains_key(project_id) ==> exists|now: Timestamp|
                now.is_plain_second() && final(self).registry() == old(self).registry().insert(
                    project_id,
                    #[trigger] reloaded(
                        old(self).registry()[project_id],
                        state@,
                        message_views(communications@),
                        now,
                    ),
                ),
            !old(self).registry().contains_key(project_id) ==> final(self).registry()
                == old(self).registry() && fails_as_missing(outcome, project_id),
    {
        self.load_project(project_id, state, communications)
    }

    /// Gives a project other settings, at the given instant.
    pub fn update_project_settings_at(
        &mut self,
        project_id: u128,
        settings: ProjectSettings,
        now: Timestamp,
    ) -> (outcome: Result<(), BMadError>)
        ensures
            final(self).active() == old(self).active(),
            old(self).registry().contains_key(project_id) ==> outcome is Ok
                && final(self).registry() == old(self).registry().insert(
                project_id,
                with_settings(old(self).registry()[project_id], settings@, now),
            ),
            !old(self).registry().contains_key(project_id) ==> final(self).registry()
                == old(self).registry() && fails_as_missing(outcome, project_id),
    {
        proof {
            use_type_invariant(&*self);
        }
        let ghost before = self.projects@;
        let mut projects: HashMap<u128, BMadProject> = HashMap::new();
        std::mem::swap(&mut projects, &mut self.projects);
        let outcome = match projects.remove(&project_id) {
            Some(found) => {
                let mut project = found;
                project.settings = settings;
                project.last_modified = now;
                projects.insert(project_id, project);
                Ok(())
            },
            None => Err(missing(project_id)),
        };
        proof {
            if before.contains_key(project_id) {
                assert(project_views(projects@) =~= project_views(before).insert(
                    project_id,
                    with_settings(project_views(before)[project_id], settings@, now),
                ));
            } else {
                assert(projects@ =~= before);
            }
        }
        self.projects = projects;
        outcome
    }

    /// Gives a project other settings, by the system clock.
    pub fn update_project_settings(&mut self, project_id: u128, settings: ProjectSettings) -> (outcome:
        Result<(), BMadError>)
        ensures
            final(self).active() == old(self).active(),
            old(self).registry().contains_key(project_id) <==> outcome is Ok,
            old(self).registry().contains_key(project_id) ==> exists|now: Timestamp|
                now.is_plain_second() && final(self).registry() == old(self).registry().insert(
                    project_id,
                    #[trigger] with_settings(old(self).registry()[project_id], settings@, now),
                ),
            !old(self).registry().contains_key(project_id) ==> final(self).registry()
                == old(self).registry() && fails_as_missing(outcome, project_id),
    {
        let now = Timestamp::now();
        self.update_project_settings_at(project_id, settings, now)
    }

    /// The digest of a project, given the digest of its workflow.
    pub fn get_project_summary(&self, project_id: u128, workflow_summary: &str) -> (outcome: Result<
        String,
        BMadError,
    >)
        ensures
            match outcome {
                Ok(summary) => self.registry().contains_key(project_id) && summary@
                    == project_summary(self.registry()[project_id], workflow_summary@),
                Err(BMadError::ProjectNotFound(why)) => !self.registry().contains_key(project_id)
                    && why@ == project_missing(project_id),
                Err(_) => false,
            },
    {
        let project = match self.get_project(project_id) {
            Some(project) => project,
            None => {
                return Err(missing(project_id));
            },
        };
        let mut summary = String::from_str("# Project: ");
        summary.append(project.name.as_str());
        summary.append("\n\n**Path:** ");
        summary.append(quoted(project.path.as_str()).as_str());
        summary.append("\n**Created:** ");
        summary.append(project.created_at.format(MINUTE_FORMAT).as_str());
        summary.append("\n**Last Modified:** ");
        summary.append(project.last_modified.format(MINUTE_FORMAT).as_str());
        summary.append("\n\n");
        summary.append(workflow_summary);
        Ok(summary)
    }

    /// Whether a directory holds a valid project: the structure is there
    /// and the state file holds a state document.
    pub fn validate_project(structure_present: bool, document: &StateDocument) -> (valid: bool)
        ensures
            valid == (structure_present && *document is Parsed),
    {
        if !structure_present {
            return false;
        }
        StateManager::validate_state_file(document)
    }

    /// The statistics of a list of projects, with `active` as the active
    /// one.
    pub fn statistics_for(projects: &Vec<&BMadProject>, active: Option<u128>) -> (out: Vec<
        (String, StatisticValue),
    >)
        ensures
            statistic_views(out@) == statistics_of(listed_views(projects@), active),
    {
        let mut out: Vec<(String, StatisticValue)> = Vec::new();
        out.push(
            (String::from_str("total_projects"), StatisticValue::Number(projects.len() as u64)),
        );
        let active_text = match active {
            Some(id) => crate::ident::id_to_text(id),
            None => String::from_str("None"),
        };
        out.push((String::from_str("active_project"), StatisticValue::Text(active_text)));
        assert(statistic_views(out@) =~= seq![
            ("total_projects"@, StatisticView::Number(projects@.len() as u64)),
            (
                "active_project"@,
                StatisticView::Text(
                    match active {
                        Some(id) => uuid_text(id),
                        None => "None"@,
                    },
                ),
            ),
        ]);
        push_phase(&mut out, projects, BMadPhase::Planning);
        push_phase(&mut out, projects, BMadPhase::StoryCreation);
        push_phase(&mut out, projects, BMadPhase::Development);
        push_phase(&mut out, projects, BMadPhase::QualityAssurance);
        push_phase(&mut out, projects, BMadPhase::Complete);
        out
    }

    /// The statistics of the registry: how many projects are known, which
    /// one is active, and how many are in each phase that any is in.
    pub fn get_project_statistics(&self) -> (out: Vec<(String, StatisticValue)>)
        ensures
            exists|listing: Seq<BMadProjectView>|
                is_listing(self.registry(), listing) && statistic_views(out@) == statistics_of(
                    listing,
                    self.active(),
                ),
    {
        let projects = self.list_projects();
        let out = Self::statistics_for(&projects, self.active_project);
        assert(is_listing(self.registry(), listed_views(projects@)));
        out
    }

    /// Identifier, name, instant of creation and settings of a project
    /// from its metadata document.
    pub fn load_project_metadata(document: ProjectMetadata, fresh: u128, now: Timestamp) -> (found: (
        u128,
        String,
        Timestamp,
        ProjectSettings,
    ))
        ensures
            (found.0, found.1@, found.2, found.3@) == resolved_metadata(document@, fresh, now),
    {
        let id = match &document.id {
            Some(text) => match crate::ident::parse_id(text.as_str()) {
                Some(id) => id,
                None => fresh,
            },
            None => fresh,
        };
        let created_at = match &document.created_at {
            Some(text) => match Timestamp::parse_rfc3339(text.as_str()) {
                Some(t) => t,
                None => now,
            },
            None => now,
        };
        let name = match document.name {
            Some(name) => name,
            None => String::from_str("Unknown Project"),
        };
        let settings = match document.settings {
            Some(settings) => settings,
            None => ProjectSettings::standard(),
        };
        (id, name, created_at, settings)
    }

    /// The metadata document of a project.
    pub fn save_project_metadata(project: &BMadProject) -> (document: ProjectMetadata)
        ensures
            document@.id == Some(uuid_text(project.id)),
            document@.name == Some(project.name@),
            document@.created_at == crate::clock::rfc3339_text(
                project.created_at.secs,
                project.created_at.nanos,
            ),
            document@.settings == Some(project.settings@),
    {
        ProjectMetadata {
            id: Some(crate::ident::id_to_text(project.id)),
            name: Some(project.name.clone()),
            created_at: project.created_at.to_rfc3339(),
            settings: Some(project.settings.duplicate()),
        }
    }

    /// The project that was found in a directory, from what was read
    /// there: with its metadata document, the metadata of the document;
    /// without one, fresh metadata under the name of the directory.
    pub fn load_project_from_path(
        path: &str,
        directory_name: Option<&str>,
        state: ProjectState,
        communications: Vec<AgentMessage>,
        metadata: Option<ProjectMetadata>,
        fresh: u128,
        now: Timestamp,
    ) -> (project: BMadProject)
        ensures
            project@.path == path@,
            project@.state == state@,
            project@.communications == message_views(communications@),
            project@.last_modified == now,
            (project@.id, project@.name, project@.created_at, project@.settings) == (match metadata {
                Some(document) => resolved_metadata(document@, fresh, now),
                None => fresh_metadata(
                    match directory_name {
                        Some(name) => Some(name@),
                        None => None,
                    },
                    fresh,
                    now,
                ),
            }),
    {
        let (id, name, created_at, settings) = match metadata {
            Some(document) => Self::load_project_metadata(document, fresh, now),
            None => (
                fresh,
                match directory_name {
                    Some(name) => String::from_str(name),
                    None => String::from_str("Unknown Project"),
                },
                now,
                ProjectSettings::standard(),
            ),
        };
        let project = BMadProject {
            id,
            name,
            path: String::from_str(path),
            state,
            communications,
            created_at,
            last_modified: now,
            settings,
        };
        assert(project@.communications =~= message_views(communications@));
        project
    }

    /// Takes the projects that were found into the registry, one after
    /// the other, and says how many there were.
    pub fn discover_projects(&mut self, found: Vec<BMadProject>) -> (count: usize)
        ensures
            count == found@.len(),
            final(self).active() == old(self).active(),
            final(self).registry() == registered_all(old(self).registry(), found@),
    {
        let count: usize = found.len();
        let mut rest = found;
        let mut done: usize = 0;
        assert(found@.take(0) =~= Seq::empty());
        while rest.len() > 0
            invariant
                done + rest@.len() == count,
                count == found@.len(),
                self.active() == old(self).active(),
                forall|i: int| 0 <= i < rest@.len() ==> rest@[i] == found@[done + i],
                self.registry() == registered_all(old(self).registry(), found@.take(done as int)),
            decreases rest@.len(),
        {
            let project = rest.remove(0);
            proof {
                assert(project == found@[done as int]);
                assert(found@.take(done + 1).drop_last() =~= found@.take(done as int));
                assert(found@.take(done + 1).last() == project);
            }
            self.register(project);
            done += 1;
        }
        assert(found@.take(done as int) =~= found@);
        count
    }
}

} // verus!
