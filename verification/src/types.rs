//! The entities that the coordination core shares: phases, agent roles,
//! statuses, messages, workflow events and the project state itself, each
//! with the mathematical view that the contracts of the other modules use.
use vstd::prelude::*;
use vstd::string::StringExecFns;

use crate::clock::Timestamp;
use crate::text::{opt_text, texts};

verus! {

/// A stage of the project state machine.
#[derive(Debug, Clone, Copy, PartialEq, Eq, Hash, Structural)]
pub enum BMadPhase {
    Planning,
    StoryCreation,
    Development,
    QualityAssurance,
    Complete,
}

/// The coarse status of a project.
#[derive(Debug, Clone, Copy, PartialEq, Eq, Hash, Structural)]
pub enum ProjectStateType {
    Initializing,
    Planning,
    Development,
    QualityAssurance,
    Complete,
    OnHold,
    Archived,
}

/// The closed set of agent roles. The first eight carry a status entry in
/// every project state; the orchestrator only sends and receives messages.
#[derive(Debug, Clone, Copy, PartialEq, Eq, Hash, Structural)]
pub enum AgentType {
    Analyst,
    Architect,
    ProductManager,
    ProductOwner,
    ScrumMaster,
    Developer,
    QualityAssurance,
    UXExpert,
    BMadOrchestrator,
}

/// What a message is for.
#[derive(Debug, Clone, Copy, PartialEq, Eq, Hash, Structural)]
pub enum MessageType {
    Handoff,
    Question,
    Update,
    Completion,
    BlockerReport,
    ContextShare,
    Assignment,
}

/// How far a message has come with its recipient.
#[derive(Debug, Clone, Copy, PartialEq, Eq, Hash, Structural)]
pub enum MessageStatus {
    Pending,
    Read,
    Processed,
    Archived,
}

/// What happened in the workflow.
#[derive(Debug, Clone, Copy, PartialEq, Eq, Hash, Structural)]
pub enum WorkflowEventType {
    PhaseStart,
    PhaseComplete,
    StoryStart,
    StoryComplete,
    AgentHandoff,
    BlockerReported,
    BlockerResolved,
}

/// What an agent is doing.
#[derive(Debug, Clone, Copy, PartialEq, Eq, Hash, Structural)]
pub enum AgentStatusType {
    Idle,
    Active,
    Waiting,
    Blocked,
    Offline,
}

/// The variant's name, as the workflow texts print a phase.
pub open spec fn phase_name(phase: BMadPhase) -> Seq<char> {
    match phase {
        BMadPhase::Planning => "Planning"@,
        BMadPhase::StoryCreation => "StoryCreation"@,
        BMadPhase::Development => "Development"@,
        BMadPhase::QualityAssurance => "QualityAssurance"@,
        BMadPhase::Complete => "Complete"@,
    }
}

/// The variant's name, as the workflow texts print a project status.
pub open spec fn project_state_name(state: ProjectStateType) -> Seq<char> {
    match state {
        ProjectStateType::Initializing => "Initializing"@,
        ProjectStateType::Planning => "Planning"@,
        ProjectStateType::Development => "Development"@,
        ProjectStateType::QualityAssurance => "QualityAssurance"@,
        ProjectStateType::Complete => "Complete"@,
        ProjectStateType::OnHold => "OnHold"@,
        ProjectStateType::Archived => "Archived"@,
    }
}

/// The variant's name, as blocker texts print an agent role.
pub open spec fn agent_variant_name(agent: AgentType) -> Seq<char> {
    match agent {
        AgentType::Analyst => "Analyst"@,
        AgentType::Architect => "Architect"@,
        AgentType::ProductManager => "ProductManager"@,
        AgentType::ProductOwner => "ProductOwner"@,
        AgentType::ScrumMaster => "ScrumMaster"@,
        AgentType::Developer => "Developer"@,
        AgentType::QualityAssurance => "QualityAssurance"@,
        AgentType::UXExpert => "UXExpert"@,
        AgentType::BMadOrchestrator => "BMadOrchestrator"@,
    }
}

/// The name under which summaries and message titles show an agent role.
pub open spec fn agent_display_text(agent: AgentType) -> Seq<char> {
    match agent {
        AgentType::Analyst => "Analyst"@,
        AgentType::Architect => "Architect"@,
        AgentType::ProductManager => "Product Manager"@,
        AgentType::ProductOwner => "Product Owner"@,
        AgentType::ScrumMaster => "Scrum Master"@,
        AgentType::Developer => "Developer"@,
        AgentType::QualityAssurance => "QA"@,
        AgentType::UXExpert => "UX Expert"@,
        AgentType::BMadOrchestrator => "BMAD Orchestrator"@,
    }
}

/// The variant's name, as a message document prints its status.
pub open spec fn message_status_name(status: MessageStatus) -> Seq<char> {
    match status {
        MessageStatus::Pending => "Pending"@,
        MessageStatus::Read => "Read"@,
        MessageStatus::Processed => "Processed"@,
        MessageStatus::Archived => "Archived"@,
    }
}

impl BMadPhase {
    /// The name of the variant.
    pub fn name(&self) -> (s: &'static str)
        ensures
            s@ == phase_name(*self),
    {
        match self {
            BMadPhase::Planning => "Planning",
            BMadPhase::StoryCreation => "StoryCreation",
            BMadPhase::Development => "Development",
            BMadPhase::QualityAssurance => "QualityAssurance",
            BMadPhase::Complete => "Complete",
        }
    }
}

impl ProjectStateType {
    /// The name of the variant.
    pub fn name(&self) -> (s: &'static str)
        ensures
            s@ == project_state_name(*self),
    {
        match self {
            ProjectStateType::Initializing => "Initializing",
            ProjectStateType::Planning => "Planning",
            ProjectStateType::Development => "Development",
            ProjectStateType::QualityAssurance => "QualityAssurance",
            ProjectStateType::Complete => "Complete",
            ProjectStateType::OnHold => "OnHold",
            ProjectStateType::Archived => "Archived",
        }
    }
}

impl AgentType {
    /// The name of the variant.
    pub fn name(&self) -> (s: &'static str)
        ensures
            s@ == agent_variant_name(*self),
    {
        match self {
            AgentType::Analyst => "Analyst",
            AgentType::Architect => "Architect",
            AgentType::ProductManager => "ProductManager",
            AgentType::ProductOwner => "ProductOwner",
            AgentType::ScrumMaster => "ScrumMaster",
            AgentType::Developer => "Developer",
            AgentType::QualityAssurance => "QualityAssurance",
            AgentType::UXExpert => "UXExpert",
            AgentType::BMadOrchestrator => "BMadOrchestrator",
        }
    }

    /// The name under which summaries and message titles show the role.
    pub fn display_name(&self) -> (s: &'static str)
        ensures
            s@ == agent_display_text(*self),
    {
        match self {
            AgentType::Analyst => "Analyst",
            AgentType::Architect => "Architect",
            AgentType::ProductManager => "Product Manager",
            AgentType::ProductOwner => "Product Owner",
            AgentType::ScrumMaster => "Scrum Master",
            AgentType::Developer => "Developer",
            AgentType::QualityAssurance => "QA",
            AgentType::UXExpert => "UX Expert",
            AgentType::BMadOrchestrator => "BMAD Orchestrator",
        }
    }
}

impl MessageStatus {
    /// The name of the variant.
    pub fn name(&self) -> (s: &'static str)
        ensures
            s@ == message_status_name(*self),
    {
        match self {
            MessageStatus::Pending => "Pending",
            MessageStatus::Read => "Read",
            MessageStatus::Processed => "Processed",
            MessageStatus::Archived => "Archived",
        }
    }
}

/// What is known of one agent.
#[derive(Debug, Clone)]
pub struct AgentStatus {
    pub status: AgentStatusType,
    pub current_task: Option<String>,
    pub last_activity: Option<Timestamp>,
    pub queue_position: Option<usize>,
    pub estimated_start: Option<Timestamp>,
}

pub struct AgentStatusView {
    pub status: AgentStatusType,
    pub current_task: Option<Seq<char>>,
    pub last_activity: Option<Timestamp>,
    pub queue_position: Option<usize>,
    pub estimated_start: Option<Timestamp>,
}

impl View for AgentStatus {
    type V = AgentStatusView;

    open spec fn view(&self) -> AgentStatusView {
        AgentStatusView {
            status: self.status,
            current_task: opt_text(self.current_task),
            last_activity: self.last_activity,
            queue_position: self.queue_position,
            estimated_start: self.estimated_start,
        }
    }
}

/// The entry of an agent of which nothing is recorded.
pub open spec fn idle_status() -> AgentStatusView {
    AgentStatusView {
        status: AgentStatusType::Idle,
        current_task: None,
        last_activity: None,
        queue_position: None,
        estimated_start: None,
    }
}

impl AgentStatus {
    /// The entry of an agent of which nothing is recorded.
    pub fn idle() -> (s: AgentStatus)
        ensures
            s@ == idle_status(),
    {
        AgentStatus {
            status: AgentStatusType::Idle,
            current_task: None,
            last_activity: None,
            queue_position: None,
            estimated_start: None,
        }
    }
}

/// One status entry for each of the eight roles that carry one.
#[derive(Debug, Clone)]
pub struct AgentStatuses {
    pub analyst: AgentStatus,
    pub architect: AgentStatus,
    pub product_manager: AgentStatus,
    pub product_owner: AgentStatus,
    pub scrum_master: AgentStatus,
    pub developer: AgentStatus,
    pub quality_assurance: AgentStatus,
    pub ux_expert: AgentStatus,
}

pub struct AgentStatusesView {
    pub analyst: AgentStatusView,
    pub architect: AgentStatusView,
    pub product_manager: AgentStatusView,
    pub product_owner: AgentStatusView,
    pub scrum_master: AgentStatusView,
    pub developer: AgentStatusView,
    pub quality_assurance: AgentStatusView,
    pub ux_expert: AgentStatusView,
}

impl View for AgentStatuses {
    type V = AgentStatusesView;

    open spec fn view(&self) -> AgentStatusesView {
        AgentStatusesView {
            analyst: self.analyst@,
            architect: self.architect@,
            product_manager: self.product_manager@,
            product_owner: self.product_owner@,
            scrum_master: self.scrum_master@,
            developer: self.developer@,
            quality_assurance: self.quality_assurance@,
            ux_expert: self.ux_expert@,
        }
    }
}

/// The roles that carry a status entry, in the order in which the
/// scheduler looks at them.
pub open spec fn roster() -> Seq<AgentType> {
    seq![
        AgentType::Analyst,
        AgentType::Architect,
        AgentType::ProductManager,
        AgentType::ProductOwner,
        AgentType::ScrumMaster,
        AgentType::Developer,
        AgentType::QualityAssurance,
        AgentType::UXExpert,
    ]
}

impl AgentStatusesView {
    /// The entry of `agent`; the orchestrator has none.
    pub open spec fn entry(self, agent: AgentType) -> Option<AgentStatusView> {
        match agent {
            AgentType::Analyst => Some(self.analyst),
            AgentType::Architect => Some(self.architect),
            AgentType::ProductManager => Some(self.product_manager),
            AgentType::ProductOwner => Some(self.product_owner),
            AgentType::ScrumMaster => Some(self.scrum_master),
            AgentType::Developer => Some(self.developer),
            AgentType::QualityAssurance => Some(self.quality_assurance),
            AgentType::UXExpert => Some(self.ux_expert),
            AgentType::BMadOrchestrator => None,
        }
    }

    /// The statuses with the entry of `agent` replaced; unchanged for the
    /// orchestrator.
    pub open spec fn with_entry(self, agent: AgentType, status: AgentStatusView) -> AgentStatusesView {
        match agent {
            AgentType::Analyst => AgentStatusesView { analyst: status, ..self },
            AgentType::Architect => AgentStatusesView { architect: status, ..self },
            AgentType::ProductManager => AgentStatusesView { product_manager: status, ..self },
            AgentType::ProductOwner => AgentStatusesView { product_owner: status, ..self },
            AgentType::ScrumMaster => AgentStatusesView { scrum_master: status, ..self },
            AgentType::Developer => AgentStatusesView { developer: status, ..self },
            AgentType::QualityAssurance => AgentStatusesView { quality_assurance: status, ..self },
            AgentType::UXExpert => AgentStatusesView { ux_expert: status, ..self },
            AgentType::BMadOrchestrator => self,
        }
    }
}

/// The statuses of a project in which nothing is recorded of any agent:
/// each of the eight roles has the idle entry.
pub open spec fn idle_statuses() -> AgentStatusesView {
    AgentStatusesView {
        analyst: idle_status(),
        architect: idle_status(),
        product_manager: idle_status(),
        product_owner: idle_status(),
        scrum_master: idle_status(),
        developer: idle_status(),
        quality_assurance: idle_status(),
        ux_expert: idle_status(),
    }
}

impl AgentStatuses {
    /// Every role idle: the exhaustive constructor.
    pub fn all_idle() -> (s: AgentStatuses)
        ensures
            s@ == idle_statuses(),
            forall|agent: AgentType|
                agent != AgentType::BMadOrchestrator ==> #[trigger] s@.entry(agent) == Some(
                    idle_status(),
                ),
    {
        AgentStatuses {
            analyst: AgentStatus::idle(),
            architect: AgentStatus::idle(),
            product_manager: AgentStatus::idle(),
            product_owner: AgentStatus::idle(),
            scrum_master: AgentStatus::idle(),
            developer: AgentStatus::idle(),
            quality_assurance: AgentStatus::idle(),
            ux_expert: AgentStatus::idle(),
        }
    }

    /// The entry of `agent`; the orchestrator has none.
    pub fn get(&self, agent: AgentType) -> (s: Option<&AgentStatus>)
        ensures
            match s {
                Some(status) => self@.entry(agent) == Some(status@),
                None => self@.entry(agent) is None,
            },
    {
        match agent {
            AgentType::Analyst => Some(&self.analyst),
            AgentType::Architect => Some(&self.architect),
            AgentType::ProductManager => Some(&self.product_manager),
            AgentType::ProductOwner => Some(&self.product_owner),
            AgentType::ScrumMaster => Some(&self.scrum_master),
            AgentType::Developer => Some(&self.developer),
            AgentType::QualityAssurance => Some(&self.quality_assurance),
            AgentType::UXExpert => Some(&self.ux_expert),
            AgentType::BMadOrchestrator => None,
        }
    }

    /// Replaces the entry of `agent`. The orchestrator has no entry: for it
    /// nothing changes.
    pub fn set(&mut self, agent: AgentType, status: AgentStatus)
        ensures
            final(self)@ == old(self)@.with_entry(agent, status@),
    {
        match agent {
            AgentType::Analyst => { self.analyst = status; },
            AgentType::Architect => { self.architect = status; },
            AgentType::ProductManager => { self.product_manager = status; },
            AgentType::ProductOwner => { self.product_owner = status; },
            AgentType::ScrumMaster => { self.scrum_master = status; },
            AgentType::Developer => { self.developer = status; },
            AgentType::QualityAssurance => { self.quality_assurance = status; },
            AgentType::UXExpert => { self.ux_expert = status; },
            AgentType::BMadOrchestrator => {},
        }
    }
}

/// A step that the state document queues for an agent.
#[derive(Debug, Clone)]
pub struct NextAction {
    pub agent: AgentType,
    pub task: String,
    pub story: Option<String>,
    pub estimated_time: Option<String>,
    pub dependencies: Vec<String>,
    pub auto_trigger: bool,
}

pub struct NextActionView {
    pub agent: AgentType,
    pub task: Seq<char>,
    pub story: Option<Seq<char>>,
    pub estimated_time: Option<Seq<char>>,
    pub dependencies: Seq<Seq<char>>,
    pub auto_trigger: bool,
}

impl View for NextAction {
    type V = NextActionView;

    open spec fn view(&self) -> NextActionView {
        NextActionView {
            agent: self.agent,
            task: self.task@,
            story: opt_text(self.story),
            estimated_time: opt_text(self.estimated_time),
            dependencies: texts(self.dependencies@),
            auto_trigger: self.auto_trigger,
        }
    }
}

/// One named value attached to a workflow event. The values are text. An
/// event holds its entries as a list, in the order in which they were
/// attached, not as a hash map keyed by text: vstd states what a hash map
/// holds only for keys with a key model, which it gives to integers and
/// not to text. The operations of this crate attach at most one entry.
#[derive(Debug, Clone)]
pub struct MetadataEntry {
    pub key: String,
    pub value: String,
}

impl View for MetadataEntry {
    type V = (Seq<char>, Seq<char>);

    open spec fn view(&self) -> (Seq<char>, Seq<char>) {
        (self.key@, self.value@)
    }
}

/// An entry of the append-only workflow history.
#[derive(Debug, Clone)]
pub struct WorkflowEvent {
    pub id: u128,
    pub event_type: WorkflowEventType,
    pub agent: AgentType,
    pub description: String,
    pub timestamp: Timestamp,
    pub metadata: Vec<MetadataEntry>,
}

pub struct WorkflowEventView {
    pub id: u128,
    pub event_type: WorkflowEventType,
    pub agent: AgentType,
    pub description: Seq<char>,
    pub timestamp: Timestamp,
    pub metadata: Seq<(Seq<char>, Seq<char>)>,
}

impl View for WorkflowEvent {
    type V = WorkflowEventView;

    open spec fn view(&self) -> WorkflowEventView {
        WorkflowEventView {
            id: self.id,
            event_type: self.event_type,
            agent: self.agent,
            description: self.description@,
            timestamp: self.timestamp,
            metadata: Seq::new(self.metadata@.len(), |i: int| self.metadata@[i]@),
        }
    }
}

/// The state of one project, as the state document holds it.
#[derive(Debug, Clone)]
pub struct ProjectState {
    pub bmad_version: String,
    pub project_state: ProjectStateType,
    pub current_phase: BMadPhase,
    pub active_story: Option<String>,
    pub next_actions: Vec<NextAction>,
    pub workflow_history: Vec<WorkflowEvent>,
    pub agents: AgentStatuses,
}

pub struct ProjectStateView {
    pub bmad_version: Seq<char>,
    pub project_state: ProjectStateType,
    pub current_phase: BMadPhase,
    pub active_story: Option<Seq<char>>,
    pub next_actions: Seq<NextActionView>,
    pub workflow_history: Seq<WorkflowEventView>,
    pub agents: AgentStatusesView,
}

impl View for ProjectState {
    type V = ProjectStateView;

    open spec fn view(&self) -> ProjectStateView {
        ProjectStateView {
            bmad_version: self.bmad_version@,
            project_state: self.project_state,
            current_phase: self.current_phase,
            active_story: opt_text(self.active_story),
            next_actions: Seq::new(self.next_actions@.len(), |i: int| self.next_actions@[i]@),
            workflow_history: Seq::new(
                self.workflow_history@.len(),
                |i: int| self.workflow_history@[i]@,
            ),
            agents: self.agents@,
        }
    }
}

/// A message from one agent to another, or to the whole team.
#[derive(Debug, Clone)]
pub struct AgentMessage {
    pub id: u128,
    pub from_agent: AgentType,
    pub to_agent: Option<AgentType>,
    pub content: String,
    pub message_type: MessageType,
    pub files_referenced: Vec<String>,
    pub timestamp: Timestamp,
    pub status: MessageStatus,
}

pub struct AgentMessageView {
    pub id: u128,
    pub from_agent: AgentType,
    pub to_agent: Option<AgentType>,
    pub content: Seq<char>,
    pub message_type: MessageType,
    pub files_referenced: Seq<Seq<char>>,
    pub timestamp: Timestamp,
    pub status: MessageStatus,
}

impl View for AgentMessage {
    type V = AgentMessageView;

    open spec fn view(&self) -> AgentMessageView {
        AgentMessageView {
            id: self.id,
            from_agent: self.from_agent,
            to_agent: self.to_agent,
            content: self.content@,
            message_type: self.message_type,
            files_referenced: texts(self.files_referenced@),
            timestamp: self.timestamp,
            status: self.status,
        }
    }
}

impl AgentMessage {
    /// A message that nobody has read yet.
    pub fn pending(
        id: u128,
        timestamp: Timestamp,
        from_agent: AgentType,
        to_agent: Option<AgentType>,
        content: String,
        message_type: MessageType,
        files_referenced: Vec<String>,
    ) -> (message: AgentMessage)
        ensures
            message@ == (AgentMessageView {
                id,
                from_agent,
                to_agent,
                content: content@,
                message_type,
                files_referenced: texts(files_referenced@),
                timestamp,
                status: MessageStatus::Pending,
            }),
    {
        AgentMessage {
            id,
            from_agent,
            to_agent,
            content,
            message_type,
            files_referenced,
            timestamp,
            status: MessageStatus::Pending,
        }
    }
}

/// Of what a project notifies its user.
#[derive(Debug, Clone, Copy, PartialEq, Eq, Structural)]
pub struct NotificationSettings {
    pub desktop_notifications: bool,
    pub agent_handoffs: bool,
    pub story_completions: bool,
    pub blockers: bool,
}

/// What a project demands before work counts as done.
#[derive(Debug, Clone, Copy, PartialEq, Eq, Structural)]
pub struct QualityGates {
    pub require_tests: bool,
    pub require_documentation: bool,
    pub require_architecture_approval: bool,
    pub require_security_review: bool,
}

/// The settings of a project.
#[derive(Debug, Clone)]
pub struct ProjectSettings {
    pub ide_preference: Option<String>,
    pub auto_trigger_agents: bool,
    pub notification_settings: NotificationSettings,
    pub quality_gates: QualityGates,
}

pub struct ProjectSettingsView {
    pub ide_preference: Option<Seq<char>>,
    pub auto_trigger_agents: bool,
    pub notification_settings: NotificationSettings,
    pub quality_gates: QualityGates,
}

impl View for ProjectSettings {
    type V = ProjectSettingsView;

    open spec fn view(&self) -> ProjectSettingsView {
        ProjectSettingsView {
            ide_preference: opt_text(self.ide_preference),
            auto_trigger_agents: self.auto_trigger_agents,
            notification_settings: self.notification_settings,
            quality_gates: self.quality_gates,
        }
    }
}

/// The settings of a project for which none were chosen: every
/// notification on, every quality gate but the security review required.
pub open spec fn default_settings() -> ProjectSettingsView {
    ProjectSettingsView {
        ide_preference: None,
        auto_trigger_agents: true,
        notification_settings: NotificationSettings {
            desktop_notifications: true,
            agent_handoffs: true,
            story_completions: true,
            blockers: true,
        },
        quality_gates: QualityGates {
            require_tests: true,
            require_documentation: true,
            require_architecture_approval: true,
            require_security_review: false,
        },
    }
}

impl ProjectSettings {
    /// A copy of the settings.
    pub fn duplicate(&self) -> (s: ProjectSettings)
        ensures
            s@ == self@,
    {
        ProjectSettings {
            ide_preference: match &self.ide_preference {
                Some(t) => Some(t.clone()),
                None => None,
            },
            auto_trigger_agents: self.auto_trigger_agents,
            notification_settings: self.notification_settings,
            quality_gates: self.quality_gates,
        }
    }

    /// The settings of a project for which none were chosen.
    pub fn standard() -> (s: ProjectSettings)
        ensures
            s@ == default_settings(),
    {
        ProjectSettings {
            ide_preference: None,
            auto_trigger_agents: true,
            notification_settings: NotificationSettings {
                desktop_notifications: true,
                agent_handoffs: true,
                story_completions: true,
                blockers: true,
            },
            quality_gates: QualityGates {
                require_tests: true,
                require_documentation: true,
                require_architecture_approval: true,
                require_security_review: false,
            },
        }
    }
}

/// A project known to the registry.
#[derive(Debug, Clone)]
pub struct BMadProject {
    pub id: u128,
    pub name: String,
    pub path: String,
    pub state: ProjectState,
    pub communications: Vec<AgentMessage>,
    pub created_at: Timestamp,
    pub last_modified: Timestamp,
    pub settings: ProjectSettings,
}

pub struct BMadProjectView {
    pub id: u128,
    pub name: Seq<char>,
    pub path: Seq<char>,
    pub state: ProjectStateView,
    pub communications: Seq<AgentMessageView>,
    pub created_at: Timestamp,
    pub last_modified: Timestamp,
    pub settings: ProjectSettingsView,
}

impl View for BMadProject {
    type V = BMadProjectView;

    open spec fn view(&self) -> BMadProjectView {
        BMadProjectView {
            id: self.id,
            name: self.name@,
            path: self.path@,
            state: self.state@,
            communications: Seq::new(
                self.communications@.len(),
                |i: int| self.communications@[i]@,
            ),
            created_at: self.created_at,
            last_modified: self.last_modified,
            settings: self.settings@,
        }
    }
}

/// What an operation of the core can fail with. Each variant carries the
/// text that describes the failure.
#[derive(Debug, Clone)]
pub enum BMadError {
    FileSystem(String),
    YamlParsing(String),
    JsonParsing(String),
    ProjectNotFound(String),
    InvalidProjectState(String),
    Communication(String),
    Workflow(String),
}

impl BMadError {
    /// The text carried by the error, whatever its kind.
    pub open spec fn detail(self) -> Seq<char> {
        match self {
            BMadError::FileSystem(s) => s@,
            BMadError::YamlParsing(s) => s@,
            BMadError::JsonParsing(s) => s@,
            BMadError::ProjectNotFound(s) => s@,
            BMadError::InvalidProjectState(s) => s@,
            BMadError::Communication(s) => s@,
            BMadError::Workflow(s) => s@,
        }
    }

    /// The words that introduce an error of this kind.
    pub open spec fn label(self) -> Seq<char> {
        match self {
            BMadError::FileSystem(_) => "File system error: "@,
            BMadError::YamlParsing(_) => "YAML parsing error: "@,
            BMadError::JsonParsing(_) => "JSON parsing error: "@,
            BMadError::ProjectNotFound(_) => "Project not found: "@,
            BMadError::InvalidProjectState(_) => "Invalid project state: "@,
            BMadError::Communication(_) => "Communication error: "@,
            BMadError::Workflow(_) => "Workflow error: "@,
        }
    }

    /// The error as a line of text: its kind, then its detail.
    pub fn message(&self) -> (s: String)
        ensures
            s@ == self.label() + self.detail(),
    {
        match self {
            BMadError::FileSystem(d) => String::from_str("File system error: ").concat(d.as_str()),
            BMadError::YamlParsing(d) => String::from_str("YAML parsing error: ").concat(
                d.as_str(),
            ),
            BMadError::JsonParsing(d) => String::from_str("JSON parsing error: ").concat(
                d.as_str(),
            ),
            BMadError::ProjectNotFound(d) => String::from_str("Project not found: ").concat(
                d.as_str(),
            ),
            BMadError::InvalidProjectState(d) => String::from_str(
                "Invalid project state: ",
            ).concat(d.as_str()),
            BMadError::Communication(d) => String::from_str("Communication error: ").concat(
                d.as_str(),
            ),
            BMadError::Workflow(d) => String::from_str("Workflow error: ").concat(d.as_str()),
        }
    }
}

} // verus!
