//! The scheduler: how busy each agent is, which candidates a phase calls
//! for, how they are adjusted, ranked and cut down to the recommendations
//! of who should act next.
use vstd::prelude::*;
use vstd::string::StringExecFns;

use crate::clock::{Timestamp, NANOS_PER_HOUR};
use crate::text::{
    contains_text, decimal_text, has_markdown_extension, holds, is_markdown_name, lowercase,
    lowercase_text, number_text, occurs_at, opt_text, replace_spaces, texts, to_chars, underscored,
};
use crate::types::{
    agent_variant_name, roster, AgentStatus, AgentStatusType, AgentStatusView,
    AgentStatusesView, AgentType, BMadPhase, ProjectState, ProjectStateType, ProjectStateView,
};
use crate::workflow::WorkflowManager;

verus! {

/// The scheduler's advice: an agent, why it should act, and how urgently
/// (1 to 10, 10 being the most urgent).
#[derive(Debug, Clone)]
pub struct AgentRecommendation {
    pub agent: AgentType,
    pub reason: String,
    pub priority: u8,
    pub estimated_time: Option<String>,
    pub prerequisites: Vec<String>,
}

pub struct AgentRecommendationView {
    pub agent: AgentType,
    pub reason: Seq<char>,
    pub priority: u8,
    pub estimated_time: Option<Seq<char>>,
    pub prerequisites: Seq<Seq<char>>,
}

impl View for AgentRecommendation {
    type V = AgentRecommendationView;

    open spec fn view(&self) -> AgentRecommendationView {
        AgentRecommendationView {
            agent: self.agent,
            reason: self.reason@,
            priority: self.priority,
            estimated_time: opt_text(self.estimated_time),
            prerequisites: texts(self.prerequisites@),
        }
    }
}

/// The views of a list of recommendations.
pub open spec fn advice_views(items: Seq<AgentRecommendation>) -> Seq<AgentRecommendationView> {
    Seq::new(items.len(), |i: int| items[i]@)
}

/// What the scheduler learns from the project tree before it decides.
#[derive(Debug, Clone, Copy, PartialEq, Eq, Structural)]
pub struct ArtifactProbes {
    /// `docs/prd.md` exists.
    pub requirements_doc: bool,
    /// `docs/architecture.md` exists.
    pub architecture_doc: bool,
    /// `docs/stories` holds at least one story file.
    pub ready_stories: bool,
    /// `docs/designs` exists.
    pub designs: bool,
    /// `docs/mockups` exists.
    pub mockups: bool,
    /// `docs/wireframes` exists.
    pub wireframes: bool,
    /// The implementation path of the active story exists.
    pub story_implementation: bool,
    /// The test path of the active story exists.
    pub story_tests: bool,
    /// The story document of the active story exists.
    pub story_document: bool,
}

/// How far a story has come: how many of the indicators that were looked
/// at are present.
#[derive(Debug, Clone, Copy, PartialEq, Eq, Structural)]
pub struct StoryCompletion {
    pub present: u8,
    pub checked: u8,
}

impl StoryCompletion {
    /// Whether the completed share is at least `tenths` tenths. With no
    /// indicator looked at the share counts as three tenths.
    pub open spec fn reaches(self, tenths: int) -> bool {
        if self.checked == 0 {
            3 >= tenths
        } else {
            self.present * 10 >= tenths * self.checked
        }
    }

    /// The completed share in percent, rounded to the nearest whole.
    pub open spec fn percent(self) -> nat {
        if self.checked == 0 {
            30
        } else {
            ((200 * self.present + self.checked) / (2 * self.checked)) as nat
        }
    }

    /// Whether the completed share is at least `tenths` tenths.
    pub fn at_least(&self, tenths: u8) -> (b: bool)
        ensures
            b == self.reaches(tenths as int),
    {
        if self.checked == 0 {
            3 >= tenths
        } else {
            assert(tenths * self.checked <= 255 * 255) by (nonlinear_arith)
                requires
                    tenths <= 255,
                    self.checked <= 255,
            ;
            let have: u32 = self.present as u32 * 10;
            let need: u32 = tenths as u32 * self.checked as u32;
            have >= need
        }
    }

    /// The completed share in percent, rounded to the nearest whole.
    pub fn as_percent(&self) -> (p: u64)
        ensures
            p == self.percent(),
    {
        if self.checked == 0 {
            30
        } else {
            let twice: u64 = 200 * self.present as u64 + self.checked as u64;
            let by: u64 = 2 * self.checked as u64;
            twice / by
        }
    }
}

/// The completion estimate from the three indicators of a story: its
/// implementation path, its test path and its story document.
pub open spec fn story_completion(probes: ArtifactProbes) -> StoryCompletion {
    StoryCompletion {
        present: ((if probes.story_implementation {
            1int
        } else {
            0
        }) + (if probes.story_tests {
            1int
        } else {
            0
        }) + (if probes.story_document {
            1int
        } else {
            0
        })) as u8,
        checked: 3,
    }
}

/// The workload of one agent in tenths, from 0 (free) to 10 (fully
/// loaded): 8 for Active, 3 for Waiting, 10 for Blocked, else 0; 2 more
/// with a current task; 1 more where the last activity lies less than two
/// hours back, 1 less where it lies more than 24 hours back, by however
/// little; held within 0 and 10.
pub open spec fn workload_tenths(status: AgentStatusView, now: Timestamp) -> int {
    let base: int = match status.status {
        AgentStatusType::Active => 8,
        AgentStatusType::Waiting => 3,
        AgentStatusType::Blocked => 10,
        AgentStatusType::Idle => 0,
        AgentStatusType::Offline => 0,
    };
    let task: int = if status.current_task is Some {
        2
    } else {
        0
    };
    let recent: int = match status.last_activity {
        Some(then) => {
            let span = then.span_until(now);
            if span < 2 * NANOS_PER_HOUR {
                1
            } else if span > 24 * NANOS_PER_HOUR {
                -1
            } else {
                0
            }
        },
        None => 0,
    };
    let sum = base + task + recent;
    if sum < 0 {
        0
    } else if sum > 10 {
        10
    } else {
        sum
    }
}

/// The workload of `agent` in a project; 0 for the orchestrator, which
/// carries no status.
pub open spec fn workload_of(agents: AgentStatusesView, agent: AgentType, now: Timestamp) -> int {
    match agents.entry(agent) {
        Some(status) => workload_tenths(status, now),
        None => 0,
    }
}

/// The workload of each agent that carries a status, in tenths.
#[derive(Debug, Clone, Copy, PartialEq, Eq, Structural)]
pub struct AgentWorkload {
    pub analyst: u8,
    pub architect: u8,
    pub product_manager: u8,
    pub product_owner: u8,
    pub scrum_master: u8,
    pub developer: u8,
    pub quality_assurance: u8,
    pub ux_expert: u8,
}

impl AgentWorkload {
    /// The workload of `agent` in tenths; 0 for the orchestrator.
    pub open spec fn load(self, agent: AgentType) -> int {
        match agent {
            AgentType::Analyst => self.analyst as int,
            AgentType::Architect => self.architect as int,
            AgentType::ProductManager => self.product_manager as int,
            AgentType::ProductOwner => self.product_owner as int,
            AgentType::ScrumMaster => self.scrum_master as int,
            AgentType::Developer => self.developer as int,
            AgentType::QualityAssurance => self.quality_assurance as int,
            AgentType::UXExpert => self.ux_expert as int,
            AgentType::BMadOrchestrator => 0,
        }
    }

    /// The workload of `agent` in tenths; 0 for the orchestrator.
    pub fn get(&self, agent: AgentType) -> (tenths: u8)
        ensures
            tenths == self.load(agent),
    {
        match agent {
            AgentType::Analyst => self.analyst,
            AgentType::Architect => self.architect,
            AgentType::ProductManager => self.product_manager,
            AgentType::ProductOwner => self.product_owner,
            AgentType::ScrumMaster => self.scrum_master,
            AgentType::Developer => self.developer,
            AgentType::QualityAssurance => self.quality_assurance,
            AgentType::UXExpert => self.ux_expert,
            AgentType::BMadOrchestrator => 0,
        }
    }
}

/// The first agent of the roster whose status is Blocked.
pub open spec fn first_blocked(agents: AgentStatusesView) -> Option<AgentType> {
    if agents.analyst.status == AgentStatusType::Blocked {
        Some(AgentType::Analyst)
    } else if agents.architect.status == AgentStatusType::Blocked {
        Some(AgentType::Architect)
    } else if agents.product_manager.status == AgentStatusType::Blocked {
        Some(AgentType::ProductManager)
    } else if agents.product_owner.status == AgentStatusType::Blocked {
        Some(AgentType::ProductOwner)
    } else if agents.scrum_master.status == AgentStatusType::Blocked {
        Some(AgentType::ScrumMaster)
    } else if agents.developer.status == AgentStatusType::Blocked {
        Some(AgentType::Developer)
    } else if agents.quality_assurance.status == AgentStatusType::Blocked {
        Some(AgentType::QualityAssurance)
    } else if agents.ux_expert.status == AgentStatusType::Blocked {
        Some(AgentType::UXExpert)
    } else {
        None
    }
}

/// A recommendation with a fixed text, a time estimate and one
/// prerequisite.
pub open spec fn advice(
    agent: AgentType,
    reason: Seq<char>,
    priority: u8,
    estimated_time: Seq<char>,
    prerequisite: Seq<char>,
) -> AgentRecommendationView {
    AgentRecommendationView {
        agent,
        reason,
        priority,
        estimated_time: Some(estimated_time),
        prerequisites: seq![prerequisite],
    }
}

/// A recommendation that can start at once: it has no prerequisite.
pub open spec fn ready_advice(
    agent: AgentType,
    reason: Seq<char>,
    priority: u8,
    estimated_time: Seq<char>,
) -> AgentRecommendationView {
    AgentRecommendationView {
        agent,
        reason,
        priority,
        estimated_time: Some(estimated_time),
        prerequisites: Seq::empty(),
    }
}

/// The one recommendation that a blocked agent calls for: the product
/// manager resolves the blocker, before anything else.
pub open spec fn blocker_advice(blocked: AgentType) -> AgentRecommendationView {
    advice(
        AgentType::ProductManager,
        "Resolve blocker for "@ + agent_variant_name(blocked),
        10,
        "30 minutes - 2 hours"@,
        "Investigate blocker cause"@,
    )
}

/// Whether a name in lower case holds a word of user-interface work.
pub open spec fn names_interface_work(lower: Seq<char>) -> bool {
    ||| contains_text(lower, "ui"@)
    ||| contains_text(lower, "interface"@)
    ||| contains_text(lower, "design"@)
    ||| contains_text(lower, "user"@)
    ||| contains_text(lower, "frontend"@)
    ||| contains_text(lower, "page"@)
    ||| contains_text(lower, "component"@)
}

/// Whether a name in lower case holds a word of work that wants a design.
pub open spec fn names_design_work(lower: Seq<char>) -> bool {
    ||| contains_text(lower, "interface"@)
    ||| contains_text(lower, "design"@)
    ||| contains_text(lower, "user"@)
    ||| contains_text(lower, "frontend"@)
    ||| contains_text(lower, "page"@)
    ||| contains_text(lower, "component"@)
    ||| contains_text(lower, "layout"@)
    ||| contains_text(lower, "form"@)
}

/// Whether a story's name speaks of user-interface work, in whatever
/// case.
pub open spec fn mentions_interface(story: Seq<char>) -> bool {
    names_interface_work(lowercase_text(story))
}

/// Whether a story's name speaks of work that wants a design, in whatever
/// case.
pub open spec fn mentions_design(story: Seq<char>) -> bool {
    names_design_work(lowercase_text(story))
}

/// Whether a story wants a design that the project does not hold yet.
pub open spec fn wants_design(story: Seq<char>, probes: ArtifactProbes) -> bool {
    mentions_design(story) && !(probes.designs || probes.mockups || probes.wireframes)
}

/// The words " (~N% complete)" for a completion estimate.
pub open spec fn progress_note(done: StoryCompletion) -> Seq<char> {
    " (~"@ + decimal_text(done.percent()) + "% complete)"@
}

/// The candidates while a story is under development.
pub open spec fn story_candidates(story: Seq<char>, probes: ArtifactProbes) -> Seq<
    AgentRecommendationView,
> {
    let done = story_completion(probes);
    let main = if done.reaches(8) {
        seq![
            advice(
                AgentType::QualityAssurance,
                "Review and test completed story: "@ + story + progress_note(done),
                10,
                "1-2 hours"@,
                "Story implementation complete"@,
            ),
            advice(
                AgentType::ScrumMaster,
                "Prepare next story while current is in QA"@,
                6,
                "30 minutes"@,
                "Current story in QA"@,
            ),
        ]
    } else if done.reaches(5) {
        seq![
            ready_advice(
                AgentType::Developer,
                "Continue development of: "@ + story + progress_note(done),
                9,
                "2-4 hours"@,
            ),
            advice(
                AgentType::Architect,
                "Mid-development architecture review and guidance"@,
                5,
                "30 minutes"@,
                "Partial implementation available"@,
            ),
        ]
    } else if wants_design(story, probes) {
        seq![
            ready_advice(
                AgentType::Developer,
                "Begin/continue implementation of: "@ + story,
                9,
                "3-6 hours"@,
            ),
            advice(
                AgentType::UXExpert,
                "Provide design specifications and mockups for development"@,
                8,
                "1-3 hours"@,
                "Story requirements understood"@,
            ),
        ]
    } else {
        seq![
            ready_advice(
                AgentType::Developer,
                "Begin/continue implementation of: "@ + story,
                9,
                "3-6 hours"@,
            ),
        ]
    };
    if mentions_interface(story) && done.reaches(6) {
        main.push(
            advice(
                AgentType::UXExpert,
                "Review user experience and interface implementation"@,
                7,
                "1-2 hours"@,
                "UI implementation available for review"@,
            ),
        )
    } else {
        main
    }
}

/// The candidates that phase and project status call for, before any
/// adjustment.
pub open spec fn base_candidates(state: ProjectStateView, probes: ArtifactProbes) -> Seq<
    AgentRecommendationView,
> {
    match state.current_phase {
        BMadPhase::Planning => match state.project_state {
            ProjectStateType::Initializing => seq![
                advice(
                    AgentType::ProductOwner,
                    "Define project vision and stakeholder requirements"@,
                    10,
                    "2-4 hours"@,
                    "Project concept defined"@,
                ),
                advice(
                    AgentType::Analyst,
                    "Research market requirements and user needs"@,
                    9,
                    "4-6 hours"@,
                    "Project vision available"@,
                ),
            ],
            ProjectStateType::Planning => planning_candidates(probes),
            _ => Seq::empty(),
        },
        BMadPhase::StoryCreation => {
            let first = seq![
                advice(
                    AgentType::ScrumMaster,
                    "Create and prioritize development stories"@,
                    10,
                    "2-3 hours"@,
                    "Architecture design complete"@,
                ),
            ];
            if probes.ready_stories {
                first.push(
                    advice(
                        AgentType::Developer,
                        "Begin implementation of highest priority story"@,
                        9,
                        "Variable per story"@,
                        "Stories defined and prioritized"@,
                    ),
                )
            } else {
                first
            }
        },
        BMadPhase::Development => match state.active_story {
            Some(story) => story_candidates(story, probes),
            None => if probes.ready_stories {
                seq![
                    advice(
                        AgentType::ScrumMaster,
                        "Select and assign next high-priority story for development"@,
                        9,
                        "30 minutes"@,
                        "Story backlog available"@,
                    ),
                    advice(
                        AgentType::Developer,
                        "Review available stories and begin implementation"@,
                        8,
                        "1 hour setup + implementation"@,
                        "Story selected for development"@,
                    ),
                ]
            } else {
                seq![
                    advice(
                        AgentType::ScrumMaster,
                        "Create additional development stories - backlog appears empty"@,
                        10,
                        "1-2 hours"@,
                        "Project requirements available"@,
                    ),
                ]
            },
        },
        BMadPhase::QualityAssurance => seq![
            advice(
                AgentType::QualityAssurance,
                "Perform comprehensive quality assurance testing"@,
                10,
                "2-4 hours"@,
                "All stories implemented"@,
            ),
            advice(
                AgentType::Architect,
                "Final architecture and security review"@,
                8,
                "1-2 hours"@,
                "Implementation complete"@,
            ),
        ],
        BMadPhase::Complete => seq![
            advice(
                AgentType::ProductOwner,
                "Project review and stakeholder sign-off"@,
                5,
                "1 hour"@,
                "All quality checks passed"@,
            ),
        ],
    }
}

/// The candidates of the planning phase: the documents that are missing,
/// or, with both at hand, the step on to story creation.
pub open spec fn planning_candidates(probes: ArtifactProbes) -> Seq<AgentRecommendationView> {
    let prd = if !probes.requirements_doc {
        seq![
            advice(
                AgentType::ProductManager,
                "Create Product Requirements Document (PRD)"@,
                10,
                "3-5 hours"@,
                "Analyst research complete"@,
            ),
        ]
    } else {
        Seq::empty()
    };
    let arch = if !probes.architecture_doc {
        seq![
            advice(
                AgentType::Architect,
                "Design technical architecture and system design"@,
                9,
                "4-8 hours"@,
                "PRD available"@,
            ),
        ]
    } else {
        Seq::empty()
    };
    let next = if probes.requirements_doc && probes.architecture_doc {
        seq![
            advice(
                AgentType::ScrumMaster,
                "Break down requirements into development stories and plan sprint backlog"@,
                8,
                "2-4 hours"@,
                "PRD and Architecture complete"@,
            ),
            advice(
                AgentType::ProductOwner,
                "Review and approve planning artifacts before story creation"@,
                7,
                "1-2 hours"@,
                "PRD and Architecture documents available"@,
            ),
        ]
    } else {
        Seq::empty()
    };
    prd + arch + next
}

/// A candidate after the workload of its agent is taken into account: a
/// busy agent (workload above 7 tenths) has the priority cut to seven
/// tenths and a note added; a free agent (workload under 2 tenths) has a
/// priority of 7 or more raised by a fifth, to 10 at most.
pub open spec fn adjusted(item: AgentRecommendationView, load: int) -> AgentRecommendationView {
    if load > 7 {
        AgentRecommendationView {
            priority: ((item.priority * 7) / 10) as u8,
            reason: item.reason + " (Agent currently busy)"@,
            ..item
        }
    } else if load < 2 && item.priority >= 7 {
        AgentRecommendationView {
            priority: if (item.priority * 12) / 10 > 10 {
                10u8
            } else {
                ((item.priority * 12) / 10) as u8
            },
            ..item
        }
    } else {
        item
    }
}

/// Whether a candidate stays on the list: priority 10 is kept for the
/// resolving of blockers.
pub open spec fn stays(item: AgentRecommendationView) -> bool {
    item.priority < 10 || contains_text(item.reason, "Resolve blocker"@)
}

/// The candidates that stay, in their order.
pub open spec fn kept(items: Seq<AgentRecommendationView>) -> Seq<AgentRecommendationView>
    decreases items.len(),
{
    if items.len() == 0 {
        Seq::empty()
    } else if stays(items.last()) {
        kept(items.drop_last()).push(items.last())
    } else {
        kept(items.drop_last())
    }
}

/// The impact score: the priority, 2 more without prerequisites, 1 more
/// for a short task, 2 more where the reason speaks of a transition or of
/// completing, 10 at most.
pub open spec fn impact_score(item: AgentRecommendationView) -> int {
    let start: int = if item.prerequisites.len() == 0 {
        2
    } else {
        0
    };
    let short: int = match item.estimated_time {
        Some(time) => if contains_text(time, "30 minutes"@) || contains_text(time, "1 hour"@) {
            1
        } else {
            0
        },
        None => 0,
    };
    let critical: int = if contains_text(item.reason, "transition"@) || contains_text(
        item.reason,
        "complete"@,
    ) {
        2
    } else {
        0
    };
    let sum = item.priority + start + short + critical;
    if sum > 10 {
        10
    } else {
        sum
    }
}

/// Whether `a` ranks strictly above `b`: by priority, then by impact.
pub open spec fn outranks(a: AgentRecommendationView, b: AgentRecommendationView) -> bool {
    a.priority > b.priority || (a.priority == b.priority && impact_score(a) > impact_score(b))
}

/// Where `item` goes into a ranked list: behind every entry that it does
/// not outrank, up to the first that it does.
pub open spec fn rank_position(ranked: Seq<AgentRecommendationView>, item: AgentRecommendationView) -> nat
    decreases ranked.len(),
{
    if ranked.len() == 0 || outranks(item, ranked[0]) {
        0
    } else {
        1 + rank_position(ranked.drop_first(), item)
    }
}

/// The list ordered by rank, highest first; entries of equal rank keep the
/// order in which they came.
pub open spec fn ranked(items: Seq<AgentRecommendationView>) -> Seq<AgentRecommendationView>
    decreases items.len(),
{
    if items.len() == 0 {
        Seq::empty()
    } else {
        let front = ranked(items.drop_last());
        front.insert(rank_position(front, items.last()) as int, items.last())
    }
}

/// Each candidate adjusted to the workload of its agent.
pub open spec fn adjusted_all(
    items: Seq<AgentRecommendationView>,
    agents: AgentStatusesView,
    now: Timestamp,
) -> Seq<AgentRecommendationView> {
    Seq::new(items.len(), |i: int| adjusted(items[i], workload_of(agents, items[i].agent, now)))
}

/// The first `n` entries, or all of them where there are fewer.
pub open spec fn at_most(items: Seq<AgentRecommendationView>, n: int) -> Seq<AgentRecommendationView> {
    if items.len() <= n {
        items
    } else {
        items.take(n)
    }
}

/// What the scheduler recommends for a project at the instant `now`: with
/// a blocked agent, the resolving of the first blocker and nothing else;
/// otherwise the candidates of the phase, adjusted to the workloads,
/// without those of priority 10, ordered by rank, five at most.
pub open spec fn recommendations(state: ProjectStateView, probes: ArtifactProbes, now: Timestamp) -> Seq<
    AgentRecommendationView,
> {
    match first_blocked(state.agents) {
        Some(blocked) => seq![blocker_advice(blocked)],
        None => at_most(
            ranked(
                kept(adjusted_all(base_candidates(state, probes), state.agents, now)),
            ),
            5,
        ),
    }
}

fn fixed(agent: AgentType, reason: &str, priority: u8, time: &str, prerequisite: &str) -> (item:
    AgentRecommendation)
    ensures
        item@ == advice(agent, reason@, priority, time@, prerequisite@),
{
    let mut prerequisites: Vec<String> = Vec::new();
    prerequisites.push(String::from_str(prerequisite));
    let item = AgentRecommendation {
        agent,
        reason: String::from_str(reason),
        priority,
        estimated_time: Some(String::from_str(time)),
        prerequisites,
    };
    assert(item@.prerequisites =~= seq![prerequisite@]);
    item
}

fn ready(agent: AgentType, reason: String, priority: u8, time: &str) -> (item: AgentRecommendation)
    ensures
        item@ == ready_advice(agent, reason@, priority, time@),
{
    let item = AgentRecommendation {
        agent,
        reason,
        priority,
        estimated_time: Some(String::from_str(time)),
        prerequisites: Vec::new(),
    };
    assert(item@.prerequisites =~= Seq::<Seq<char>>::empty());
    item
}

/// Whether a name in lower case holds a word of user-interface work.
pub fn speaks_of_interface(lower: &str) -> (speaks: bool)
    ensures
        speaks == names_interface_work(lower@),
{
    let name = to_chars(lower);
    holds(&name, "ui") || holds(&name, "interface") || holds(&name, "design") || holds(
        &name,
        "user",
    ) || holds(&name, "frontend") || holds(&name, "page") || holds(&name, "component")
}

/// Whether a name in lower case holds a word of work that wants a design.
pub fn speaks_of_design(lower: &str) -> (speaks: bool)
    ensures
        speaks == names_design_work(lower@),
{
    let name = to_chars(lower);
    holds(&name, "interface") || holds(&name, "design") || holds(&name, "user") || holds(
        &name,
        "frontend",
    ) || holds(&name, "page") || holds(&name, "component") || holds(&name, "layout") || holds(
        &name,
        "form",
    )
}

fn progress_text(done: StoryCompletion) -> (s: String)
    ensures
        s@ == progress_note(done),
{
    let mut s = String::from_str(" (~");
    let n = number_text(done.as_percent());
    s.append(n.as_str());
    s.append("% complete)");
    s
}

/// The workload of one agent at the instant `now`, in tenths.
pub fn agent_workload(status: &AgentStatus, now: Timestamp) -> (tenths: u8)
    ensures
        tenths == workload_tenths(status@, now),
{
    let base: i32 = match status.status {
        AgentStatusType::Active => 8,
        AgentStatusType::Waiting => 3,
        AgentStatusType::Blocked => 10,
        AgentStatusType::Idle => 0,
        AgentStatusType::Offline => 0,
    };
    let task: i32 = if status.current_task.is_some() {
        2
    } else {
        0
    };
    let recent: i32 = match status.last_activity {
        Some(then) => {
            let span: i128 = then.nanos_until(&now);
            if span < 2 * NANOS_PER_HOUR {
                1
            } else if span > 24 * NANOS_PER_HOUR {
                -1
            } else {
                0
            }
        },
        None => 0,
    };
    let sum: i32 = base + task + recent;
    if sum < 0 {
        0
    } else if sum > 10 {
        10
    } else {
        sum as u8
    }
}

/// Where `item` goes into a ranked list, found by walking the list from
/// its head.
proof fn lemma_rank_position(
    list: Seq<AgentRecommendationView>,
    item: AgentRecommendationView,
    pos: int,
)
    requires
        0 <= pos <= list.len(),
        forall|j: int| 0 <= j < pos ==> !outranks(item, list[j]),
        pos == list.len() || outranks(item, list[pos]),
    ensures
        rank_position(list, item) == pos,
    decreases list.len(),
{
    if pos > 0 {
        let rest = list.drop_first();
        assert forall|j: int| 0 <= j < pos - 1 implies !outranks(item, rest[j]) by {
            assert(rest[j] == list[j + 1]);
        }
        if pos != list.len() {
            assert(rest[pos - 1] == list[pos]);
        }
        lemma_rank_position(rest, item, pos - 1);
    }
}

impl WorkflowManager {
    /// The workload of every agent of the project at the instant `now`.
    pub fn analyze_agent_workload(&self, state: &ProjectState, now: Timestamp) -> (load:
        AgentWorkload)
        ensures
            forall|agent: AgentType| #[trigger]
                load.load(agent) == workload_of(state@.agents, agent, now),
    {
        AgentWorkload {
            analyst: agent_workload(&state.agents.analyst, now),
            architect: agent_workload(&state.agents.architect, now),
            product_manager: agent_workload(&state.agents.product_manager, now),
            product_owner: agent_workload(&state.agents.product_owner, now),
            scrum_master: agent_workload(&state.agents.scrum_master, now),
            developer: agent_workload(&state.agents.developer, now),
            quality_assurance: agent_workload(&state.agents.quality_assurance, now),
            ux_expert: agent_workload(&state.agents.ux_expert, now),
        }
    }

    /// The recommendation to resolve the first blocker, where an agent is
    /// blocked.
    pub fn check_for_blockers(&self, state: &ProjectState) -> (found: Option<AgentRecommendation>)
        ensures
            match found {
                Some(item) => first_blocked(state@.agents) is Some && item@ == blocker_advice(
                    first_blocked(state@.agents)->0,
                ),
                None => first_blocked(state@.agents) is None,
            },
    {
        let agents = &state.agents;
        let blocked = if agents.analyst.status == AgentStatusType::Blocked {
            AgentType::Analyst
        } else if agents.architect.status == AgentStatusType::Blocked {
            AgentType::Architect
        } else if agents.product_manager.status == AgentStatusType::Blocked {
            AgentType::ProductManager
        } else if agents.product_owner.status == AgentStatusType::Blocked {
            AgentType::ProductOwner
        } else if agents.scrum_master.status == AgentStatusType::Blocked {
            AgentType::ScrumMaster
        } else if agents.developer.status == AgentStatusType::Blocked {
            AgentType::Developer
        } else if agents.quality_assurance.status == AgentStatusType::Blocked {
            AgentType::QualityAssurance
        } else if agents.ux_expert.status == AgentStatusType::Blocked {
            AgentType::UXExpert
        } else {
            return None;
        };
        let mut reason = String::from_str("Resolve blocker for ");
        reason.append(blocked.name());
        let mut item = fixed(
            AgentType::ProductManager,
            "",
            10,
            "30 minutes - 2 hours",
            "Investigate blocker cause",
        );
        item.reason = reason;
        Some(item)
    }

    /// The completion estimate of the active story from its three
    /// indicators.
    pub fn estimate_story_completion(&self, probes: &ArtifactProbes) -> (done: StoryCompletion)
        ensures
            done == story_completion(*probes),
    {
        let mut present: u8 = 0;
        if probes.story_implementation {
            present += 1;
        }
        if probes.story_tests {
            present += 1;
        }
        if probes.story_document {
            present += 1;
        }
        StoryCompletion { present, checked: 3 }
    }

    /// Every story is handed to quality assurance when it is completed.
    pub fn story_needs_qa(&self, story_name: &str) -> (needed: bool)
        ensures
            needed,
    {
        true
    }

    /// Whether a story wants its user interface reviewed: its name speaks
    /// of user-interface work.
    pub fn story_needs_ux_review(&self, story_name: &str) -> (needed: bool)
        ensures
            needed == mentions_interface(story_name@),
    {
        speaks_of_interface(lowercase(story_name).as_str())
    }

    /// Whether a story wants a design that the project does not hold yet.
    pub fn story_needs_design_clarification(&self, story_name: &str, probes: &ArtifactProbes) -> (needed:
        bool)
        ensures
            needed == wants_design(story_name@, *probes),
    {
        speaks_of_design(lowercase(story_name).as_str()) && !(probes.designs || probes.mockups
            || probes.wireframes)
    }

    /// The impact score of a recommendation, 10 at most.
    pub fn estimate_impact_score(&self, recommendation: &AgentRecommendation) -> (score: u8)
        ensures
            score == impact_score(recommendation@),
    {
        let mut score: u32 = recommendation.priority as u32;
        if recommendation.prerequisites.len() == 0 {
            score += 2;
        }
        match &recommendation.estimated_time {
            Some(time) => {
                let t = to_chars(time.as_str());
                if holds(&t, "30 minutes") || holds(&t, "1 hour") {
                    score += 1;
                }
            },
            None => {},
        }
        let reason = to_chars(recommendation.reason.as_str());
        if holds(&reason, "transition") || holds(&reason, "complete") {
            score += 2;
        }
        if score > 10 {
            10
        } else {
            score as u8
        }
    }
}

fn planning_advice(probes: &ArtifactProbes) -> (items: Vec<AgentRecommendation>)
    ensures
        advice_views(items@) == planning_candidates(*probes),
{
    let mut items: Vec<AgentRecommendation> = Vec::new();
    if !probes.requirements_doc {
        items.push(
            fixed(
                AgentType::ProductManager,
                "Create Product Requirements Document (PRD)",
                10,
                "3-5 hours",
                "Analyst research complete",
            ),
        );
    }
    if !probes.architecture_doc {
        items.push(
            fixed(
                AgentType::Architect,
                "Design technical architecture and system design",
                9,
                "4-8 hours",
                "PRD available",
            ),
        );
    }
    if probes.requirements_doc && probes.architecture_doc {
        items.push(
            fixed(
                AgentType::ScrumMaster,
                "Break down requirements into development stories and plan sprint backlog",
                8,
                "2-4 hours",
                "PRD and Architecture complete",
            ),
        );
        items.push(
            fixed(
                AgentType::ProductOwner,
                "Review and approve planning artifacts before story creation",
                7,
                "1-2 hours",
                "PRD and Architecture documents available",
            ),
        );
    }
    assert(advice_views(items@) =~= planning_candidates(*probes));
    items
}

fn adjust(item: AgentRecommendation, load: u8) -> (out: AgentRecommendation)
    ensures
        out@ == adjusted(item@, load as int),
{
    let mut out = item;
    if load > 7 {
        let cut: u32 = out.priority as u32 * 7 / 10;
        out.priority = cut as u8;
        out.reason.append(" (Agent currently busy)");
    } else if load < 2 && out.priority >= 7 {
        let raised: u32 = out.priority as u32 * 12 / 10;
        out.priority = if raised > 10 {
            10
        } else {
            raised as u8
        };
    }
    out
}

impl WorkflowManager {
    fn story_advice(&self, story: &str, probes: &ArtifactProbes) -> (items: Vec<AgentRecommendation>)
        ensures
            advice_views(items@) == story_candidates(story@, *probes),
    {
        let done = self.estimate_story_completion(probes);
        let mut items: Vec<AgentRecommendation> = Vec::new();
        if done.at_least(8) {
            let mut reason = String::from_str("Review and test completed story: ");
            reason.append(story);
            reason.append(progress_text(done).as_str());
            let mut first = fixed(
                AgentType::QualityAssurance,
                "",
                10,
                "1-2 hours",
                "Story implementation complete",
            );
            first.reason = reason;
            items.push(first);
            items.push(
                fixed(
                    AgentType::ScrumMaster,
                    "Prepare next story while current is in QA",
                    6,
                    "30 minutes",
                    "Current story in QA",
                ),
            );
        } else if done.at_least(5) {
            let mut reason = String::from_str("Continue development of: ");
            reason.append(story);
            reason.append(progress_text(done).as_str());
            items.push(ready(AgentType::Developer, reason, 9, "2-4 hours"));
            items.push(
                fixed(
                    AgentType::Architect,
                    "Mid-development architecture review and guidance",
                    5,
                    "30 minutes",
                    "Partial implementation available",
                ),
            );
        } else {
            let mut reason = String::from_str("Begin/continue implementation of: ");
            reason.append(story);
            items.push(ready(AgentType::Developer, reason, 9, "3-6 hours"));
            if self.story_needs_design_clarification(story, probes) {
                items.push(
                    fixed(
                        AgentType::UXExpert,
                        "Provide design specifications and mockups for development",
                        8,
                        "1-3 hours",
                        "Story requirements understood",
                    ),
                );
            }
        }
        if self.story_needs_ux_review(story) && done.at_least(6) {
            items.push(
                fixed(
                    AgentType::UXExpert,
                    "Review user experience and interface implementation",
                    7,
                    "1-2 hours",
                    "UI implementation available for review",
                ),
            );
        }
        assert(advice_views(items@) =~= story_candidates(story@, *probes));
        items
    }

    /// The candidates that phase and project status call for.
    pub fn candidates(&self, state: &ProjectState, probes: &ArtifactProbes) -> (items: Vec<
        AgentRecommendation,
    >)
        ensures
            advice_views(items@) == base_candidates(state@, *probes),
    {
        let mut items: Vec<AgentRecommendation> = Vec::new();
        match state.current_phase {
            BMadPhase::Planning => match state.project_state {
                ProjectStateType::Initializing => {
                    items.push(
                        fixed(
                            AgentType::ProductOwner,
                            "Define project vision and stakeholder requirements",
                            10,
                            "2-4 hours",
                            "Project concept defined",
                        ),
                    );
                    items.push(
                        fixed(
                            AgentType::Analyst,
                            "Research market requirements and user needs",
                            9,
                            "4-6 hours",
                            "Project vision available",
                        ),
                    );
                },
                ProjectStateType::Planning => {
                    items = planning_advice(probes);
                },
                _ => {},
            },
            BMadPhase::StoryCreation => {
                items.push(
                    fixed(
                        AgentType::ScrumMaster,
                        "Create and prioritize development stories",
                        10,
                        "2-3 hours",
                        "Architecture design complete",
                    ),
                );
                if probes.ready_stories {
                    items.push(
                        fixed(
                            AgentType::Developer,
                            "Begin implementation of highest priority story",
                            9,
                            "Variable per story",
                            "Stories defined and prioritized",
                        ),
                    );
                }
            },
            BMadPhase::Development => match &state.active_story {
                Some(story) => {
                    items = self.story_advice(story.as_str(), probes);
                },
                None => {
                    if probes.ready_stories {
                        items.push(
                            fixed(
                                AgentType::ScrumMaster,
                                "Select and assign next high-priority story for development",
                                9,
                                "30 minutes",
                                "Story backlog available",
                            ),
                        );
                        items.push(
                            fixed(
                                AgentType::Developer,
                                "Review available stories and begin implementation",
                                8,
                                "1 hour setup + implementation",
                                "Story selected for development",
                            ),
                        );
                    } else {
                        items.push(
                            fixed(
                                AgentType::ScrumMaster,
                                "Create additional development stories - backlog appears empty",
                                10,
                                "1-2 hours",
                                "Project requirements available",
                            ),
                        );
                    }
                },
            },
            BMadPhase::QualityAssurance => {
                items.push(
                    fixed(
                        AgentType::QualityAssurance,
                        "Perform comprehensive quality assurance testing",
                        10,
                        "2-4 hours",
                        "All stories implemented",
                    ),
                );
                items.push(
                    fixed(
                        AgentType::Architect,
                        "Final architecture and security review",
                        8,
                        "1-2 hours",
                        "Implementation complete",
                    ),
                );
            },
            BMadPhase::Complete => {
                items.push(
                    fixed(
                        AgentType::ProductOwner,
                        "Project review and stakeholder sign-off",
                        5,
                        "1 hour",
                        "All quality checks passed",
                    ),
                );
            },
        }
        assert(advice_views(items@) =~= base_candidates(state@, *probes));
        items
    }

    /// Adjusts every candidate to the workload of its agent and drops
    /// those that may not stay.
    pub fn apply_intelligent_prioritization(
        &self,
        recommendations: Vec<AgentRecommendation>,
        state: &ProjectState,
        now: Timestamp,
    ) -> (out: Vec<AgentRecommendation>)
        ensures
            advice_views(out@) == kept(
                adjusted_all(advice_views(recommendations@), state@.agents, now),
            ),
    {
        let load = self.analyze_agent_workload(state, now);
        let ghost all = advice_views(recommendations@);
        let ghost changed = adjusted_all(all, state@.agents, now);
        let mut rest = recommendations;
        let mut out: Vec<AgentRecommendation> = Vec::new();
        let mut done: usize = 0;
        let total: usize = rest.len();
        assert(changed.take(0) =~= Seq::empty());
        while rest.len() > 0
            invariant
                done + rest.len() == total,
                total == all.len(),
                changed == adjusted_all(all, state@.agents, now),
                advice_views(rest@) == all.skip(done as int),
                advice_views(out@) == kept(changed.take(done as int)),
                forall|agent: AgentType| #[trigger]
                    load.load(agent) == workload_of(state@.agents, agent, now),
            decreases rest.len(),
        {
            let item = rest.remove(0);
            assert(item@ == all[done as int]) by {
                assert(all.skip(done as int)[0] == all[done as int]);
            }
            let tenths = load.get(item.agent);
            let item = adjust(item, tenths);
            proof {
                let before = changed.take(done as int);
                let after = changed.take(done + 1);
                assert(after.drop_last() =~= before);
                assert(after.last() == item@);
                assert(advice_views(rest@) =~= all.skip(done + 1)) by {
                    assert forall|i: int| 0 <= i < rest@.len() implies advice_views(rest@)[i]
                        == all.skip(done + 1)[i] by {
                        assert(all.skip(done as int)[i + 1] == all[done + 1 + i]);
                    }
                }
            }
            let reason = to_chars(item.reason.as_str());
            if item.priority < 10 || holds(&reason, "Resolve blocker") {
                out.push(item);
                assert(advice_views(out@) =~= kept(changed.take(done + 1)));
            }
            done += 1;
        }
        assert(changed.take(done as int) =~= changed);
        out
    }

    fn ranks_above(&self, a: &AgentRecommendation, b: &AgentRecommendation) -> (above: bool)
        ensures
            above == outranks(a@, b@),
    {
        if a.priority != b.priority {
            a.priority > b.priority
        } else {
            self.estimate_impact_score(a) > self.estimate_impact_score(b)
        }
    }

    /// Orders recommendations by rank, highest first; those of equal rank
    /// keep their order.
    pub fn rank(&self, recommendations: Vec<AgentRecommendation>) -> (out: Vec<AgentRecommendation>)
        ensures
            advice_views(out@) == ranked(advice_views(recommendations@)),
    {
        let ghost all = advice_views(recommendations@);
        let mut rest = recommendations;
        let mut out: Vec<AgentRecommendation> = Vec::new();
        let mut done: usize = 0;
        let total: usize = rest.len();
        assert(all.take(0) =~= Seq::empty());
        while rest.len() > 0
            invariant
                done + rest.len() == total,
                total == all.len(),
                out@.len() == done,
                advice_views(rest@) == all.skip(done as int),
                advice_views(out@) == ranked(all.take(done as int)),
            decreases rest.len(),
        {
            let item = rest.remove(0);
            assert(item@ == all[done as int]) by {
                assert(all.skip(done as int)[0] == all[done as int]);
            }
            proof {
                assert(advice_views(rest@) =~= all.skip(done + 1)) by {
                    assert forall|i: int| 0 <= i < rest@.len() implies advice_views(rest@)[i]
                        == all.skip(done + 1)[i] by {
                        assert(all.skip(done as int)[i + 1] == all[done + 1 + i]);
                    }
                }
            }
            let mut pos: usize = 0;
            let mut found = false;
            while pos < out.len() && !found
                invariant
                    pos <= out@.len(),
                    forall|j: int| 0 <= j < pos ==> !outranks(item@, out@[j]@),
                    found ==> pos < out@.len() && outranks(item@, out@[pos as int]@),
                decreases out@.len() - pos + (if found { 0int } else { 1int }),
            {
                if self.ranks_above(&item, &out[pos]) {
                    found = true;
                } else {
                    pos += 1;
                }
            }
            proof {
                let front = advice_views(out@);
                lemma_rank_position(front, item@, pos as int);
                let next = all.take(done + 1);
                assert(next.drop_last() =~= all.take(done as int));
                assert(next.last() == item@);
            }
            let ghost before = advice_views(out@);
            out.insert(pos, item);
            assert(advice_views(out@) =~= before.insert(pos as int, all[done as int]));
            done += 1;
        }
        assert(all.take(done as int) =~= all);
        out
    }

    /// What the scheduler recommends for a project at the instant `now`.
    pub fn recommend_next_agent_at(&self, state: &ProjectState, probes: &ArtifactProbes, now: Timestamp) -> (out:
        Vec<AgentRecommendation>)
        ensures
            advice_views(out@) == recommendations(state@, *probes, now),
            first_blocked(state@.agents) is Some ==> out@.len() == 1 && contains_text(
                out@[0].reason@,
                "Resolve blocker"@,
            ),
            out@.len() <= 5,
    {
        match self.check_for_blockers(state) {
            Some(item) => {
                proof {
                    lemma_blocker_reason(first_blocked(state@.agents)->0);
                }
                let mut out: Vec<AgentRecommendation> = Vec::new();
                out.push(item);
                assert(advice_views(out@) =~= seq![blocker_advice(first_blocked(state@.agents)->0)]);
                out
            },
            None => {
                let base = self.candidates(state, probes);
                let stay = self.apply_intelligent_prioritization(base, state, now);
                let mut out = self.rank(stay);
                let ghost full = advice_views(out@);
                out.truncate(5);
                assert(advice_views(out@) =~= at_most(full, 5));
                out
            },
        }
    }

    /// What the scheduler recommends for a project now, by the system
    /// clock.
    pub fn recommend_next_agent(&self, state: &ProjectState, probes: &ArtifactProbes) -> (out: Vec<
        AgentRecommendation,
    >)
        ensures
            exists|now: Timestamp|
                now.is_plain_second() && advice_views(out@) == recommendations(
                    state@,
                    *probes,
                    now,
                ),
            first_blocked(state@.agents) is Some ==> out@.len() == 1 && contains_text(
                out@[0].reason@,
                "Resolve blocker"@,
            ),
            out@.len() <= 5,
    {
        let now = Timestamp::now();
        self.recommend_next_agent_at(state, probes, now)
    }
}

/// The reason of a blocker recommendation holds the words "Resolve
/// blocker".
pub proof fn lemma_blocker_reason(blocked: AgentType)
    ensures
        contains_text(blocker_advice(blocked).reason, "Resolve blocker"@),
{
    reveal_strlit("Resolve blocker for ");
    reveal_strlit("Resolve blocker");
    let reason = blocker_advice(blocked).reason;
    assert(reason.subrange(0, 15) =~= "Resolve blocker"@);
    assert(occurs_at(reason, "Resolve blocker"@, 0));
}

/// The name of a story as it stands in the paths of its artifacts: in
/// small letters, with underscores for spaces.
pub open spec fn story_slug(story: Seq<char>) -> Seq<char> {
    underscored(lowercase_text(story))
}

/// Where the scheduler looks in the project tree, from the root of the
/// project, with `/` between the components of a path.
#[derive(Debug, Clone)]
pub struct ArtifactPaths {
    pub requirements_doc: String,
    pub architecture_doc: String,
    pub stories_directory: String,
    pub designs: String,
    pub mockups: String,
    pub wireframes: String,
    /// The three indicators of the active story, where there is one.
    pub story_implementation: Option<String>,
    pub story_tests: Option<String>,
    pub story_document: Option<String>,
}

/// Whether one of the files of the stories directory is a story: a file
/// with the extension `md`.
pub open spec fn any_story(file_names: Seq<Seq<char>>) -> bool {
    exists|i: int| 0 <= i < file_names.len() && is_markdown_name(#[trigger] file_names[i])
}

impl WorkflowManager {
    /// The name of a story as it stands in the paths of its artifacts.
    pub fn slug(&self, story_name: &str) -> (slug: String)
        ensures
            slug@ == story_slug(story_name@),
    {
        let lower = lowercase(story_name);
        replace_spaces(lower.as_str())
    }

    /// Where the scheduler looks in the project tree for a project in the
    /// given state.
    pub fn artifact_paths(&self, state: &ProjectState) -> (paths: ArtifactPaths)
        ensures
            paths.requirements_doc@ == "docs/prd.md"@,
            paths.architecture_doc@ == "docs/architecture.md"@,
            paths.stories_directory@ == "docs/stories"@,
            paths.designs@ == "docs/designs"@,
            paths.mockups@ == "docs/mockups"@,
            paths.wireframes@ == "docs/wireframes"@,
            match state@.active_story {
                Some(story) => opt_text(paths.story_implementation) == Some(
                    "src/"@ + story_slug(story),
                ) && opt_text(paths.story_tests) == Some("tests/"@ + story_slug(story))
                    && opt_text(paths.story_document) == Some(
                    "docs/stories/"@ + story_slug(story) + ".md"@,
                ),
                None => paths.story_implementation is None && paths.story_tests is None
                    && paths.story_document is None,
            },
    {
        let (implementation, tests, document) = match &state.active_story {
            Some(story) => {
                let slug = self.slug(story.as_str());
                let mut implementation = String::from_str("src/");
                implementation.append(slug.as_str());
                let mut tests = String::from_str("tests/");
                tests.append(slug.as_str());
                let mut document = String::from_str("docs/stories/");
                document.append(slug.as_str());
                document.append(".md");
                (Some(implementation), Some(tests), Some(document))
            },
            None => (None, None, None),
        };
        ArtifactPaths {
            requirements_doc: String::from_str("docs/prd.md"),
            architecture_doc: String::from_str("docs/architecture.md"),
            stories_directory: String::from_str("docs/stories"),
            designs: String::from_str("docs/designs"),
            mockups: String::from_str("docs/mockups"),
            wireframes: String::from_str("docs/wireframes"),
            story_implementation: implementation,
            story_tests: tests,
            story_document: document,
        }
    }

    /// Whether the stories directory holds a story, told from the names
    /// of its files.
    pub fn has_ready_stories(&self, file_names: &Vec<String>) -> (ready: bool)
        ensures
            ready == any_story(texts(file_names@)),
    {
        let mut i: usize = 0;
        while i < file_names.len()
            invariant
                i <= file_names@.len(),
                forall|k: int| 0 <= k < i ==> !is_markdown_name(#[trigger] texts(file_names@)[k]),
            decreases file_names@.len() - i,
        {
            if has_markdown_extension(file_names[i].as_str()) {
                assert(is_markdown_name(texts(file_names@)[i as int]));
                return true;
            }
            i += 1;
        }
        false
    }
}

/// Whether no entry of a list is outranked by a later one.
pub open spec fn is_ranked(items: Seq<AgentRecommendationView>) -> bool {
    forall|i: int, j: int| 0 <= i < j < items.len() ==> !outranks(items[j], items[i])
}

/// Where an entry goes into a ranked list: within the list or at its end,
/// behind entries that it does not outrank, before one that it does.
pub proof fn lemma_rank_position_bounds(
    list: Seq<AgentRecommendationView>,
    item: AgentRecommendationView,
)
    ensures
        rank_position(list, item) <= list.len(),
        forall|j: int| 0 <= j < rank_position(list, item) ==> !outranks(item, list[j]),
        rank_position(list, item) < list.len() ==> outranks(
            item,
            list[rank_position(list, item) as int],
        ),
    decreases list.len(),
{
    if list.len() > 0 && !outranks(item, list[0]) {
        let rest = list.drop_first();
        lemma_rank_position_bounds(rest, item);
        assert forall|j: int| 0 <= j < rank_position(list, item) implies !outranks(
            item,
            list[j],
        ) by {
            if j > 0 {
                assert(rest[j - 1] == list[j]);
            }
        }
        if rank_position(list, item) < list.len() {
            assert(rest[rank_position(rest, item) as int] == list[rank_position(list, item) as int]);
        }
    }
}

/// Ranking orders a list and keeps what it holds: the ranked list has the
/// entries of the list, each as often as the list has it, and none of
/// them is outranked by a later one.
pub proof fn lemma_ranked(items: Seq<AgentRecommendationView>)
    ensures
        ranked(items).len() == items.len(),
        is_ranked(ranked(items)),
        ranked(items).to_multiset() == items.to_multiset(),
    decreases items.len(),
{
    if items.len() > 0 {
        let front = ranked(items.drop_last());
        let item = items.last();
        lemma_ranked(items.drop_last());
        lemma_rank_position_bounds(front, item);
        let pos = rank_position(front, item) as int;
        let out = front.insert(pos, item);
        vstd::seq_lib::to_multiset_insert(front, pos, item);
        vstd::seq_lib::to_multiset_build(items.drop_last(), item);
        assert(items.drop_last().push(item) =~= items);
        assert forall|i: int, j: int| 0 <= i < j < out.len() implies !outranks(out[j], out[i]) by {
            if j == pos {
                assert(out[i] == front[i]);
                assert(!outranks(item, front[i]));
            } else if i == pos {
                assert(out[j] == front[j - 1]);
                assert(outranks(item, front[pos]));
                if j - 1 > pos {
                    assert(!outranks(front[j - 1], front[pos]));
                }
            } else if i < pos && j < pos {
                assert(out[i] == front[i] && out[j] == front[j]);
                assert(!outranks(front[j], front[i]));
            } else if i < pos {
                assert(out[i] == front[i] && out[j] == front[j - 1]);
                assert(!outranks(front[j - 1], front[i]));
            } else {
                assert(out[i] == front[i - 1] && out[j] == front[j - 1]);
                assert(!outranks(front[j - 1], front[i - 1]));
            }
        }
    } else {
        assert(ranked(items) =~= items);
    }
}

/// The workload of an agent lies between 0 and 10 tenths.
pub proof fn lemma_workload_range(status: AgentStatusView, now: Timestamp)
    ensures
        0 <= workload_tenths(status, now) <= 10,
{
}

/// An active agent with a current task whose last activity lies under two
/// hours back is fully loaded.
pub proof fn lemma_busy_agent_is_fully_loaded(status: AgentStatusView, now: Timestamp)
    requires
        status.status == AgentStatusType::Active,
        status.current_task is Some,
        status.last_activity matches Some(then) && then.span_until(now) < 2 * NANOS_PER_HOUR,
    ensures
        workload_tenths(status, now) == 10,
{
}

/// An agent whose last activity lies more than twenty-four hours back, by
/// however little, carries one tenth less than it would without any
/// recorded activity, and never less than nothing. A blocked agent with a
/// task is the exception: it stays fully loaded.
pub proof fn lemma_stale_agent_is_relieved(status: AgentStatusView, now: Timestamp)
    requires
        status.last_activity matches Some(then) && then.span_until(now) > 24 * NANOS_PER_HOUR,
    ensures
        ({
            let rested = workload_tenths(AgentStatusView { last_activity: None, ..status }, now);
            if status.status == AgentStatusType::Blocked && status.current_task is Some {
                workload_tenths(status, now) == 10
            } else if rested == 0 {
                workload_tenths(status, now) == 0
            } else {
                workload_tenths(status, now) == rested - 1
            }
        }),
{
}

/// An idle agent without a task and without any recorded activity is
/// free.
pub proof fn lemma_idle_agent_is_free(status: AgentStatusView, now: Timestamp)
    requires
        status.status == AgentStatusType::Idle,
        status.current_task is None,
        status.last_activity is None,
    ensures
        workload_tenths(status, now) == 0,
{
}

/// Whether the status of some agent is Blocked.
pub open spec fn any_blocked(agents: AgentStatusesView) -> bool {
    exists|agent: AgentType|
        (#[trigger] agents.entry(agent)) matches Some(status) && status.status
            == AgentStatusType::Blocked
}

/// A blocked agent preempts everything else: whatever the phase, the
/// project tree and the instant, the scheduler then gives exactly one
/// recommendation, of priority 10, to the product manager, whose reason
/// holds the words "Resolve blocker".
pub proof fn lemma_blocker_preempts(state: ProjectStateView, probes: ArtifactProbes, now: Timestamp)
    requires
        any_blocked(state.agents),
    ensures
        recommendations(state, probes, now).len() == 1,
        recommendations(state, probes, now)[0].agent == AgentType::ProductManager,
        recommendations(state, probes, now)[0].priority == 10,
        contains_text(recommendations(state, probes, now)[0].reason, "Resolve blocker"@),
{
    let agent = choose|agent: AgentType|
        (#[trigger] state.agents.entry(agent)) matches Some(status) && status.status
            == AgentStatusType::Blocked;
    assert(first_blocked(state.agents) is Some);
    lemma_blocker_reason(first_blocked(state.agents)->0);
}

/// Without a blocked agent the scheduler gives five recommendations at
/// most, none of them of priority 10 but for the resolving of a blocker,
/// and none outranked by a later one.
pub proof fn lemma_recommendations_are_ranked(
    state: ProjectStateView,
    probes: ArtifactProbes,
    now: Timestamp,
)
    ensures
        recommendations(state, probes, now).len() <= 5,
        is_ranked(recommendations(state, probes, now)),
{
    match first_blocked(state.agents) {
        Some(blocked) => {},
        None => {
            let stay = kept(adjusted_all(base_candidates(state, probes), state.agents, now));
            lemma_ranked(stay);
            let all = ranked(stay);
            let out = at_most(all, 5);
            assert forall|i: int, j: int| 0 <= i < j < out.len() implies !outranks(
                out[j],
                out[i],
            ) by {
                assert(out[i] == all[i] && out[j] == all[j]);
            }
        },
    }
}

/// Ranking keeps the order of a list in which no entry is outranked by a
/// later one: entries of equal rank stay as they came, and a ranked list
/// stays as it is.
pub proof fn lemma_ranked_keeps_order(items: Seq<AgentRecommendationView>)
    requires
        is_ranked(items),
    ensures
        ranked(items) == items,
    decreases items.len(),
{
    if items.len() > 0 {
        let front = items.drop_last();
        assert forall|i: int, j: int| 0 <= i < j < front.len() implies !outranks(
            front[j],
            front[i],
        ) by {
            assert(front[i] == items[i] && front[j] == items[j]);
        }
        lemma_ranked_keeps_order(front);
        assert forall|j: int| 0 <= j < front.len() implies !outranks(items.last(), front[j]) by {
            assert(front[j] == items[j]);
        }
        lemma_rank_position(front, items.last(), front.len() as int);
        assert(front.insert(front.len() as int, items.last()) =~= items);
    } else {
        assert(ranked(items) =~= items);
    }
}

/// Whether the agent at place `k` of the roster is blocked.
pub open spec fn blocked_at(agents: AgentStatusesView, k: int) -> bool {
    agents.entry(roster()[k]) matches Some(status) && status.status == AgentStatusType::Blocked
}

/// The blocked agent that the scheduler names is the first of the roster:
/// it is blocked, and no agent before it in the roster is.
pub proof fn lemma_first_blocked_is_first(agents: AgentStatusesView)
    ensures
        match first_blocked(agents) {
            Some(agent) => exists|k: int|
                0 <= k < 8 && roster()[k] == agent && #[trigger] blocked_at(agents, k) && forall|
                    j: int,
                |
                    0 <= j < k ==> !blocked_at(agents, j),
            None => forall|k: int| 0 <= k < 8 ==> !blocked_at(agents, k),
        },
        first_blocked(agents) is Some <==> any_blocked(agents),
{
    let r = roster();
    assert(r[0] == AgentType::Analyst && r[1] == AgentType::Architect && r[2]
        == AgentType::ProductManager && r[3] == AgentType::ProductOwner);
    assert(r[4] == AgentType::ScrumMaster && r[5] == AgentType::Developer && r[6]
        == AgentType::QualityAssurance && r[7] == AgentType::UXExpert);
    match first_blocked(agents) {
        Some(agent) => {
            let k: int = match agent {
                AgentType::Analyst => 0,
                AgentType::Architect => 1,
                AgentType::ProductManager => 2,
                AgentType::ProductOwner => 3,
                AgentType::ScrumMaster => 4,
                AgentType::Developer => 5,
                AgentType::QualityAssurance => 6,
                _ => 7,
            };
            assert(blocked_at(agents, k));
            assert(agents.entry(agent) is Some);
        },
        None => {
            if any_blocked(agents) {
                let agent = choose|agent: AgentType|
                    (#[trigger] agents.entry(agent)) matches Some(status) && status.status
                        == AgentStatusType::Blocked;
                assert(false);
            }
        },
    }
}

} // verus!
