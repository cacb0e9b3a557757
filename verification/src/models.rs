//! Data model of one agent execution trace: a session holds an ordered,
//! immutably-ordered sequence of workflow steps; step content is opaque
//! payload to the core and is stored and served verbatim.
//!
//! Step `input`/`output` payloads are carried as raw JSON text in a
//! `String`: the core never inspects them. Floating-point scores are
//! carried as their IEEE-754 bit patterns (`u64`), again never inspected;
//! the surrounding I/O layer converts with `f64::to_bits`/`from_bits`.

use vstd::prelude::*;

verus! {

/// Execution status of one workflow step.
#[derive(Clone, Copy, Debug, PartialEq, Eq, Structural)]
pub enum StepStatus {
    Pending,
    Running,
    Success,
    Failed,
    Skipped,
}

/// The fixed workflow vocabulary, in its fixed order:
/// requirement input, task decomposition, code generation, environment
/// execution, debug fix, result verification, memory consolidation.
#[derive(Clone, Copy, Debug, PartialEq, Eq, Structural)]
pub enum StepName {
    RequirementInput,
    TaskDecomposition,
    CodeGeneration,
    EnvironmentExecution,
    DebugFix,
    ResultVerification,
    MemoryConsolidation,
}

/// Domain knowledge attached to a step; immutable once attached.
/// `relevance_score_bits` holds the IEEE-754 bit pattern of the score.
#[derive(Debug)]
pub struct DomainKnowledge {
    pub id: String,
    pub name: String,
    pub content: String,
    pub relevance_score_bits: u64,
}

/// Skill metadata attached to a step; immutable once attached.
#[derive(Debug)]
pub struct Skill {
    pub id: String,
    pub name: String,
    pub description: String,
    pub source: String,
}

/// One stage of a session's workflow. `step_id` is unique within its
/// session; `input` and `output` are opaque JSON payloads.
/// `domain_matching_score_bits` holds the IEEE-754 bit pattern of the score.
#[derive(Debug)]
pub struct AgentStep {
    pub step_id: String,
    pub step_name: StepName,
    pub status: StepStatus,
    pub input: String,
    pub output: Option<String>,
    pub context_link: Option<String>,
    pub skill_source: Option<Skill>,
    pub domain_knowledge_source: Option<Vec<DomainKnowledge>>,
    pub domain_matching_score_bits: u64,
    pub timestamp: Option<String>,
    pub duration_ms: Option<u64>,
    pub error_message: Option<String>,
}

/// One complete agent execution, identified by `session_id`, with an
/// ordered list of steps. `task_title` and `status`, when present in the
/// snapshot the session came from, feed the summary projection.
#[derive(Debug)]
pub struct AgentSession {
    pub session_id: String,
    pub task_title: Option<String>,
    pub status: Option<String>,
    pub steps: Vec<AgentStep>,
    pub created_at: String,
    pub updated_at: String,
}

/// The summary projection of one session, as the listing query returns it.
#[derive(Debug)]
pub struct SessionSummary {
    pub session_id: String,
    pub task_title: Option<String>,
    pub status: Option<String>,
    pub created_at: String,
}

/// The view of an optional owned string: `None`, or the character sequence.
pub open spec fn opt_view(o: Option<String>) -> Option<Seq<char>> {
    match o {
        Option::Some(s) => Option::Some(s@),
        Option::None => Option::None,
    }
}

/// Whether `sum` is exactly the summary projection of `sess`.
pub open spec fn is_summary_of(sum: SessionSummary, sess: AgentSession) -> bool {
    &&& sum.session_id@ == sess.session_id@
    &&& opt_view(sum.task_title) == opt_view(sess.task_title)
    &&& opt_view(sum.status) == opt_view(sess.status)
    &&& sum.created_at@ == sess.created_at@
}

impl AgentSession {
    /// The summary projection: identifier, derived task title if present,
    /// status, and creation time.
    pub fn summary(&self) -> (r: SessionSummary)
        ensures
            is_summary_of(r, *self),
    {
        SessionSummary {
            session_id: self.session_id.clone(),
            task_title: clone_opt(&self.task_title),
            status: clone_opt(&self.status),
            created_at: self.created_at.clone(),
        }
    }
}

/// Duplicates an optional string, keeping its view.
pub fn clone_opt(o: &Option<String>) -> (r: Option<String>)
    ensures
        opt_view(r) == opt_view(*o),
{
    match o {
        Option::Some(s) => Option::Some(s.clone()),
        Option::None => Option::None,
    }
}

} // verus!
