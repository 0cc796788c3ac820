//! Report and command evidence data.
use vstd::prelude::*;

use crate::text::owned;

verus! {

/// What one command did.
#[derive(Clone, Debug)]
pub struct CommandResult {
    pub label: String,
    pub command: String,
    pub cwd: String,
    pub exit_code: Option<i32>,
    pub success: bool,
    pub timed_out: bool,
    pub stdout: String,
    pub stderr: String,
    pub duration_ms: u128,
}

/// The evidence report of one audit or scenario run.
#[derive(Clone, Debug)]
pub struct ScenarioReport {
    pub title: String,
    pub status: ReportStatus,
    pub classification: FailureClassification,
    pub summary: String,
    pub backend: String,
    pub run_dir: String,
    pub scenario_steps: Vec<String>,
    pub docs_observations: Vec<String>,
    pub provided_secrets: Vec<String>,
    pub missing_secrets: Vec<String>,
    pub commands: Vec<CommandResult>,
    pub generated_files: Vec<String>,
    pub suggestions: Vec<String>,
    pub reproduction: String,
}

/// Overall outcome of a run.
#[derive(Clone, Copy, Debug, PartialEq, Eq, Structural)]
pub enum ReportStatus {
    Passed,
    Failed,
}

/// The label a report gives its status.
pub open spec fn status_text(s: ReportStatus) -> Seq<char> {
    match s {
        ReportStatus::Passed => "passed"@,
        ReportStatus::Failed => "failed"@,
    }
}

impl ReportStatus {
    /// Whether the run passed.
    pub fn is_success(self) -> (b: bool)
        ensures
            b == (self == ReportStatus::Passed),
    {
        self == ReportStatus::Passed
    }

    /// The label used in reports (`passed`, `failed`).
    pub fn to_text(self) -> (s: String)
        ensures
            s@ == status_text(self),
    {
        match self {
            ReportStatus::Passed => owned("passed"),
            ReportStatus::Failed => owned("failed"),
        }
    }
}

/// Where a failed run most likely went wrong.
#[derive(Clone, Copy, Debug, PartialEq, Eq, Structural)]
pub enum FailureClassification {
    NoFailure,
    Docs,
    Product,
    Environment,
    UnclearScenario,
    UnclearAudit,
}

/// The label a report gives a classification.
pub open spec fn classification_text(c: FailureClassification) -> Seq<char> {
    match c {
        FailureClassification::NoFailure => "none"@,
        FailureClassification::Docs => "docs"@,
        FailureClassification::Product => "product"@,
        FailureClassification::Environment => "environment"@,
        FailureClassification::UnclearScenario => "unclear-scenario"@,
        FailureClassification::UnclearAudit => "unclear-audit"@,
    }
}

impl FailureClassification {
    /// The label used in reports (`none`, `docs`, ..., `unclear-audit`).
    pub fn to_text(self) -> (s: String)
        ensures
            s@ == classification_text(self),
    {
        match self {
            FailureClassification::NoFailure => owned("none"),
            FailureClassification::Docs => owned("docs"),
            FailureClassification::Product => owned("product"),
            FailureClassification::Environment => owned("environment"),
            FailureClassification::UnclearScenario => owned("unclear-scenario"),
            FailureClassification::UnclearAudit => owned("unclear-audit"),
        }
    }
}

/// `i` is the first command that failed.
pub open spec fn is_first_failed(cs: Seq<CommandResult>, i: int) -> bool {
    &&& 0 <= i < cs.len()
    &&& !cs[i].success
    &&& forall|j: int| 0 <= j < i ==> (#[trigger] cs[j]).success
}

/// The first command that failed, if any.
pub open spec fn first_failure(cs: Seq<CommandResult>) -> Option<CommandResult> {
    if exists|i: int| is_first_failed(cs, i) {
        Some(cs[choose|i: int| is_first_failed(cs, i)])
    } else {
        None
    }
}

/// A failed command with only successes before it is the first failure.
pub proof fn lemma_first_failure_at(cs: Seq<CommandResult>, i: int)
    requires
        0 <= i < cs.len(),
        !cs[i].success,
        forall|j: int| 0 <= j < i ==> (#[trigger] cs[j]).success,
    ensures
        first_failure(cs) == Some(cs[i]),
{
    assert(is_first_failed(cs, i));
    let k = choose|k: int| is_first_failed(cs, k);
    if k < i {
        assert(cs[k].success);
    }
    if i < k {
        assert(cs[i].success);
    }
}

/// When every command succeeded there is no first failure.
pub proof fn lemma_no_failure(cs: Seq<CommandResult>)
    requires
        forall|j: int| 0 <= j < cs.len() ==> (#[trigger] cs[j]).success,
    ensures
        first_failure(cs) is None,
{
    if exists|k: int| is_first_failed(cs, k) {
        let k = choose|k: int| is_first_failed(cs, k);
        assert(cs[k].success);
    }
}

/// Finds the first failed command.
pub fn first_failure_index(cs: &Vec<CommandResult>) -> (r: Option<usize>)
    ensures
        match r {
            Some(i) => is_first_failed(cs@, i as int) && first_failure(cs@) == Some(cs@[i as int]),
            None => first_failure(cs@) is None && forall|j: int| 0 <= j < cs.len() ==> (
            #[trigger] cs@[j]).success,
        },
{
    let mut i: usize = 0;
    while i < cs.len()
        invariant
            i <= cs.len(),
            forall|j: int| 0 <= j < i ==> (#[trigger] cs@[j]).success,
        decreases cs.len() - i,
    {
        if !cs[i].success {
            proof {
                assert(is_first_failed(cs@, i as int));
                let k = choose|k: int| is_first_failed(cs@, k);
                if k < i {
                    assert(cs@[k].success);
                } else if k > i {
                    assert(cs@[i as int].success);
                }
            }
            return Some(i);
        }
        i = i + 1;
    }
    None
}

} // verus!
