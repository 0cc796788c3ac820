//! The command line: the parsed arguments of `sdkcheck run`, the run they
//! ask for, and what the program prints and returns when the run is done.
use vstd::prelude::*;

use crate::audits::docs::DocsAuditOptions;
use crate::models::{
    classification_text, status_text, FailureClassification, ReportStatus,
};
use crate::recipes::co_op_translator::CoOpTranslatorOptions;
use crate::runner::Backend;
use crate::text::{concat, owned};

verus! {

/// The base URL of the audit agent when neither the command line nor the
/// environment names one.
pub const DEFAULT_AGENT_BASE_URL: &'static str = "https://api.openai.com/v1";

/// The report of a docs audit when `--output` is not given.
pub const DEFAULT_AUDIT_OUTPUT: &'static str = "reports/run.md";

/// The report of a recipe run when `--output` is not given.
pub const DEFAULT_RECIPE_OUTPUT: &'static str = "reports/co-op-translator.md";

/// The parsed command line.
#[derive(Clone, Debug)]
pub struct Cli {
    pub command: Commands,
}

/// The commands of the program.
#[derive(Clone, Debug)]
pub enum Commands {
    /// Run an audit and write an evidence report.
    Run(RunCommand),
}

/// The scenario recipes.
#[derive(Clone, Copy, Debug, PartialEq, Eq, Structural)]
pub enum Recipe {
    CoOpTranslator,
}

/// The arguments of `sdkcheck run`. Without `recipe` they describe a docs
/// audit (`docs` and `goal` are then given); with it, a recipe run.
#[derive(Clone, Debug)]
pub struct RunCommand {
    pub docs: Vec<String>,
    pub workspace: Option<String>,
    pub goal: String,
    pub success_criteria: Vec<String>,
    pub backend: Backend,
    pub workdir: String,
    pub output: Option<String>,
    pub json_output: Option<String>,
    pub timeout_seconds: u64,
    pub forwarded_envs: Vec<String>,
    pub agent_base_url: Option<String>,
    pub agent_model: Option<String>,
    pub agent_api_key_env: String,
    pub max_steps: u32,
    pub recipe: Option<Recipe>,
    pub secrets: Vec<String>,
    pub live: bool,
    pub fake_openai: bool,
}

/// What a `run` command asks for.
pub enum RunPlan {
    Audit(DocsAuditOptions),
    Recipe(CoOpTranslatorOptions),
}

/// The first of an optional value, an optional fallback and a default.
pub open spec fn first_of(a: Option<String>, b: Option<String>, default: Seq<char>) -> Seq<char> {
    match a {
        Some(x) => x@,
        None => match b {
            Some(y) => y@,
            None => default,
        },
    }
}

fn first_of_exec(a: &Option<String>, b: Option<String>, default: &str) -> (r: String)
    ensures
        r@ == first_of(*a, b, default@),
{
    match a {
        Some(x) => x.clone(),
        None => match b {
            Some(y) => y,
            None => owned(default),
        },
    }
}

fn clone_strings(v: &Vec<String>) -> (r: Vec<String>)
    ensures
        r.deep_view() == v.deep_view(),
{
    let r = v.clone();
    assert(r.deep_view() =~= v.deep_view()) by {
        assert forall|i: int| 0 <= i < r.len() implies r.deep_view()[i] == v.deep_view()[i] by {
            assert(r[i] == v[i]);
        }
    }
    r
}

/// The run a `run` command asks for. A recipe run keeps the backend, work
/// directory, report paths, timeout, secret names and provider flags. A
/// docs audit clones the workspace (the current directory unless given)
/// and asks the agent at the given base URL and model, else at those the
/// environment names (`env_base_url`, `env_model`), else at
/// `DEFAULT_AGENT_BASE_URL` with no model.
pub fn plan(command: &RunCommand, env_base_url: Option<String>, env_model: Option<String>) -> (r:
    RunPlan)
    ensures
        match r {
            RunPlan::Recipe(o) => {
                &&& command.recipe == Some(Recipe::CoOpTranslator)
                &&& o.backend == command.backend
                &&& o.workdir@ == command.workdir@
                &&& o.output@ == first_of(command.output, None, DEFAULT_RECIPE_OUTPUT@)
                &&& o.json_output == command.json_output
                &&& o.timeout_seconds == command.timeout_seconds
                &&& o.secret_names.deep_view() == command.secrets.deep_view()
                &&& o.live == command.live
                &&& o.fake_openai == command.fake_openai
            },
            RunPlan::Audit(o) => {
                &&& command.recipe.is_none()
                &&& o.backend == command.backend
                &&& o.repo@ == first_of(command.workspace, None, "."@)
                &&& o.docs.deep_view() == command.docs.deep_view()
                &&& o.goal@ == command.goal@
                &&& o.success_criteria.deep_view() == command.success_criteria.deep_view()
                &&& o.workdir@ == command.workdir@
                &&& o.output@ == first_of(command.output, None, DEFAULT_AUDIT_OUTPUT@)
                &&& o.json_output == command.json_output
                &&& o.timeout_seconds == command.timeout_seconds
                &&& o.forwarded_env_names.deep_view() == command.forwarded_envs.deep_view()
                &&& o.agent_base_url@ == first_of(
                    command.agent_base_url,
                    env_base_url,
                    DEFAULT_AGENT_BASE_URL@,
                )
                &&& o.agent_model@ == first_of(command.agent_model, env_model, Seq::empty())
                &&& o.agent_api_key_env@ == command.agent_api_key_env@
                &&& o.max_steps == command.max_steps
            },
        },
{
    match command.recipe {
        Some(Recipe::CoOpTranslator) => RunPlan::Recipe(
            CoOpTranslatorOptions {
                backend: command.backend,
                workdir: command.workdir.clone(),
                output: first_of_exec(&command.output, None, DEFAULT_RECIPE_OUTPUT),
                json_output: command.json_output.clone(),
                timeout_seconds: command.timeout_seconds,
                secret_names: clone_strings(&command.secrets),
                live: command.live,
                fake_openai: command.fake_openai,
            },
        ),
        None => {
            proof {
                reveal_strlit("");
            }
            RunPlan::Audit(
                DocsAuditOptions {
                    backend: command.backend,
                    repo: first_of_exec(&command.workspace, None, "."),
                    docs: clone_strings(&command.docs),
                    goal: command.goal.clone(),
                    success_criteria: clone_strings(&command.success_criteria),
                    workdir: command.workdir.clone(),
                    output: first_of_exec(&command.output, None, DEFAULT_AUDIT_OUTPUT),
                    json_output: command.json_output.clone(),
                    timeout_seconds: command.timeout_seconds,
                    forwarded_env_names: clone_strings(&command.forwarded_envs),
                    agent_base_url: first_of_exec(
                        &command.agent_base_url,
                        env_base_url,
                        DEFAULT_AGENT_BASE_URL,
                    ),
                    agent_model: first_of_exec(&command.agent_model, env_model, ""),
                    agent_api_key_env: command.agent_api_key_env.clone(),
                    max_steps: command.max_steps,
                },
            )
        },
    }
}

/// The lines printed after a run: where the reports went, then the status
/// and classification.
pub open spec fn outcome_lines_spec(
    output: Seq<char>,
    json_output: Option<Seq<char>>,
    status: ReportStatus,
    classification: FailureClassification,
) -> Seq<Seq<char>> {
    let head = seq!["wrote report: "@ + output];
    let with_json = match json_output {
        Some(j) => head.push("wrote json report: "@ + j),
        None => head,
    };
    with_json.push("status: "@ + status_text(status)).push(
        "classification: "@ + classification_text(classification),
    )
}

/// The lines the program prints after a run.
pub fn outcome_lines(
    output: &str,
    json_output: Option<&str>,
    status: ReportStatus,
    classification: FailureClassification,
) -> (r: Vec<String>)
    ensures
        r.deep_view() == outcome_lines_spec(
            output@,
            match json_output {
                Some(j) => Some(j@),
                None => None,
            },
            status,
            classification,
        ),
{
    let mut r: Vec<String> = Vec::new();
    r.push(concat("wrote report: ", output));
    match json_output {
        Some(j) => r.push(concat("wrote json report: ", j)),
        None => {},
    }
    let s = status.to_text();
    r.push(concat("status: ", s.as_str()));
    let c = classification.to_text();
    r.push(concat("classification: ", c.as_str()));
    assert(r.deep_view() =~= outcome_lines_spec(
        output@,
        match json_output {
            Some(j) => Some(j@),
            None => None,
        },
        status,
        classification,
    ));
    r
}

/// The program's exit code after a run: 0 when it passed, 1 otherwise.
pub fn exit_code(status: ReportStatus) -> (code: i32)
    ensures
        code == if status == ReportStatus::Passed {
            0i32
        } else {
            1i32
        },
{
    if status.is_success() {
        0
    } else {
        1
    }
}

} // verus!
