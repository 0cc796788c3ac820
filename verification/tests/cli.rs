use sdkcheck::cli::{exit_code, outcome_lines, plan, Recipe, RunCommand, RunPlan};
use sdkcheck::models::{FailureClassification, ReportStatus};
use sdkcheck::runner::Backend;

fn command() -> RunCommand {
    RunCommand {
        docs: vec!["README.md".to_string()],
        workspace: None,
        goal: "Install the SDK.".to_string(),
        success_criteria: Vec::new(),
        backend: Backend::Docker,
        workdir: ".sdkcheck-work".to_string(),
        output: None,
        json_output: None,
        timeout_seconds: 900,
        forwarded_envs: vec!["ACME_API_KEY".to_string()],
        agent_base_url: None,
        agent_model: None,
        agent_api_key_env: "SDKCHECK_AGENT_API_KEY".to_string(),
        max_steps: 12,
        recipe: None,
        secrets: Vec::new(),
        live: false,
        fake_openai: false,
    }
}

#[test]
fn audit_plan_takes_defaults_and_environment() {
    match plan(&command(), None, None) {
        RunPlan::Audit(o) => {
            assert_eq!(o.repo, ".");
            assert_eq!(o.output, "reports/run.md");
            assert_eq!(o.agent_base_url, "https://api.openai.com/v1");
            assert_eq!(o.agent_model, "");
            assert_eq!(o.forwarded_env_names, vec!["ACME_API_KEY"]);
        }
        RunPlan::Recipe(_) => panic!("expected an audit"),
    }
    let mut c = command();
    c.workspace = Some("../checkout".to_string());
    c.agent_model = Some("cli-model".to_string());
    match plan(&c, Some("http://env/v1".to_string()), Some("env-model".to_string())) {
        RunPlan::Audit(o) => {
            assert_eq!(o.repo, "../checkout");
            assert_eq!(o.agent_base_url, "http://env/v1");
            assert_eq!(o.agent_model, "cli-model");
        }
        RunPlan::Recipe(_) => panic!("expected an audit"),
    }
}

#[test]
fn recipe_plan_keeps_recipe_flags() {
    let mut c = command();
    c.recipe = Some(Recipe::CoOpTranslator);
    c.secrets = vec!["OPENAI_API_KEY".to_string()];
    c.fake_openai = true;
    match plan(&c, None, None) {
        RunPlan::Recipe(o) => {
            assert_eq!(o.output, "reports/co-op-translator.md");
            assert_eq!(o.secret_names, vec!["OPENAI_API_KEY"]);
            assert!(o.fake_openai);
            assert!(!o.live);
        }
        RunPlan::Audit(_) => panic!("expected a recipe"),
    }
}

#[test]
fn closing_lines_and_exit_code() {
    assert_eq!(
        outcome_lines("reports/run.md", Some("reports/run.json"), ReportStatus::Passed, FailureClassification::NoFailure),
        vec!["wrote report: reports/run.md", "wrote json report: reports/run.json", "status: passed", "classification: none"]
    );
    assert_eq!(
        outcome_lines("r.md", None, ReportStatus::Failed, FailureClassification::Docs),
        vec!["wrote report: r.md", "status: failed", "classification: docs"]
    );
    assert_eq!(exit_code(ReportStatus::Passed), 0);
    assert_eq!(exit_code(ReportStatus::Failed), 1);
}
