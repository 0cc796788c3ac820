use sdkcheck::models::{CommandResult, FailureClassification, ReportStatus};
use sdkcheck::recipes::co_op_translator::{
    classify, common_env, docs_observations, expected_files, generated_files, provider_ready,
    reproduction_command, run, run_folder_name_at, scenario_command,
    scenario_steps, suggestions, summary, use_fake_provider, venv_dir, venv_python, venv_tool,
    venv_volume_name, CoOpScenario, CoOpTranslatorOptions, COOP_REPO_URL,
};
use sdkcheck::runner::Backend;
use sdkcheck::secrets::SecretSet;
use sdkcheck::paths::HostPlatform;

const LINUX: HostPlatform = HostPlatform { windows: false, linux: true };

fn result(label: &str, success: bool) -> CommandResult {
    CommandResult {
        label: label.to_string(),
        command: String::new(),
        cwd: "/w/run".to_string(),
        exit_code: Some(if success { 0 } else { 1 }),
        success,
        timed_out: false,
        stdout: String::new(),
        stderr: String::new(),
        duration_ms: 1,
    }
}

fn options(fake: bool) -> CoOpTranslatorOptions {
    CoOpTranslatorOptions {
        backend: Backend::Local,
        workdir: ".sdkcheck-work".to_string(),
        output: "reports/co-op-translator.md".to_string(),
        json_output: None,
        timeout_seconds: 900,
        secret_names: Vec::new(),
        live: false,
        fake_openai: fake,
    }
}

#[test]
fn venv_paths_per_backend() {
    assert_eq!(venv_dir(Backend::Docker), "/venv");
    assert_eq!(venv_dir(Backend::Local), ".venv");
    assert_eq!(venv_python(Backend::Docker, false), "/venv/bin/python");
    assert_eq!(venv_python(Backend::Local, true), ".venv\\Scripts\\python.exe");
    assert_eq!(venv_python(Backend::Local, false), ".venv/bin/python");
    assert_eq!(venv_tool("translate", Backend::Local, true), ".venv\\Scripts\\translate.exe");
    assert_eq!(venv_tool("co-op-review", Backend::Docker, true), "/venv/bin/co-op-review");
}

#[test]
fn provider_credentials() {
    let mut s = SecretSet::default();
    assert!(!provider_ready(&s));
    s.add_value("OPENAI_API_KEY", "k");
    assert!(!provider_ready(&s));
    s.add_value("OPENAI_CHAT_MODEL_ID", "m");
    assert!(provider_ready(&s));
    let mut azure = SecretSet::default();
    for name in ["AZURE_OPENAI_API_KEY", "AZURE_OPENAI_ENDPOINT", "AZURE_OPENAI_CHAT_DEPLOYMENT_NAME"] {
        azure.add_value(name, "v");
    }
    assert!(!provider_ready(&azure));
    azure.add_value("AZURE_OPENAI_API_VERSION", "2024");
    assert!(provider_ready(&azure));

    let mut fake = SecretSet::default();
    use_fake_provider(&mut fake, "http://127.0.0.1:1/v1");
    assert!(provider_ready(&fake));
    assert_eq!(fake.names(), vec!["OPENAI_API_KEY", "OPENAI_BASE_URL", "OPENAI_CHAT_MODEL_ID"]);
    assert_eq!(
        common_env(&fake).keys(),
        vec!["OPENAI_API_KEY", "OPENAI_BASE_URL", "OPENAI_CHAT_MODEL_ID", "PYTHONIOENCODING", "PYTHONUTF8"]
    );
}

#[test]
fn scenario_commands_in_order() {
    let s = SecretSet::default();
    let clone = scenario_command(0, Backend::Local, false, "/w/run", &s);
    assert_eq!(clone.label, "clone Co-op Translator repo");
    assert_eq!(clone.program, "git");
    assert_eq!(clone.args, vec!["clone", "--depth", "1", COOP_REPO_URL, "repo"]);
    assert_eq!(clone.env.len(), 0);
    let venv = scenario_command(1, Backend::Docker, false, "/w/run", &s);
    assert_eq!(venv.program, "python");
    assert_eq!(venv.args, vec!["-m", "venv", "/venv"]);
    assert_eq!(venv.env.keys(), vec!["PYTHONIOENCODING", "PYTHONUTF8"]);
    let dry = scenario_command(6, Backend::Local, false, "/w/run", &s);
    assert_eq!(dry.label, "run Markdown translation dry-run");
    assert_eq!(dry.program, ".venv/bin/translate");
    assert_eq!(dry.args, vec!["-l", "ko", "-md", "--dry-run", "-y", "-r", "fixture"]);
    let review = scenario_command(8, Backend::Local, false, "/w/run", &s);
    assert_eq!(review.program, ".venv/bin/co-op-review");
    assert_eq!(review.args, vec!["-l", "ko", "-r", "fixture", "--format", "github"]);
}

#[test]
fn scenario_stops_at_first_failure() {
    let s = SecretSet::default();
    let mut sc = CoOpScenario::new(&options(true), &s);
    assert!(!sc.live_run);
    let mut commands = Vec::new();
    let first = sc.next_command(Backend::Local, false, "/w/run", &s).expect("clone");
    assert!(sc.record(&mut commands, result(&first.label, true)));
    let second = sc.next_command(Backend::Local, false, "/w/run", &s).expect("venv");
    assert_eq!(second.label, "create Python virtual environment");
    assert!(!sc.record(&mut commands, result(&second.label, false)));
    assert!(sc.next_command(Backend::Local, false, "/w/run", &s).is_none());
    assert_eq!(commands.len(), 2);
}

#[test]
fn live_steps_need_provider_and_request() {
    let mut s = SecretSet::default();
    use_fake_provider(&mut s, "http://x/v1");
    let mut sc = CoOpScenario::new(&options(true), &s);
    assert!(sc.live_run);
    let mut commands = Vec::new();
    let mut labels = Vec::new();
    while let Some(c) = sc.next_command(Backend::Local, false, "/w/run", &s) {
        labels.push(c.label.clone());
        sc.record(&mut commands, result(&c.label, true));
    }
    assert_eq!(labels.len(), 9);
    assert_eq!(labels[7], "run live Markdown translation");
    assert_eq!(labels[8], "review generated translation");
    let no_request = CoOpScenario::new(&options(false), &s);
    assert!(!no_request.live_run);
}

#[test]
fn expected_and_generated_translations() {
    let expected = expected_files("/w/run", LINUX);
    assert_eq!(
        expected,
        vec!["/w/run/fixture/translations/ko/README.md", "/w/run/fixture/translations/ko/docs/setup.md"]
    );
    assert_eq!(generated_files(&expected, &vec![false, true]), vec!["/w/run/fixture/translations/ko/docs/setup.md"]);
    assert_eq!(generated_files(&expected, &vec![false, false]), Vec::<String>::new());
}

#[test]
fn observations_from_project_docs() {
    assert_eq!(
        docs_observations("pip install co-op-translator", "translate -l ko -md\nco-op-review", "AZURE_OPENAI_KEY"),
        vec![
            "README describes installing or using Co-op Translator.",
            "CLI docs describe Markdown translation through `translate -l ... -md`.",
            "CLI docs describe `co-op-review` for validating generated translations.",
            "Configuration docs identify OpenAI or Azure OpenAI credentials as required for live translation.",
        ]
    );
    assert_eq!(docs_observations("", "", ""), vec!["No specific docs observations were extracted."]);
}

#[test]
fn classification_of_runs() {
    let ok = vec![result("clone Co-op Translator repo", true)];
    assert_eq!(classify(true, true, &ok, true), FailureClassification::NoFailure);
    assert_eq!(classify(false, false, &ok, true), FailureClassification::Environment);
    let mut net = result("run live Markdown translation", false);
    net.stderr = "Network/connection error: refused".to_string();
    assert_eq!(classify(false, true, &vec![net.clone()], false), FailureClassification::Environment);
    let install = vec![result("install Co-op Translator from PyPI", false)];
    assert_eq!(classify(false, true, &install, false), FailureClassification::Product);
    assert_eq!(classify(false, true, &ok, false), FailureClassification::Docs);
    let review = vec![result("review generated translation", false)];
    assert_eq!(classify(false, true, &review, false), FailureClassification::Product);
    assert_eq!(classify(false, true, &review, true), FailureClassification::UnclearScenario);
}

#[test]
fn suggestions_and_summaries() {
    let ok = vec![result("x", true)];
    assert!(suggestions(true, true, true, &ok).is_empty());
    let mut slow = result("upgrade pip", false);
    slow.timed_out = true;
    assert_eq!(
        suggestions(false, false, false, &vec![slow.clone()]),
        vec![
            "Increase `--timeout-seconds` or inspect why `upgrade pip` exceeded the command timeout.",
            "Provide `OPENAI_API_KEY` + `OPENAI_CHAT_MODEL_ID`, a complete Azure OpenAI credential set, or use `--fake-openai` for deterministic local dogfood.",
        ]
    );
    assert_eq!(
        suggestions(false, true, false, &ok),
        vec!["Clarify the expected translation output paths or fix the product behavior so generated files match the documented workflow."]
    );
    assert_eq!(
        suggestions(false, true, true, &vec![result("clone Co-op Translator repo", false)]),
        vec!["Check network access and Git availability for fetching the target repository."]
    );
    assert_eq!(
        suggestions(false, true, true, &vec![result("verify translate CLI", false)]),
        vec!["Inspect the `verify translate CLI` command evidence and fix the first failing step before continuing the scenario."]
    );
    assert_eq!(
        summary(false, true, true, &vec![result("a", true), result("verify translate CLI", false)]),
        "The scenario stopped at `verify translate CLI`. sdkcheck captured the command evidence and classified the run from the first failing step."
    );
    assert_eq!(
        summary(false, false, true, &ok),
        "Co-op Translator install and CLI preflight ran, but live translation requires provider credentials. The run is classified as an environment issue."
    );
    assert!(summary(true, true, true, &ok).starts_with("Co-op Translator docs produced a runnable scenario."));
}

#[test]
fn reproduction_and_naming() {
    assert_eq!(
        reproduction_command(Backend::Docker, true, "reports/x.md", Some("reports/x.json"), 300),
        "sdkcheck run --recipe co-op-translator --backend docker --output reports/x.md --timeout-seconds 300 --json-output reports/x.json --fake-openai"
    );
    assert_eq!(
        reproduction_command(Backend::Local, false, "r.md", None, 900),
        "sdkcheck run --recipe co-op-translator --backend local --output r.md --timeout-seconds 900"
    );
    assert_eq!(run_folder_name_at("20260101-000000"), "co-op-translator-20260101-000000");
    assert_eq!(venv_volume_name(Backend::Docker, "/w/runs/co-op-translator-1", LINUX), Some("sdkcheck-venv-co-op-translator-1".to_string()));
    assert_eq!(venv_volume_name(Backend::Local, "/w/runs/x", LINUX), None);
    assert_eq!(scenario_steps().len(), 8);
}

#[test]
fn report_of_a_run_without_provider() {
    let mut secrets = SecretSet::default();
    secrets.add_missing("OPENAI_API_KEY");
    let commands = vec![result("clone Co-op Translator repo", true), result("verify translate CLI", true)];
    let report = run(&options(false), "/w/run", &secrets, commands, false, Vec::new(), vec!["obs".to_string()]);
    assert_eq!(report.title, "sdkcheck report: Co-op Translator");
    assert_eq!(report.status, ReportStatus::Passed);
    assert_eq!(report.classification, FailureClassification::NoFailure);
    assert!(report.suggestions.is_empty());
    assert_eq!(report.missing_secrets, vec!["OPENAI_API_KEY"]);
    assert_eq!(report.scenario_steps[0], "Fetch Co-op Translator source and docs.");

    let mut fake = SecretSet::default();
    use_fake_provider(&mut fake, "http://x/v1");
    let report = run(&options(true), "/w/run", &fake, vec![result("a", true)], false, Vec::new(), Vec::new());
    assert_eq!(report.status, ReportStatus::Failed);
    assert_eq!(report.classification, FailureClassification::Docs);
    assert_eq!(report.reproduction, "sdkcheck run --recipe co-op-translator --backend local --output reports/co-op-translator.md --timeout-seconds 900 --fake-openai");
}

#[test]
fn windows_run_paths() {
    let win = HostPlatform { windows: true, linux: false };
    assert_eq!(
        venv_volume_name(Backend::Docker, r"C:\w\runs\co-op-translator-1", win),
        Some("sdkcheck-venv-co-op-translator-1".to_string())
    );
    assert_eq!(
        expected_files(r"C:\w\run", win),
        vec![r"C:\w\run\fixture\translations\ko\README.md", r"C:\w\run\fixture\translations\ko\docs\setup.md"]
    );
}
