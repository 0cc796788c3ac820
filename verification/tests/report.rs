use sdkcheck::models::{CommandResult, FailureClassification, ReportStatus, ScenarioReport};
use sdkcheck::report::{display_exit_code, masked_markdown_report, render_markdown_report};
use sdkcheck::secrets::SecretSet;

fn report() -> ScenarioReport {
    ScenarioReport {
        title: "sdkcheck report".to_string(),
        status: ReportStatus::Passed,
        classification: FailureClassification::NoFailure,
        summary: "ok".to_string(),
        backend: "local".to_string(),
        run_dir: ".sdkcheck-work/runs/example".to_string(),
        scenario_steps: vec![],
        docs_observations: vec![],
        provided_secrets: vec!["OPENAI_API_KEY".to_string()],
        missing_secrets: vec![],
        commands: vec![],
        generated_files: vec![],
        suggestions: vec![],
        reproduction: "sdkcheck run".to_string(),
    }
}

#[test]
fn renders_secret_names_without_values() {
    let report = report();

    let rendered = render_markdown_report(&report);

    assert!(rendered.contains("OPENAI_API_KEY"));
}

#[test]
fn renders_the_whole_report() {
    let mut r = report();
    r.commands = vec![CommandResult {
        label: "verify".to_string(),
        command: "git status".to_string(),
        cwd: "/w".to_string(),
        exit_code: Some(-1),
        success: false,
        timed_out: true,
        stdout: "  \n".to_string(),
        stderr: "boom  \n".to_string(),
        duration_ms: 12,
    }];
    r.suggestions = vec!["retry".to_string()];
    let expected = "# sdkcheck report\n\n- Status: `passed`\n- Failure classification: `none`\n- Backend: `local`\n- Run dir: `.sdkcheck-work/runs/example`\n\n## Summary\n\nok\n\n## Reproduction\n\n```bash\nsdkcheck run\n```\n\n## Scenario Steps\n\n- None\n\n## Docs Observations\n\n- None\n\n## Provided Secrets\n\n- OPENAI_API_KEY\n\n## Missing Secrets\n\n- None\n\n## Commands\n\n### FAIL: verify\n\n- Command: `git status`\n- Cwd: `/w`\n- Exit code: `-1`\n- Timed out: `true`\n- Duration: `12 ms`\n\n<details><summary>stdout</summary>\n\n```text\n(empty)\n```\n\n</details>\n\n<details><summary>stderr</summary>\n\n```text\nboom\n```\n\n</details>\n\n## Generated Files\n\n- None\n\n## Suggestions\n\n- retry\n\n";
    assert_eq!(render_markdown_report(&r), expected);
}

#[test]
fn written_reports_mask_secret_values() {
    let mut r = report();
    r.summary = "used sk-123 to log in".to_string();
    let mut secrets = SecretSet::default();
    secrets.add_value("OPENAI_API_KEY", "sk-123");
    let text = masked_markdown_report(&r, &secrets);
    assert!(text.contains("used [REDACTED] to log in"));
    assert!(!text.contains("sk-123"));
    assert!(text.contains("OPENAI_API_KEY"));
}

#[test]
fn exit_codes_and_labels() {
    assert_eq!(display_exit_code(Some(0)), "0");
    assert_eq!(display_exit_code(Some(-9)), "-9");
    assert_eq!(display_exit_code(None), "signal-or-unknown");
    assert!(ReportStatus::Passed.is_success());
    assert!(!ReportStatus::Failed.is_success());
    assert_eq!(ReportStatus::Failed.to_text(), "failed");
    assert_eq!(FailureClassification::UnclearScenario.to_text(), "unclear-scenario");
    assert_eq!(FailureClassification::UnclearAudit.to_text(), "unclear-audit");
    assert_eq!(FailureClassification::NoFailure.to_text(), "none");
}

fn command(label: &str, success: bool, stdout: &str) -> CommandResult {
    CommandResult {
        label: label.to_string(),
        command: "make".to_string(),
        cwd: "/w".to_string(),
        exit_code: Some(if success { 0 } else { 2 }),
        success,
        timed_out: false,
        stdout: stdout.to_string(),
        stderr: String::new(),
        duration_ms: 3,
    }
}

#[test]
fn headings_come_once_each_in_order() {
    let mut r = report();
    r.summary = "line one\nline two".to_string();
    r.commands = vec![command("build", true, "# built\n### note"), command("test", false, "")];
    r.docs_observations = vec!["read README.md".to_string(), "read docs/setup.md".to_string()];
    let rendered = render_markdown_report(&r);
    let h2: Vec<&str> = rendered.lines().filter(|l| l.starts_with("## ")).collect();
    assert_eq!(
        h2,
        vec![
            "## Summary",
            "## Reproduction",
            "## Scenario Steps",
            "## Docs Observations",
            "## Provided Secrets",
            "## Missing Secrets",
            "## Commands",
            "## Generated Files",
            "## Suggestions",
        ]
    );
    assert!(rendered.starts_with(
        "# sdkcheck report\n\n- Status: `passed`\n- Failure classification: `none`\n- Backend: `local`\n- Run dir: `.sdkcheck-work/runs/example`\n"
    ));
}

#[test]
fn one_command_heading_per_command() {
    let mut r = report();
    r.commands = vec![command("build", true, "ok"), command("test", false, "1 failed"), command("lint", true, "")];
    let rendered = render_markdown_report(&r);
    let h3: Vec<&str> = rendered.lines().filter(|l| l.starts_with("### ")).collect();
    assert_eq!(h3, vec!["### PASS: build", "### FAIL: test", "### PASS: lint"]);
}

#[test]
fn list_sections_show_items_or_none() {
    let mut r = report();
    r.scenario_steps = vec!["clone".to_string(), "install".to_string()];
    let rendered = render_markdown_report(&r);
    assert!(rendered.contains("## Scenario Steps\n\n- clone\n- install\n\n## Docs Observations\n\n- None\n\n"));
}

#[test]
fn headings_of_texts_come_between_the_sections() {
    let mut r = report();
    r.summary = "done\n## Extra".to_string();
    r.commands = vec![command("build", true, "### inside\nok"), command("test", false, "")];
    let rendered = render_markdown_report(&r);
    let h2: Vec<&str> = rendered.lines().filter(|l| l.starts_with("## ")).collect();
    assert_eq!(
        h2,
        vec![
            "## Summary",
            "## Extra",
            "## Reproduction",
            "## Scenario Steps",
            "## Docs Observations",
            "## Provided Secrets",
            "## Missing Secrets",
            "## Commands",
            "## Generated Files",
            "## Suggestions",
        ]
    );
    let h3: Vec<&str> = rendered.lines().filter(|l| l.starts_with("### ")).collect();
    assert_eq!(h3, vec!["### PASS: build", "### inside", "### FAIL: test"]);
}
