use sdkcheck::audits::docs::{
    agent_endpoint, agent_model_error, agent_start_failed, agent_unreachable, audit_target_name, auto_discover_docs,
    build_agent_prompt, changed_files, classification_for_report, clone_command, clone_source,
    command_env, command_observation, discovered_doc_paths, docs_load_failed, docs_loaded,
    docs_selection, extract_json_object, is_markdown_file, merged_missing_envs, needs_root_scan,
    normalize_host_path_for_git, recent_observations, record_command, repo_dir_path,
    reproduction_command, requested_doc_paths, run, run_dir_path,
    run_folder_name_at, shell_quote, should_skip_dir, suggestions_for_report, summary_for_report,
    truncate_text, AgentAction, AgentFinish, AgentMove, AgentSession, AgentVerdict, AuditEvidence,
    DocBundle, DocsAuditOptions, DocsError, FileEntry, FileStamp, JsonExtractError,
    MAX_DOC_BUNDLE_BYTES, MAX_GENERATED_FILES, PROMPT_RULES,
};
use sdkcheck::models::{CommandResult, FailureClassification, ReportStatus};
use sdkcheck::paths::PathError;
use sdkcheck::runner::Backend;
use sdkcheck::secrets::SecretSet;
use sdkcheck::paths::HostPlatform;

const LINUX: HostPlatform = HostPlatform { windows: false, linux: true };

fn options() -> DocsAuditOptions {
    DocsAuditOptions {
        backend: Backend::Local,
        repo: "https://github.com/acme/demo.git".to_string(),
        docs: vec!["README.md".to_string()],
        goal: "Verify the documented git command works.".to_string(),
        success_criteria: vec!["`git status --short` exits with status 0.".to_string()],
        workdir: ".sdkcheck-work".to_string(),
        output: "reports/run.md".to_string(),
        json_output: None,
        timeout_seconds: 120,
        forwarded_env_names: Vec::new(),
        agent_base_url: "http://127.0.0.1:9/v1".to_string(),
        agent_model: "sdkcheck-test-model".to_string(),
        agent_api_key_env: "SDKCHECK_TEST_AGENT_KEY".to_string(),
        max_steps: 4,
    }
}

fn command(label: &str, success: bool) -> CommandResult {
    CommandResult {
        label: label.to_string(),
        command: "git status --short".to_string(),
        cwd: "/tmp/run/repo".to_string(),
        exit_code: Some(if success { 0 } else { 1 }),
        success,
        timed_out: false,
        stdout: String::new(),
        stderr: String::new(),
        duration_ms: 5,
    }
}

fn finish(verdict: AgentVerdict, classification: FailureClassification) -> AgentFinish {
    AgentFinish {
        verdict,
        classification,
        summary: "agent summary".to_string(),
        suggestions: Vec::new(),
        missing_envs: Vec::new(),
    }
}

#[test]
fn extracts_json_from_wrapped_response() {
    let extracted = extract_json_object("```json\n{\"kind\":\"finish\"}\n```").expect("json");

    assert_eq!(extracted, "{\"kind\":\"finish\"}");
}

#[test]
fn target_name_strips_git_suffix() {
    assert_eq!(audit_target_name("https://github.com/acme/demo.git", None), "demo");
}

#[test]
fn truncation_keeps_boundary_and_marker() {
    let text = "hello world";
    let truncated = truncate_text(text, 5);

    assert!(truncated.starts_with("hello"));
    assert!(truncated.contains("truncated"));
}

#[test]
fn truncation_drops_trailing_space_before_marker() {
    assert_eq!(truncate_text("hello world", 6), "hello\n[sdkcheck] content truncated");
    assert_eq!(truncate_text("hello", 5), "hello");
    assert_eq!(truncate_text("héllo", 2), "h\n[sdkcheck] content truncated");
}

#[test]
fn json_extraction_errors() {
    assert_eq!(extract_json_object("no json here"), Err(JsonExtractError::NoOpeningBrace));
    assert_eq!(extract_json_object("{ never closed"), Err(JsonExtractError::NoClosingBrace));
    assert_eq!(
        JsonExtractError::NoOpeningBrace.to_text(),
        "audit agent response did not contain JSON"
    );
    assert_eq!(
        JsonExtractError::NoClosingBrace.to_text(),
        "audit agent response did not contain a closing JSON brace"
    );
    assert_eq!(extract_json_object("a {x} b {y} c").unwrap(), "{x} b {y}");
}

#[test]
fn reversed_adjacent_braces_give_an_empty_object_text() {
    assert_eq!(extract_json_object("}{"), Ok(String::new()));
    assert_eq!(extract_json_object("x}{y"), Ok(String::new()));
}

#[test]
fn target_names_of_paths_and_urls() {
    assert_eq!(audit_target_name("https://github.com/acme/demo/", None), "demo");
    assert_eq!(audit_target_name("C:\\src\\My_Repo.git", None), "my-repo");
    assert_eq!(audit_target_name("///", None), "audit");
    assert_eq!(audit_target_name("ignored", Some("Local Checkout")), "local-checkout");
    assert_eq!(audit_target_name("x", Some("---")), "audit");
}

#[test]
fn skips_tooling_directories() {
    for name in [".git", ".venv", "__pycache__", "node_modules", "target", "dist"] {
        assert!(should_skip_dir(name), "{name}");
    }
    assert!(!should_skip_dir("docs"));
    assert!(!should_skip_dir("Target"));
}

#[test]
fn markdown_files_by_extension() {
    assert!(is_markdown_file("README.md"));
    assert!(is_markdown_file("guide.MD"));
    assert!(is_markdown_file("a.Md"));
    assert!(!is_markdown_file(".md"));
    assert!(!is_markdown_file("notes.txt"));
    assert!(!is_markdown_file("md"));
    assert!(!is_markdown_file("x.mdx"));
}

#[test]
fn discovery_sorts_and_dedups_paths() {
    let found = auto_discover_docs(
        true,
        vec!["docs/b.md".to_string(), "docs/a.md".to_string(), "docs/a.md".to_string()],
        Vec::new(), LINUX
    );
    assert_eq!(found, vec!["README.md", "docs/a.md", "docs/b.md"]);

    // Paths order component by component: "a/b" comes before "a-b".
    let found = auto_discover_docs(false, vec!["a-b.md".to_string(), "a/b.md".to_string()], Vec::new(), LINUX);
    assert_eq!(found, vec!["a/b.md", "a-b.md"]);
    // On Windows the walk separates components by a backslash.
    let win = HostPlatform { windows: true, linux: false };
    let found = auto_discover_docs(false, vec!["a-b.md".to_string(), r"a\b.md".to_string()], Vec::new(), win);
    assert_eq!(found, vec![r"a\b.md", "a-b.md"]);

    // Only when nothing else was found does discovery use the whole repository.
    assert!(needs_root_scan(false, &Vec::new()));
    assert!(!needs_root_scan(true, &Vec::new()));
    let found = auto_discover_docs(false, Vec::new(), vec!["z.md".to_string(), "guide/x.md".to_string()], LINUX);
    assert_eq!(found, vec!["guide/x.md", "z.md"]);
    let found = auto_discover_docs(true, Vec::new(), vec!["z.md".to_string()], LINUX);
    assert_eq!(found, vec!["README.md"]);
}

#[test]
fn discovery_without_docs_is_an_error() {
    let r = discovered_doc_paths(false, Vec::new(), Vec::new(), LINUX);
    assert_eq!(r.unwrap_err(), DocsError::NoDocs);
    assert_eq!(
        DocsError::NoDocs.to_text(),
        "no docs were found; pass --docs explicitly or make sure README.md/docs/*.md exist"
    );
    assert_eq!(discovered_doc_paths(true, Vec::new(), Vec::new(), LINUX).unwrap(), vec!["README.md"]);
}

#[test]
fn requested_docs_are_cleaned_or_refused() {
    let ok = requested_doc_paths(&vec!["./docs//quickstart.md".to_string(), "README.md".to_string()], LINUX);
    assert_eq!(ok.unwrap(), vec!["docs/quickstart.md", "README.md"]);

    let abs = requested_doc_paths(&vec!["README.md".to_string(), "/etc/passwd".to_string()], LINUX);
    assert_eq!(abs.unwrap_err(), DocsError::Path(PathError::Absolute));

    let win = HostPlatform { windows: true, linux: false };
    let back = requested_doc_paths(&vec![r"..\x".to_string()], win);
    assert_eq!(back.unwrap_err(), DocsError::Path(PathError::ParentTraversal));
    let drive = requested_doc_paths(&vec!["C:x".to_string()], win);
    assert_eq!(drive.unwrap_err(), DocsError::Path(PathError::InvalidComponent));
    assert_eq!(
        requested_doc_paths(&vec![r"docs\a.md".to_string()], win).unwrap(),
        vec![r"docs\a.md"]
    );

    let up = requested_doc_paths(&vec!["docs/../../secret.md".to_string()], LINUX);
    assert_eq!(up.unwrap_err(), DocsError::Path(PathError::ParentTraversal));
    assert_eq!(
        DocsError::Path(PathError::ParentTraversal).to_text(),
        "parent traversal is not allowed"
    );
}

#[test]
fn bundle_keeps_docs_while_they_fit() {
    let mut bundle = DocBundle::new();
    assert!(bundle.offer("README.md", "# Demo\n"));
    assert_eq!(bundle.text(), "FILE: README.md\n```text\n# Demo\n\n```\n\n");

    let big = "x".repeat(MAX_DOC_BUNDLE_BYTES);
    // A doc is cut to its own budget before it is bundled.
    assert!(bundle.offer("big.md", &big));
    assert!(bundle.text().contains("[sdkcheck] content truncated"));
    let before = bundle.text();
    let mut filled = 0;
    while bundle.offer("more.md", &big) {
        filled += 1;
    }
    assert_eq!(filled, 1);
    assert!(bundle.text().len() <= MAX_DOC_BUNDLE_BYTES);
    assert!(bundle.text().len() > before.len());
    let after = bundle.text();
    assert!(!bundle.offer("more.md", &big));
    assert_eq!(bundle.text(), after);

    let selection = docs_selection(vec!["README.md".to_string(), "docs/a.md".to_string()], &bundle);
    assert_eq!(selection.observations, vec!["Loaded 2 doc file(s): README.md, docs/a.md."]);
    assert_eq!(selection.bundle, after);
}

#[test]
fn recent_observations_keep_the_last_eight() {
    let obs: Vec<String> = (1..=10).map(|i| format!("o{i}")).collect();
    let recent = recent_observations(&obs);
    assert_eq!(recent.len(), 8);
    assert_eq!(recent[0], "o3");
    assert_eq!(recent[7], "o10");
    let short = vec!["a".to_string()];
    assert_eq!(recent_observations(&short), short);
}

#[test]
fn host_paths_for_git() {
    assert_eq!(normalize_host_path_for_git("\\\\?\\C:\\src\\repo"), "C:\\src\\repo");
    assert_eq!(normalize_host_path_for_git("/home/me/repo"), "/home/me/repo");
    assert_eq!(clone_source("demo", Some("/home/me/demo")), "/home/me/demo");
    assert_eq!(clone_source("https://x/y.git", None), "https://x/y.git");
}

#[test]
fn shell_quoting_uses_debug_quotes() {
    assert_eq!(shell_quote("plain"), "plain");
    assert_eq!(shell_quote("two words"), "\"two words\"");
    assert_eq!(shell_quote("say \"hi\" now"), "\"say \\\"hi\\\" now\"");
}

#[test]
fn reproduction_repeats_the_audit() {
    let mut o = options();
    o.repo = "/tmp/my repo".to_string();
    o.json_output = Some("reports/run.json".to_string());
    o.docs = vec!["README.md".to_string(), "docs/quick start.md".to_string()];
    o.forwarded_env_names = vec!["ACME_API_KEY".to_string()];
    assert_eq!(
        reproduction_command(&o),
        "sdkcheck run --repo \"/tmp/my repo\" --goal \"Verify the documented git command works.\" \
         --backend local --output reports/run.md --timeout-seconds 120 \
         --agent-base-url http://127.0.0.1:9/v1 --agent-api-key-env SDKCHECK_TEST_AGENT_KEY \
         --max-steps 4 --agent-model sdkcheck-test-model --json-output reports/run.json \
         --docs README.md --docs \"docs/quick start.md\" \
         --success \"`git status --short` exits with status 0.\" --env ACME_API_KEY"
    );
    o.agent_model = "  ".to_string();
    assert!(!reproduction_command(&o).contains("--agent-model"));
}

#[test]
fn command_env_adds_python_settings() {
    let mut secrets = SecretSet::default();
    secrets.add_value("ACME_API_KEY", "k");
    let env = command_env(&secrets);
    assert_eq!(
        env.pairs(),
        vec![
            ("ACME_API_KEY".to_string(), "k".to_string()),
            ("CI".to_string(), "1".to_string()),
            ("PYTHONIOENCODING".to_string(), "utf-8".to_string()),
            ("PYTHONUTF8".to_string(), "1".to_string()),
        ]
    );
}

#[test]
fn command_observation_formats_the_result() {
    let mut c = command("verify", true);
    c.stdout = "ok\n".to_string();
    c.stderr = "y".repeat(5000);
    let text = command_observation(3, &c);
    assert!(text.starts_with(
        "Step 3: command `verify` finished. success=true, exit_code=Some(0), timed_out=false. stdout:\nok\n\nstderr:\n"
    ));
    assert!(text.ends_with("\n[sdkcheck] content truncated"));
    c.exit_code = None;
    assert!(command_observation(1, &c).contains("exit_code=None"));
}

#[test]
fn record_command_keeps_evidence_or_error() {
    let mut commands = Vec::new();
    assert_eq!(record_command::<String>(&mut commands, Ok(command("clone", true))), Ok(true));
    assert_eq!(record_command::<String>(&mut commands, Ok(command("x", false))), Ok(false));
    assert_eq!(record_command(&mut commands, Err("spawn failed".to_string())), Err("spawn failed".to_string()));
    assert_eq!(commands.len(), 2);
}

#[test]
fn classification_follows_the_verdict() {
    let none: Vec<String> = Vec::new();
    let missing = vec!["ACME_API_KEY".to_string()];
    let cmds = vec![command("verify", true)];
    let passed = Some(finish(AgentVerdict::Passed, FailureClassification::Docs));
    assert_eq!(classification_for_report(&passed, &cmds, &missing), FailureClassification::NoFailure);
    let vague = Some(finish(AgentVerdict::Failed, FailureClassification::NoFailure));
    assert_eq!(classification_for_report(&vague, &cmds, &missing), FailureClassification::Environment);
    assert_eq!(classification_for_report(&vague, &cmds, &none), FailureClassification::UnclearAudit);
    let docs = Some(finish(AgentVerdict::Inconclusive, FailureClassification::Docs));
    assert_eq!(classification_for_report(&docs, &cmds, &none), FailureClassification::Docs);

    let clone_failed = vec![command("clone audit repository", false), command("other", false)];
    assert_eq!(classification_for_report(&None, &clone_failed, &none), FailureClassification::Environment);
    let product = vec![command("ok", true), command("run tests", false), command("clone", false)];
    assert_eq!(classification_for_report(&None, &product, &none), FailureClassification::Product);
    assert_eq!(classification_for_report(&None, &product, &missing), FailureClassification::Environment);
    assert_eq!(classification_for_report(&None, &cmds, &none), FailureClassification::UnclearAudit);
}

#[test]
fn summary_and_suggestions_without_verdict() {
    let none: Vec<String> = Vec::new();
    let missing = vec!["A".to_string(), "B".to_string()];
    let failed = vec![command("ok", true), command("install", false)];
    assert_eq!(
        summary_for_report(&None, &failed, &missing),
        "The audit stopped at `install` before the agent could reach a final verdict."
    );
    assert_eq!(
        summary_for_report(&None, &Vec::new(), &missing),
        "The audit did not run because required env names were missing: A, B."
    );
    assert_eq!(
        summary_for_report(&None, &Vec::new(), &none),
        "The audit did not produce a final verdict."
    );
    assert_eq!(
        suggestions_for_report(&None, &failed, &missing),
        vec![
            "Provide the missing env names before retrying the audit: A, B.",
            "Inspect the `install` command evidence and fix the first failing step before retrying the audit.",
        ]
    );
    assert_eq!(
        suggestions_for_report(&None, &Vec::new(), &none),
        vec!["Tighten the docs selection, goal, or success criteria so the agent can produce a sharper verdict."]
    );
    let mut f = finish(AgentVerdict::Failed, FailureClassification::Docs);
    assert_eq!(summary_for_report(&Some(f.clone()), &failed, &missing), "agent summary");
    f.suggestions = vec!["fix the quickstart".to_string()];
    assert_eq!(suggestions_for_report(&Some(f), &failed, &missing), vec!["fix the quickstart"]);
}

#[test]
fn missing_envs_are_merged_sorted_and_unique() {
    let mut secrets = SecretSet::default();
    secrets.add_missing("ZETA");
    secrets.add_missing("ALPHA");
    let mut f = finish(AgentVerdict::Failed, FailureClassification::Environment);
    f.missing_envs = vec!["MIDDLE".to_string(), " ".to_string(), "ZETA".to_string(), "".to_string()];
    assert_eq!(merged_missing_envs(&secrets, &Some(f)), vec!["ALPHA", "MIDDLE", "ZETA"]);
    assert_eq!(merged_missing_envs(&secrets, &None), vec!["ALPHA", "ZETA"]);
}

#[test]
fn changed_files_lists_new_and_modified_files() {
    let stamp = |len: u64, t: u64| FileStamp { len, modified_unix_seconds: t };
    let entry = |p: &str, s: FileStamp| FileEntry { path: p.to_string(), stamp: s };
    let baseline = vec![entry("README.md", stamp(10, 1)), entry("src/a.py", stamp(5, 1))];
    let current = vec![
        entry("README.md", stamp(10, 1)),
        entry("build/out.txt", stamp(3, 2)),
        entry("src/a.py", stamp(6, 2)),
    ];
    assert_eq!(changed_files(&current, &baseline, LINUX), vec!["build/out.txt", "src/a.py"]);

    let many: Vec<FileEntry> = (0..100).map(|i| entry(&format!("gen/f{i:03}"), stamp(1, 1))).collect();
    let listed = changed_files(&many, &Vec::new(), LINUX);
    assert_eq!(listed.len(), MAX_GENERATED_FILES);
    assert_eq!(listed[0], "gen/f000");
    assert_eq!(listed[63], "gen/f063");
}

#[test]
fn run_folders_are_named_after_the_target() {
    assert_eq!(
        run_folder_name_at("https://github.com/acme/demo.git", None, "20260101-120000"),
        "demo-20260101-120000"
    );
    assert_eq!(run_dir_path("/home/me", ".sdkcheck-work", "demo-1", LINUX), "/home/me/.sdkcheck-work/runs/demo-1");
    assert_eq!(run_dir_path("/home/me", "/abs/work", "demo-1", LINUX), "/abs/work/runs/demo-1");
    assert_eq!(repo_dir_path("/w/runs/demo-1", LINUX), "/w/runs/demo-1/repo");
}

#[test]
fn agent_needs_a_model() {
    assert_eq!(
        agent_model_error("  "),
        Some("missing audit agent model; pass --agent-model or set SDKCHECK_AGENT_MODEL".to_string())
    );
    assert_eq!(agent_model_error("gpt-4.1-mini"), None);
}

#[test]
fn agent_endpoint_drops_trailing_slashes() {
    assert_eq!(agent_endpoint("https://api.openai.com/v1//"), "https://api.openai.com/v1/chat/completions");
    assert_eq!(agent_endpoint("http://127.0.0.1:8080/v1"), "http://127.0.0.1:8080/v1/chat/completions");
}

#[test]
fn finishes_for_setup_failures() {
    let mut evidence = AuditEvidence::new();
    let f = docs_load_failed(&mut evidence, "boom");
    assert_eq!(f.verdict, AgentVerdict::Failed);
    assert_eq!(f.classification, FailureClassification::Docs);
    assert_eq!(f.summary, "sdkcheck could not load the requested docs: boom");
    assert_eq!(evidence.docs_observations, vec!["Failed to load docs: boom"]);

    let f = agent_start_failed(&mut evidence, "no key");
    assert_eq!(f.classification, FailureClassification::Environment);
    assert_eq!(f.summary, "sdkcheck could not start the audit agent: no key");
    assert_eq!(evidence.docs_observations[1], "Audit agent configuration failed before command execution.");

    let f = agent_unreachable("timeout");
    assert_eq!(f.summary, "sdkcheck could not get the next action from the audit agent: timeout");
    assert_eq!(f.suggestions, vec!["Verify the audit agent endpoint, API key, and model, then retry the audit."]);
}

#[test]
fn clone_step_and_docs_step() {
    let mut evidence = AuditEvidence::new();
    let spec = clone_command(&mut evidence, "https://x/demo.git", "/w/run", "https://x/demo.git");
    assert_eq!(spec.label, "clone audit repository");
    assert_eq!(spec.program, "git");
    assert_eq!(spec.args, vec!["clone", "--depth", "1", "https://x/demo.git", "repo"]);
    assert_eq!(spec.cwd, "/w/run");
    assert_eq!(
        evidence.audit_steps,
        vec!["Clone audit repository `https://x/demo.git` into the isolated run directory."]
    );
    let mut bundle = DocBundle::new();
    bundle.offer("README.md", "hi");
    let selection = docs_selection(vec!["README.md".to_string()], &bundle);
    docs_loaded(&mut evidence, &selection);
    assert_eq!(evidence.audit_steps[1], "Load seed docs for the agent: README.md.");
    assert_eq!(evidence.docs_observations, vec!["Loaded 1 doc file(s): README.md."]);
}

#[test]
fn prompt_carries_goal_criteria_and_rules() {
    let o = options();
    let mut bundle = DocBundle::new();
    bundle.offer("README.md", "# Demo");
    let selection = docs_selection(vec!["README.md".to_string()], &bundle);
    let mut secrets = SecretSet::default();
    secrets.add_missing("ACME_API_KEY");
    let obs = vec!["first".to_string(), "second".to_string()];
    let prompt = build_agent_prompt(&o, &selection, &obs, 2, "/w/run/repo", &secrets);
    assert!(prompt.starts_with(
        "You are sdkcheck's audit agent.\nAudit step: 2\nRepository root: /w/run/repo\nGoal: Verify the documented git command works.\nSuccess criteria:\n- `git status --short` exits with status 0.\nForwarded env names available to commands: (none)\nForwarded env names requested but missing on the host: ACME_API_KEY\nSeed docs loaded for you:\nFILE: README.md\n"
    ));
    assert!(prompt.contains("Observations so far:\n- first\n- second\nReturn exactly one JSON object"));
    assert!(prompt.ends_with(PROMPT_RULES));
    assert!(prompt.ends_with("- Finish with `none` only when the goal is actually complete.\n"));
}

#[test]
fn session_steps_are_bounded() {
    let mut o = options();
    o.max_steps = 0;
    let bundle = DocBundle::new();
    let selection = docs_selection(vec!["README.md".to_string()], &bundle);
    let secrets = SecretSet::default();
    let mut session = AgentSession::start(&o, &selection, &secrets);
    assert_eq!(
        session.observations(),
        &vec![
            "Audit goal: Verify the documented git command works.".to_string(),
            "Seed docs: README.md".to_string(),
            "Success criteria:\n- `git status --short` exits with status 0.".to_string(),
        ]
    );
    assert_eq!(session.begin_step(), Some(1));
    assert_eq!(session.begin_step(), None);
    let f = session.out_of_steps();
    assert_eq!(f.verdict, AgentVerdict::Inconclusive);
    assert_eq!(f.classification, FailureClassification::UnclearAudit);
    assert_eq!(f.summary, "sdkcheck stopped after 1 agent steps without a final verdict.");

    o.max_steps = 3;
    let mut session = AgentSession::start(&o, &selection, &secrets);
    assert_eq!(session.begin_step(), Some(1));
    assert_eq!(session.begin_step(), Some(2));
    assert_eq!(session.begin_step(), Some(3));
    assert_eq!(session.begin_step(), None);
}

#[test]
fn session_checks_agent_actions() {
    let o = options();
    let bundle = DocBundle::new();
    let selection = docs_selection(vec!["README.md".to_string()], &bundle);
    let mut secrets = SecretSet::default();
    secrets.add_value("ACME_API_KEY", "secret");
    let mut session = AgentSession::start(&o, &selection, &secrets);
    let mut evidence = AuditEvidence::new();
    let base = session.observations().len();
    session.begin_step();

    let mv = session.apply_action(
        &mut evidence,
        AgentAction::ReadFile { summary: "peek".to_string(), path: "../etc/passwd".to_string() },
        "/w/run/repo",
        &secrets, LINUX
    );
    assert!(matches!(mv, AgentMove::Skip));
    assert_eq!(
        session.observations()[base],
        "Step 1: agent requested an invalid file path `../etc/passwd` (parent traversal is not allowed)."
    );
    assert_eq!(evidence.audit_steps, vec!["Step 1: agent requested invalid path `../etc/passwd`."]);

    session.begin_step();
    match session.apply_action(
        &mut evidence,
        AgentAction::ReadFile { summary: "read docs".to_string(), path: "./docs//setup.md".to_string() },
        "/w/run/repo",
        &secrets, LINUX
    ) {
        AgentMove::Read { path, relative, summary } => {
            assert_eq!(path, "/w/run/repo/docs/setup.md");
            assert_eq!(relative, "docs/setup.md");
            session.record_read(&mut evidence, &relative, &summary, Ok("x".repeat(20000)));
        }
        _ => panic!("expected a read"),
    }
    assert_eq!(evidence.audit_steps[1], "Step 2: read `docs/setup.md` (read docs).");
    assert_eq!(evidence.docs_observations, vec!["Agent read `docs/setup.md`."]);
    let note = session.observations().last().unwrap().clone();
    assert!(note.starts_with("Step 2: file `docs/setup.md` content:\nxxx"));
    assert!(note.ends_with("[sdkcheck] content truncated"));
    session.record_read(&mut evidence, "gone.md", "why", Err("not found".to_string()));
    assert_eq!(session.observations().last().unwrap(), "Step 2: failed to read `gone.md` (not found).");
    assert_eq!(evidence.audit_steps[2], "Step 2: failed to read `gone.md`.");

    session.begin_step();
    match session.apply_action(
        &mut evidence,
        AgentAction::RunCommand {
            summary: "check status".to_string(),
            label: "  ".to_string(),
            program: "git".to_string(),
            args: vec!["status".to_string()],
            cwd: None,
        },
        "/w/run/repo",
        &secrets, LINUX
    ) {
        AgentMove::Run { command } => {
            assert_eq!(command.label, "check status");
            assert_eq!(command.program, "git");
            assert_eq!(command.args, vec!["status"]);
            assert_eq!(command.cwd, "/w/run/repo/");
            assert_eq!(command.env.keys(), vec!["ACME_API_KEY", "CI", "PYTHONIOENCODING", "PYTHONUTF8"]);
            session.record_run(&mut evidence, &command.label, "/w/run/repo", Err("no such program".to_string()));
        }
        _ => panic!("expected a command"),
    }
    assert_eq!(evidence.audit_steps[3], "Step 3: run `check status` (check status).");
    assert_eq!(session.observations().last().unwrap(), "Step 3: failed to start `check status` (no such program).");
    let failed = evidence.commands.last().unwrap();
    assert_eq!(failed.command, "[sdkcheck internal failure before command start]");
    assert!(!failed.success);
    assert_eq!(failed.stderr, "no such program");
    assert_eq!(failed.cwd, "/w/run/repo");

    let mv = session.apply_action(
        &mut evidence,
        AgentAction::RunCommand {
            summary: "s".to_string(),
            label: "escape".to_string(),
            program: "ls".to_string(),
            args: Vec::new(),
            cwd: Some("/".to_string()),
        },
        "/w/run/repo",
        &secrets, LINUX
    );
    assert!(matches!(mv, AgentMove::Skip));
    assert_eq!(
        session.observations().last().unwrap(),
        "Step 3: agent requested invalid cwd `/` (absolute paths are not allowed)."
    );

    match session.apply_action(
        &mut evidence,
        AgentAction::Finish {
            summary: "done".to_string(),
            verdict: AgentVerdict::Passed,
            classification: FailureClassification::NoFailure,
            suggestions: Vec::new(),
            missing_envs: Vec::new(),
        },
        "/w/run/repo",
        &secrets, LINUX
    ) {
        AgentMove::Finish { finish } => {
            assert_eq!(finish.verdict, AgentVerdict::Passed);
            assert_eq!(finish.summary, "done");
        }
        _ => panic!("expected a finish"),
    }
    assert_eq!(evidence.audit_steps.last().unwrap(), "Step 3: finish audit.");
}

#[test]
fn runs_a_generic_docs_audit_with_a_mock_agent() {
    let o = options();
    let secrets = SecretSet::default();
    let mut evidence = AuditEvidence::new();
    let clone = clone_command(&mut evidence, &o.repo, "/w/run", &o.repo);
    let mut clone_result = command(&clone.label, true);
    clone_result.command = "git clone --depth 1 https://github.com/acme/demo.git repo".to_string();
    assert_eq!(record_command::<String>(&mut evidence.commands, Ok(clone_result)), Ok(true));
    let mut bundle = DocBundle::new();
    bundle.offer("README.md", "# Demo\n\nRun `git status --short` to verify the repo is clean.\n");
    let selection = docs_selection(vec!["README.md".to_string()], &bundle);
    docs_loaded(&mut evidence, &selection);

    let mut session = AgentSession::start(&o, &selection, &secrets);
    session.begin_step();
    let mv = session.apply_action(
        &mut evidence,
        AgentAction::RunCommand {
            summary: "verify the documented command".to_string(),
            label: "verify documented git command".to_string(),
            program: "git".to_string(),
            args: vec!["status".to_string(), "--short".to_string()],
            cwd: Some(".".to_string()),
        },
        "/w/run/repo",
        &secrets, LINUX
    );
    let label = match mv {
        AgentMove::Run { command } => command.label,
        _ => panic!("expected a command"),
    };
    session.record_run(&mut evidence, &label, "/w/run/repo", Ok(command(&label, true)));
    session.begin_step();
    let finish = match session.apply_action(
        &mut evidence,
        AgentAction::Finish {
            summary: "The documented command completed successfully.".to_string(),
            verdict: AgentVerdict::Passed,
            classification: FailureClassification::NoFailure,
            suggestions: Vec::new(),
            missing_envs: Vec::new(),
        },
        "/w/run/repo",
        &secrets, LINUX
    ) {
        AgentMove::Finish { finish } => finish,
        _ => panic!("expected a finish"),
    };

    let report = run(&o, None, "/w/run", evidence, Some(finish), &secrets, Vec::new());
    assert_eq!(report.status, ReportStatus::Passed);
    assert_eq!(report.classification, FailureClassification::NoFailure);
    assert_eq!(report.commands.len(), 2);
    assert!(report.commands.iter().all(|c| c.success));
    assert!(report.docs_observations.iter().any(|e| e.contains("README.md")));
    assert_eq!(report.title, "sdkcheck audit report: demo");
    assert_eq!(report.backend, "local");
    assert_eq!(report.summary, "The documented command completed successfully.");
    assert_eq!(
        report.suggestions,
        vec!["Tighten the docs selection, goal, or success criteria so the agent can produce a sharper verdict."]
    );
    assert!(report.reproduction.starts_with("sdkcheck run --repo https://github.com/acme/demo.git"));
}

#[test]
fn audit_report_without_verdict_fails() {
    let o = options();
    let mut secrets = SecretSet::default();
    secrets.add_missing("ACME_API_KEY");
    let mut evidence = AuditEvidence::new();
    evidence.commands.push(command("clone audit repository", false));
    let report = run(&o, Some("My Repo"), "/w/run", evidence, None, &secrets, Vec::new());
    assert_eq!(report.title, "sdkcheck audit report: my-repo");
    assert_eq!(report.status, ReportStatus::Failed);
    assert_eq!(report.classification, FailureClassification::Environment);
    assert_eq!(report.missing_secrets, vec!["ACME_API_KEY"]);
    assert_eq!(
        report.summary,
        "The audit stopped at `clone audit repository` before the agent could reach a final verdict."
    );
}

#[test]
fn windows_agent_paths_stay_in_the_repository() {
    let win = HostPlatform { windows: true, linux: false };
    let o = options();
    let bundle = DocBundle::new();
    let selection = docs_selection(vec!["README.md".to_string()], &bundle);
    let secrets = SecretSet::default();
    let mut session = AgentSession::start(&o, &selection, &secrets);
    let mut evidence = AuditEvidence::new();
    session.begin_step();
    let mv = session.apply_action(
        &mut evidence,
        AgentAction::RunCommand {
            summary: "escape".to_string(),
            label: "x".to_string(),
            program: "dir".to_string(),
            args: vec![],
            cwd: Some(r"..\..".to_string()),
        },
        r"C:\w\run\repo",
        &secrets,
        win,
    );
    assert!(matches!(mv, AgentMove::Skip));
    session.begin_step();
    match session.apply_action(
        &mut evidence,
        AgentAction::ReadFile { summary: "read".to_string(), path: r"docs\setup.md".to_string() },
        r"C:\w\run\repo",
        &secrets,
        win,
    ) {
        AgentMove::Read { path, .. } => assert_eq!(path, r"C:\w\run\repo\docs\setup.md"),
        _ => panic!("a relative path inside the repository is read"),
    }
}
