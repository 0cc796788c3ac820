use sdkcheck::env_map::EnvMap;
use sdkcheck::runner::{
    command_line, docker_build_error, docker_container_name, docker_safe_name, docker_workdir,
    failure_message, local_program_path, output_excerpt, truncate_docker_name, truncate_for_report,
    workdir_error_text, Backend, CommandRunner, CommandSpec, HostPlatform, ProcessOutcome,
    WorkdirError, DEFAULT_COMMAND_TIMEOUT_SECONDS, DEFAULT_DOCKER_IMAGE, DOCKERFILE,
    MAX_DOCKER_NAME_LEN, MAX_REPORT_OUTPUT_BYTES,
};
use sdkcheck::secrets::SecretSet;

const LINUX: HostPlatform = HostPlatform { windows: false, linux: true };

#[test]
fn truncates_long_report_output() {
    let input = "x".repeat(MAX_REPORT_OUTPUT_BYTES + 1);
    let truncated = truncate_for_report(&input);

    assert!(truncated.contains("output truncated"));
    assert!(truncated.len() < input.len() + 128);
}

#[test]
fn docker_container_names_are_safe_and_bounded() {
    let name = docker_container_name(
        "co-op-translator-20260629-114348",
        "run live Markdown translation with a long label", LINUX
    );

    assert!(name.starts_with("sdkcheck-run-"));
    assert!(name.len() <= 63);
    assert!(name.chars().all(|character| {
        character.is_ascii_lowercase() || character.is_ascii_digit() || character == '-'
    }));
}

#[test]
fn report_output_is_cut_with_its_marker() {
    let short = "fits";
    assert_eq!(truncate_for_report(short), "fits");
    let input = format!("{}  \n{}", "a".repeat(MAX_REPORT_OUTPUT_BYTES - 3), "b".repeat(10));
    let cut = truncate_for_report(&input);
    assert_eq!(
        cut,
        format!(
            "{}\n[sdkcheck] output truncated to 65536 bytes for report",
            "a".repeat(MAX_REPORT_OUTPUT_BYTES - 3)
        )
    );
}

#[test]
fn container_names_exact() {
    assert_eq!(docker_container_name("/w/runs/Demo_1", "clone repo", LINUX), "sdkcheck-run-demo-1-clone-repo");
    assert_eq!(docker_container_name("/", "x", LINUX), "sdkcheck-run-run-x");
    assert_eq!(docker_safe_name("--A b--"), "a-b");
    assert_eq!(docker_safe_name("***"), "run");
    assert_eq!(truncate_docker_name(&"a".repeat(70)), "a".repeat(MAX_DOCKER_NAME_LEN));
    assert_eq!(truncate_docker_name("short"), "short");
}

#[test]
fn docker_workdirs_stay_in_the_mount() {
    assert_eq!(docker_workdir("/w/run", "/w/run", LINUX), Ok("/work".to_string()));
    assert_eq!(docker_workdir("/w/run", "/w/run/repo/./sub/", LINUX), Ok("/work/repo/sub".to_string()));
    assert_eq!(docker_workdir("/w/run", "/w/other", LINUX), Err(WorkdirError::OutsideMount));
    assert_eq!(docker_workdir("/w/run", "/w/run/a/../b", LINUX), Err(WorkdirError::ParentTraversal));
    assert_eq!(
        workdir_error_text(WorkdirError::OutsideMount, "/w/other", "/w/run"),
        "docker command cwd `/w/other` is outside mount root `/w/run`"
    );
    assert_eq!(
        workdir_error_text(WorkdirError::ParentTraversal, "", ""),
        "refusing docker workdir with parent traversal"
    );
}

#[test]
fn command_lines_quote_spaced_args() {
    let args = vec!["-m".to_string(), "pip install".to_string(), "x".to_string()];
    assert_eq!(command_line("python", &args), "python -m \"pip install\" x");
    assert_eq!(command_line("ls", &Vec::new()), "ls");
}

#[test]
fn local_programs_resolve_against_cwd() {
    assert_eq!(local_program_path(".venv/bin/python", "/w/run", LINUX), "/w/run/.venv/bin/python");
    assert_eq!(local_program_path("/usr/bin/git", "/w/run", LINUX), "/usr/bin/git");
    assert_eq!(local_program_path("git", "/w/run", LINUX), "git");
}

#[test]
fn runner_settings() {
    let runner = CommandRunner::new(Backend::Docker, "/w/run", SecretSet::default());
    assert_eq!(runner.backend(), Backend::Docker);
    assert_eq!(runner.timeout_seconds(), DEFAULT_COMMAND_TIMEOUT_SECONDS);
    let runner = runner.with_timeout_seconds(0);
    assert_eq!(runner.timeout_seconds(), 1);
    assert_eq!(Backend::Local.to_text(), "local");
    assert_eq!(Backend::Docker.to_text(), "docker");
}

#[test]
fn docker_image_plan_only_for_docker() {
    let local = CommandRunner::new(Backend::Local, "/w/run", SecretSet::default());
    assert!(local.prepare(LINUX).is_none());
    let docker = CommandRunner::new(Backend::Docker, "/w/run", SecretSet::default());
    let plan = docker.prepare(LINUX).expect("docker plan");
    assert_eq!(plan.image, DEFAULT_DOCKER_IMAGE);
    assert_eq!(plan.inspect_args, vec!["image", "inspect", DEFAULT_DOCKER_IMAGE]);
    assert_eq!(plan.build_dir, "/w/run/.sdkcheck-docker");
    assert_eq!(plan.dockerfile, "/w/run/.sdkcheck-docker/Dockerfile");
    assert_eq!(
        plan.build_args,
        vec!["build", "--pull", "-t", DEFAULT_DOCKER_IMAGE, "-f", "/w/run/.sdkcheck-docker/Dockerfile", "/w/run/.sdkcheck-docker"]
    );
    assert!(DOCKERFILE.starts_with("FROM python:3.12-slim\n"));
}

#[test]
fn local_invocations_run_in_cwd() {
    let runner = CommandRunner::new(Backend::Local, "/w/run", SecretSet::default());
    let spec = CommandSpec::new("venv", ".venv/bin/python", "/w/run").args(vec!["-V".to_string()]);
    let inv = runner.invocation(&spec, LINUX).ok().expect("local");
    assert_eq!(inv.program, "/w/run/.venv/bin/python");
    assert_eq!(inv.args, vec!["-V"]);
    assert_eq!(inv.cwd, Some("/w/run".to_string()));
    assert!(inv.container.is_none());

    let win = HostPlatform { windows: true, linux: false };
    let spec = CommandSpec::new("py", "Python", "/w/run").args(vec!["-m".to_string(), "a b".to_string()]);
    let inv = runner.invocation(&spec, win).ok().expect("local");
    assert_eq!(inv.program, "cmd");
    assert_eq!(inv.args, vec!["/C", "Python -m \"a b\""]);
}

#[test]
fn docker_invocations_are_isolated() {
    let mut secrets = SecretSet::default();
    secrets.add_value("TOKEN", "v");
    let mut env = EnvMap::new();
    env.insert("TOKEN", "v");
    let runner = CommandRunner::new(Backend::Docker, "/w/run", secrets)
        .with_docker_network(Some("sdkcheck-net".to_string()))
        .with_docker_venv_volume(Some("sdkcheck-venv-x".to_string()));
    let spec = CommandSpec::new("run tests", "python", "/w/run/repo")
        .args(vec!["-m".to_string(), "pytest".to_string()])
        .envs(env);
    let inv = runner.invocation(&spec, LINUX).ok().expect("docker");
    assert_eq!(inv.program, "docker");
    assert_eq!(inv.cwd, None);
    assert_eq!(inv.container, Some("sdkcheck-run-run-run-tests".to_string()));
    assert_eq!(
        inv.args,
        vec![
            "run", "--rm", "--init", "--name", "sdkcheck-run-run-run-tests",
            "--security-opt", "no-new-privileges", "--pids-limit", "512", "--memory", "4g",
            "--cpus", "2", "--mount", "type=bind,source=/w/run,target=/work",
            "-w", "/work/repo",
            "--mount", "type=volume,source=sdkcheck-venv-x,target=/venv",
            "--network", "sdkcheck-net",
            "--add-host", "host.docker.internal:host-gateway",
            "-e", "TOKEN", DEFAULT_DOCKER_IMAGE, "python", "-m", "pytest",
        ]
    );
    let outside = CommandSpec::new("x", "ls", "/elsewhere");
    assert_eq!(runner.invocation(&outside, LINUX).err(), Some(WorkdirError::OutsideMount));
}

#[test]
fn evidence_masks_and_notes_timeouts() {
    let mut secrets = SecretSet::default();
    secrets.add_value("TOKEN", "hunter2");
    let runner = CommandRunner::new(Backend::Local, "/w/run", secrets).with_timeout_seconds(30);
    let spec = CommandSpec::new("login", "tool", "/w/run")
        .args(vec!["--token".to_string(), "hunter2".to_string()]);
    let result = runner.run(
        &spec,
        ProcessOutcome {
            exit_code: Some(0),
            timed_out: true,
            stdout: b"token is hunter2".to_vec(),
            stderr: b"slow".to_vec(),
            duration_ms: 30001,
        },
    );
    assert_eq!(result.label, "login");
    assert_eq!(result.command, "tool --token [REDACTED]");
    assert_eq!(result.cwd, "/w/run");
    assert!(!result.success);
    assert!(result.timed_out);
    assert_eq!(result.stdout, "token is [REDACTED]");
    assert_eq!(result.stderr, "slow\n[sdkcheck] command timed out after 30 seconds");
    assert_eq!(result.duration_ms, 30001);
}

#[test]
fn helper_failure_messages() {
    assert_eq!(output_excerpt("out \n", "err\n\n"), "stdout:\nout\nstderr:\nerr");
    assert_eq!(
        failure_message("failed to create Docker fake OpenAI network", "", "boom"),
        "failed to create Docker fake OpenAI network\nstdout:\n\nstderr:\nboom"
    );
    assert_eq!(
        docker_build_error("img:1", "o", "e "),
        "failed to build Docker runner image `img:1`\nstdout:\no\nstderr:\ne"
    );
}

#[test]
fn only_a_zero_exit_within_the_timeout_succeeds() {
    let runner = CommandRunner::new(Backend::Local, "/w/run", SecretSet::default());
    let spec = CommandSpec::new("build", "make", "/w/run");
    let outcome = |exit_code: Option<i32>, timed_out: bool| ProcessOutcome {
        exit_code,
        timed_out,
        stdout: Vec::new(),
        stderr: Vec::new(),
        duration_ms: 5,
    };
    assert!(runner.run(&spec, outcome(Some(0), false)).success);
    assert!(!runner.run(&spec, outcome(Some(2), false)).success);
    assert!(!runner.run(&spec, outcome(None, false)).success);
    assert!(!runner.run(&spec, outcome(None, true)).success);
    assert_eq!(runner.run(&spec, outcome(Some(2), false)).exit_code, Some(2));
}

#[test]
fn windows_docker_paths_and_names() {
    let win = HostPlatform { windows: true, linux: false };
    assert_eq!(docker_workdir(r"C:\w\run", r"C:\w\run\repo\sub", win), Ok("/work/repo/sub".to_string()));
    assert_eq!(docker_workdir(r"c:\w\run", r"C:/w/run/repo", win), Ok("/work/repo".to_string()));
    assert_eq!(docker_workdir(r"C:\w\run", r"C:\w\run", win), Ok("/work".to_string()));
    assert_eq!(docker_workdir(r"C:\w\run", r"D:\w\run\repo", win), Err(WorkdirError::OutsideMount));
    assert_eq!(docker_container_name(r"C:\w\runs\Demo_1", "clone repo", win), "sdkcheck-run-demo-1-clone-repo");
    assert_eq!(local_program_path(r".venv\Scripts\python.exe", r"C:\w\run", win), r"C:\w\run\.venv\Scripts\python.exe");
    assert_eq!(local_program_path(r"C:\Python\python.exe", r"C:\w\run", win), r"C:\Python\python.exe");
}

#[test]
fn invalid_output_bytes_become_replacement_characters() {
    let runner = CommandRunner::new(Backend::Local, "/w/run", SecretSet::default());
    let spec = CommandSpec::new("build", "make", "/w/run");
    let result = runner.run(
        &spec,
        ProcessOutcome {
            exit_code: Some(0),
            timed_out: false,
            stdout: vec![b'o', b'k', 0xff, b'!'],
            stderr: "é".as_bytes().to_vec(),
            duration_ms: 1,
        },
    );
    assert_eq!(result.stdout, "ok\u{fffd}!");
    assert_eq!(result.stderr, "é");
}
