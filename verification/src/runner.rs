//! Command execution planning: what to run on the local or Docker backend
//! for a command, and the evidence recorded from what the process did.
use vstd::prelude::*;
use vstd::utf8::{decode_utf8, valid_utf8};

use crate::env_map::{empty_env_map, map_extend, EnvMap};
use crate::models::CommandResult;
use crate::naming::{all_safe, is_safe_name_char, lemma_safe_core, safe_name, safe_name_or};
pub use crate::paths::HostPlatform;
use crate::paths::{
    file_name, is_absolute, join_path, path_file_name, path_is_absolute, path_join,
    path_strip_prefix, strip_prefix,
};
use crate::win_path::{components_w, win_components};
use crate::secrets::{mask_all, SecretSet, SecretSetView};
use crate::text::{
    ascii_lower, concat, contains_seq, contains_text, dec, join, join_strings,
    lemma_utf8_len_ge_len, owned, push_chars, push_str, quote_if_spaced, quote_if_spaced_exec,
    starts_with, string_from_chars, to_chars, trim_end, trim_end_string, truncate_with,
    truncate_with_marker, u64_string, utf8_len,
};

verus! {

/// The image in which Docker commands run.
pub const DEFAULT_DOCKER_IMAGE: &'static str = "sdkcheck-python-runner:0.1.0";

/// Per-command timeout unless one is given.
pub const DEFAULT_COMMAND_TIMEOUT_SECONDS: u64 = 900;

/// Bytes of stdout or stderr kept in a report.
pub const MAX_REPORT_OUTPUT_BYTES: usize = 65536;

/// Longest Docker container name produced.
pub const MAX_DOCKER_NAME_LEN: usize = 63;

/// The Dockerfile of the runner image.
pub const DOCKERFILE: &'static str = "FROM python:3.12-slim\n\nENV DEBIAN_FRONTEND=noninteractive \\\n    PYTHONUTF8=1 \\\n    PYTHONIOENCODING=utf-8 \\\n    PIP_DISABLE_PIP_VERSION_CHECK=1\n\nRUN apt-get update \\\n    && apt-get install -y --no-install-recommends \\\n        build-essential \\\n        ca-certificates \\\n        git \\\n        libglib2.0-0 \\\n        libgl1 \\\n        libgomp1 \\\n    && rm -rf /var/lib/apt/lists/*\n\nWORKDIR /work\n";

/// Where commands run.
#[derive(Clone, Copy, Debug, PartialEq, Eq, Structural)]
pub enum Backend {
    Docker,
    Local,
}

pub open spec fn backend_text(b: Backend) -> Seq<char> {
    match b {
        Backend::Docker => "docker"@,
        Backend::Local => "local"@,
    }
}

impl Backend {
    /// The name used on the command line and in reports.
    pub fn to_text(self) -> (s: String)
        ensures
            s@ == backend_text(self),
    {
        match self {
            Backend::Docker => owned("docker"),
            Backend::Local => owned("local"),
        }
    }
}

/// A command to run: a label for the report, the program, its arguments,
/// the working directory and extra environment variables.
pub struct CommandSpec {
    pub label: String,
    pub program: String,
    pub args: Vec<String>,
    pub cwd: String,
    pub env: EnvMap,
}

impl CommandSpec {
    pub fn new(label: &str, program: &str, cwd: &str) -> (s: Self)
        ensures
            s.label@ == label@,
            s.program@ == program@,
            s.args.deep_view() == Seq::<Seq<char>>::empty(),
            s.cwd@ == cwd@,
            s.env@ == empty_env_map(),
    {
        let s = CommandSpec {
            label: owned(label),
            program: owned(program),
            args: Vec::new(),
            cwd: owned(cwd),
            env: EnvMap::new(),
        };
        assert(s.args.deep_view() =~= Seq::<Seq<char>>::empty());
        s
    }

    /// Appends arguments.
    pub fn args(self, args: Vec<String>) -> (s: Self)
        ensures
            s.label == self.label,
            s.program == self.program,
            s.args.deep_view() == self.args.deep_view() + args.deep_view(),
            s.cwd == self.cwd,
            s.env@ == self.env@,
    {
        let CommandSpec { label, program, args: mut all, cwd, env } = self;
        let ghost start = all.deep_view();
        let mut i: usize = 0;
        while i < args.len()
            invariant
                i <= args.len(),
                all.deep_view() == start + args.deep_view().take(i as int),
            decreases args.len() - i,
        {
            let ghost before = all.deep_view();
            assert(args.deep_view()[i as int] == args[i as int]@);
            all.push(args[i].clone());
            assert(all.deep_view() =~= before.push(args[i as int]@));
            assert(args.deep_view().take(i + 1) =~= args.deep_view().take(i as int).push(
                args.deep_view()[i as int],
            ));
            i = i + 1;
        }
        assert(args.deep_view().take(args.len() as int) =~= args.deep_view());
        CommandSpec { label, program, args: all, cwd, env }
    }

    /// Adds environment variables; a name given again takes the new value.
    pub fn envs(self, env: EnvMap) -> (s: Self)
        ensures
            s.label == self.label,
            s.program == self.program,
            s.args == self.args,
            s.cwd == self.cwd,
            s.env@ == map_extend(self.env@, env@),
    {
        let CommandSpec { label, program, args, cwd, env: mut all } = self;
        all.extend(&env);
        CommandSpec { label, program, args, cwd, env: all }
    }
}

/// What a [`CommandRunner`] is configured with.
pub struct RunnerView {
    pub backend: Backend,
    pub mount_root: Seq<char>,
    pub secrets: SecretSetView,
    pub docker_image: Seq<char>,
    pub timeout_seconds: u64,
    pub docker_network: Option<Seq<char>>,
    pub docker_venv_volume: Option<Seq<char>>,
}

/// Runs commands on one backend under one mount root, masking the given
/// secrets in everything it records.
pub struct CommandRunner {
    backend: Backend,
    mount_root: String,
    secrets: SecretSet,
    docker_image: String,
    timeout_seconds: u64,
    docker_network: Option<String>,
    docker_venv_volume: Option<String>,
}

impl View for CommandRunner {
    type V = RunnerView;

    closed spec fn view(&self) -> RunnerView {
        RunnerView {
            backend: self.backend,
            mount_root: self.mount_root@,
            secrets: self.secrets@,
            docker_image: self.docker_image@,
            timeout_seconds: self.timeout_seconds,
            docker_network: match self.docker_network {
                Some(n) => Some(n@),
                None => None,
            },
            docker_venv_volume: match self.docker_venv_volume {
                Some(v) => Some(v@),
                None => None,
            },
        }
    }
}

/// A process to spawn for a command.
pub struct Invocation {
    pub program: String,
    pub args: Vec<String>,
    /// Working directory of the spawned process; `None` keeps the current one.
    pub cwd: Option<String>,
    pub env: EnvMap,
    /// The container to remove when the command times out.
    pub container: Option<String>,
}

/// What the spawned process did. `exit_code` is `None` when the process
/// ended without one (killed by a signal, as on a timeout); the outputs are
/// the bytes it wrote.
pub struct ProcessOutcome {
    pub exit_code: Option<i32>,
    pub timed_out: bool,
    pub stdout: Vec<u8>,
    pub stderr: Vec<u8>,
    pub duration_ms: u128,
}

/// Why a command cannot run in Docker.
#[derive(Clone, Copy, Debug, PartialEq, Eq, Structural)]
pub enum WorkdirError {
    OutsideMount,
    ParentTraversal,
}

/// The Docker build of the runner image, when it is missing.
pub struct DockerImagePlan {
    pub image: String,
    pub inspect_args: Vec<String>,
    pub build_dir: String,
    pub dockerfile: String,
    pub build_args: Vec<String>,
}

// ---------------------------------------------------------------------------
// Specifications
// ---------------------------------------------------------------------------

/// The components of `cwd` below the mount root as `docker_workdir` reads
/// them: the remaining path is read again, which on Windows can differ from
/// the components themselves (a leading `C:`-like name becomes a prefix).
pub open spec fn workdir_parts(rest: Seq<Seq<char>>, w: bool) -> Seq<Seq<char>> {
    if w {
        components_w(join(rest, seq!['\\']))
    } else {
        rest
    }
}

/// The working directory inside the container for `cwd`: `/work` followed by
/// the components of `cwd` below the mount root, joined by '/'.
pub open spec fn docker_workdir_spec(mount: Seq<char>, cwd: Seq<char>, w: bool) -> Result<
    Seq<char>,
    WorkdirError,
> {
    match strip_prefix(cwd, mount, w) {
        None => Err(WorkdirError::OutsideMount),
        Some(rest) => if rest.len() == 0 {
            Ok("/work"@)
        } else if contains_seq(join(workdir_parts(rest, w), seq!['/']), seq!['.', '.']) {
            Err(WorkdirError::ParentTraversal)
        } else {
            Ok("/work/"@ + join(workdir_parts(rest, w), seq!['/']))
        },
    }
}

/// A working directory outside the mount root is refused as such, and only
/// it; the mount root itself is `/work`; any other accepted directory is
/// `/work/` followed by a path free of `..`. On Unix that path is the
/// components below the mount root joined by `/`, and a directory whose
/// joined components hold `..` is refused as parent traversal.
pub proof fn lemma_docker_workdir_rules(mount: Seq<char>, cwd: Seq<char>, w: bool)
    ensures
        (strip_prefix(cwd, mount, w) is None) <==> (docker_workdir_spec(mount, cwd, w) == Err::<
            Seq<char>,
            WorkdirError,
        >(WorkdirError::OutsideMount)),
        strip_prefix(cwd, mount, w) == Some(Seq::<Seq<char>>::empty()) ==> docker_workdir_spec(
            mount,
            cwd,
            w,
        ) == Ok::<Seq<char>, WorkdirError>("/work"@),
        docker_workdir_spec(mount, cwd, w) matches Ok(r) ==> r == "/work"@ || (r.len() >= 6
            && r.take(6) == "/work/"@ && !contains_seq(r.skip(6), ".."@)),
        !w ==> match strip_prefix(cwd, mount, w) {
            Some(rest) => rest.len() > 0 ==> docker_workdir_spec(mount, cwd, w) == (if contains_seq(
                join(rest, "/"@),
                ".."@,
            ) {
                Err::<Seq<char>, WorkdirError>(WorkdirError::ParentTraversal)
            } else {
                Ok::<Seq<char>, WorkdirError>("/work/"@ + join(rest, "/"@))
            }),
            None => true,
        },
{
    reveal_strlit("/work/");
    reveal_strlit("/");
    reveal_strlit("..");
    assert("/"@ =~= seq!['/']);
    assert(".."@ =~= seq!['.', '.']);
    if let Some(rest) = strip_prefix(cwd, mount, w) {
        if rest.len() > 0 {
            let j = join(workdir_parts(rest, w), seq!['/']);
            assert(("/work/"@ + j).take(6) =~= "/work/"@);
            assert(("/work/"@ + j).skip(6) =~= j);
        }
    }
}

/// `name` cut to its first 63 characters when its encoding is longer than
/// 63 bytes (`chars().take(63)`).
pub open spec fn truncate_docker_name_spec(name: Seq<char>) -> Seq<char> {
    if utf8_len(name) <= MAX_DOCKER_NAME_LEN || name.len() <= MAX_DOCKER_NAME_LEN {
        name
    } else {
        name.take(MAX_DOCKER_NAME_LEN as int)
    }
}

/// The container name for a command: the run directory's name and the
/// command label, made safe and bounded.
pub open spec fn container_name_spec(mount: Seq<char>, label: Seq<char>, w: bool) -> Seq<char> {
    let run_name = match file_name(mount, w) {
        Some(n) => n,
        None => "run"@,
    };
    truncate_docker_name_spec(
        "sdkcheck-run-"@ + safe_name(run_name, "run"@) + "-"@ + safe_name(label, "run"@),
    )
}

/// The command as it is shown in reports: program and arguments, an
/// argument that holds whitespace in Debug quotes.
pub open spec fn command_line_spec(program: Seq<char>, args: Seq<Seq<char>>) -> Seq<char> {
    join(seq![program] + args.map_values(|a: Seq<char>| quote_if_spaced(a)), seq![' '])
}

/// `eq_ignore_ascii_case`.
pub open spec fn eq_ignore_ascii_case(a: Seq<char>, b: Seq<char>) -> bool {
    a.len() == b.len() && forall|i: int| 0 <= i < a.len() ==> ascii_lower(#[trigger] a[i])
        == ascii_lower(b[i])
}

/// A program name that is a path rather than a bare command.
pub open spec fn looks_like_path(p: Seq<char>) -> bool {
    (p.len() > 0 && p[0] == '.') || p.contains('/') || p.contains('\\')
}

/// The program a local command starts: a relative path is taken from the
/// command's working directory.
pub open spec fn local_program_spec(program: Seq<char>, cwd: Seq<char>, w: bool) -> Seq<char> {
    if looks_like_path(program) && !is_absolute(program, w) {
        path_join(cwd, program, w)
    } else {
        program
    }
}

/// A local command starts its program by name when the name is a bare
/// command (no leading `.`, no `/`, no backslash) or an absolute path; a
/// relative path is taken from the command's working directory.
pub proof fn lemma_local_program_rules(program: Seq<char>, cwd: Seq<char>, w: bool)
    ensures
        !(program.len() > 0 && program[0] == '.') && !program.contains('/') && !program.contains(
            '\\',
        ) ==> local_program_spec(program, cwd, w) == program,
        is_absolute(program, w) ==> local_program_spec(program, cwd, w) == program,
        ((program.len() > 0 && program[0] == '.') || program.contains('/') || program.contains(
            '\\',
        )) && !is_absolute(program, w) ==> local_program_spec(program, cwd, w) == path_join(
            cwd,
            program,
            w,
        ),
{
}

/// The command line shown in reports is the program and its arguments
/// separated by single spaces; an argument without whitespace is shown as
/// it is.
pub proof fn lemma_command_line_plain(program: Seq<char>, args: Seq<Seq<char>>)
    requires
        forall|i: int| 0 <= i < args.len() ==> !crate::text::has_ws(#[trigger] args[i]),
    ensures
        command_line_spec(program, args) == join(seq![program] + args, " "@),
{
    reveal_strlit(" ");
    assert(" "@ =~= seq![' ']);
    assert(args.map_values(|a: Seq<char>| quote_if_spaced(a)) =~= args);
}

/// On Windows a plain `python` goes through `cmd /C`.
pub open spec fn uses_command_shell(program: Seq<char>, platform: HostPlatform) -> bool {
    platform.windows && eq_ignore_ascii_case(program, "python"@)
}

/// `-e NAME` for each forwarded variable.
pub open spec fn env_flags(keys: Seq<Seq<char>>) -> Seq<Seq<char>>
    decreases keys.len(),
{
    if keys.len() == 0 {
        seq![]
    } else {
        seq!["-e"@, keys[0]] + env_flags(keys.drop_first())
    }
}

/// The arguments of `docker` for a command.
pub open spec fn docker_args_spec(
    r: RunnerView,
    spec: CommandSpec,
    workdir: Seq<char>,
    container: Seq<char>,
    platform: HostPlatform,
) -> Seq<Seq<char>> {
    seq![
        "run"@,
        "--rm"@,
        "--init"@,
        "--name"@,
        container,
        "--security-opt"@,
        "no-new-privileges"@,
        "--pids-limit"@,
        "512"@,
        "--memory"@,
        "4g"@,
        "--cpus"@,
        "2"@,
        "--mount"@,
        "type=bind,source="@ + r.mount_root + ",target=/work"@,
        "-w"@,
        workdir,
    ] + (match r.docker_venv_volume {
        Some(v) => seq!["--mount"@, "type=volume,source="@ + v + ",target=/venv"@],
        None => seq![],
    }) + seq![
        "--network"@,
        match r.docker_network {
            Some(n) => n,
            None => "bridge"@,
        },
    ] + (if platform.linux {
        seq!["--add-host"@, "host.docker.internal:host-gateway"@]
    } else {
        seq![]
    }) + env_flags(spec.env@.keys) + seq![r.docker_image, spec.program@] + spec.args.deep_view()
}

proof fn lemma_env_flags_at(keys: Seq<Seq<char>>, i: int)
    requires
        0 <= i < keys.len(),
    ensures
        env_flags(keys).len() == 2 * keys.len(),
        env_flags(keys).subrange(2 * i, 2 * i + 2) == seq![seq!['-', 'e'], keys[i]],
    decreases keys.len(),
{
    reveal_strlit("-e");
    assert("-e"@ =~= seq!['-', 'e']);
    let rest = keys.drop_first();
    let h: Seq<Seq<char>> = seq!["-e"@, keys[0]];
    assert(env_flags(keys) == h + env_flags(rest));
    lemma_env_flags_len(rest);
    if i > 0 {
        lemma_env_flags_at(rest, i - 1);
        assert(rest[i - 1] == keys[i]);
        assert(env_flags(keys).subrange(2 * i, 2 * i + 2) =~= env_flags(rest).subrange(
            2 * (i - 1),
            2 * (i - 1) + 2,
        ));
    } else {
        assert(env_flags(keys).subrange(0, 2) =~= h);
    }
}

proof fn lemma_env_flags_len(keys: Seq<Seq<char>>)
    ensures
        env_flags(keys).len() == 2 * keys.len(),
    decreases keys.len(),
{
    if keys.len() > 0 {
        lemma_env_flags_len(keys.drop_first());
    }
}

/// `env_flags` puts `-e` before each name, once per name, in order: the
/// flags are the pairs `-e`, name, one after the other.
pub proof fn lemma_env_flags(keys: Seq<Seq<char>>)
    ensures
        env_flags(keys).len() == 2 * keys.len(),
        forall|i: int|
            0 <= i < keys.len() ==> env_flags(keys).subrange(2 * i, 2 * i + 2) == seq![
                seq!['-', 'e'],
                #[trigger] keys[i],
            ],
{
    lemma_env_flags_len(keys);
    assert forall|i: int| 0 <= i < keys.len() implies env_flags(keys).subrange(2 * i, 2 * i + 2)
        == seq![seq!['-', 'e'], #[trigger] keys[i]] by {
        lemma_env_flags_at(keys, i);
    }
}

/// How `docker run` is called for a command: it removes the container,
/// starts an init process, names the container, drops new privileges,
/// limits processes to 512, memory to 4g and CPUs to 2, bind-mounts the
/// mount root at `/work` and works in `workdir`; then come the venv volume
/// mount when there is one, the network (`bridge` unless one is set) and,
/// on Linux, the host gateway; every name of the command's environment is
/// passed on as `-e` followed by the name, once each and in key order,
/// right before the image; then come the program and its arguments.
pub proof fn lemma_docker_args_layout(
    r: RunnerView,
    spec: CommandSpec,
    workdir: Seq<char>,
    container: Seq<char>,
    platform: HostPlatform,
)
    ensures
        ({
            let a = docker_args_spec(r, spec, workdir, container, platform);
            let ks = spec.env@.keys;
            let t = a.len() - spec.args.len() - 2;
            &&& t >= 17 + 2 * ks.len()
            &&& a.take(17) == seq![
                "run"@,
                "--rm"@,
                "--init"@,
                "--name"@,
                container,
                "--security-opt"@,
                "no-new-privileges"@,
                "--pids-limit"@,
                "512"@,
                "--memory"@,
                "4g"@,
                "--cpus"@,
                "2"@,
                "--mount"@,
                "type=bind,source="@ + r.mount_root + ",target=/work"@,
                "-w"@,
                workdir,
            ]
            &&& a.subrange(17, t - 2 * ks.len()) == (match r.docker_venv_volume {
                Some(v) => seq!["--mount"@, "type=volume,source="@ + v + ",target=/venv"@],
                None => Seq::<Seq<char>>::empty(),
            }) + seq![
                "--network"@,
                match r.docker_network {
                    Some(n) => n,
                    None => "bridge"@,
                },
            ] + (if platform.linux {
                seq!["--add-host"@, "host.docker.internal:host-gateway"@]
            } else {
                Seq::<Seq<char>>::empty()
            })
            &&& a[t] == r.docker_image
            &&& a[t + 1] == spec.program@
            &&& a.skip(t + 2) == spec.args.deep_view()
            &&& forall|i: int|
                0 <= i < ks.len() ==> a.subrange(t - 2 * ks.len() + 2 * i, t - 2 * ks.len() + 2 * i + 2)
                    == seq![seq!['-', 'e'], #[trigger] ks[i]]
        }),
{
    reveal_strlit("-e");
    let a = docker_args_spec(r, spec, workdir, container, platform);
    let ks = spec.env@.keys;
    lemma_env_flags(ks);
    let head: Seq<Seq<char>> = seq![
        "run"@,
        "--rm"@,
        "--init"@,
        "--name"@,
        container,
        "--security-opt"@,
        "no-new-privileges"@,
        "--pids-limit"@,
        "512"@,
        "--memory"@,
        "4g"@,
        "--cpus"@,
        "2"@,
        "--mount"@,
        "type=bind,source="@ + r.mount_root + ",target=/work"@,
        "-w"@,
        workdir,
    ];
    let venv: Seq<Seq<char>> = match r.docker_venv_volume {
        Some(v) => seq!["--mount"@, "type=volume,source="@ + v + ",target=/venv"@],
        None => seq![],
    };
    let net: Seq<Seq<char>> = seq![
        "--network"@,
        match r.docker_network {
            Some(n) => n,
            None => "bridge"@,
        },
    ];
    let host: Seq<Seq<char>> = if platform.linux {
        seq!["--add-host"@, "host.docker.internal:host-gateway"@]
    } else {
        seq![]
    };
    let pre = head + venv + net + host;
    let flags = env_flags(ks);
    let tail = seq![r.docker_image, spec.program@] + spec.args.deep_view();
    assert(a == pre + flags + tail);
    let t = a.len() - spec.args.len() - 2;
    assert(t == pre.len() + flags.len());
    assert(a.take(17) =~= head);
    assert(a.subrange(17, t - 2 * ks.len()) =~= venv + net + host);
    assert(a.skip(t + 2) =~= spec.args.deep_view());
    assert(a[t] == tail[0]);
    assert(a[t + 1] == tail[1]);
    assert forall|i: int| 0 <= i < ks.len() implies a.subrange(
        t - 2 * ks.len() + 2 * i,
        t - 2 * ks.len() + 2 * i + 2,
    ) == seq![seq!['-', 'e'], #[trigger] ks[i]] by {
        let j = pre.len() + 2 * i;
        assert(t - 2 * ks.len() + 2 * i == j);
        assert(flags.subrange(2 * i, 2 * i + 2) == seq![seq!['-', 'e'], ks[i]]);
        assert(a.subrange(j, j + 2) =~= flags.subrange(2 * i, 2 * i + 2));
    }
}

/// stderr with the timeout note appended when the command timed out.
pub open spec fn stderr_with_note(stderr: Seq<char>, timed_out: bool, seconds: u64) -> Seq<char> {
    if timed_out {
        stderr + "\n[sdkcheck] command timed out after "@ + dec(seconds as nat) + " seconds"@
    } else {
        stderr
    }
}

/// The process's stderr is kept as it is, and a command that timed out
/// gets, after it, a note naming the timeout in seconds.
pub proof fn lemma_timeout_note(stderr: Seq<char>, timed_out: bool, seconds: u64)
    ensures
        !timed_out ==> stderr_with_note(stderr, timed_out, seconds) == stderr,
        timed_out ==> stderr_with_note(stderr, timed_out, seconds).take(stderr.len() as int) == stderr
            && stderr_with_note(stderr, timed_out, seconds).skip(stderr.len() as int)
            == "\n[sdkcheck] command timed out after "@ + dec(seconds as nat) + " seconds"@,
{
    if timed_out {
        let t = "\n[sdkcheck] command timed out after "@ + dec(seconds as nat) + " seconds"@;
        assert((stderr + t).take(stderr.len() as int) =~= stderr);
        assert((stderr + t).skip(stderr.len() as int) =~= t);
    }
}

/// Output as it is kept in a report.
pub open spec fn truncate_report(s: Seq<char>) -> Seq<char> {
    truncate_with(s, MAX_REPORT_OUTPUT_BYTES as nat, report_marker())
}

pub open spec fn report_marker() -> Seq<char> {
    "\n[sdkcheck] output truncated to 65536 bytes for report"@
}

/// The text `String::from_utf8_lossy` makes of `bytes`.
pub uninterp spec fn lossy_text(bytes: Seq<u8>) -> Seq<char>;

/// Calls `String::from_utf8_lossy`, which keeps valid UTF-8 and puts U+FFFD
/// in place of each invalid sequence. Claims that the text is `lossy_text`
/// of the bytes, and their decoding when they are valid UTF-8; how invalid
/// sequences are cut into replacements is left unsaid.
#[verifier::external_body]
fn text_from_output(bytes: &Vec<u8>) -> (r: String)
    ensures
        r@ == lossy_text(bytes@),
        valid_utf8(bytes@) ==> r@ == decode_utf8(bytes@),
{
    String::from_utf8_lossy(bytes).into_owned()
}

// ---------------------------------------------------------------------------
// Functions
// ---------------------------------------------------------------------------

/// The working directory inside the container for `cwd`.
pub fn docker_workdir(mount_root: &str, cwd: &str, platform: HostPlatform) -> (r: Result<
    String,
    WorkdirError,
>)
    ensures
        match r {
            Ok(w) => docker_workdir_spec(mount_root@, cwd@, platform.windows) == Ok::<
                Seq<char>,
                WorkdirError,
            >(w@),
            Err(e) => docker_workdir_spec(mount_root@, cwd@, platform.windows) == Err::<
                Seq<char>,
                WorkdirError,
            >(e),
        },
{
    let rest = match path_strip_prefix(cwd, mount_root, platform) {
        Some(r) => r,
        None => {
            return Err(WorkdirError::OutsideMount);
        },
    };
    if rest.len() == 0 {
        return Ok(owned("/work"));
    }
    let parts = if platform.windows {
        let text = join_strings(&rest, "\\");
        proof {
            reveal_strlit("\\");
            assert("\\"@ =~= seq!['\\']);
        }
        win_components(text.as_str())
    } else {
        rest
    };
    let path = join_strings(&parts, "/");
    proof {
        reveal_strlit("/");
        reveal_strlit("..");
        assert("/"@ =~= seq!['/']);
        assert(".."@ =~= seq!['.', '.']);
    }
    if contains_text(path.as_str(), "..") {
        return Err(WorkdirError::ParentTraversal);
    }
    Ok(concat("/work/", path.as_str()))
}

/// The message for a refused Docker working directory.
pub fn workdir_error_text(e: WorkdirError, cwd: &str, mount_root: &str) -> (s: String)
    ensures
        s@ == match e {
            WorkdirError::OutsideMount => "docker command cwd `"@ + cwd@ + "` is outside mount root `"@
                + mount_root@ + "`"@,
            WorkdirError::ParentTraversal => "refusing docker workdir with parent traversal"@,
        },
{
    match e {
        WorkdirError::OutsideMount => {
            let mut v: Vec<char> = Vec::new();
            push_str(&mut v, "docker command cwd `");
            push_str(&mut v, cwd);
            push_str(&mut v, "` is outside mount root `");
            push_str(&mut v, mount_root);
            push_str(&mut v, "`");
            string_from_chars(&v)
        },
        WorkdirError::ParentTraversal => owned("refusing docker workdir with parent traversal"),
    }
}

/// `docker_safe_name`: the safe form of `input`, or `run`.
pub fn docker_safe_name(input: &str) -> (r: String)
    ensures
        r@ == safe_name(input@, "run"@),
{
    safe_name_or(input, "run")
}

/// Cuts a container name to its first 63 characters when it is longer
/// than 63 bytes.
pub fn truncate_docker_name(name: &str) -> (r: String)
    ensures
        r@ == truncate_docker_name_spec(name@),
{
    let chars = to_chars(name);
    let mut used: usize = 0;
    let mut i: usize = 0;
    while i < chars.len() && used <= MAX_DOCKER_NAME_LEN
        invariant
            i <= chars.len(),
            chars@ == name@,
            used <= MAX_DOCKER_NAME_LEN + 4,
            used == crate::text::utf8_len(chars@.take(i as int)),
        decreases chars.len() - i,
    {
        proof {
            crate::text::lemma_utf8_len_push(chars@.take(i as int), chars@[i as int]);
            assert(chars@.take(i + 1) =~= chars@.take(i as int).push(chars@[i as int]));
            crate::text::lemma_char_width_encode(chars@[i as int]);
        }
        used = used + crate::text::char_width_exec(chars[i]);
        i = i + 1;
    }
    proof {
        if i == chars.len() {
            assert(chars@.take(i as int) =~= chars@);
        } else {
            assert(chars@ =~= chars@.take(i as int) + chars@.skip(i as int));
            crate::text::lemma_utf8_len_add(chars@.take(i as int), chars@.skip(i as int));
        }
    }
    if used <= MAX_DOCKER_NAME_LEN {
        return owned(name);
    }
    let mut out: Vec<char> = Vec::new();
    let mut k: usize = 0;
    proof {
        crate::text::lemma_utf8_len_ge_len(name@);
    }
    while k < MAX_DOCKER_NAME_LEN && k < chars.len()
        invariant
            k <= chars.len(),
            k <= MAX_DOCKER_NAME_LEN,
            chars@ == name@,
            out@ == chars@.take(k as int),
        decreases chars.len() - k,
    {
        out.push(chars[k]);
        assert(chars@.take(k + 1) =~= chars@.take(k as int).push(chars@[k as int]));
        k = k + 1;
    }
    proof {
        assert(utf8_len(name@) > MAX_DOCKER_NAME_LEN);
        if k == chars.len() {
            assert(chars@.take(k as int) =~= chars@);
            assert(name@.len() <= MAX_DOCKER_NAME_LEN);
        } else {
            assert(k == MAX_DOCKER_NAME_LEN);
            assert(name@.len() > MAX_DOCKER_NAME_LEN);
        }
    }
    string_from_chars(&out)
}

/// The name of the container that runs a command.
pub fn docker_container_name(mount_root: &str, label: &str, platform: HostPlatform) -> (r: String)
    ensures
        r@ == container_name_spec(mount_root@, label@, platform.windows),
{
    let run_name = match path_file_name(mount_root, platform) {
        Some(n) => n,
        None => owned("run"),
    };
    let a = docker_safe_name(run_name.as_str());
    let b = docker_safe_name(label);
    let mut v: Vec<char> = Vec::new();
    push_str(&mut v, "sdkcheck-run-");
    push_str(&mut v, a.as_str());
    push_str(&mut v, "-");
    push_str(&mut v, b.as_str());
    let name = string_from_chars(&v);
    truncate_docker_name(name.as_str())
}

proof fn lemma_all_safe_utf8(s: Seq<char>)
    requires
        all_safe(s),
    ensures
        utf8_len(s) == s.len(),
    decreases s.len(),
{
    if s.len() > 0 {
        assert(is_safe_name_char(s[0]));
        assert forall|i: int| 0 <= i < s.drop_first().len() implies #[trigger] is_safe_name_char(
            s.drop_first()[i],
        ) by {
            assert(s.drop_first()[i] == s[i + 1]);
        }
        lemma_all_safe_utf8(s.drop_first());
    }
}

proof fn lemma_safe_name_safe(s: Seq<char>)
    ensures
        all_safe(safe_name(s, "run"@)),
{
    lemma_safe_core(s);
    reveal_strlit("run");
}

/// Container names are safe and bounded: they start with `sdkcheck-run-`,
/// hold only lowercase ASCII letters, digits and dashes, and are at most 63
/// characters long.
pub proof fn lemma_container_name_safe(mount: Seq<char>, label: Seq<char>, w: bool)
    ensures
        starts_with(container_name_spec(mount, label, w), "sdkcheck-run-"@),
        all_safe(container_name_spec(mount, label, w)),
        container_name_spec(mount, label, w).len() <= MAX_DOCKER_NAME_LEN,
{
    reveal_strlit("sdkcheck-run-");
    reveal_strlit("-");
    reveal_strlit("run");
    let run_name = match file_name(mount, w) {
        Some(n) => n,
        None => "run"@,
    };
    let a = safe_name(run_name, "run"@);
    let b = safe_name(label, "run"@);
    lemma_safe_name_safe(run_name);
    lemma_safe_name_safe(label);
    let full = "sdkcheck-run-"@ + a + "-"@ + b;
    assert(all_safe("sdkcheck-run-"@));
    assert(all_safe(full)) by {
        assert forall|i: int| 0 <= i < full.len() implies #[trigger] is_safe_name_char(full[i]) by {
            if i < 13 {
                assert(full[i] == "sdkcheck-run-"@[i]);
            } else if i < 13 + a.len() {
                assert(full[i] == a[i - 13]);
            } else if i == 13 + a.len() {
                assert(full[i] == '-');
            } else {
                assert(full[i] == b[i - 14 - a.len()]);
            }
        }
    }
    lemma_all_safe_utf8(full);
    let r = truncate_docker_name_spec(full);
    if utf8_len(full) > MAX_DOCKER_NAME_LEN {
        assert(r.take(13) =~= full.take(13));
        assert forall|i: int| 0 <= i < r.len() implies #[trigger] is_safe_name_char(r[i]) by {
            assert(r[i] == full[i]);
        }
    }
    assert(full.take(13) =~= "sdkcheck-run-"@);
}

/// The command as shown in reports.
pub fn command_line(program: &str, args: &Vec<String>) -> (r: String)
    ensures
        r@ == command_line_spec(program@, args.deep_view()),
{
    let mut parts: Vec<String> = Vec::new();
    parts.push(owned(program));
    let ghost dv = args.deep_view();
    let ghost quoted = dv.map_values(|a: Seq<char>| quote_if_spaced(a));
    let mut i: usize = 0;
    assert(parts.deep_view() =~= seq![program@] + quoted.take(0));
    while i < args.len()
        invariant
            i <= args.len(),
            dv == args.deep_view(),
            quoted == dv.map_values(|a: Seq<char>| quote_if_spaced(a)),
            parts.deep_view() == seq![program@] + quoted.take(i as int),
        decreases args.len() - i,
    {
        let ghost before = parts.deep_view();
        assert(dv[i as int] == args[i as int]@);
        let q = quote_if_spaced_exec(args[i].as_str());
        parts.push(q);
        assert(parts.deep_view() =~= before.push(quoted[i as int]));
        assert(quoted.take(i + 1) =~= quoted.take(i as int).push(quoted[i as int]));
        i = i + 1;
    }
    assert(quoted.take(args.len() as int) =~= quoted);
    let r = join_strings(&parts, " ");
    proof {
        reveal_strlit(" ");
        assert(" "@ =~= seq![' ']);
    }
    r
}

fn ascii_lower_exec(c: char) -> (r: char)
    ensures
        r == ascii_lower(c),
{
    if 'A' <= c && c <= 'Z' {
        ((c as u8) + 32) as char
    } else {
        c
    }
}

/// `a.eq_ignore_ascii_case(b)`.
pub fn eq_ignore_ascii_case_exec(a: &str, b: &str) -> (r: bool)
    ensures
        r == eq_ignore_ascii_case(a@, b@),
{
    let av = to_chars(a);
    let bv = to_chars(b);
    if av.len() != bv.len() {
        return false;
    }
    let mut i: usize = 0;
    while i < av.len()
        invariant
            i <= av.len() == bv.len(),
            av@ == a@,
            bv@ == b@,
            forall|t: int| 0 <= t < i ==> ascii_lower(#[trigger] a@[t]) == ascii_lower(b@[t]),
        decreases av.len() - i,
    {
        if ascii_lower_exec(av[i]) != ascii_lower_exec(bv[i]) {
            return false;
        }
        i = i + 1;
    }
    true
}

/// Whether a program name is a path.
pub fn looks_like_path_exec(p: &str) -> (r: bool)
    ensures
        r == looks_like_path(p@),
{
    let v = to_chars(p);
    if v.len() > 0 && v[0] == '.' {
        return true;
    }
    let mut i: usize = 0;
    while i < v.len()
        invariant
            i <= v.len(),
            v@ == p@,
            forall|t: int| 0 <= t < i ==> #[trigger] v@[t] != '/' && v@[t] != '\\',
        decreases v.len() - i,
    {
        if v[i] == '/' || v[i] == '\\' {
            assert(p@.contains(v@[i as int]));
            return true;
        }
        i = i + 1;
    }
    false
}

/// The program a local command starts.
pub fn local_program_path(program: &str, cwd: &str, platform: HostPlatform) -> (r: String)
    ensures
        r@ == local_program_spec(program@, cwd@, platform.windows),
{
    let absolute = path_is_absolute(program, platform);
    if looks_like_path_exec(program) && !absolute {
        join_path(cwd, program, platform)
    } else {
        owned(program)
    }
}

impl CommandRunner {
    /// A runner for `backend` that mounts `mount_root` and masks `secrets`.
    pub fn new(backend: Backend, mount_root: &str, secrets: SecretSet) -> (r: Self)
        ensures
            r@.backend == backend,
            r@.mount_root == mount_root@,
            r@.secrets == secrets@,
            r@.docker_image == DEFAULT_DOCKER_IMAGE@,
            r@.timeout_seconds == DEFAULT_COMMAND_TIMEOUT_SECONDS,
            r@.docker_network.is_none(),
            r@.docker_venv_volume.is_none(),
    {
        CommandRunner {
            backend,
            mount_root: owned(mount_root),
            secrets,
            docker_image: owned(DEFAULT_DOCKER_IMAGE),
            timeout_seconds: DEFAULT_COMMAND_TIMEOUT_SECONDS,
            docker_network: None,
            docker_venv_volume: None,
        }
    }

    /// Sets the per-command timeout; values below one second become one.
    pub fn with_timeout_seconds(self, seconds: u64) -> (r: Self)
        ensures
            r@ == (RunnerView {
                timeout_seconds: if seconds >= 1 {
                    seconds
                } else {
                    1
                },
                ..self@
            }),
    {
        let CommandRunner {
            backend,
            mount_root,
            secrets,
            docker_image,
            timeout_seconds: _,
            docker_network,
            docker_venv_volume,
        } = self;
        CommandRunner {
            backend,
            mount_root,
            secrets,
            docker_image,
            timeout_seconds: if seconds >= 1 {
                seconds
            } else {
                1
            },
            docker_network,
            docker_venv_volume,
        }
    }

    /// Runs Docker commands on `network` instead of the bridge network.
    pub fn with_docker_network(self, network: Option<String>) -> (r: Self)
        ensures
            r@ == (RunnerView {
                docker_network: match network {
                    Some(n) => Some(n@),
                    None => None,
                },
                ..self@
            }),
    {
        let CommandRunner {
            backend,
            mount_root,
            secrets,
            docker_image,
            timeout_seconds,
            docker_network: _,
            docker_venv_volume,
        } = self;
        CommandRunner {
            backend,
            mount_root,
            secrets,
            docker_image,
            timeout_seconds,
            docker_network: network,
            docker_venv_volume,
        }
    }

    /// Mounts the Docker volume `volume` at `/venv` in every command.
    pub fn with_docker_venv_volume(self, volume: Option<String>) -> (r: Self)
        ensures
            r@ == (RunnerView {
                docker_venv_volume: match volume {
                    Some(v) => Some(v@),
                    None => None,
                },
                ..self@
            }),
    {
        let CommandRunner {
            backend,
            mount_root,
            secrets,
            docker_image,
            timeout_seconds,
            docker_network,
            docker_venv_volume: _,
        } = self;
        CommandRunner {
            backend,
            mount_root,
            secrets,
            docker_image,
            timeout_seconds,
            docker_network,
            docker_venv_volume: volume,
        }
    }

    /// The host folder mounted at `/work`.
    pub fn mount_root(&self) -> (r: String)
        ensures
            r@ == self@.mount_root,
    {
        self.mount_root.clone()
    }

    pub fn backend(&self) -> (b: Backend)
        ensures
            b == self@.backend,
    {
        self.backend
    }

    pub fn timeout_seconds(&self) -> (s: u64)
        ensures
            s == self@.timeout_seconds,
    {
        self.timeout_seconds
    }

    /// What preparing the backend takes: nothing locally; for Docker, the
    /// runner image, built from [`DOCKERFILE`] under the mount root when
    /// `docker image inspect` does not find it.
    pub fn prepare(&self, platform: HostPlatform) -> (plan: Option<DockerImagePlan>)
        ensures
            self@.backend == Backend::Local ==> plan.is_none(),
            self@.backend == Backend::Docker ==> plan.is_some() && ({
                let p = plan->Some_0;
                let build_dir = path_join(self@.mount_root, ".sdkcheck-docker"@, platform.windows);
                let dockerfile = path_join(build_dir, "Dockerfile"@, platform.windows);
                &&& p.image@ == self@.docker_image
                &&& p.inspect_args.deep_view() == seq!["image"@, "inspect"@, self@.docker_image]
                &&& p.build_dir@ == build_dir
                &&& p.dockerfile@ == dockerfile
                &&& p.build_args.deep_view() == seq![
                    "build"@,
                    "--pull"@,
                    "-t"@,
                    self@.docker_image,
                    "-f"@,
                    dockerfile,
                    build_dir,
                ]
            }),
    {
        match self.backend {
            Backend::Local => None,
            Backend::Docker => {
                let build_dir = join_path(self.mount_root.as_str(), ".sdkcheck-docker", platform);
                let dockerfile = join_path(build_dir.as_str(), "Dockerfile", platform);
                let mut inspect_args: Vec<String> = Vec::new();
                inspect_args.push(owned("image"));
                inspect_args.push(owned("inspect"));
                inspect_args.push(self.docker_image.clone());
                let mut build_args: Vec<String> = Vec::new();
                build_args.push(owned("build"));
                build_args.push(owned("--pull"));
                build_args.push(owned("-t"));
                build_args.push(self.docker_image.clone());
                build_args.push(owned("-f"));
                build_args.push(dockerfile.clone());
                build_args.push(build_dir.clone());
                let plan = DockerImagePlan {
                    image: self.docker_image.clone(),
                    inspect_args,
                    build_dir,
                    dockerfile,
                    build_args,
                };
                assert(plan.inspect_args.deep_view() =~= seq![
                    "image"@,
                    "inspect"@,
                    self@.docker_image,
                ]);
                assert(plan.build_args.deep_view() =~= seq![
                    "build"@,
                    "--pull"@,
                    "-t"@,
                    self@.docker_image,
                    "-f"@,
                    plan.dockerfile@,
                    plan.build_dir@,
                ]);
                Some(plan)
            },
        }
    }

    /// The process that runs `spec` on this runner's backend, or why it
    /// cannot run in Docker.
    pub fn invocation(&self, spec: &CommandSpec, platform: HostPlatform) -> (r: Result<
        Invocation,
        WorkdirError,
    >)
        ensures
            self@.backend == Backend::Local ==> r.is_ok() && ({
                let inv = r->Ok_0;
                &&& inv.cwd.is_some() && inv.cwd->Some_0@ == spec.cwd@
                &&& inv.env@ == spec.env@
                &&& inv.container.is_none()
                &&& if uses_command_shell(spec.program@, platform) {
                    &&& inv.program@ == "cmd"@
                    &&& inv.args.deep_view() == seq![
                        "/C"@,
                        command_line_spec(spec.program@, spec.args.deep_view()),
                    ]
                } else {
                    &&& inv.program@ == local_program_spec(spec.program@, spec.cwd@, platform.windows)
                    &&& inv.args.deep_view() == spec.args.deep_view()
                }
            }),
            self@.backend == Backend::Docker ==> match docker_workdir_spec(
                self@.mount_root,
                spec.cwd@,
                platform.windows,
            ) {
                Err(e) => r == Err::<Invocation, WorkdirError>(e),
                Ok(workdir) => r.is_ok() && ({
                    let inv = r->Ok_0;
                    let container = container_name_spec(self@.mount_root, spec.label@, platform.windows);
                    &&& inv.program@ == "docker"@
                    &&& inv.args.deep_view() == docker_args_spec(
                        self@,
                        *spec,
                        workdir,
                        container,
                        platform,
                    )
                    &&& inv.cwd.is_none()
                    &&& inv.env@ == spec.env@
                    &&& inv.container.is_some() && inv.container->Some_0@ == container
                }),
            },
    {
        match self.backend {
            Backend::Local => {
                if platform.windows && eq_ignore_ascii_case_exec(spec.program.as_str(), "python") {
                    let mut args: Vec<String> = Vec::new();
                    args.push(owned("/C"));
                    args.push(command_line(spec.program.as_str(), &spec.args));
                    let inv = Invocation {
                        program: owned("cmd"),
                        args,
                        cwd: Some(spec.cwd.clone()),
                        env: spec.env.clone(),
                        container: None,
                    };
                    assert(inv.args.deep_view() =~= seq![
                        "/C"@,
                        command_line_spec(spec.program@, spec.args.deep_view()),
                    ]);
                    Ok(inv)
                } else {
                    let args = spec.args.clone();
                    assert(args.deep_view() =~= spec.args.deep_view());
                    Ok(
                        Invocation {
                            program: local_program_path(spec.program.as_str(), spec.cwd.as_str(), platform),
                            args,
                            cwd: Some(spec.cwd.clone()),
                            env: spec.env.clone(),
                            container: None,
                        },
                    )
                }
            },
            Backend::Docker => {
                let workdir = match docker_workdir(self.mount_root.as_str(), spec.cwd.as_str(), platform) {
                    Ok(w) => w,
                    Err(e) => {
                        return Err(e);
                    },
                };
                let container = docker_container_name(
                    self.mount_root.as_str(),
                    spec.label.as_str(),
                    platform,
                );
                let args = self.docker_args(spec, workdir.as_str(), container.as_str(), platform);
                Ok(
                    Invocation {
                        program: owned("docker"),
                        args,
                        cwd: None,
                        env: spec.env.clone(),
                        container: Some(container),
                    },
                )
            },
        }
    }

    fn docker_args(&self, spec: &CommandSpec, workdir: &str, container: &str, platform: HostPlatform) -> (r: Vec<String>)
        ensures
            r.deep_view() == docker_args_spec(self@, *spec, workdir@, container@, platform),
    {
        let mut args: Vec<String> = Vec::new();
        args.push(owned("run"));
        args.push(owned("--rm"));
        args.push(owned("--init"));
        args.push(owned("--name"));
        args.push(owned(container));
        args.push(owned("--security-opt"));
        args.push(owned("no-new-privileges"));
        args.push(owned("--pids-limit"));
        args.push(owned("512"));
        args.push(owned("--memory"));
        args.push(owned("4g"));
        args.push(owned("--cpus"));
        args.push(owned("2"));
        args.push(owned("--mount"));
        let mut mount: Vec<char> = Vec::new();
        push_str(&mut mount, "type=bind,source=");
        push_str(&mut mount, self.mount_root.as_str());
        push_str(&mut mount, ",target=/work");
        args.push(string_from_chars(&mount));
        args.push(owned("-w"));
        args.push(owned(workdir));
        let ghost part1 = args.deep_view();
        assert(part1 =~= seq![
            "run"@,
            "--rm"@,
            "--init"@,
            "--name"@,
            container@,
            "--security-opt"@,
            "no-new-privileges"@,
            "--pids-limit"@,
            "512"@,
            "--memory"@,
            "4g"@,
            "--cpus"@,
            "2"@,
            "--mount"@,
            "type=bind,source="@ + self@.mount_root + ",target=/work"@,
            "-w"@,
            workdir@,
        ]);
        match &self.docker_venv_volume {
            Some(v) => {
                args.push(owned("--mount"));
                let mut m: Vec<char> = Vec::new();
                push_str(&mut m, "type=volume,source=");
                push_str(&mut m, v.as_str());
                push_str(&mut m, ",target=/venv");
                args.push(string_from_chars(&m));
                assert(args.deep_view() =~= part1 + seq![
                    "--mount"@,
                    "type=volume,source="@ + v@ + ",target=/venv"@,
                ]);
            },
            None => {
                assert(args.deep_view() =~= part1 + Seq::<Seq<char>>::empty());
            },
        }
        let ghost venv_part: Seq<Seq<char>> = match self@.docker_venv_volume {
            Some(v) => seq!["--mount"@, "type=volume,source="@ + v + ",target=/venv"@],
            None => seq![],
        };
        let ghost net_part: Seq<Seq<char>> = seq![
            "--network"@,
            match self@.docker_network {
                Some(n) => n,
                None => "bridge"@,
            },
        ];
        let ghost host_part: Seq<Seq<char>> = if platform.linux {
            seq!["--add-host"@, "host.docker.internal:host-gateway"@]
        } else {
            seq![]
        };
        let ghost part2 = args.deep_view();
        assert(part2 == part1 + venv_part);
        args.push(owned("--network"));
        match &self.docker_network {
            Some(n) => {
                args.push(n.clone());
            },
            None => {
                args.push(owned("bridge"));
            },
        }
        let ghost part3 = args.deep_view();
        assert(part3 =~= part2 + net_part);
        if platform.linux {
            args.push(owned("--add-host"));
            args.push(owned("host.docker.internal:host-gateway"));
        }
        let ghost part4 = args.deep_view();
        assert(part4 =~= part3 + host_part);
        let keys = spec.env.keys();
        let mut i: usize = 0;
        assert(keys.deep_view().skip(0) =~= keys.deep_view());
        assert(args.deep_view() + env_flags(keys.deep_view().skip(0)) == part4 + env_flags(
            keys.deep_view(),
        ));
        while i < keys.len()
            invariant
                i <= keys.len(),
                args.deep_view() + env_flags(keys.deep_view().skip(i as int)) == part4 + env_flags(
                    keys.deep_view(),
                ),
            decreases keys.len() - i,
        {
            let ghost before = args.deep_view();
            assert(keys.deep_view()[i as int] == keys[i as int]@);
            assert(keys.deep_view().skip(i as int).drop_first() =~= keys.deep_view().skip(i + 1));
            assert(keys.deep_view().skip(i as int)[0] == keys.deep_view()[i as int]);
            args.push(owned("-e"));
            args.push(keys[i].clone());
            assert(before + env_flags(keys.deep_view().skip(i as int)) =~= args.deep_view()
                + env_flags(keys.deep_view().skip(i + 1)));
            i = i + 1;
        }
        assert(keys.deep_view().skip(i as int) =~= Seq::<Seq<char>>::empty());
        assert(args.deep_view() =~= part4 + env_flags(keys.deep_view()));
        let ghost part5 = args.deep_view();
        args.push(self.docker_image.clone());
        args.push(spec.program.clone());
        let ghost part6 = args.deep_view();
        assert(part6 =~= part5 + seq![self@.docker_image, spec.program@]);
        let mut j: usize = 0;
        while j < spec.args.len()
            invariant
                j <= spec.args.len(),
                args.deep_view() == part6 + spec.args.deep_view().take(j as int),
            decreases spec.args.len() - j,
        {
            let ghost before = args.deep_view();
            assert(spec.args.deep_view()[j as int] == spec.args[j as int]@);
            args.push(spec.args[j].clone());
            assert(args.deep_view() =~= before.push(spec.args[j as int]@));
            assert(spec.args.deep_view().take(j + 1) =~= spec.args.deep_view().take(j as int).push(
                spec.args.deep_view()[j as int],
            ));
            assert(args.deep_view() =~= part6 + spec.args.deep_view().take(j + 1));
            j = j + 1;
        }
        assert(spec.args.deep_view().take(spec.args.len() as int) =~= spec.args.deep_view());
        assert(args.deep_view() =~= part1 + venv_part + net_part + host_part + env_flags(
            spec.env@.keys,
        ) + seq![self@.docker_image, spec.program@] + spec.args.deep_view());
        args
    }

    /// The evidence of running `spec` on this runner, given how its process
    /// ended (the process itself is started from `invocation`): masked
    /// command line and output, output cut to the report budget, a timeout
    /// note on stderr, and success only for exit code 0 within the timeout.
    pub fn run(&self, spec: &CommandSpec, outcome: ProcessOutcome) -> (r: CommandResult)
        ensures
            r.label@ == spec.label@,
            r.command@ == mask_all(
                self@.secrets.values,
                command_line_spec(spec.program@, spec.args.deep_view()),
            ),
            r.cwd@ == spec.cwd@,
            r.exit_code == outcome.exit_code,
            r.success == (outcome.exit_code == Some(0i32) && !outcome.timed_out),
            r.timed_out == outcome.timed_out,
            r.success ==> r.exit_code == Some(0i32) && !r.timed_out,
            r.timed_out ==> !r.success,
            r.stdout@ == truncate_report(mask_all(self@.secrets.values, lossy_text(outcome.stdout@))),
            r.stderr@ == truncate_report(
                mask_all(
                    self@.secrets.values,
                    stderr_with_note(
                        lossy_text(outcome.stderr@),
                        outcome.timed_out,
                        self@.timeout_seconds,
                    ),
                ),
            ),
            r.duration_ms == outcome.duration_ms,
    {
        let ProcessOutcome { exit_code, timed_out, stdout, stderr, duration_ms } = outcome;
        let stdout = text_from_output(&stdout);
        let stderr = text_from_output(&stderr);
        let exited_cleanly = match exit_code {
            Some(code) => code == 0,
            None => false,
        };
        let mut err: Vec<char> = to_chars(stderr.as_str());
        if timed_out {
            push_str(&mut err, "\n[sdkcheck] command timed out after ");
            let secs = u64_string(self.timeout_seconds);
            push_str(&mut err, secs.as_str());
            push_str(&mut err, " seconds");
        }
        let err_s = string_from_chars(&err);
        let command_text = command_line(spec.program.as_str(), &spec.args);
        let masked_out = self.secrets.mask(stdout.as_str());
        let masked_err = self.secrets.mask(err_s.as_str());
        CommandResult {
            label: spec.label.clone(),
            command: self.secrets.mask(command_text.as_str()),
            cwd: spec.cwd.clone(),
            exit_code,
            success: exited_cleanly && !timed_out,
            timed_out,
            stdout: truncate_for_report(masked_out.as_str()),
            stderr: truncate_for_report(masked_err.as_str()),
            duration_ms,
        }
    }
}

/// Output cut to the report budget with a marker.
pub fn truncate_for_report(input: &str) -> (r: String)
    ensures
        r@ == truncate_report(input@),
{
    let r = truncate_with_marker(
        input,
        MAX_REPORT_OUTPUT_BYTES,
        "\n[sdkcheck] output truncated to 65536 bytes for report",
    );
    r
}

/// The message when the runner image cannot be built.
pub fn docker_build_error(image: &str, stdout: &str, stderr: &str) -> (s: String)
    ensures
        s@ == "failed to build Docker runner image `"@ + image@ + "`\nstdout:\n"@ + trim_end(stdout@)
            + "\nstderr:\n"@ + trim_end(stderr@),
{
    let mut v: Vec<char> = Vec::new();
    push_str(&mut v, "failed to build Docker runner image `");
    push_str(&mut v, image);
    push_str(&mut v, "`\nstdout:\n");
    let o = trim_end_string(stdout);
    push_chars(&mut v, &o);
    push_str(&mut v, "\nstderr:\n");
    let e = trim_end_string(stderr);
    push_chars(&mut v, &e);
    string_from_chars(&v)
}

/// What a failed helper command printed, each stream without trailing
/// whitespace.
pub open spec fn output_excerpt_spec(stdout: Seq<char>, stderr: Seq<char>) -> Seq<char> {
    "stdout:\n"@ + trim_end(stdout) + "\nstderr:\n"@ + trim_end(stderr)
}

/// The output of a failed helper command, for an error message.
pub fn output_excerpt(stdout: &str, stderr: &str) -> (s: String)
    ensures
        s@ == output_excerpt_spec(stdout@, stderr@),
{
    let mut v: Vec<char> = Vec::new();
    push_str(&mut v, "stdout:\n");
    let o = trim_end_string(stdout);
    push_chars(&mut v, &o);
    push_str(&mut v, "\nstderr:\n");
    let e = trim_end_string(stderr);
    push_chars(&mut v, &e);
    string_from_chars(&v)
}

/// An error message: what failed, then the helper command's output.
pub fn failure_message(head: &str, stdout: &str, stderr: &str) -> (s: String)
    ensures
        s@ == head@ + "\n"@ + output_excerpt_spec(stdout@, stderr@),
{
    let excerpt = output_excerpt(stdout, stderr);
    let mut v: Vec<char> = Vec::new();
    push_str(&mut v, head);
    push_str(&mut v, "\n");
    push_str(&mut v, excerpt.as_str());
    string_from_chars(&v)
}

/// The command line of every recorded command holds no redaction-safe
/// secret of the runner.
pub proof fn lemma_command_text_masked(
    secrets: SecretSetView,
    program: Seq<char>,
    args: Seq<Seq<char>>,
    i: int,
)
    requires
        0 <= i < secrets.values.len(),
        crate::secrets::redaction_safe(secrets.values[i]),
    ensures
        !contains_seq(mask_all(secrets.values, command_line_spec(program, args)), secrets.values[i]),
{
    crate::secrets::lemma_mask_hides_values(secrets.values, command_line_spec(program, args), i);
}

/// Output kept in a report is bounded: at most 65536 bytes plus the marker,
/// and short output is kept whole.
pub proof fn lemma_report_output_bounded(s: Seq<char>)
    ensures
        utf8_len(s) <= MAX_REPORT_OUTPUT_BYTES ==> truncate_report(s) == s,
        utf8_len(truncate_report(s)) <= MAX_REPORT_OUTPUT_BYTES + utf8_len(report_marker()),
{
    crate::text::lemma_truncate_with_len(s, MAX_REPORT_OUTPUT_BYTES as nat, report_marker());
}

/// Output over the report budget is kept as its beginning, at most 65536
/// bytes of it, followed by a note that it was truncated.
pub proof fn lemma_report_output_truncated(s: Seq<char>)
    requires
        utf8_len(s) > 65536,
    ensures
        ({
            let t = truncate_report(s);
            let note = "\n[sdkcheck] output truncated to 65536 bytes for report"@;
            let kept = t.take(t.len() - note.len());
            &&& t.len() >= note.len()
            &&& t.skip(t.len() - note.len()) == note
            &&& starts_with(s, kept)
            &&& utf8_len(kept) <= 65536
        }),
{
    let m = report_marker();
    let k = crate::text::fit_count(s, MAX_REPORT_OUTPUT_BYTES as int) as int;
    crate::text::lemma_fit_count(s, MAX_REPORT_OUTPUT_BYTES as int);
    let q = s.take(k);
    crate::text::lemma_trim_end_prefix(q);
    let kept = trim_end(q);
    let t = truncate_report(s);
    assert(t == kept + m);
    assert(t.take(t.len() - m.len()) =~= kept);
    assert(t.skip(t.len() - m.len()) =~= m);
    assert(kept =~= s.take(kept.len() as int));
    lemma_report_output_bounded(s);
    crate::text::lemma_utf8_len_add(kept, m);
}

} // verus!
