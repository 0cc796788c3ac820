//! The Co-op Translator scenario: clone the project, install it from PyPI
//! in a fresh virtual environment, check its CLIs, translate a small
//! Markdown fixture and review the result.
//!
//! The scenario is a fixed list of commands that stops at the first
//! failure. This module decides which command comes next, what the report
//! says about the outcome, and how the run is named; the caller runs the
//! commands and touches the file system.
use vstd::prelude::*;

use crate::env_map::{empty_env_map, lemma_map_insert, map_extend, map_insert, EnvMap, EnvMapView};
use crate::models::{
    first_failure, first_failure_index, lemma_first_failure_at, lemma_no_failure, CommandResult, FailureClassification, ReportStatus,
    ScenarioReport,
};
use crate::naming::safe_name;
use crate::paths::{file_name, join_path, path_file_name, path_join, HostPlatform};
use crate::runner::{backend_text, docker_safe_name, Backend, CommandSpec};
use crate::secrets::{
    lemma_with_missing, lemma_with_value, secret_pairs, secret_value, secrets_wf, with_value, SecretSet,
    SecretSetView,
};
use crate::text::{
    cat3, concat, contains_seq, contains_text, dec, occurs_at, owned, push_str, sorted_perm,
    string_from_chars, u64_string,
};

verus! {

/// Where the project under test is cloned from.
pub const COOP_REPO_URL: &'static str = "https://github.com/Azure/co-op-translator.git";

/// The fixture's README: a link and a code block to carry through
/// translation.
pub const FIXTURE_README: &'static str = "# Sample Project\n\nThis is a sample document for sdkcheck Co-op Translator dogfood.\n\n```python\nprint(\"hello from sdkcheck\")\n```\n\nSee [Setup](docs/setup.md) for details.\n";

/// The fixture's linked setup doc.
pub const FIXTURE_SETUP: &'static str = "# Setup\n\nSet the `EXAMPLE_API_KEY` environment variable.\n";

/// What one scenario run is asked to do.
#[derive(Clone, Debug)]
pub struct CoOpTranslatorOptions {
    pub backend: Backend,
    pub workdir: String,
    pub output: String,
    pub json_output: Option<String>,
    pub timeout_seconds: u64,
    pub secret_names: Vec<String>,
    pub live: bool,
    pub fake_openai: bool,
}

// ---------------------------------------------------------------------------
// Naming
// ---------------------------------------------------------------------------

/// The run folder's name for a run started at `timestamp`.
pub fn run_folder_name_at(timestamp: &str) -> (r: String)
    ensures
        r@ == "co-op-translator-"@ + timestamp@,
{
    concat("co-op-translator-", timestamp)
}

/// The Docker volume that holds the virtual environment of a run in Docker:
/// named after the run folder.
pub open spec fn venv_volume_spec(backend: Backend, run_dir: Seq<char>, w: bool) -> Option<Seq<char>> {
    match backend {
        Backend::Docker => Some(
            "sdkcheck-venv-"@ + safe_name(
                match file_name(run_dir, w) {
                    Some(n) => n,
                    None => "run"@,
                },
                "run"@,
            ),
        ),
        Backend::Local => None,
    }
}

/// The name of the run's venv volume, when it runs in Docker.
pub fn venv_volume_name(backend: Backend, run_dir: &str, platform: HostPlatform) -> (r: Option<
    String,
>)
    ensures
        match r {
            Some(n) => venv_volume_spec(backend, run_dir@, platform.windows) == Some(n@),
            None => venv_volume_spec(backend, run_dir@, platform.windows).is_none(),
        },
{
    match backend {
        Backend::Docker => {
            let base = match path_file_name(run_dir, platform) {
                Some(n) => n,
                None => owned("run"),
            };
            let suffix = docker_safe_name(base.as_str());
            Some(concat("sdkcheck-venv-", suffix.as_str()))
        },
        Backend::Local => None,
    }
}

// ---------------------------------------------------------------------------
// Environment and provider
// ---------------------------------------------------------------------------

/// The environment of the scenario's commands: the secrets plus UTF-8
/// settings for Python.
pub open spec fn common_env_spec(s: SecretSetView) -> EnvMapView {
    map_insert(map_insert(secret_pairs(s), "PYTHONUTF8"@, "1"@), "PYTHONIOENCODING"@, "utf-8"@)
}

/// The scenario's commands see only the secrets and the fixed settings: a
/// name is in their environment exactly when it carries a value in the
/// secret set or is `PYTHONUTF8` or `PYTHONIOENCODING`.
pub proof fn lemma_common_env_names(s: SecretSetView, name: Seq<char>)
    requires
        secrets_wf(s),
    ensures
        common_env_spec(s).keys.contains(name) <==> (s.names.contains(name) || name
            == "PYTHONUTF8"@ || name == "PYTHONIOENCODING"@),
{
    let a = secret_pairs(s);
    lemma_map_insert(a, "PYTHONUTF8"@, "1"@);
    let b = map_insert(a, "PYTHONUTF8"@, "1"@);
    lemma_map_insert(b, "PYTHONIOENCODING"@, "utf-8"@);
}

/// The environment handed to the scenario's commands.
pub fn common_env(secrets: &SecretSet) -> (r: EnvMap)
    ensures
        r@ == common_env_spec(secrets@),
{
    let mut env = secrets.env_pairs();
    env.insert("PYTHONUTF8", "1");
    env.insert("PYTHONIOENCODING", "utf-8");
    env
}

/// Credentials for a translation provider: OpenAI's key and model, or the
/// complete Azure OpenAI set.
pub open spec fn provider_ready_spec(s: SecretSetView) -> bool {
    ||| (s.names.contains("OPENAI_API_KEY"@) && s.names.contains("OPENAI_CHAT_MODEL_ID"@))
    ||| (s.names.contains("AZURE_OPENAI_API_KEY"@) && s.names.contains("AZURE_OPENAI_ENDPOINT"@)
        && s.names.contains("AZURE_OPENAI_CHAT_DEPLOYMENT_NAME"@) && s.names.contains(
        "AZURE_OPENAI_API_VERSION"@,
    ))
}

/// Whether the secrets hold credentials for a translation provider.
pub fn provider_ready(secrets: &SecretSet) -> (b: bool)
    ensures
        b == provider_ready_spec(secrets@),
{
    let openai: [&str; 2] = ["OPENAI_API_KEY", "OPENAI_CHAT_MODEL_ID"];
    let azure: [&str; 4] = [
        "AZURE_OPENAI_API_KEY",
        "AZURE_OPENAI_ENDPOINT",
        "AZURE_OPENAI_CHAT_DEPLOYMENT_NAME",
        "AZURE_OPENAI_API_VERSION",
    ];
    let a = secrets.has_all(&openai);
    let b = secrets.has_all(&azure);
    proof {
        assert(openai@.len() == 2);
        assert(azure@.len() == 4);
        if a {
            assert(secrets@.names.contains(openai@[0]@));
            assert(secrets@.names.contains(openai@[1]@));
        } else if (secrets@.names.contains("OPENAI_API_KEY"@) && secrets@.names.contains(
            "OPENAI_CHAT_MODEL_ID"@,
        )) {
            assert forall|i: int| 0 <= i < openai@.len() implies secrets@.names.contains(
                #[trigger] openai@[i]@,
            ) by {
                if i == 0 {
                } else {
                }
            }
        }
        if b {
            assert(secrets@.names.contains(azure@[0]@));
            assert(secrets@.names.contains(azure@[1]@));
            assert(secrets@.names.contains(azure@[2]@));
            assert(secrets@.names.contains(azure@[3]@));
        } else if (secrets@.names.contains("AZURE_OPENAI_API_KEY"@) && secrets@.names.contains(
            "AZURE_OPENAI_ENDPOINT"@,
        ) && secrets@.names.contains("AZURE_OPENAI_CHAT_DEPLOYMENT_NAME"@)
            && secrets@.names.contains("AZURE_OPENAI_API_VERSION"@)) {
            assert forall|i: int| 0 <= i < azure@.len() implies secrets@.names.contains(
                #[trigger] azure@[i]@,
            ) by {
                if i == 0 {
                } else if i == 1 {
                } else if i == 2 {
                } else {
                }
            }
        }
    }
    a || b
}

/// Once the fake provider is stored, a provider is ready: the OpenAI key
/// and model read back as the fake ones, and a nonempty base URL reads back
/// as given.
pub proof fn lemma_fake_provider_ready(v: SecretSetView, base_url: Seq<char>)
    requires
        secrets_wf(v),
    ensures
        ({
            let w = with_value(
                with_value(
                    with_value(v, "OPENAI_API_KEY"@, "sdkcheck-fake-key"@),
                    "OPENAI_CHAT_MODEL_ID"@,
                    "sdkcheck-fake-model"@,
                ),
                "OPENAI_BASE_URL"@,
                base_url,
            );
            &&& provider_ready_spec(w)
            &&& secret_value(w, "OPENAI_API_KEY"@) == Some("sdkcheck-fake-key"@)
            &&& secret_value(w, "OPENAI_CHAT_MODEL_ID"@) == Some("sdkcheck-fake-model"@)
            &&& base_url.len() > 0 ==> secret_value(w, "OPENAI_BASE_URL"@) == Some(base_url)
        }),
{
    reveal_strlit("OPENAI_API_KEY");
    reveal_strlit("OPENAI_CHAT_MODEL_ID");
    reveal_strlit("OPENAI_BASE_URL");
    reveal_strlit("sdkcheck-fake-key");
    reveal_strlit("sdkcheck-fake-model");
    let key = "OPENAI_API_KEY"@;
    let model = "OPENAI_CHAT_MODEL_ID"@;
    let base = "OPENAI_BASE_URL"@;
    assert(key != model && key != base && model != base) by {
        assert(key.len() != model.len());
        assert(key.len() != base.len());
        assert(model.len() != base.len());
    }
    lemma_with_value(v, key, "sdkcheck-fake-key"@);
    let v1 = with_value(v, key, "sdkcheck-fake-key"@);
    lemma_with_value(v1, model, "sdkcheck-fake-model"@);
    let v2 = with_value(v1, model, "sdkcheck-fake-model"@);
    assert(secret_value(v2, key) == Some("sdkcheck-fake-key"@));
    if base_url.len() > 0 {
        lemma_with_value(v2, base, base_url);
    } else {
        lemma_with_missing(v2, base);
    }
    let w = with_value(v2, base, base_url);
    assert(secret_value(w, key) == Some("sdkcheck-fake-key"@));
    assert(secret_value(w, model) == Some("sdkcheck-fake-model"@));
    assert(w.names.contains(key));
    assert(w.names.contains(model));
}

/// Stores the fake provider's key, model and base URL.
pub fn use_fake_provider(secrets: &mut SecretSet, base_url: &str)
    ensures
        final(secrets)@ == with_value(
            with_value(
                with_value(old(secrets)@, "OPENAI_API_KEY"@, "sdkcheck-fake-key"@),
                "OPENAI_CHAT_MODEL_ID"@,
                "sdkcheck-fake-model"@,
            ),
            "OPENAI_BASE_URL"@,
            base_url@,
        ),
{
    secrets.add_value("OPENAI_API_KEY", "sdkcheck-fake-key");
    secrets.add_value("OPENAI_CHAT_MODEL_ID", "sdkcheck-fake-model");
    secrets.add_value("OPENAI_BASE_URL", base_url);
}

// ---------------------------------------------------------------------------
// The virtual environment
// ---------------------------------------------------------------------------

/// The virtual environment's folder: `/venv` in the container's volume,
/// `.venv` in the run folder on the host.
pub open spec fn venv_dir_spec(backend: Backend) -> Seq<char> {
    match backend {
        Backend::Docker => "/venv"@,
        Backend::Local => ".venv"@,
    }
}

/// The folder of the virtual environment.
pub fn venv_dir(backend: Backend) -> (r: String)
    ensures
        r@ == venv_dir_spec(backend),
{
    match backend {
        Backend::Docker => owned("/venv"),
        Backend::Local => owned(".venv"),
    }
}

/// The path of the virtual environment's program `name`.
pub open spec fn venv_tool_spec(name: Seq<char>, backend: Backend, windows: bool) -> Seq<char> {
    match backend {
        Backend::Docker => "/venv/bin/"@ + name,
        Backend::Local => if windows {
            ".venv\\Scripts\\"@ + name + ".exe"@
        } else {
            ".venv/bin/"@ + name
        },
    }
}

/// The virtual environment's program `name` on this backend; `windows`
/// tells whether the host is Windows.
pub fn venv_tool(name: &str, backend: Backend, windows: bool) -> (r: String)
    ensures
        r@ == venv_tool_spec(name@, backend, windows),
{
    match backend {
        Backend::Docker => concat("/venv/bin/", name),
        Backend::Local => if windows {
            cat3(".venv\\Scripts\\", name, ".exe")
        } else {
            concat(".venv/bin/", name)
        },
    }
}

/// The virtual environment's Python.
pub fn venv_python(backend: Backend, windows: bool) -> (r: String)
    ensures
        r@ == venv_tool_spec("python"@, backend, windows),
{
    venv_tool("python", backend, windows)
}

// ---------------------------------------------------------------------------
// The commands
// ---------------------------------------------------------------------------

/// Commands of the scenario: seven always, and a live translation and a
/// review when a provider is available and the run asked for it.
pub open spec fn scenario_length(live_run: bool) -> nat {
    if live_run {
        9
    } else {
        7
    }
}

/// The label of command `k`.
pub open spec fn step_label(k: int) -> Seq<char> {
    if k == 0 {
        "clone Co-op Translator repo"@
    } else if k == 1 {
        "create Python virtual environment"@
    } else if k == 2 {
        "upgrade pip"@
    } else if k == 3 {
        "install Co-op Translator from PyPI"@
    } else if k == 4 {
        "verify translate CLI"@
    } else if k == 5 {
        "verify co-op-review CLI"@
    } else if k == 6 {
        "run Markdown translation dry-run"@
    } else if k == 7 {
        "run live Markdown translation"@
    } else {
        "review generated translation"@
    }
}

/// The program of command `k`.
pub open spec fn step_program(k: int, backend: Backend, windows: bool) -> Seq<char> {
    if k == 0 {
        "git"@
    } else if k == 1 {
        "python"@
    } else if k == 2 || k == 3 {
        venv_tool_spec("python"@, backend, windows)
    } else if k == 4 || k == 6 || k == 7 {
        venv_tool_spec("translate"@, backend, windows)
    } else {
        venv_tool_spec("co-op-review"@, backend, windows)
    }
}

/// The arguments of command `k`.
pub open spec fn step_args(k: int, backend: Backend) -> Seq<Seq<char>> {
    if k == 0 {
        seq!["clone"@, "--depth"@, "1"@, COOP_REPO_URL@, "repo"@]
    } else if k == 1 {
        seq!["-m"@, "venv"@, venv_dir_spec(backend)]
    } else if k == 2 {
        seq!["-m"@, "pip"@, "install"@, "--upgrade"@, "pip"@]
    } else if k == 3 {
        seq!["-m"@, "pip"@, "install"@, "co-op-translator"@]
    } else if k == 4 || k == 5 {
        seq!["--help"@]
    } else if k == 6 {
        seq!["-l"@, "ko"@, "-md"@, "--dry-run"@, "-y"@, "-r"@, "fixture"@]
    } else if k == 7 {
        seq!["-l"@, "ko"@, "-md"@, "-y"@, "-r"@, "fixture"@]
    } else {
        seq!["-l"@, "ko"@, "-r"@, "fixture"@, "--format"@, "github"@]
    }
}

fn strings(parts: &[&str]) -> (r: Vec<String>)
    ensures
        r.len() == parts@.len(),
        forall|i: int| 0 <= i < parts@.len() ==> #[trigger] r.deep_view()[i] == parts@[i]@,
{
    let mut r: Vec<String> = Vec::new();
    let mut i: usize = 0;
    while i < parts.len()
        invariant
            i <= parts@.len(),
            r.len() == i,
            forall|t: int| 0 <= t < i ==> #[trigger] r.deep_view()[t] == parts@[t]@,
        decreases parts@.len() - i,
    {
        let ghost before = r.deep_view();
        r.push(owned(parts[i]));
        assert(r.deep_view() =~= before.push(parts@[i as int]@));
        i = i + 1;
    }
    r
}

fn step_args_exec(k: usize, backend: Backend) -> (r: Vec<String>)
    requires
        k < 9,
    ensures
        r.deep_view() == step_args(k as int, backend),
{
    let r = if k == 0 {
        strings(&["clone", "--depth", "1", COOP_REPO_URL, "repo"])
    } else if k == 1 {
        let d = venv_dir(backend);
        strings(&["-m", "venv", d.as_str()])
    } else if k == 2 {
        strings(&["-m", "pip", "install", "--upgrade", "pip"])
    } else if k == 3 {
        strings(&["-m", "pip", "install", "co-op-translator"])
    } else if k == 4 || k == 5 {
        strings(&["--help"])
    } else if k == 6 {
        strings(&["-l", "ko", "-md", "--dry-run", "-y", "-r", "fixture"])
    } else if k == 7 {
        strings(&["-l", "ko", "-md", "-y", "-r", "fixture"])
    } else {
        strings(&["-l", "ko", "-r", "fixture", "--format", "github"])
    };
    assert(r.deep_view() =~= step_args(k as int, backend));
    r
}

/// Command `k` of the scenario, run in the run folder; every command but
/// the clone gets `common_env`.
pub fn scenario_command(
    k: usize,
    backend: Backend,
    windows: bool,
    run_dir: &str,
    secrets: &SecretSet,
) -> (c: CommandSpec)
    requires
        k < 9,
    ensures
        c.label@ == step_label(k as int),
        c.program@ == step_program(k as int, backend, windows),
        c.args.deep_view() == step_args(k as int, backend),
        c.cwd@ == run_dir@,
        c.env@ == if k == 0 {
            empty_env_map()
        } else {
            map_extend(empty_env_map(), common_env_spec(secrets@))
        },
{
    let label = if k == 0 {
        owned("clone Co-op Translator repo")
    } else if k == 1 {
        owned("create Python virtual environment")
    } else if k == 2 {
        owned("upgrade pip")
    } else if k == 3 {
        owned("install Co-op Translator from PyPI")
    } else if k == 4 {
        owned("verify translate CLI")
    } else if k == 5 {
        owned("verify co-op-review CLI")
    } else if k == 6 {
        owned("run Markdown translation dry-run")
    } else if k == 7 {
        owned("run live Markdown translation")
    } else {
        owned("review generated translation")
    };
    let program = if k == 0 {
        owned("git")
    } else if k == 1 {
        owned("python")
    } else if k == 2 || k == 3 {
        venv_python(backend, windows)
    } else if k == 4 || k == 6 || k == 7 {
        venv_tool("translate", backend, windows)
    } else {
        venv_tool("co-op-review", backend, windows)
    };
    let spec = CommandSpec::new(label.as_str(), program.as_str(), run_dir).args(
        step_args_exec(k, backend),
    );
    if k == 0 {
        spec
    } else {
        spec.envs(common_env(secrets))
    }
}

/// Where the scenario stands: the next command, whether a command failed,
/// and whether the live translation and review are part of it.
pub struct CoOpScenario {
    pub next: usize,
    pub stopped: bool,
    pub live_run: bool,
}

impl CoOpScenario {
    /// A scenario before its first command. The live steps are part of it
    /// when a provider is available and the run asked for a live or fake
    /// provider.
    pub fn new(options: &CoOpTranslatorOptions, secrets: &SecretSet) -> (s: Self)
        ensures
            s.next == 0,
            !s.stopped,
            s.live_run == (provider_ready_spec(secrets@) && (options.fake_openai || options.live)),
    {
        let ready = provider_ready(secrets);
        CoOpScenario { next: 0, stopped: false, live_run: ready && (options.fake_openai || options.live) }
    }

    /// The next command to run, or `None` once a command failed or all ran.
    pub fn next_command(
        &self,
        backend: Backend,
        windows: bool,
        run_dir: &str,
        secrets: &SecretSet,
    ) -> (r: Option<CommandSpec>)
        ensures
            (self.stopped || self.next >= scenario_length(self.live_run)) ==> r is None,
            !(self.stopped || self.next >= scenario_length(self.live_run)) ==> (r matches Some(c)
                && c.label@ == step_label(self.next as int) && c.program@ == step_program(
                self.next as int,
                backend,
                windows,
            ) && c.args.deep_view() == step_args(self.next as int, backend) && c.cwd@ == run_dir@
                && c.env@ == if self.next == 0 {
                empty_env_map()
            } else {
                map_extend(empty_env_map(), common_env_spec(secrets@))
            }),
    {
        let len: usize = if self.live_run {
            9
        } else {
            7
        };
        if self.stopped || self.next >= len {
            None
        } else {
            Some(scenario_command(self.next, backend, windows, run_dir, secrets))
        }
    }

    /// Records the evidence of the command just run. Returns whether the
    /// fixture is to be written now: after the clone succeeded.
    pub fn record(&mut self, commands: &mut Vec<CommandResult>, result: CommandResult) -> (prepare_fixture: bool)
        ensures
            final(commands)@ == old(commands)@.push(result),
            final(self).stopped == (old(self).stopped || !result.success),
            final(self).next == if old(self).next < 9 {
                old(self).next + 1
            } else {
                old(self).next as int
            },
            final(self).live_run == old(self).live_run,
            prepare_fixture == (old(self).next == 0 && result.success),
    {
        let success = result.success;
        let first = self.next == 0;
        commands.push(result);
        if !success {
            self.stopped = true;
        }
        if self.next < 9 {
            self.next = self.next + 1;
        }
        first && success
    }
}

// ---------------------------------------------------------------------------
// Outcome
// ---------------------------------------------------------------------------

/// The translations the live run must produce.
pub open spec fn expected_files_spec(run_dir: Seq<char>, w: bool) -> Seq<Seq<char>> {
    let ko = path_join(path_join(path_join(run_dir, "fixture"@, w), "translations"@, w), "ko"@, w);
    seq![path_join(ko, "README.md"@, w), path_join(path_join(ko, "docs"@, w), "setup.md"@, w)]
}

/// The paths of the expected translations.
pub fn expected_files(run_dir: &str, platform: HostPlatform) -> (r: Vec<String>)
    ensures
        r.deep_view() == expected_files_spec(run_dir@, platform.windows),
{
    let fixture = join_path(run_dir, "fixture", platform);
    let translations = join_path(fixture.as_str(), "translations", platform);
    let ko = join_path(translations.as_str(), "ko", platform);
    let readme = join_path(ko.as_str(), "README.md", platform);
    let docs = join_path(ko.as_str(), "docs", platform);
    let setup = join_path(docs.as_str(), "setup.md", platform);
    let mut r: Vec<String> = Vec::new();
    r.push(readme);
    r.push(setup);
    assert(r.deep_view() =~= expected_files_spec(run_dir@, platform.windows));
    r
}

/// The paths whose flag is set, in order.
pub open spec fn present(paths: Seq<Seq<char>>, exists: Seq<bool>) -> Seq<Seq<char>>
    decreases paths.len(),
{
    if paths.len() == 0 || exists.len() == 0 {
        seq![]
    } else {
        present(paths.drop_last(), exists.drop_last()) + if exists.last() {
            seq![paths.last()]
        } else {
            seq![]
        }
    }
}

/// The expected translations that exist: `exists[i]` tells whether
/// `expected[i]` is on disk.
pub fn generated_files(expected: &Vec<String>, exists: &Vec<bool>) -> (r: Vec<String>)
    requires
        expected.len() == exists.len(),
    ensures
        r.deep_view() == present(expected.deep_view(), exists@),
{
    let ghost ev = expected.deep_view();
    let mut r: Vec<String> = Vec::new();
    let mut i: usize = 0;
    assert(r.deep_view() =~= present(ev.take(0), exists@.take(0)));
    while i < expected.len()
        invariant
            i <= expected.len(),
            expected.len() == exists.len(),
            ev == expected.deep_view(),
            r.deep_view() == present(ev.take(i as int), exists@.take(i as int)),
        decreases expected.len() - i,
    {
        let ghost before = r.deep_view();
        assert(ev.take(i + 1).drop_last() =~= ev.take(i as int));
        assert(exists@.take(i + 1).drop_last() =~= exists@.take(i as int));
        assert(ev.take(i + 1).last() == expected[i as int]@);
        if exists[i] {
            r.push(expected[i].clone());
            assert(r.deep_view() =~= before + seq![ev[i as int]]);
        } else {
            assert(r.deep_view() =~= before + Seq::<Seq<char>>::empty());
        }
        i = i + 1;
    }
    assert(ev.take(expected.len() as int) =~= ev);
    assert(exists@.take(expected.len() as int) =~= exists@);
    r
}

/// What the project's own docs say, as far as the scenario checks.
pub open spec fn docs_notes(readme: Seq<char>, cli: Seq<char>, configuration: Seq<char>) -> Seq<
    Seq<char>,
> {
    let a: Seq<Seq<char>> = if contains_seq(readme, "pip install"@) || contains_seq(
        readme,
        "co-op-translator"@,
    ) {
        seq!["README describes installing or using Co-op Translator."@]
    } else {
        seq![]
    };
    let b = if contains_seq(cli, "translate"@) && contains_seq(cli, "-md"@) {
        a.push("CLI docs describe Markdown translation through `translate -l ... -md`."@)
    } else {
        a
    };
    let c = if contains_seq(cli, "co-op-review"@) {
        b.push("CLI docs describe `co-op-review` for validating generated translations."@)
    } else {
        b
    };
    let d = if contains_seq(configuration, "OPENAI_API_KEY"@) || contains_seq(
        configuration,
        "AZURE_OPENAI"@,
    ) {
        c.push(
            "Configuration docs identify OpenAI or Azure OpenAI credentials as required for live translation."@,
        )
    } else {
        c
    };
    if d.len() == 0 {
        seq!["No specific docs observations were extracted."@]
    } else {
        d
    }
}

/// One observation per check that the docs pass, in this order: the
/// README mentions `pip install` or `co-op-translator`; the CLI docs
/// mention `translate` and `-md`; the CLI docs mention `co-op-review`; the
/// configuration docs mention `OPENAI_API_KEY` or `AZURE_OPENAI`. When no
/// check passes, a single note says that nothing was extracted.
pub proof fn lemma_docs_observation_rules(readme: Seq<char>, cli: Seq<char>, configuration: Seq<char>)
    ensures
        ({
            let notes = docs_notes(readme, cli, configuration);
            let r = contains_seq(readme, "pip install"@) || contains_seq(readme, "co-op-translator"@);
            let t = contains_seq(cli, "translate"@) && contains_seq(cli, "-md"@);
            let v = contains_seq(cli, "co-op-review"@);
            let g = contains_seq(configuration, "OPENAI_API_KEY"@) || contains_seq(
                configuration,
                "AZURE_OPENAI"@,
            );
            let n_r: int = if r { 1 } else { 0 };
            let n_t: int = if t { 1 } else { 0 };
            let n_v: int = if v { 1 } else { 0 };
            let n_g: int = if g { 1 } else { 0 };
            &&& r ==> notes[0] == "README describes installing or using Co-op Translator."@
            &&& t ==> notes[n_r]
                == "CLI docs describe Markdown translation through `translate -l ... -md`."@
            &&& v ==> notes[n_r + n_t]
                == "CLI docs describe `co-op-review` for validating generated translations."@
            &&& g ==> notes[n_r + n_t + n_v]
                == "Configuration docs identify OpenAI or Azure OpenAI credentials as required for live translation."@
            &&& (r || t || v || g) ==> notes.len() == n_r + n_t + n_v + n_g
            &&& !(r || t || v || g) ==> notes == seq!["No specific docs observations were extracted."@]
        }),
{
}

/// Observations on the cloned project's README, `docs/cli.md` and
/// `docs/configuration.md` (empty when a file could not be read).
pub fn docs_observations(readme: &str, cli: &str, configuration: &str) -> (r: Vec<String>)
    ensures
        r.deep_view() == docs_notes(readme@, cli@, configuration@),
{
    let mut r: Vec<String> = Vec::new();
    if contains_text(readme, "pip install") || contains_text(readme, "co-op-translator") {
        r.push(owned("README describes installing or using Co-op Translator."));
    }
    if contains_text(cli, "translate") && contains_text(cli, "-md") {
        r.push(owned("CLI docs describe Markdown translation through `translate -l ... -md`."));
    }
    if contains_text(cli, "co-op-review") {
        r.push(owned("CLI docs describe `co-op-review` for validating generated translations."));
    }
    if contains_text(configuration, "OPENAI_API_KEY") || contains_text(configuration, "AZURE_OPENAI") {
        r.push(
            owned(
                "Configuration docs identify OpenAI or Azure OpenAI credentials as required for live translation.",
            ),
        );
    }
    if r.len() == 0 {
        r.push(owned("No specific docs observations were extracted."));
    }
    assert(r.deep_view() =~= docs_notes(readme@, cli@, configuration@));
    r
}

/// The steps the scenario walks through.
pub open spec fn scenario_steps_spec() -> Seq<Seq<char>> {
    seq![
        "Fetch Co-op Translator source and docs."@,
        "Prepare a minimal Markdown fixture with a link and code block."@,
        "Create an isolated Python environment."@,
        "Install Co-op Translator from PyPI."@,
        "Verify documented CLI entry points."@,
        "Run Markdown translation dry-run."@,
        "Run deterministic live translation when credentials or fake OpenAI are available."@,
        "Review generated translations and verify expected files."@,
    ]
}

/// The scenario's steps as listed in the report.
pub fn scenario_steps() -> (r: Vec<String>)
    ensures
        r.deep_view() == scenario_steps_spec(),
{
    let r = strings(
        &[
            "Fetch Co-op Translator source and docs.",
            "Prepare a minimal Markdown fixture with a link and code block.",
            "Create an isolated Python environment.",
            "Install Co-op Translator from PyPI.",
            "Verify documented CLI entry points.",
            "Run Markdown translation dry-run.",
            "Run deterministic live translation when credentials or fake OpenAI are available.",
            "Review generated translations and verify expected files.",
        ],
    );
    assert(r.deep_view() =~= scenario_steps_spec());
    r
}

/// Some command failed.
pub open spec fn any_failed(cs: Seq<CommandResult>) -> bool {
    exists|i: int| 0 <= i < cs.len() && !(#[trigger] cs[i]).success
}

/// A command that failed or timed out where the environment is to blame:
/// fetching, the virtual environment, pip, or the network.
pub open spec fn environment_failure(c: CommandResult) -> bool {
    &&& (!c.success || c.timed_out)
    &&& (contains_seq(c.label@, "clone"@) || contains_seq(c.label@, "virtual environment"@)
        || contains_seq(c.label@, "upgrade pip"@) || contains_seq(
        c.stderr@,
        "Network/connection error"@,
    ))
}

/// A failed install.
pub open spec fn install_failure(c: CommandResult) -> bool {
    !c.success && contains_seq(c.label@, "install"@)
}

/// The scenario passed: no command failed, and with a provider the
/// expected translations exist.
pub open spec fn scenario_passed(
    provider_ready: bool,
    commands: Seq<CommandResult>,
    expected_files_exist: bool,
) -> bool {
    !any_failed(commands) && (!provider_ready || expected_files_exist)
}

/// Where a run went wrong. Without a provider, the environment; then an
/// environment failure, a failed install (product), missing output after
/// clean commands (docs) or after a failure (product), else unclear.
pub open spec fn classification_spec(
    passed: bool,
    provider_ready: bool,
    commands: Seq<CommandResult>,
    expected_files_exist: bool,
) -> FailureClassification {
    if passed {
        FailureClassification::NoFailure
    } else if !provider_ready {
        FailureClassification::Environment
    } else if exists|i: int| 0 <= i < commands.len() && environment_failure(#[trigger] commands[i]) {
        FailureClassification::Environment
    } else if exists|i: int| 0 <= i < commands.len() && install_failure(#[trigger] commands[i]) {
        FailureClassification::Product
    } else if !expected_files_exist && !any_failed(commands) {
        FailureClassification::Docs
    } else if !expected_files_exist {
        FailureClassification::Product
    } else {
        FailureClassification::UnclearScenario
    }
}

fn any_failed_exec(commands: &Vec<CommandResult>) -> (b: bool)
    ensures
        b == any_failed(commands@),
{
    let mut i: usize = 0;
    while i < commands.len()
        invariant
            i <= commands.len(),
            forall|j: int| 0 <= j < i ==> (#[trigger] commands@[j]).success,
        decreases commands.len() - i,
    {
        if !commands[i].success {
            assert(!commands@[i as int].success);
            return true;
        }
        i = i + 1;
    }
    false
}

fn environment_failure_exec(c: &CommandResult) -> (b: bool)
    ensures
        b == environment_failure(*c),
{
    (!c.success || c.timed_out) && (contains_text(c.label.as_str(), "clone") || contains_text(
        c.label.as_str(),
        "virtual environment",
    ) || contains_text(c.label.as_str(), "upgrade pip") || contains_text(
        c.stderr.as_str(),
        "Network/connection error",
    ))
}

/// How a Co-op Translator run is classified. A passed run has no failure.
/// Otherwise: without a provider, or when some command failed or timed
/// out while cloning, creating the virtual environment or upgrading pip
/// (or met a network error), the environment is to blame; else a failed
/// install blames the product; else missing translations blame the docs
/// when every command succeeded and the product when one failed; else the
/// scenario is unclear.
pub proof fn lemma_classification_rules(
    passed: bool,
    provider_ready: bool,
    commands: Seq<CommandResult>,
    expected_files_exist: bool,
)
    ensures
        passed ==> classification_spec(passed, provider_ready, commands, expected_files_exist)
            == FailureClassification::NoFailure,
        !passed && !provider_ready ==> classification_spec(
            passed,
            provider_ready,
            commands,
            expected_files_exist,
        ) == FailureClassification::Environment,
        !passed && (exists|i: int| 0 <= i < commands.len() && ((!(#[trigger] commands[i]).success || commands[i].timed_out) && (contains_seq(commands[i].label@, "clone"@) || contains_seq(commands[i].label@, "virtual environment"@) || contains_seq(commands[i].label@, "upgrade pip"@) || contains_seq(commands[i].stderr@, "Network/connection error"@))))
            ==> classification_spec(passed, provider_ready, commands, expected_files_exist)
            == FailureClassification::Environment,
        !passed && provider_ready && (forall|i: int|
            0 <= i < commands.len() ==> !((!(#[trigger] commands[i]).success || commands[i].timed_out) && (contains_seq(commands[i].label@, "clone"@) || contains_seq(commands[i].label@, "virtual environment"@) || contains_seq(commands[i].label@, "upgrade pip"@) || contains_seq(commands[i].stderr@, "Network/connection error"@)))) && (exists|i: int|
            0 <= i < commands.len() && !(#[trigger] commands[i]).success && contains_seq(
                commands[i].label@,
                "install"@,
            )) ==> classification_spec(passed, provider_ready, commands, expected_files_exist)
            == FailureClassification::Product,
        !passed && provider_ready && (forall|i: int|
            0 <= i < commands.len() ==> !((!(#[trigger] commands[i]).success || commands[i].timed_out) && (contains_seq(commands[i].label@, "clone"@) || contains_seq(commands[i].label@, "virtual environment"@) || contains_seq(commands[i].label@, "upgrade pip"@) || contains_seq(commands[i].stderr@, "Network/connection error"@)))) && (forall|i: int|
            0 <= i < commands.len() ==> (#[trigger] commands[i]).success) && !expected_files_exist
            ==> classification_spec(passed, provider_ready, commands, expected_files_exist)
            == FailureClassification::Docs,
        !passed && provider_ready && (forall|i: int|
            0 <= i < commands.len() ==> !((!(#[trigger] commands[i]).success || commands[i].timed_out) && (contains_seq(commands[i].label@, "clone"@) || contains_seq(commands[i].label@, "virtual environment"@) || contains_seq(commands[i].label@, "upgrade pip"@) || contains_seq(commands[i].stderr@, "Network/connection error"@)))) && (forall|i: int|
            0 <= i < commands.len() ==> !(!(#[trigger] commands[i]).success && contains_seq(
                commands[i].label@,
                "install"@,
            ))) && (exists|i: int| 0 <= i < commands.len() && !(#[trigger] commands[i]).success)
            && !expected_files_exist ==> classification_spec(
            passed,
            provider_ready,
            commands,
            expected_files_exist,
        ) == FailureClassification::Product,
        !passed && provider_ready && (forall|i: int|
            0 <= i < commands.len() ==> !((!(#[trigger] commands[i]).success || commands[i].timed_out) && (contains_seq(commands[i].label@, "clone"@) || contains_seq(commands[i].label@, "virtual environment"@) || contains_seq(commands[i].label@, "upgrade pip"@) || contains_seq(commands[i].stderr@, "Network/connection error"@)))) && (forall|i: int|
            0 <= i < commands.len() ==> !(!(#[trigger] commands[i]).success && contains_seq(
                commands[i].label@,
                "install"@,
            ))) && expected_files_exist ==> classification_spec(
            passed,
            provider_ready,
            commands,
            expected_files_exist,
        ) == FailureClassification::UnclearScenario,
{
    if exists|i: int| 0 <= i < commands.len() && ((!(#[trigger] commands[i]).success || commands[i].timed_out) && (contains_seq(commands[i].label@, "clone"@) || contains_seq(commands[i].label@, "virtual environment"@) || contains_seq(commands[i].label@, "upgrade pip"@) || contains_seq(commands[i].stderr@, "Network/connection error"@))) {
        let i = choose|i: int| 0 <= i < commands.len() && ((!(#[trigger] commands[i]).success || commands[i].timed_out) && (contains_seq(commands[i].label@, "clone"@) || contains_seq(commands[i].label@, "virtual environment"@) || contains_seq(commands[i].label@, "upgrade pip"@) || contains_seq(commands[i].stderr@, "Network/connection error"@)));
        assert(environment_failure(commands[i]));
    }
    if forall|i: int| 0 <= i < commands.len() ==> !((!(#[trigger] commands[i]).success || commands[i].timed_out) && (contains_seq(commands[i].label@, "clone"@) || contains_seq(commands[i].label@, "virtual environment"@) || contains_seq(commands[i].label@, "upgrade pip"@) || contains_seq(commands[i].stderr@, "Network/connection error"@))) {
        assert forall|i: int| 0 <= i < commands.len() implies !environment_failure(
            #[trigger] commands[i],
        ) by {
            assert(!((!(commands[i]).success || commands[i].timed_out) && (contains_seq(commands[i].label@, "clone"@) || contains_seq(commands[i].label@, "virtual environment"@) || contains_seq(commands[i].label@, "upgrade pip"@) || contains_seq(commands[i].stderr@, "Network/connection error"@))));
        }
    }
    if exists|i: int|
        0 <= i < commands.len() && !(#[trigger] commands[i]).success && contains_seq(
            commands[i].label@,
            "install"@,
        ) {
        let i = choose|i: int|
            0 <= i < commands.len() && !(#[trigger] commands[i]).success && contains_seq(
                commands[i].label@,
                "install"@,
            );
        assert(install_failure(commands[i]));
    }
    if forall|i: int|
        0 <= i < commands.len() ==> !(!(#[trigger] commands[i]).success && contains_seq(
            commands[i].label@,
            "install"@,
        )) {
        assert forall|i: int| 0 <= i < commands.len() implies !install_failure(
            #[trigger] commands[i],
        ) by {
            assert(!(!commands[i].success && contains_seq(commands[i].label@, "install"@)));
        }
    }
}

/// A run that did not pass because one of the scenario's setup commands
/// (the clone, creating the virtual environment, upgrading pip) failed
/// is blamed on the environment.
pub proof fn lemma_setup_failure_is_environment(
    passed: bool,
    provider_ready: bool,
    commands: Seq<CommandResult>,
    expected_files_exist: bool,
    i: int,
    k: int,
)
    requires
        !passed,
        0 <= i < commands.len(),
        !commands[i].success,
        0 <= k <= 2,
        commands[i].label@ == step_label(k),
    ensures
        classification_spec(passed, provider_ready, commands, expected_files_exist)
            == FailureClassification::Environment,
{
    reveal_strlit("clone Co-op Translator repo");
    reveal_strlit("create Python virtual environment");
    reveal_strlit("upgrade pip");
    reveal_strlit("clone");
    reveal_strlit("virtual environment");
    let l = commands[i].label@;
    if k == 0 {
        assert(l.subrange(0, 5) =~= "clone"@);
        assert(occurs_at(l, "clone"@, 0));
    } else if k == 1 {
        assert(l.subrange(14, 33) =~= "virtual environment"@);
        assert(occurs_at(l, "virtual environment"@, 14));
    } else {
        assert(l.subrange(0, 11) =~= "upgrade pip"@);
        assert(occurs_at(l, "upgrade pip"@, 0));
    }
    assert(environment_failure(commands[i]));
}

/// A run passes exactly when every command succeeded and, with a provider,
/// the expected translations exist.
pub proof fn lemma_passed_rule(provider_ready: bool, commands: Seq<CommandResult>, expected_files_exist: bool)
    ensures
        scenario_passed(provider_ready, commands, expected_files_exist) == ((forall|i: int|
            0 <= i < commands.len() ==> (#[trigger] commands[i]).success) && (!provider_ready
            || expected_files_exist)),
{
}

/// Classifies a run.
pub fn classify(
    passed: bool,
    provider_ready: bool,
    commands: &Vec<CommandResult>,
    expected_files_exist: bool,
) -> (r: FailureClassification)
    ensures
        r == classification_spec(passed, provider_ready, commands@, expected_files_exist),
{
    if passed {
        return FailureClassification::NoFailure;
    }
    if !provider_ready {
        return FailureClassification::Environment;
    }
    let mut i: usize = 0;
    while i < commands.len()
        invariant
            i <= commands.len(),
            !passed,
            provider_ready,
            forall|j: int| 0 <= j < i ==> !environment_failure(#[trigger] commands@[j]),
        decreases commands.len() - i,
    {
        if environment_failure_exec(&commands[i]) {
            assert(environment_failure(commands@[i as int]));
            assert(exists|j: int| 0 <= j < commands.len() && environment_failure(#[trigger] commands@[j]));
            return FailureClassification::Environment;
        }
        i = i + 1;
    }
    let mut k: usize = 0;
    while k < commands.len()
        invariant
            k <= commands.len(),
            !passed,
            provider_ready,
            forall|j: int| 0 <= j < commands.len() ==> !environment_failure(#[trigger] commands@[j]),
            forall|j: int| 0 <= j < k ==> !install_failure(#[trigger] commands@[j]),
        decreases commands.len() - k,
    {
        if !commands[k].success && contains_text(commands[k].label.as_str(), "install") {
            assert(install_failure(commands@[k as int]));
            assert(exists|j: int| 0 <= j < commands.len() && install_failure(#[trigger] commands@[j]));
            assert(!exists|j: int| 0 <= j < commands.len() && environment_failure(#[trigger] commands@[j]));
            return FailureClassification::Product;
        }
        k = k + 1;
    }
    let failed = any_failed_exec(commands);
    if !expected_files_exist && !failed {
        FailureClassification::Docs
    } else if !expected_files_exist {
        FailureClassification::Product
    } else {
        FailureClassification::UnclearScenario
    }
}

/// The suggestion for the first failed command.
pub open spec fn failure_suggestion(c: CommandResult) -> Seq<char> {
    if c.timed_out {
        "Increase `--timeout-seconds` or inspect why `"@ + c.label@
            + "` exceeded the command timeout."@
    } else if contains_seq(c.label@, "virtual environment"@) || contains_seq(
        c.label@,
        "upgrade pip"@,
    ) {
        "Ensure Python 3 is available in the selected backend and can create virtual environments."@
    } else if contains_seq(c.stderr@, "Network/connection error"@) {
        "Check connectivity to the configured OpenAI-compatible endpoint. For local deterministic dogfood, retry with `--fake-openai` and inspect whether the fake endpoint stayed reachable for the full run."@
    } else if contains_seq(c.label@, "clone"@) {
        "Check network access and Git availability for fetching the target repository."@
    } else {
        "Inspect the `"@ + c.label@
            + "` command evidence and fix the first failing step before continuing the scenario."@
    }
}

/// Asks for provider credentials.
pub open spec fn provider_suggestion() -> Seq<char> {
    "Provide `OPENAI_API_KEY` + `OPENAI_CHAT_MODEL_ID`, a complete Azure OpenAI credential set, or use `--fake-openai` for deterministic local dogfood."@
}

/// Asks to fix the output paths.
pub open spec fn output_suggestion() -> Seq<char> {
    "Clarify the expected translation output paths or fix the product behavior so generated files match the documented workflow."@
}

/// The fallback suggestion.
pub open spec fn inspect_suggestion() -> Seq<char> {
    "Inspect the failed command evidence and add a tighter docs or product fix once the failure mode is clear."@
}

/// What to do next: nothing after a pass; else advice on the first failed
/// command, on missing credentials and on missing output, or a fallback.
pub open spec fn suggestions_spec(
    passed: bool,
    provider_ready: bool,
    expected_files_exist: bool,
    commands: Seq<CommandResult>,
) -> Seq<Seq<char>> {
    if passed {
        seq![]
    } else {
        let a: Seq<Seq<char>> = match first_failure(commands) {
            Some(c) => seq![failure_suggestion(c)],
            None => seq![],
        };
        let b = if !provider_ready {
            a.push(provider_suggestion())
        } else {
            a
        };
        let d = if provider_ready && !expected_files_exist {
            b.push(output_suggestion())
        } else {
            b
        };
        if d.len() == 0 {
            seq![inspect_suggestion()]
        } else {
            d
        }
    }
}

fn failure_suggestion_exec(c: &CommandResult) -> (r: String)
    ensures
        r@ == failure_suggestion(*c),
{
    if c.timed_out {
        cat3(
            "Increase `--timeout-seconds` or inspect why `",
            c.label.as_str(),
            "` exceeded the command timeout.",
        )
    } else if contains_text(c.label.as_str(), "virtual environment") || contains_text(
        c.label.as_str(),
        "upgrade pip",
    ) {
        owned(
            "Ensure Python 3 is available in the selected backend and can create virtual environments.",
        )
    } else if contains_text(c.stderr.as_str(), "Network/connection error") {
        owned(
            "Check connectivity to the configured OpenAI-compatible endpoint. For local deterministic dogfood, retry with `--fake-openai` and inspect whether the fake endpoint stayed reachable for the full run.",
        )
    } else if contains_text(c.label.as_str(), "clone") {
        owned("Check network access and Git availability for fetching the target repository.")
    } else {
        cat3(
            "Inspect the `",
            c.label.as_str(),
            "` command evidence and fix the first failing step before continuing the scenario.",
        )
    }
}

/// The suggestions of a run.
pub fn suggestions(
    passed: bool,
    provider_ready: bool,
    expected_files_exist: bool,
    commands: &Vec<CommandResult>,
) -> (r: Vec<String>)
    ensures
        r.deep_view() == suggestions_spec(passed, provider_ready, expected_files_exist, commands@),
{
    let mut r: Vec<String> = Vec::new();
    if passed {
        assert(r.deep_view() =~= Seq::<Seq<char>>::empty());
        return r;
    }
    match first_failure_index(commands) {
        Some(i) => {
            r.push(failure_suggestion_exec(&commands[i]));
        },
        None => {},
    }
    if !provider_ready {
        r.push(
            owned(
                "Provide `OPENAI_API_KEY` + `OPENAI_CHAT_MODEL_ID`, a complete Azure OpenAI credential set, or use `--fake-openai` for deterministic local dogfood.",
            ),
        );
    }
    if provider_ready && !expected_files_exist {
        r.push(
            owned(
                "Clarify the expected translation output paths or fix the product behavior so generated files match the documented workflow.",
            ),
        );
    }
    if r.len() == 0 {
        r.push(
            owned(
                "Inspect the failed command evidence and add a tighter docs or product fix once the failure mode is clear.",
            ),
        );
    }
    assert(r.deep_view() =~= suggestions_spec(passed, provider_ready, expected_files_exist, commands@));
    r
}

/// After a run that did not pass, the first suggestion answers the first
/// failed command `i`: a timeout asks for a longer timeout, a failure while
/// creating the virtual environment or upgrading pip asks for a working
/// Python 3, a network error asks to check the endpoint, a failed clone
/// asks to check Git and network access, and anything else asks to inspect
/// that command. Then come the provider credentials when none are set, or
/// the output paths when translations are missing; nothing else.
pub proof fn lemma_failed_command_suggestions(
    passed: bool,
    provider_ready: bool,
    expected_files_exist: bool,
    commands: Seq<CommandResult>,
    i: int,
)
    requires
        !passed,
        0 <= i < commands.len(),
        !commands[i].success,
        forall|j: int| 0 <= j < i ==> (#[trigger] commands[j]).success,
    ensures
        ({
            let s = suggestions_spec(passed, provider_ready, expected_files_exist, commands);
            let c = commands[i];
            &&& c.timed_out ==> s[0] == "Increase `--timeout-seconds` or inspect why `"@ + c.label@
                + "` exceeded the command timeout."@
            &&& !c.timed_out && (contains_seq(c.label@, "virtual environment"@) || contains_seq(
                c.label@,
                "upgrade pip"@,
            )) ==> s[0]
                == "Ensure Python 3 is available in the selected backend and can create virtual environments."@
            &&& !c.timed_out && !contains_seq(c.label@, "virtual environment"@) && !contains_seq(
                c.label@,
                "upgrade pip"@,
            ) && contains_seq(c.stderr@, "Network/connection error"@) ==> s[0]
                == "Check connectivity to the configured OpenAI-compatible endpoint. For local deterministic dogfood, retry with `--fake-openai` and inspect whether the fake endpoint stayed reachable for the full run."@
            &&& !c.timed_out && !contains_seq(c.label@, "virtual environment"@) && !contains_seq(
                c.label@,
                "upgrade pip"@,
            ) && !contains_seq(c.stderr@, "Network/connection error"@) && contains_seq(
                c.label@,
                "clone"@,
            ) ==> s[0]
                == "Check network access and Git availability for fetching the target repository."@
            &&& !c.timed_out && !contains_seq(c.label@, "virtual environment"@) && !contains_seq(
                c.label@,
                "upgrade pip"@,
            ) && !contains_seq(c.stderr@, "Network/connection error"@) && !contains_seq(
                c.label@,
                "clone"@,
            ) ==> s[0] == "Inspect the `"@ + c.label@
                + "` command evidence and fix the first failing step before continuing the scenario."@
            &&& provider_ready && expected_files_exist ==> s.len() == 1
            &&& !provider_ready ==> s.len() == 2 && s[1]
                == "Provide `OPENAI_API_KEY` + `OPENAI_CHAT_MODEL_ID`, a complete Azure OpenAI credential set, or use `--fake-openai` for deterministic local dogfood."@
            &&& provider_ready && !expected_files_exist ==> s.len() == 2 && s[1]
                == "Clarify the expected translation output paths or fix the product behavior so generated files match the documented workflow."@
        }),
{
    lemma_first_failure_at(commands, i);
}

/// A passed run gets no suggestion. A run that did not pass although every
/// command succeeded gets one: provider credentials when none are set,
/// else the output paths when translations are missing, else a general
/// request to inspect the evidence.
pub proof fn lemma_clean_run_suggestions(
    passed: bool,
    provider_ready: bool,
    expected_files_exist: bool,
    commands: Seq<CommandResult>,
)
    ensures
        passed ==> suggestions_spec(passed, provider_ready, expected_files_exist, commands)
            == Seq::<Seq<char>>::empty(),
        !passed && (forall|j: int| 0 <= j < commands.len() ==> (#[trigger] commands[j]).success)
            ==> suggestions_spec(passed, provider_ready, expected_files_exist, commands) == seq![
            if !provider_ready {
                "Provide `OPENAI_API_KEY` + `OPENAI_CHAT_MODEL_ID`, a complete Azure OpenAI credential set, or use `--fake-openai` for deterministic local dogfood."@
            } else if !expected_files_exist {
                "Clarify the expected translation output paths or fix the product behavior so generated files match the documented workflow."@
            } else {
                "Inspect the failed command evidence and add a tighter docs or product fix once the failure mode is clear."@
            },
        ],
{
    if !passed && (forall|j: int| 0 <= j < commands.len() ==> (#[trigger] commands[j]).success) {
        lemma_no_failure(commands);
    }
}

/// The summary of a run that did not pass names its first failed command
/// `i`.
pub proof fn lemma_failed_command_summary(
    passed: bool,
    provider_ready: bool,
    expected_files_exist: bool,
    commands: Seq<CommandResult>,
    i: int,
)
    requires
        !passed,
        0 <= i < commands.len(),
        !commands[i].success,
        forall|j: int| 0 <= j < i ==> (#[trigger] commands[j]).success,
    ensures
        summary_spec(passed, provider_ready, expected_files_exist, commands) == "The scenario stopped at `"@
            + commands[i].label@
            + "`. sdkcheck captured the command evidence and classified the run from the first failing step."@,
{
    lemma_first_failure_at(commands, i);
}

/// The summary of a passed run says so; that of a run that did not pass
/// although every command succeeded blames missing credentials, else
/// missing translations, else an unknown cause.
pub proof fn lemma_clean_run_summary(
    passed: bool,
    provider_ready: bool,
    expected_files_exist: bool,
    commands: Seq<CommandResult>,
)
    ensures
        passed ==> summary_spec(passed, provider_ready, expected_files_exist, commands)
            == "Co-op Translator docs produced a runnable scenario. Install, CLI preflight, translation, review, and expected output verification passed."@,
        !passed && (forall|j: int| 0 <= j < commands.len() ==> (#[trigger] commands[j]).success)
            ==> summary_spec(passed, provider_ready, expected_files_exist, commands) == (if !provider_ready {
            "Co-op Translator install and CLI preflight ran, but live translation requires provider credentials. The run is classified as an environment issue."@
        } else if !expected_files_exist {
            "Co-op Translator ran with provider credentials, but expected translation files were not found."@
        } else {
            "The scenario failed before sdkcheck could assign a sharper product or docs cause."@
        }),
{
    if !passed && (forall|j: int| 0 <= j < commands.len() ==> (#[trigger] commands[j]).success) {
        lemma_no_failure(commands);
    }
}

/// The summary of a run.
pub open spec fn summary_spec(
    passed: bool,
    provider_ready: bool,
    expected_files_exist: bool,
    commands: Seq<CommandResult>,
) -> Seq<char> {
    if passed {
        "Co-op Translator docs produced a runnable scenario. Install, CLI preflight, translation, review, and expected output verification passed."@
    } else {
        match first_failure(commands) {
            Some(c) => "The scenario stopped at `"@ + c.label@
                + "`. sdkcheck captured the command evidence and classified the run from the first failing step."@,
            None => if !provider_ready {
                "Co-op Translator install and CLI preflight ran, but live translation requires provider credentials. The run is classified as an environment issue."@
            } else if !expected_files_exist {
                "Co-op Translator ran with provider credentials, but expected translation files were not found."@
            } else {
                "The scenario failed before sdkcheck could assign a sharper product or docs cause."@
            },
        }
    }
}

/// The summary written into the report.
pub fn summary(
    passed: bool,
    provider_ready: bool,
    expected_files_exist: bool,
    commands: &Vec<CommandResult>,
) -> (r: String)
    ensures
        r@ == summary_spec(passed, provider_ready, expected_files_exist, commands@),
{
    if passed {
        return owned(
            "Co-op Translator docs produced a runnable scenario. Install, CLI preflight, translation, review, and expected output verification passed.",
        );
    }
    match first_failure_index(commands) {
        Some(i) => cat3(
            "The scenario stopped at `",
            commands[i].label.as_str(),
            "`. sdkcheck captured the command evidence and classified the run from the first failing step.",
        ),
        None => {
            if !provider_ready {
                owned(
                    "Co-op Translator install and CLI preflight ran, but live translation requires provider credentials. The run is classified as an environment issue.",
                )
            } else if !expected_files_exist {
                owned(
                    "Co-op Translator ran with provider credentials, but expected translation files were not found.",
                )
            } else {
                owned(
                    "The scenario failed before sdkcheck could assign a sharper product or docs cause.",
                )
            }
        },
    }
}

/// The command line that repeats the scenario.
pub open spec fn reproduction_spec(
    backend: Backend,
    fake_openai: bool,
    output: Seq<char>,
    json_output: Option<Seq<char>>,
    timeout_seconds: u64,
) -> Seq<char> {
    "sdkcheck run --recipe co-op-translator --backend "@ + backend_text(backend) + " --output "@
        + output + " --timeout-seconds "@ + dec(timeout_seconds as nat) + match json_output {
        Some(j) => " --json-output "@ + j,
        None => seq![],
    } + if fake_openai {
        " --fake-openai"@
    } else {
        seq![]
    }
}

/// The command line that repeats the scenario.
pub fn reproduction_command(
    backend: Backend,
    fake_openai: bool,
    output: &str,
    json_output: Option<&str>,
    timeout_seconds: u64,
) -> (r: String)
    ensures
        r@ == reproduction_spec(
            backend,
            fake_openai,
            output@,
            match json_output {
                Some(j) => Some(j@),
                None => None,
            },
            timeout_seconds,
        ),
{
    let mut v: Vec<char> = Vec::new();
    push_str(&mut v, "sdkcheck run --recipe co-op-translator --backend ");
    let b = backend.to_text();
    push_str(&mut v, b.as_str());
    push_str(&mut v, " --output ");
    push_str(&mut v, output);
    push_str(&mut v, " --timeout-seconds ");
    let t = u64_string(timeout_seconds);
    push_str(&mut v, t.as_str());
    match json_output {
        Some(j) => {
            push_str(&mut v, " --json-output ");
            push_str(&mut v, j);
        },
        None => {},
    }
    if fake_openai {
        push_str(&mut v, " --fake-openai");
    }
    proof {
        reveal_strlit("");
    }
    assert(v@ =~= reproduction_spec(
        backend,
        fake_openai,
        output@,
        match json_output {
            Some(j) => Some(j@),
            None => None,
        },
        timeout_seconds,
    ));
    string_from_chars(&v)
}

/// A run is classified as failure-free exactly when it passed, and it
/// gets suggestions exactly when it did not pass.
pub proof fn lemma_outcome_consistent(
    passed: bool,
    provider_ready: bool,
    commands: Seq<CommandResult>,
    expected_files_exist: bool,
)
    ensures
        (classification_spec(passed, provider_ready, commands, expected_files_exist)
            == FailureClassification::NoFailure) <==> passed,
        (suggestions_spec(passed, provider_ready, expected_files_exist, commands).len() == 0)
            <==> passed,
{
}

/// The report of a scenario run, assembled from the run folder, the
/// secrets, the evidence of the commands that ran, whether the expected
/// translations exist, the translations found and the docs observations.
pub fn run(
    options: &CoOpTranslatorOptions,
    run_dir: &str,
    secrets: &SecretSet,
    commands: Vec<CommandResult>,
    expected_files_exist: bool,
    generated_files: Vec<String>,
    docs_observations: Vec<String>,
) -> (r: ScenarioReport)
    ensures
        ({
            let ready = provider_ready_spec(secrets@);
            let passed = scenario_passed(ready, commands@, expected_files_exist);
            &&& r.title@ == "sdkcheck report: Co-op Translator"@
            &&& r.status == if passed {
                ReportStatus::Passed
            } else {
                ReportStatus::Failed
            }
            &&& r.classification == classification_spec(
                passed,
                ready,
                commands@,
                expected_files_exist,
            )
            &&& r.summary@ == summary_spec(passed, ready, expected_files_exist, commands@)
            &&& r.suggestions.deep_view() == suggestions_spec(
                passed,
                ready,
                expected_files_exist,
                commands@,
            )
        }),
        r.backend@ == backend_text(options.backend),
        r.run_dir@ == run_dir@,
        r.scenario_steps.deep_view() == scenario_steps_spec(),
        r.docs_observations.deep_view() == docs_observations.deep_view(),
        r.provided_secrets.deep_view() == secrets@.names,
        r.missing_secrets.deep_view() == sorted_perm(secrets@.missing),
        r.commands@ == commands@,
        r.generated_files.deep_view() == generated_files.deep_view(),
        r.reproduction@ == reproduction_spec(
            options.backend,
            options.fake_openai,
            options.output@,
            match options.json_output {
                Some(j) => Some(j@),
                None => None,
            },
            options.timeout_seconds,
        ),
        (r.classification == FailureClassification::NoFailure) <==> (r.status
            == ReportStatus::Passed),
        (r.suggestions.len() == 0) <==> (r.status == ReportStatus::Passed),
{
    let ready = provider_ready(secrets);
    let failed = any_failed_exec(&commands);
    let passed = !failed && (!ready || expected_files_exist);
    let classification = classify(passed, ready, &commands, expected_files_exist);
    let advice = suggestions(passed, ready, expected_files_exist, &commands);
    let text = summary(passed, ready, expected_files_exist, &commands);
    let json = match &options.json_output {
        Some(j) => Some(j.as_str()),
        None => None,
    };
    let reproduction = reproduction_command(
        options.backend,
        options.fake_openai,
        options.output.as_str(),
        json,
        options.timeout_seconds,
    );
    proof {
        lemma_outcome_consistent(passed, ready, commands@, expected_files_exist);
    }
    ScenarioReport {
        title: owned("sdkcheck report: Co-op Translator"),
        status: if passed {
            ReportStatus::Passed
        } else {
            ReportStatus::Failed
        },
        classification,
        summary: text,
        backend: options.backend.to_text(),
        run_dir: owned(run_dir),
        scenario_steps: scenario_steps(),
        docs_observations,
        provided_secrets: secrets.names(),
        missing_secrets: secrets.missing_names(),
        commands,
        generated_files,
        suggestions: advice,
        reproduction,
    }
}

} // verus!
