//! The generic docs audit: an agent reads a repository's docs and drives
//! commands, one step at a time, until it reaches a verdict.
//!
//! This module holds every decision of the audit: which docs are loaded and
//! how they are bundled, what the agent is told, how each proposed action
//! is checked and recorded, and how the final report is assembled. The
//! caller performs the outside work each decision asks for (cloning,
//! reading files, asking the agent, running commands) and hands the
//! outcome back.
use vstd::prelude::*;

use crate::env_map::{empty_env_map, lemma_map_insert, map_extend, map_insert, EnvMap, EnvMapView};
use crate::models::{
    first_failure, first_failure_index, is_first_failed, lemma_first_failure_at, lemma_no_failure,
    CommandResult, FailureClassification, ReportStatus,
    ScenarioReport,
};
use crate::naming::safe_name;
use crate::naming::safe_name_or;
use crate::paths::{
    clean_relative, clean_relative_path, host_path_order, join_path, path_error_text, path_join,
    path_order, HostPlatform, PathError,
};
use crate::runner::{Backend, CommandSpec};
use crate::secrets::{secret_pairs, secrets_wf, SecretSet, SecretSetView};
use crate::report::{bool_string, bool_text};
use crate::runner::backend_text;
use crate::text::{
    cat3, cat4, cat5, concat, contains_seq, lemma_utf8_len_add, sorted_perm, utf8_len, utf8_len_within, contains_text, dec, i64_string, int_text, is_blank, join, join_strings,
    keys_faithful, KeyOrder, nul_free, order_key, owned, push_str, quote_if_spaced, quote_if_spaced_exec,
    sort_dedup_by, sort_strings_by, sorted, sorted_by, string_from_chars, text_le, to_chars, trim, truncate_with,
    truncate_with_marker, u64_string,
};

verus! {

/// Bytes of one doc file that go into the bundle.
pub const MAX_DOC_FILE_BYTES: usize = 16384;

/// Bytes of the whole doc bundle.
pub const MAX_DOC_BUNDLE_BYTES: usize = 49152;

/// Bytes of a file the agent asks to read.
pub const MAX_FILE_READ_BYTES: usize = 12288;

/// Bytes of each output stream shown to the agent after a command.
pub const MAX_AGENT_OBSERVATION_BYTES: usize = 4096;

/// Files listed as generated by the audit.
pub const MAX_GENERATED_FILES: usize = 64;

/// Token budget of one agent reply.
pub const MAX_AGENT_RESPONSE_TOKENS: u64 = 800;

/// Observations repeated to the agent in each prompt.
pub const RECENT_OBSERVATIONS: usize = 8;

/// What is appended to a text cut to its budget.
pub const TRUNCATION_MARKER: &'static str = "\n[sdkcheck] content truncated";

/// What one docs audit is asked to do.
#[derive(Clone, Debug)]
pub struct DocsAuditOptions {
    pub backend: Backend,
    pub repo: String,
    pub docs: Vec<String>,
    pub goal: String,
    pub success_criteria: Vec<String>,
    pub workdir: String,
    pub output: String,
    pub json_output: Option<String>,
    pub timeout_seconds: u64,
    pub forwarded_env_names: Vec<String>,
    pub agent_base_url: String,
    pub agent_model: String,
    pub agent_api_key_env: String,
    pub max_steps: u32,
}

/// The agent's verdict on the audited flow.
#[derive(Clone, Copy, Debug, PartialEq, Eq, Structural)]
pub enum AgentVerdict {
    Passed,
    Failed,
    Inconclusive,
}

/// How the agent loop ended.
#[derive(Clone, Debug)]
pub struct AgentFinish {
    pub verdict: AgentVerdict,
    pub classification: FailureClassification,
    pub summary: String,
    pub suggestions: Vec<String>,
    pub missing_envs: Vec<String>,
}

/// One action the agent proposes.
#[derive(Clone, Debug)]
pub enum AgentAction {
    ReadFile { summary: String, path: String },
    RunCommand {
        summary: String,
        label: String,
        program: String,
        args: Vec<String>,
        cwd: Option<String>,
    },
    Finish {
        summary: String,
        verdict: AgentVerdict,
        classification: FailureClassification,
        suggestions: Vec<String>,
        missing_envs: Vec<String>,
    },
}

/// The docs handed to the agent: their paths under the repository, the
/// bundle of their contents, and what loading them observed.
#[derive(Clone, Debug)]
pub struct DocsSelection {
    pub doc_paths: Vec<String>,
    pub bundle: String,
    pub observations: Vec<String>,
}

/// Size and modification time of a file, to tell which files a run changed.
#[derive(Clone, Copy, Debug, PartialEq, Eq, Structural)]
pub struct FileStamp {
    pub len: u64,
    pub modified_unix_seconds: u64,
}

/// Why the JSON object could not be cut out of an agent reply.
#[derive(Clone, Copy, Debug, PartialEq, Eq, Structural)]
pub enum JsonExtractError {
    NoOpeningBrace,
    NoClosingBrace,
}

pub open spec fn json_extract_error_text(e: JsonExtractError) -> Seq<char> {
    match e {
        JsonExtractError::NoOpeningBrace => "audit agent response did not contain JSON"@,
        JsonExtractError::NoClosingBrace => "audit agent response did not contain a closing JSON brace"@,
    }
}

impl JsonExtractError {
    /// The message of the error.
    pub fn to_text(self) -> (s: String)
        ensures
            s@ == json_extract_error_text(self),
    {
        match self {
            JsonExtractError::NoOpeningBrace => owned("audit agent response did not contain JSON"),
            JsonExtractError::NoClosingBrace => owned(
                "audit agent response did not contain a closing JSON brace",
            ),
        }
    }
}

// ---------------------------------------------------------------------------
// Directory walking decisions
// ---------------------------------------------------------------------------

/// Directories the audit never walks into.
pub open spec fn skipped_dir(name: Seq<char>) -> bool {
    ||| name == ".git"@
    ||| name == ".venv"@
    ||| name == "__pycache__"@
    ||| name == "node_modules"@
    ||| name == "target"@
    ||| name == "dist"@
}

/// Whether a directory named `name` is left out of doc discovery and of the
/// file snapshots.
pub fn should_skip_dir(name: &str) -> (b: bool)
    ensures
        b == skipped_dir(name@),
{
    let n = owned(name);
    n == owned(".git") || n == owned(".venv") || n == owned("__pycache__") || n == owned(
        "node_modules",
    ) || n == owned("target") || n == owned("dist")
}

/// A file name whose extension is `md` in any letter case. The extension
/// is what follows the last '.', provided that '.' is not the first
/// character (`Path::extension`); as `md` holds no '.', the last '.' must
/// sit just before the last two characters.
pub open spec fn is_markdown_name(name: Seq<char>) -> bool {
    &&& name.len() >= 4
    &&& name[name.len() - 3] == '.'
    &&& (name[name.len() - 2] == 'm' || name[name.len() - 2] == 'M')
    &&& (name[name.len() - 1] == 'd' || name[name.len() - 1] == 'D')
}

/// Whether a file named `name` is a Markdown doc.
pub fn is_markdown_file(name: &str) -> (b: bool)
    ensures
        b == is_markdown_name(name@),
{
    let c = to_chars(name);
    let n = c.len();
    n >= 4 && c[n - 3] == '.' && (c[n - 2] == 'm' || c[n - 2] == 'M') && (c[n - 1] == 'd' || c[n
        - 1] == 'D')
}

/// The docs found when none were requested: `README.md` when it exists and
/// the Markdown files under `docs/`; when there are none of those, the
/// Markdown files anywhere in the repository.
pub open spec fn discovery_candidates(
    readme_exists: bool,
    docs_dir_files: Seq<Seq<char>>,
    root_files: Seq<Seq<char>>,
) -> Seq<Seq<char>> {
    let first = if readme_exists {
        seq!["README.md"@] + docs_dir_files
    } else {
        docs_dir_files
    };
    if first.len() == 0 {
        root_files
    } else {
        first
    }
}

/// Without requested docs the audit reads `README.md` when it exists and
/// every Markdown file under `docs/`; only when neither gives a doc does it
/// take the Markdown files of the whole repository.
pub proof fn lemma_discovery_rules(
    readme_exists: bool,
    docs_dir_files: Seq<Seq<char>>,
    root_files: Seq<Seq<char>>,
)
    ensures
        readme_exists || docs_dir_files.len() > 0 ==> discovery_candidates(
            readme_exists,
            docs_dir_files,
            root_files,
        ).to_set() == (if readme_exists {
            set!["README.md"@]
        } else {
            Set::<Seq<char>>::empty()
        }).union(docs_dir_files.to_set()),
        !readme_exists && docs_dir_files.len() == 0 ==> discovery_candidates(
            readme_exists,
            docs_dir_files,
            root_files,
        ) == root_files,
{
    if readme_exists {
        let c = seq!["README.md"@] + docs_dir_files;
        assert(c.len() > 0);
        assert forall|x: Seq<char>| #[trigger] c.to_set().contains(x) <==> (set!["README.md"@].union(
            docs_dir_files.to_set(),
        )).contains(x) by {
            if c.contains(x) {
                let k = choose|k: int| 0 <= k < c.len() && c[k] == x;
                if k > 0 {
                    assert(docs_dir_files[k - 1] == x);
                }
            }
            if docs_dir_files.contains(x) {
                let k = choose|k: int| 0 <= k < docs_dir_files.len() && docs_dir_files[k] == x;
                assert(c[k + 1] == x);
            }
            if x == "README.md"@ {
                assert(c[0] == x);
            }
        }
        assert(c.to_set() =~= set!["README.md"@].union(docs_dir_files.to_set()));
    } else if docs_dir_files.len() > 0 {
        assert(docs_dir_files.to_set() =~= Set::<Seq<char>>::empty().union(docs_dir_files.to_set()));
    }
}

/// Whether discovery has to walk the whole repository.
pub fn needs_root_scan(readme_exists: bool, docs_dir_files: &Vec<String>) -> (b: bool)
    ensures
        b == (discovery_candidates(readme_exists, docs_dir_files.deep_view(), seq![]).len() == 0),
{
    !readme_exists && docs_dir_files.len() == 0
}

/// The discovered doc paths, in path order and without repeats.
pub fn auto_discover_docs(
    readme_exists: bool,
    docs_dir_files: Vec<String>,
    root_files: Vec<String>,
    platform: HostPlatform,
) -> (r: Vec<String>)
    requires
        keys_faithful(docs_dir_files.deep_view(), path_order(platform.windows)),
        keys_faithful(root_files.deep_view(), path_order(platform.windows)),
    ensures
        sorted_by(r.deep_view(), path_order(platform.windows)),
        r.deep_view().no_duplicates(),
        r.deep_view().to_set() == discovery_candidates(
            readme_exists,
            docs_dir_files.deep_view(),
            root_files.deep_view(),
        ).to_set(),
{
    let ghost dd = docs_dir_files.deep_view();
    let mut found: Vec<String> = Vec::new();
    if readme_exists {
        found.push(owned("README.md"));
    }
    let mut rest = docs_dir_files;
    found.append(&mut rest);
    proof {
        if readme_exists {
            assert(found.deep_view() =~= seq!["README.md"@] + dd);
        } else {
            assert(found.deep_view() =~= dd);
        }
    }
    let chosen = if found.len() == 0 {
        root_files
    } else {
        found
    };
    proof {
        reveal_strlit("README.md");
        assert(nul_free("README.md"@)) by {
            if "README.md"@.contains('\0') {
                let k = choose|k: int| 0 <= k < "README.md"@.len() && "README.md"@[k] == '\0';
            }
        }
        assert(keys_faithful(chosen.deep_view(), path_order(platform.windows))) by {
            assert forall|k: int| 0 <= k < chosen.deep_view().len() implies nul_free(
                #[trigger] chosen.deep_view()[k],
            ) by {
                if readme_exists && chosen.deep_view() != root_files.deep_view() && k > 0 {
                    assert(chosen.deep_view()[k] == dd[k - 1]);
                }
            }
        }
    }
    sort_dedup_by(chosen, host_path_order(platform))
}

// ---------------------------------------------------------------------------
// Text helpers
// ---------------------------------------------------------------------------

/// `input`, or when it is longer than `max_bytes`, its longest prefix on a
/// character boundary within that budget, without trailing whitespace,
/// followed by the truncation marker.
pub fn truncate_text(input: &str, max_bytes: usize) -> (r: String)
    ensures
        r@ == truncate_with(input@, max_bytes as nat, TRUNCATION_MARKER@),
{
    truncate_with_marker(input, max_bytes, TRUNCATION_MARKER)
}

/// The last `RECENT_OBSERVATIONS` observations, oldest first.
pub open spec fn recent(obs: Seq<Seq<char>>) -> Seq<Seq<char>> {
    if obs.len() <= RECENT_OBSERVATIONS {
        obs
    } else {
        obs.skip(obs.len() - RECENT_OBSERVATIONS)
    }
}

/// The observations repeated in a prompt are the last eight, oldest first:
/// all of them when there are at most eight.
pub proof fn lemma_recent_is_last_eight(obs: Seq<Seq<char>>)
    ensures
        recent(obs).len() == if obs.len() <= 8 {
            obs.len() as int
        } else {
            8
        },
        forall|i: int|
            0 <= i < recent(obs).len() ==> #[trigger] recent(obs)[i] == obs[obs.len() - recent(
                obs,
            ).len() + i],
{
}

/// The observations repeated in the next prompt.
pub fn recent_observations(observations: &Vec<String>) -> (r: Vec<String>)
    ensures
        r.deep_view() == recent(observations.deep_view()),
{
    let ghost ov = observations.deep_view();
    let start: usize = if observations.len() <= RECENT_OBSERVATIONS {
        0
    } else {
        observations.len() - RECENT_OBSERVATIONS
    };
    let mut r: Vec<String> = Vec::new();
    let mut i: usize = start;
    while i < observations.len()
        invariant
            start <= i <= observations.len(),
            ov == observations.deep_view(),
            r.deep_view() == ov.subrange(start as int, i as int),
        decreases observations.len() - i,
    {
        r.push(observations[i].clone());
        assert(ov.subrange(start as int, i + 1) =~= ov.subrange(start as int, i as int).push(
            ov[i as int],
        ));
        i = i + 1;
    }
    assert(ov.subrange(start as int, ov.len() as int) =~= recent(ov));
    r
}

// ---------------------------------------------------------------------------
// Repository naming
// ---------------------------------------------------------------------------

/// `s` without trailing '/' characters (`trim_end_matches('/')`).
pub open spec fn trim_end_slashes(s: Seq<char>) -> Seq<char>
    decreases s.len(),
{
    if s.len() > 0 && s.last() == '/' {
        trim_end_slashes(s.drop_last())
    } else {
        s
    }
}

/// The part of `s` after its last '/' or '\\' (the first piece of
/// `rsplit(['/', '\\'])`).
pub open spec fn last_segment(s: Seq<char>) -> Seq<char>
    decreases s.len(),
{
    if s.len() == 0 || s.last() == '/' || s.last() == '\\' {
        seq![]
    } else {
        last_segment(s.drop_last()).push(s.last())
    }
}

/// `s` without a trailing `.git`.
pub open spec fn strip_git_suffix(s: Seq<char>) -> Seq<char> {
    if s.len() >= 4 && s.skip(s.len() - 4) == ".git"@ {
        s.take(s.len() - 4)
    } else {
        s
    }
}

/// The name of the audited repository as used in titles and run folders:
/// the local checkout's folder name when `repo` is a path on this host,
/// else the last segment of the URL without `.git`; made safe, `audit`
/// when nothing is left.
pub open spec fn target_name(repo: Seq<char>, local_name: Option<Seq<char>>) -> Seq<char> {
    match local_name {
        Some(n) => safe_name(n, "audit"@),
        None => safe_name(strip_git_suffix(last_segment(trim_end_slashes(repo))), "audit"@),
    }
}

proof fn lemma_last_segment_tail(a: Seq<char>, b: Seq<char>)
    requires
        forall|i: int| 0 <= i < b.len() ==> #[trigger] b[i] != '/' && b[i] != '\\',
    ensures
        last_segment(a + seq!['/'] + b) == b,
    decreases b.len(),
{
    let s = a + seq!['/'] + b;
    if b.len() > 0 {
        assert(s.last() == b.last());
        assert(s.drop_last() =~= a + seq!['/'] + b.drop_last());
        lemma_last_segment_tail(a, b.drop_last());
        assert(b.drop_last().push(b.last()) =~= b);
    } else {
        assert(s.last() == '/');
    }
}

/// A remote repository is named after the last segment of its URL: for
/// `<base>/<name>.git`, and for `<base>/<name>` when the name is nonempty
/// and does not end in `.git`, the name (without separators) made safe,
/// or `audit` when nothing of it is left.
pub proof fn lemma_target_name_from_url(base: Seq<char>, name: Seq<char>)
    requires
        forall|i: int| 0 <= i < name.len() ==> #[trigger] name[i] != '/' && name[i] != '\\',
    ensures
        target_name(base + "/"@ + name + ".git"@, None) == safe_name(name, "audit"@),
        name.len() > 0 && !(name.len() >= 4 && name.skip(name.len() - 4) == ".git"@) ==> target_name(
            base + "/"@ + name,
            None,
        ) == safe_name(name, "audit"@),
{
    reveal_strlit("/");
    reveal_strlit(".git");
    assert("/"@ =~= seq!['/']);
    let g = name + ".git"@;
    assert forall|i: int| 0 <= i < g.len() implies #[trigger] g[i] != '/' && g[i] != '\\' by {
        if i < name.len() {
            assert(g[i] == name[i]);
        }
    }
    let u = base + "/"@ + name + ".git"@;
    assert(u =~= base + seq!['/'] + g);
    assert(u.last() == 't');
    assert(trim_end_slashes(u) == u);
    lemma_last_segment_tail(base, g);
    assert(g.skip(g.len() - 4) =~= ".git"@);
    assert(g.take(g.len() - 4) =~= name);
    if name.len() > 0 {
        let v = base + "/"@ + name;
        assert(v =~= base + seq!['/'] + name);
        assert(v.last() == name.last());
        assert(trim_end_slashes(v) == v);
        lemma_last_segment_tail(base, name);
    }
}

/// The text of an optional name.
pub open spec fn name_view(name: Option<&str>) -> Option<Seq<char>> {
    match name {
        Some(n) => Some(n@),
        None => None,
    }
}

/// The last URL segment of `repo` without `.git`.
fn url_target_core(repo: &str) -> (r: String)
    ensures
        r@ == strip_git_suffix(last_segment(trim_end_slashes(repo@))),
{
    let c = to_chars(repo);
    let mut end: usize = c.len();
    assert(c@.take(end as int) =~= c@);
    while end > 0 && c[end - 1] == '/'
        invariant
            end <= c.len(),
            c@ == repo@,
            trim_end_slashes(repo@) == trim_end_slashes(c@.take(end as int)),
        decreases end,
    {
        assert(c@.take(end as int).drop_last() =~= c@.take(end - 1));
        end = end - 1;
    }
    let ghost t = c@.take(end as int);
    assert(trim_end_slashes(repo@) == t);
    let mut start: usize = end;
    assert(t.skip(end as int) =~= Seq::<char>::empty());
    assert(t.take(end as int) =~= t);
    while start > 0 && c[start - 1] != '/' && c[start - 1] != '\\'
        invariant
            start <= end <= c.len(),
            c@ == repo@,
            t == c@.take(end as int),
            last_segment(t) == last_segment(t.take(start as int)) + t.skip(start as int),
        decreases start,
    {
        assert(t.take(start as int).drop_last() =~= t.take(start - 1));
        assert(t.take(start as int).last() == t[start - 1]);
        assert(t.skip(start - 1) =~= seq![t[start - 1]] + t.skip(start as int));
        start = start - 1;
    }
    assert(last_segment(t.take(start as int)) =~= Seq::<char>::empty());
    let mut seg: Vec<char> = Vec::new();
    let mut k: usize = start;
    while k < end
        invariant
            start <= k <= end <= c.len(),
            c@ == repo@,
            t == c@.take(end as int),
            seg@ == t.subrange(start as int, k as int),
        decreases end - k,
    {
        seg.push(c[k]);
        assert(t.subrange(start as int, k + 1) =~= t.subrange(start as int, k as int).push(
            t[k as int],
        ));
        k = k + 1;
    }
    assert(seg@ =~= last_segment(t));
    let n = seg.len();
    let mut core: Vec<char> = Vec::new();
    if n >= 4 && seg[n - 4] == '.' && seg[n - 3] == 'g' && seg[n - 2] == 'i' && seg[n - 1]
        == 't' {
        let mut j: usize = 0;
        while j < n - 4
            invariant
                n == seg.len(),
                n >= 4,
                j <= n - 4,
                core@ == seg@.take(j as int),
            decreases n - 4 - j,
        {
            core.push(seg[j]);
            assert(seg@.take(j + 1) =~= seg@.take(j as int).push(seg@[j as int]));
            j = j + 1;
        }
        proof {
            reveal_strlit(".git");
            assert(seg@.skip(n - 4) =~= ".git"@);
        }
    } else {
        core = seg;
        proof {
            reveal_strlit(".git");
            if seg@.len() >= 4 {
                if seg@.skip(n - 4) == ".git"@ {
                    assert(seg@.skip(n - 4)[0] == seg@[n - 4]);
                    assert(seg@.skip(n - 4)[1] == seg@[n - 3]);
                    assert(seg@.skip(n - 4)[2] == seg@[n - 2]);
                    assert(seg@.skip(n - 4)[3] == seg@[n - 1]);
                }
            }
        }
    }
    string_from_chars(&core)
}

/// The name of the audited repository. `local_name` is the folder name of
/// `repo` on this host when `repo` is an existing path there.
pub fn audit_target_name(repo: &str, local_name: Option<&str>) -> (r: String)
    ensures
        r@ == target_name(repo@, name_view(local_name)),
{
    match local_name {
        Some(n) => safe_name_or(n, "audit"),
        None => {
            let core = url_target_core(repo);
            safe_name_or(core.as_str(), "audit")
        },
    }
}

/// `rendered` without the `\\?\` prefix of Windows verbatim paths, which
/// git does not accept.
pub open spec fn git_path(rendered: Seq<char>) -> Seq<char> {
    if rendered.len() >= 4 && rendered.take(4) == seq!['\\', '\\', '?', '\\'] {
        rendered.skip(4)
    } else {
        rendered
    }
}

/// A host path as git expects it.
pub fn normalize_host_path_for_git(rendered: &str) -> (r: String)
    ensures
        r@ == git_path(rendered@),
{
    let c = to_chars(rendered);
    if c.len() >= 4 && c[0] == '\\' && c[1] == '\\' && c[2] == '?' && c[3] == '\\' {
        let mut out: Vec<char> = Vec::new();
        let mut i: usize = 4;
        while i < c.len()
            invariant
                4 <= i <= c.len(),
                c@ == rendered@,
                out@ == c@.subrange(4, i as int),
            decreases c.len() - i,
        {
            out.push(c[i]);
            assert(c@.subrange(4, i + 1) =~= c@.subrange(4, i as int).push(c@[i as int]));
            i = i + 1;
        }
        assert(c@.take(4) =~= seq!['\\', '\\', '?', '\\']);
        assert(out@ =~= c@.skip(4));
        string_from_chars(&out)
    } else {
        proof {
            if rendered@.len() >= 4 && rendered@.take(4) == seq!['\\', '\\', '?', '\\'] {
                assert(rendered@.take(4)[0] == rendered@[0]);
                assert(rendered@.take(4)[1] == rendered@[1]);
                assert(rendered@.take(4)[2] == rendered@[2]);
                assert(rendered@.take(4)[3] == rendered@[3]);
            }
        }
        owned(rendered)
    }
}

/// What git clones: the local checkout's canonical path, as git expects
/// it, when `repo` is a path on this host, else `repo` itself.
pub fn clone_source(repo: &str, local_path: Option<&str>) -> (r: String)
    ensures
        r@ == match local_path {
            Some(p) => git_path(p@),
            None => repo@,
        },
{
    match local_path {
        Some(p) => normalize_host_path_for_git(p),
        None => owned(repo),
    }
}

// ---------------------------------------------------------------------------
// Agent replies
// ---------------------------------------------------------------------------

/// `i` is the first position of `c` in `s`.
pub open spec fn first_at(s: Seq<char>, c: char, i: int) -> bool {
    &&& 0 <= i < s.len()
    &&& s[i] == c
    &&& forall|j: int| 0 <= j < i ==> s[j] != c
}

/// `i` is the last position of `c` in `s`.
pub open spec fn last_at(s: Seq<char>, c: char, i: int) -> bool {
    &&& 0 <= i < s.len()
    &&& s[i] == c
    &&& forall|j: int| i < j < s.len() ==> s[j] != c
}

/// The slice from the reply's first '{' to its last '}' exists: the first
/// '{' comes at most right after the last '}' (then the slice is empty).
pub open spec fn braces_in_order(s: Seq<char>) -> bool {
    forall|a: int, b: int| first_at(s, '{', a) && last_at(s, '}', b) ==> a <= b + 1
}

/// The text from the first '{' to the last '}' of an agent reply, which
/// may wrap its JSON object in prose or a code fence.
pub fn extract_json_object(content: &str) -> (r: Result<String, JsonExtractError>)
    requires
        braces_in_order(content@),
    ensures
        match r {
            Ok(t) => exists|a: int, b: int|
                first_at(content@, '{', a) && last_at(content@, '}', b) && t@ == content@.subrange(
                    a,
                    b + 1,
                ),
            Err(JsonExtractError::NoOpeningBrace) => !content@.contains('{'),
            Err(JsonExtractError::NoClosingBrace) => content@.contains('{') && !content@.contains(
                '}',
            ),
        },
{
    let c = to_chars(content);
    let mut a: usize = 0;
    while a < c.len() && c[a] != '{'
        invariant
            a <= c.len(),
            c@ == content@,
            forall|j: int| 0 <= j < a ==> c@[j] != '{',
        decreases c.len() - a,
    {
        a = a + 1;
    }
    if a == c.len() {
        return Err(JsonExtractError::NoOpeningBrace);
    }
    let mut b: usize = c.len();
    while b > 0 && c[b - 1] != '}'
        invariant
            b <= c.len(),
            c@ == content@,
            forall|j: int| b <= j < c.len() ==> c@[j] != '}',
        decreases b,
    {
        b = b - 1;
    }
    if b == 0 {
        assert(content@.contains('{') && content@[a as int] == '{');
        return Err(JsonExtractError::NoClosingBrace);
    }
    assert(first_at(content@, '{', a as int));
    assert(last_at(content@, '}', b - 1));
    assert(a <= b);
    let mut out: Vec<char> = Vec::new();
    let mut i: usize = a;
    while i < b
        invariant
            a <= i <= b <= c.len(),
            c@ == content@,
            out@ == c@.subrange(a as int, i as int),
        decreases b - i,
    {
        out.push(c[i]);
        assert(c@.subrange(a as int, i + 1) =~= c@.subrange(a as int, i as int).push(c@[i as int]));
        i = i + 1;
    }
    Ok(string_from_chars(&out))
}

// ---------------------------------------------------------------------------
// Commands and their evidence
// ---------------------------------------------------------------------------

/// The environment of every command the agent runs: the forwarded
/// secrets, plus `CI=1` and UTF-8 settings for Python.
pub open spec fn command_env_spec(f: SecretSetView) -> EnvMapView {
    map_insert(
        map_insert(map_insert(secret_pairs(f), "CI"@, "1"@), "PYTHONUTF8"@, "1"@),
        "PYTHONIOENCODING"@,
        "utf-8"@,
    )
}

/// The environment handed to the agent's commands.
pub fn command_env(forwarded_envs: &SecretSet) -> (r: EnvMap)
    ensures
        r@ == command_env_spec(forwarded_envs@),
{
    let mut env = forwarded_envs.env_pairs();
    env.insert("CI", "1");
    env.insert("PYTHONUTF8", "1");
    env.insert("PYTHONIOENCODING", "utf-8");
    env
}

/// The agent's commands see only the forwarded names and the fixed
/// settings: a name is in their environment exactly when it carries a
/// forwarded value or is `CI`, `PYTHONUTF8` or `PYTHONIOENCODING`.
pub proof fn lemma_command_env_names(f: SecretSetView, name: Seq<char>)
    requires
        secrets_wf(f),
    ensures
        command_env_spec(f).keys.contains(name) <==> (f.names.contains(name) || name == "CI"@
            || name == "PYTHONUTF8"@ || name == "PYTHONIOENCODING"@),
{
    let a = secret_pairs(f);
    lemma_map_insert(a, "CI"@, "1"@);
    let b = map_insert(a, "CI"@, "1"@);
    lemma_map_insert(b, "PYTHONUTF8"@, "1"@);
    let c = map_insert(b, "PYTHONUTF8"@, "1"@);
    lemma_map_insert(c, "PYTHONIOENCODING"@, "utf-8"@);
}

/// `Debug` of an exit code: `Some(n)` or `None`.
pub open spec fn debug_exit_code(code: Option<i32>) -> Seq<char> {
    match code {
        Some(c) => "Some("@ + int_text(c as int) + ")"@,
        None => "None"@,
    }
}

/// What the agent is told about a finished command, its output streams
/// cut to `MAX_AGENT_OBSERVATION_BYTES` each.
pub open spec fn command_observation_text(step: u32, r: CommandResult) -> Seq<char> {
    "Step "@ + dec(step as nat) + ": command `"@ + r.label@ + "` finished. success="@ + bool_text(
        r.success,
    ) + ", exit_code="@ + debug_exit_code(r.exit_code) + ", timed_out="@ + bool_text(r.timed_out)
        + ". stdout:\n"@ + truncate_with(
        r.stdout@,
        MAX_AGENT_OBSERVATION_BYTES as nat,
        TRUNCATION_MARKER@,
    ) + "\nstderr:\n"@ + truncate_with(
        r.stderr@,
        MAX_AGENT_OBSERVATION_BYTES as nat,
        TRUNCATION_MARKER@,
    )
}

/// The agent learns of a finished command its step, label, whether it
/// succeeded, its exit code as `Some(n)` or `None`, whether it timed out,
/// and its stdout and stderr, each cut to 4096 bytes with the truncation
/// marker.
pub proof fn lemma_command_observation_fields(step: u32, r: CommandResult)
    ensures
        command_observation_text(step, r) == "Step "@ + dec(step as nat) + ": command `"@ + r.label@
            + "` finished. success="@ + (if r.success {
            "true"@
        } else {
            "false"@
        }) + ", exit_code="@ + (match r.exit_code {
            Some(c) => "Some("@ + int_text(c as int) + ")"@,
            None => "None"@,
        }) + ", timed_out="@ + (if r.timed_out {
            "true"@
        } else {
            "false"@
        }) + ". stdout:\n"@ + truncate_with(r.stdout@, 4096, "\n[sdkcheck] content truncated"@)
            + "\nstderr:\n"@ + truncate_with(r.stderr@, 4096, "\n[sdkcheck] content truncated"@),
{
}

/// The observation recorded after a command ran.
pub fn command_observation(step: u32, result: &CommandResult) -> (r: String)
    ensures
        r@ == command_observation_text(step, *result),
{
    let mut v: Vec<char> = Vec::new();
    push_str(&mut v, "Step ");
    let n = u64_string(step as u64);
    push_str(&mut v, n.as_str());
    push_str(&mut v, ": command `");
    push_str(&mut v, result.label.as_str());
    push_str(&mut v, "` finished. success=");
    let s = bool_string(result.success);
    push_str(&mut v, s.as_str());
    push_str(&mut v, ", exit_code=");
    match result.exit_code {
        Some(c) => {
            push_str(&mut v, "Some(");
            let t = i64_string(c as i64);
            push_str(&mut v, t.as_str());
            push_str(&mut v, ")");
        },
        None => {
            push_str(&mut v, "None");
        },
    }
    push_str(&mut v, ", timed_out=");
    let t = bool_string(result.timed_out);
    push_str(&mut v, t.as_str());
    push_str(&mut v, ". stdout:\n");
    let out = truncate_text(result.stdout.as_str(), MAX_AGENT_OBSERVATION_BYTES);
    push_str(&mut v, out.as_str());
    push_str(&mut v, "\nstderr:\n");
    let err = truncate_text(result.stderr.as_str(), MAX_AGENT_OBSERVATION_BYTES);
    push_str(&mut v, err.as_str());
    assert(v@ =~= command_observation_text(step, *result));
    string_from_chars(&v)
}

/// Keeps a command's evidence and reports whether it succeeded; a command
/// that could not be run at all stops the audit with its error.
pub fn record_command<E>(commands: &mut Vec<CommandResult>, result: Result<CommandResult, E>) -> (r:
    Result<bool, E>)
    ensures
        match result {
            Ok(c) => final(commands)@ == old(commands)@.push(c) && r == Ok::<bool, E>(c.success),
            Err(e) => final(commands)@ == old(commands)@ && r == Err::<bool, E>(e),
        },
{
    match result {
        Ok(command) => {
            let success = command.success;
            commands.push(command);
            Ok(success)
        },
        Err(e) => Err(e),
    }
}

// ---------------------------------------------------------------------------
// The report's verdict
// ---------------------------------------------------------------------------

/// The report's status: passed only on the agent's `passed` verdict.
pub open spec fn verdict_status(finish: Option<AgentFinish>) -> ReportStatus {
    match finish {
        Some(f) => if f.verdict == AgentVerdict::Passed {
            ReportStatus::Passed
        } else {
            ReportStatus::Failed
        },
        None => ReportStatus::Failed,
    }
}

/// The report's classification. A passed verdict means no failure; a
/// failing verdict that names no cause is blamed on the environment when
/// env names are missing and is unclear otherwise. Without a verdict,
/// missing env names and a failed clone point to the environment and any
/// other failed command to the product.
pub open spec fn report_classification(
    finish: Option<AgentFinish>,
    commands: Seq<CommandResult>,
    missing: Seq<Seq<char>>,
) -> FailureClassification {
    match finish {
        Some(f) => if f.verdict == AgentVerdict::Passed {
            FailureClassification::NoFailure
        } else if f.classification == FailureClassification::NoFailure {
            if missing.len() > 0 {
                FailureClassification::Environment
            } else {
                FailureClassification::UnclearAudit
            }
        } else {
            f.classification
        },
        None => if missing.len() > 0 {
            FailureClassification::Environment
        } else {
            match first_failure(commands) {
                Some(c) => if contains_seq(c.label@, "clone"@) {
                    FailureClassification::Environment
                } else {
                    FailureClassification::Product
                },
                None => FailureClassification::UnclearAudit,
            }
        },
    }
}

/// How a docs audit is classified. When the agent finished: a passed
/// verdict means no failure; any other verdict takes the agent's own
/// classification, whatever env names are missing, unless the agent gave
/// none, in which case missing env names blame the environment and
/// otherwise the audit is unclear. When the agent never finished: missing
/// env names blame the environment; else the first failed command blames
/// the environment when its label mentions `clone` and the product
/// otherwise; with no failed command the audit is unclear.
pub proof fn lemma_report_classification_rules(
    finish: Option<AgentFinish>,
    commands: Seq<CommandResult>,
    missing: Seq<Seq<char>>,
)
    ensures
        finish is Some && finish->Some_0.verdict == AgentVerdict::Passed ==> report_classification(
            finish,
            commands,
            missing,
        ) == FailureClassification::NoFailure,
        finish is Some && finish->Some_0.verdict != AgentVerdict::Passed
            && finish->Some_0.classification != FailureClassification::NoFailure
            ==> report_classification(finish, commands, missing) == finish->Some_0.classification,
        finish is Some && finish->Some_0.verdict != AgentVerdict::Passed
            && finish->Some_0.classification == FailureClassification::NoFailure && missing.len() > 0
            ==> report_classification(finish, commands, missing) == FailureClassification::Environment,
        finish is Some && finish->Some_0.verdict != AgentVerdict::Passed
            && finish->Some_0.classification == FailureClassification::NoFailure && missing.len() == 0
            ==> report_classification(finish, commands, missing) == FailureClassification::UnclearAudit,
        finish is None && missing.len() > 0 ==> report_classification(finish, commands, missing)
            == FailureClassification::Environment,
        finish is None && missing.len() == 0 && (forall|i: int|
            0 <= i < commands.len() ==> (#[trigger] commands[i]).success) ==> report_classification(
            finish,
            commands,
            missing,
        ) == FailureClassification::UnclearAudit,
        forall|i: int|
            #![trigger commands[i]]
            finish is None && missing.len() == 0 && 0 <= i < commands.len() && !commands[i].success
                && (forall|j: int| 0 <= j < i ==> (#[trigger] commands[j]).success) ==> report_classification(
                finish,
                commands,
                missing,
            ) == (if contains_seq(commands[i].label@, "clone"@) {
                FailureClassification::Environment
            } else {
                FailureClassification::Product
            }),
{
    assert forall|i: int|
        #![trigger commands[i]]
        finish is None && missing.len() == 0 && 0 <= i < commands.len() && !commands[i].success && (
        forall|j: int| 0 <= j < i ==> (#[trigger] commands[j]).success) implies report_classification(
        finish,
        commands,
        missing,
    ) == (if contains_seq(commands[i].label@, "clone"@) {
        FailureClassification::Environment
    } else {
        FailureClassification::Product
    }) by {
        assert(is_first_failed(commands, i));
        let k = choose|k: int| is_first_failed(commands, k);
        if k < i {
            assert(commands[k].success);
        }
        if i < k {
            assert(commands[i].success);
        }
        assert(k == i);
    }
    if finish is None && missing.len() == 0 && (forall|i: int|
        0 <= i < commands.len() ==> (#[trigger] commands[i]).success) {
        if exists|k: int| is_first_failed(commands, k) {
            let k = choose|k: int| is_first_failed(commands, k);
            assert(commands[k].success);
        }
    }
}

/// The classification written into the report.
pub fn classification_for_report(
    finish: &Option<AgentFinish>,
    commands: &Vec<CommandResult>,
    missing_envs: &Vec<String>,
) -> (r: FailureClassification)
    ensures
        r == report_classification(*finish, commands@, missing_envs.deep_view()),
{
    match finish {
        Some(f) => {
            if f.verdict == AgentVerdict::Passed {
                FailureClassification::NoFailure
            } else if f.classification == FailureClassification::NoFailure {
                if missing_envs.len() > 0 {
                    FailureClassification::Environment
                } else {
                    FailureClassification::UnclearAudit
                }
            } else {
                f.classification
            }
        },
        None => {
            if missing_envs.len() > 0 {
                return FailureClassification::Environment;
            }
            match first_failure_index(commands) {
                Some(i) => {
                    if contains_text(commands[i].label.as_str(), "clone") {
                        FailureClassification::Environment
                    } else {
                        FailureClassification::Product
                    }
                },
                None => FailureClassification::UnclearAudit,
            }
        },
    }
}

/// A report is classified as having no failure exactly when it passed.
pub proof fn lemma_passed_iff_no_failure(
    finish: Option<AgentFinish>,
    commands: Seq<CommandResult>,
    missing: Seq<Seq<char>>,
)
    ensures
        (report_classification(finish, commands, missing) == FailureClassification::NoFailure)
            <==> (verdict_status(finish) == ReportStatus::Passed),
{
}

/// The report's summary: the agent's own, else what stopped the audit.
pub open spec fn report_summary(
    finish: Option<AgentFinish>,
    commands: Seq<CommandResult>,
    missing: Seq<Seq<char>>,
) -> Seq<char> {
    match finish {
        Some(f) => f.summary@,
        None => match first_failure(commands) {
            Some(c) => "The audit stopped at `"@ + c.label@
                + "` before the agent could reach a final verdict."@,
            None => if missing.len() > 0 {
                "The audit did not run because required env names were missing: "@ + join(
                    missing,
                    ", "@,
                ) + "."@
            } else {
                "The audit did not produce a final verdict."@
            },
        },
    }
}

/// The summary written into the report.
pub fn summary_for_report(
    finish: &Option<AgentFinish>,
    commands: &Vec<CommandResult>,
    missing_envs: &Vec<String>,
) -> (r: String)
    ensures
        r@ == report_summary(*finish, commands@, missing_envs.deep_view()),
{
    match finish {
        Some(f) => f.summary.clone(),
        None => match first_failure_index(commands) {
            Some(i) => cat3(
                "The audit stopped at `",
                commands[i].label.as_str(),
                "` before the agent could reach a final verdict.",
            ),
            None => {
                if missing_envs.len() > 0 {
                    let names = join_strings(missing_envs, ", ");
                    cat3(
                        "The audit did not run because required env names were missing: ",
                        names.as_str(),
                        ".",
                    )
                } else {
                    owned("The audit did not produce a final verdict.")
                }
            },
        },
    }
}

/// The fallback when nothing points at a next step.
pub open spec fn tighten_suggestion() -> Seq<char> {
    "Tighten the docs selection, goal, or success criteria so the agent can produce a sharper verdict."@
}

/// The report's suggestions: the agent's own when it gave any, else one
/// for missing env names and one for the first failed command, else a
/// hint to narrow the audit.
pub open spec fn report_suggestions(
    finish: Option<AgentFinish>,
    commands: Seq<CommandResult>,
    missing: Seq<Seq<char>>,
) -> Seq<Seq<char>> {
    if finish is Some && finish->Some_0.suggestions.len() > 0 {
        finish->Some_0.suggestions.deep_view()
    } else {
        let a: Seq<Seq<char>> = if missing.len() > 0 {
            seq![
                "Provide the missing env names before retrying the audit: "@ + join(missing, ", "@)
                    + "."@,
            ]
        } else {
            seq![]
        };
        let b = match first_failure(commands) {
            Some(c) => a.push(
                "Inspect the `"@ + c.label@
                    + "` command evidence and fix the first failing step before retrying the audit."@,
            ),
            None => a,
        };
        if b.len() == 0 {
            seq![tighten_suggestion()]
        } else {
            b
        }
    }
}

/// When the agent never finished, the summary names the first failed
/// command `i`; unless the agent gave suggestions of its own, the
/// suggestions ask for the missing env names (when any) and then to
/// inspect that command.
pub proof fn lemma_audit_failed_command_text(
    finish: Option<AgentFinish>,
    commands: Seq<CommandResult>,
    missing: Seq<Seq<char>>,
    i: int,
)
    requires
        0 <= i < commands.len(),
        !commands[i].success,
        forall|j: int| 0 <= j < i ==> (#[trigger] commands[j]).success,
    ensures
        finish is None ==> report_summary(finish, commands, missing) == "The audit stopped at `"@
            + commands[i].label@ + "` before the agent could reach a final verdict."@,
        finish is None || finish->Some_0.suggestions.len() == 0 ==> report_suggestions(
            finish,
            commands,
            missing,
        ) == ({
            let inspect = "Inspect the `"@ + commands[i].label@
                + "` command evidence and fix the first failing step before retrying the audit."@;
            if missing.len() > 0 {
                seq![
                    "Provide the missing env names before retrying the audit: "@ + join(
                        missing,
                        ", "@,
                    ) + "."@,
                    inspect,
                ]
            } else {
                seq![inspect]
            }
        }),
{
    lemma_first_failure_at(commands, i);
}

/// The agent's own summary, and its own suggestions when it gave any, are
/// what the report shows. Without a verdict and with every command
/// successful, the summary and the one suggestion speak of the missing
/// env names when there are any, and otherwise say that no verdict came
/// and ask to narrow the audit.
pub proof fn lemma_audit_report_text(
    finish: Option<AgentFinish>,
    commands: Seq<CommandResult>,
    missing: Seq<Seq<char>>,
)
    ensures
        finish is Some ==> report_summary(finish, commands, missing) == finish->Some_0.summary@,
        finish is Some && finish->Some_0.suggestions.len() > 0 ==> report_suggestions(
            finish,
            commands,
            missing,
        ) == finish->Some_0.suggestions.deep_view(),
        finish is None && (forall|j: int| 0 <= j < commands.len() ==> (#[trigger] commands[j]).success)
            ==> report_summary(finish, commands, missing) == (if missing.len() > 0 {
            "The audit did not run because required env names were missing: "@ + join(missing, ", "@)
                + "."@
        } else {
            "The audit did not produce a final verdict."@
        }),
        (finish is None || finish->Some_0.suggestions.len() == 0) && (forall|j: int|
            0 <= j < commands.len() ==> (#[trigger] commands[j]).success) ==> report_suggestions(
            finish,
            commands,
            missing,
        ) == seq![
            if missing.len() > 0 {
                "Provide the missing env names before retrying the audit: "@ + join(missing, ", "@)
                    + "."@
            } else {
                "Tighten the docs selection, goal, or success criteria so the agent can produce a sharper verdict."@
            },
        ],
{
    if forall|j: int| 0 <= j < commands.len() ==> (#[trigger] commands[j]).success {
        lemma_no_failure(commands);
    }
}

/// The suggestions written into the report.
pub fn suggestions_for_report(
    finish: &Option<AgentFinish>,
    commands: &Vec<CommandResult>,
    missing_envs: &Vec<String>,
) -> (r: Vec<String>)
    ensures
        r.deep_view() == report_suggestions(*finish, commands@, missing_envs.deep_view()),
{
    match finish {
        Some(f) => {
            if f.suggestions.len() > 0 {
                return f.suggestions.clone();
            }
        },
        None => {},
    }
    let mut suggestions: Vec<String> = Vec::new();
    if missing_envs.len() > 0 {
        let names = join_strings(missing_envs, ", ");
        suggestions.push(
            cat3(
                "Provide the missing env names before retrying the audit: ",
                names.as_str(),
                ".",
            ),
        );
    }
    match first_failure_index(commands) {
        Some(i) => {
            suggestions.push(
                cat3(
                    "Inspect the `",
                    commands[i].label.as_str(),
                    "` command evidence and fix the first failing step before retrying the audit.",
                ),
            );
        },
        None => {},
    }
    if suggestions.len() == 0 {
        suggestions.push(
            owned(
                "Tighten the docs selection, goal, or success criteria so the agent can produce a sharper verdict.",
            ),
        );
    }
    assert(suggestions.deep_view() =~= report_suggestions(
        *finish,
        commands@,
        missing_envs.deep_view(),
    ));
    suggestions
}

/// The env names reported missing: those the host lacked and those the
/// agent named, without blank names.
pub open spec fn reported_missing(f: SecretSetView, finish: Option<AgentFinish>, name: Seq<
    char,
>) -> bool {
    ||| f.missing.contains(name)
    ||| (finish is Some && finish->Some_0.missing_envs.deep_view().contains(name) && trim(
        name,
    ).len() > 0)
}

/// The report lists as missing every env name the host lacked and every
/// non-blank name the agent reported missing, and no other name: a blank
/// name from the agent is never listed.
pub proof fn lemma_missing_env_rules(f: SecretSetView, finish: Option<AgentFinish>, name: Seq<char>)
    ensures
        f.missing.contains(name) ==> reported_missing(f, finish, name),
        finish is Some && finish->Some_0.missing_envs.deep_view().contains(name) && trim(name).len()
            > 0 ==> reported_missing(f, finish, name),
        !f.missing.contains(name) && trim(name).len() == 0 ==> !reported_missing(f, finish, name),
        !f.missing.contains(name) && (finish is None || !finish->Some_0.missing_envs.deep_view().contains(
            name,
        )) ==> !reported_missing(f, finish, name),
{
}

/// Names that are not blank.
pub open spec fn nonblank() -> spec_fn(Seq<char>) -> bool {
    |n: Seq<char>| trim(n).len() > 0
}

/// The missing env names of the report, ascending and without repeats.
pub fn merged_missing_envs(forwarded_envs: &SecretSet, finish: &Option<AgentFinish>) -> (r: Vec<
    String,
>)
    ensures
        sorted(r.deep_view()),
        r.deep_view().no_duplicates(),
        forall|name: Seq<char>|
            r.deep_view().contains(name) <==> reported_missing(forwarded_envs@, *finish, name),
{
    let mut names = forwarded_envs.missing_names();
    let ghost base = names.deep_view();
    let ghost nb = nonblank();
    proof {
        base.to_multiset_ensures();
        forwarded_envs@.missing.to_multiset_ensures();
    }
    match finish {
        Some(f) => {
            let ghost fm = f.missing_envs.deep_view();
            let mut i: usize = 0;
            assert(fm.take(0) =~= Seq::<Seq<char>>::empty());
            assert(fm.take(0).filter(nb) =~= Seq::<Seq<char>>::empty()) by {
                reveal(Seq::filter);
            }
            while i < f.missing_envs.len()
                invariant
                    i <= f.missing_envs.len(),
                    fm == f.missing_envs.deep_view(),
                    nb == nonblank(),
                    names.deep_view() == base + fm.take(i as int).filter(nb),
                decreases f.missing_envs.len() - i,
            {
                assert(fm[i as int] == f.missing_envs[i as int]@);
                assert(fm.take(i + 1) =~= fm.take(i as int).push(fm[i as int]));
                proof {
                    fm.take(i as int).lemma_filter_push(fm[i as int], nb);
                    assert(nb(fm[i as int]) == (trim(fm[i as int]).len() > 0));
                }
                let ghost before = names.deep_view();
                if !is_blank(f.missing_envs[i].as_str()) {
                    names.push(f.missing_envs[i].clone());
                    assert(names.deep_view() =~= before.push(fm[i as int]));
                } else {
                    assert(names.deep_view() =~= before);
                }
                assert(names.deep_view() =~= base + fm.take(i + 1).filter(nb));
                i = i + 1;
            }
            assert(fm.take(fm.len() as int) =~= fm);
        },
        None => {},
    }
    proof {
        assert forall|name: Seq<char>| base.contains(name) == forwarded_envs@.missing.contains(
            name,
        ) by {
            assert(base.to_multiset().count(name) == forwarded_envs@.missing.to_multiset().count(
                name,
            ));
        }
        assert(keys_faithful(names.deep_view(), KeyOrder::Text));
    }
    let ghost nv = names.deep_view();
    let r = sort_dedup_by(names, KeyOrder::Text);
    proof {
        assert(sorted(r.deep_view())) by {
            assert forall|i: int, j: int| 0 <= i < j < r.deep_view().len() implies text_le(
                #[trigger] r.deep_view()[i],
                #[trigger] r.deep_view()[j],
            ) by {
                assert(text_le(
                    order_key(r.deep_view()[i], KeyOrder::Text),
                    order_key(r.deep_view()[j], KeyOrder::Text),
                ));
            }
        }
        assert forall|name: Seq<char>|
            r.deep_view().contains(name) <==> reported_missing(forwarded_envs@, *finish, name) by {
            assert(r.deep_view().to_set().contains(name) == nv.to_set().contains(name));
            match finish {
                Some(f) => {
                    let fm = f.missing_envs.deep_view();
                    assert(nv == base + fm.filter(nb));
                    if nv.contains(name) && !base.contains(name) {
                        let k = choose|k: int| 0 <= k < nv.len() && nv[k] == name;
                        assert(fm.filter(nb)[k - base.len()] == name);
                        assert(fm.filter(nb).contains(name));
                        fm.lemma_filter_contains_rev(nb, name);
                        fm.lemma_filter_pred(nb, k - base.len());
                    }
                    if fm.contains(name) && trim(name).len() > 0 {
                        let t = choose|t: int| 0 <= t < fm.len() && fm[t] == name;
                        fm.lemma_filter_contains(nb, t);
                        let k = choose|k: int| 0 <= k < fm.filter(nb).len() && fm.filter(nb)[k] == name;
                        assert(nv[base.len() + k] == name);
                    }
                    if base.contains(name) {
                        let k = choose|k: int| 0 <= k < base.len() && base[k] == name;
                        assert(nv[k] == name);
                    }
                },
                None => {
                    assert(nv == base);
                },
            }
        }
    }
    r
}

// ---------------------------------------------------------------------------
// Reproduction
// ---------------------------------------------------------------------------

/// `flag value` pairs, one per value, each value quoted when `quoted` and
/// it holds whitespace.
pub open spec fn flag_pairs(flag: Seq<char>, values: Seq<Seq<char>>, quoted: bool) -> Seq<Seq<char>>
    decreases values.len(),
{
    if values.len() == 0 {
        seq![]
    } else {
        flag_pairs(flag, values.drop_last(), quoted) + seq![
            flag,
            if quoted {
                quote_if_spaced(values.last())
            } else {
                values.last()
            },
        ]
    }
}

/// The words of the command line that repeats an audit.
pub open spec fn reproduction_parts(o: DocsAuditOptions) -> Seq<Seq<char>> {
    seq![
        "sdkcheck"@,
        "run"@,
        "--repo"@,
        quote_if_spaced(o.repo@),
        "--goal"@,
        quote_if_spaced(o.goal@),
        "--backend"@,
        backend_text(o.backend),
        "--output"@,
        quote_if_spaced(o.output@),
        "--timeout-seconds"@,
        dec(o.timeout_seconds as nat),
        "--agent-base-url"@,
        quote_if_spaced(o.agent_base_url@),
        "--agent-api-key-env"@,
        o.agent_api_key_env@,
        "--max-steps"@,
        dec(o.max_steps as nat),
    ] + (if trim(o.agent_model@).len() > 0 {
        seq!["--agent-model"@, quote_if_spaced(o.agent_model@)]
    } else {
        seq![]
    }) + (match o.json_output {
        Some(j) => seq!["--json-output"@, quote_if_spaced(j@)],
        None => seq![],
    }) + flag_pairs("--docs"@, o.docs.deep_view(), true) + flag_pairs(
        "--success"@,
        o.success_criteria.deep_view(),
        true,
    ) + flag_pairs("--env"@, o.forwarded_env_names.deep_view(), false)
}

/// Quotes `value` for a command line when it holds whitespace.
pub fn shell_quote(value: &str) -> (r: String)
    ensures
        r@ == quote_if_spaced(value@),
{
    quote_if_spaced_exec(value)
}

fn push_flag_pairs(parts: &mut Vec<String>, flag: &str, values: &Vec<String>, quoted: bool)
    ensures
        final(parts).deep_view() == old(parts).deep_view() + flag_pairs(
            flag@,
            values.deep_view(),
            quoted,
        ),
{
    let ghost start = parts.deep_view();
    let ghost vv = values.deep_view();
    let mut i: usize = 0;
    assert(vv.take(0) =~= Seq::<Seq<char>>::empty());
    assert(start + flag_pairs(flag@, vv.take(0), quoted) =~= start);
    while i < values.len()
        invariant
            i <= values.len(),
            vv == values.deep_view(),
            parts.deep_view() == start + flag_pairs(flag@, vv.take(i as int), quoted),
        decreases values.len() - i,
    {
        let ghost before = parts.deep_view();
        parts.push(owned(flag));
        let v = if quoted {
            shell_quote(values[i].as_str())
        } else {
            values[i].clone()
        };
        parts.push(v);
        proof {
            assert(vv.take(i + 1).drop_last() =~= vv.take(i as int));
            assert(vv.take(i + 1).last() == values[i as int]@);
            assert(vv[i as int] == values[i as int]@);
            let q = if quoted {
                quote_if_spaced(vv.take(i + 1).last())
            } else {
                vv.take(i + 1).last()
            };
            assert(v@ == q);
            assert(parts.deep_view() =~= before.push(flag@).push(q));
            assert(flag_pairs(flag@, vv.take(i + 1), quoted) == flag_pairs(
                flag@,
                vv.take(i as int),
                quoted,
            ) + seq![flag@, q]);
            assert(parts.deep_view() =~= start + flag_pairs(flag@, vv.take(i + 1), quoted));
        }
        i = i + 1;
    }
    assert(vv.take(values.len() as int) =~= vv);
}

/// The command line that repeats this audit.
pub fn reproduction_command(options: &DocsAuditOptions) -> (r: String)
    ensures
        r@ == join(reproduction_parts(*options), " "@),
{
    let mut parts: Vec<String> = Vec::new();
    parts.push(owned("sdkcheck"));
    parts.push(owned("run"));
    parts.push(owned("--repo"));
    parts.push(shell_quote(options.repo.as_str()));
    parts.push(owned("--goal"));
    parts.push(shell_quote(options.goal.as_str()));
    parts.push(owned("--backend"));
    parts.push(options.backend.to_text());
    parts.push(owned("--output"));
    parts.push(shell_quote(options.output.as_str()));
    parts.push(owned("--timeout-seconds"));
    parts.push(u64_string(options.timeout_seconds));
    parts.push(owned("--agent-base-url"));
    parts.push(shell_quote(options.agent_base_url.as_str()));
    parts.push(owned("--agent-api-key-env"));
    parts.push(options.agent_api_key_env.clone());
    parts.push(owned("--max-steps"));
    parts.push(u64_string(options.max_steps as u64));
    if !is_blank(options.agent_model.as_str()) {
        parts.push(owned("--agent-model"));
        parts.push(shell_quote(options.agent_model.as_str()));
    }
    match &options.json_output {
        Some(j) => {
            parts.push(owned("--json-output"));
            parts.push(shell_quote(j.as_str()));
        },
        None => {},
    }
    push_flag_pairs(&mut parts, "--docs", &options.docs, true);
    push_flag_pairs(&mut parts, "--success", &options.success_criteria, true);
    push_flag_pairs(&mut parts, "--env", &options.forwarded_env_names, false);
    assert(parts.deep_view() =~= reproduction_parts(*options));
    join_strings(&parts, " ")
}

// ---------------------------------------------------------------------------
// Loading the docs
// ---------------------------------------------------------------------------

/// Why the docs could not be selected.
#[derive(Clone, Copy, Debug, PartialEq, Eq, Structural)]
pub enum DocsError {
    /// A requested doc path is absolute or climbs out of the repository.
    Path(PathError),
    /// Discovery found no doc at all.
    NoDocs,
}

pub open spec fn docs_error_text(e: DocsError) -> Seq<char> {
    match e {
        DocsError::Path(p) => path_error_text(p),
        DocsError::NoDocs => "no docs were found; pass --docs explicitly or make sure README.md/docs/*.md exist"@,
    }
}

impl DocsError {
    /// The message of the error.
    pub fn to_text(self) -> (s: String)
        ensures
            s@ == docs_error_text(self),
    {
        match self {
            DocsError::Path(p) => p.to_text(),
            DocsError::NoDocs => owned(
                "no docs were found; pass --docs explicitly or make sure README.md/docs/*.md exist",
            ),
        }
    }
}

/// The requested doc paths, each cleaned to its named components under
/// the repository root; the first path that is absolute or climbs out of
/// the repository refuses the whole request.
pub fn requested_doc_paths(requested: &Vec<String>, platform: HostPlatform) -> (r: Result<
    Vec<String>,
    DocsError,
>)
    ensures
        match r {
            Ok(v) => v.len() == requested.len() && forall|i: int|
                0 <= i < v.len() ==> clean_relative(#[trigger] requested.deep_view()[i], platform.windows) == Ok::<
                    Seq<char>,
                    PathError,
                >(v.deep_view()[i]),
            Err(DocsError::Path(e)) => exists|i: int|
                0 <= i < requested.len() && clean_relative(#[trigger] requested.deep_view()[i], platform.windows)
                    == Err::<Seq<char>, PathError>(e) && forall|j: int|
                    0 <= j < i ==> (#[trigger] clean_relative(requested.deep_view()[j], platform.windows)).is_ok(),
            Err(DocsError::NoDocs) => false,
        },
{
    let ghost rv = requested.deep_view();
    let mut out: Vec<String> = Vec::new();
    let mut i: usize = 0;
    while i < requested.len()
        invariant
            i <= requested.len(),
            rv == requested.deep_view(),
            out.len() == i,
            forall|t: int|
                0 <= t < i ==> clean_relative(#[trigger] rv[t], platform.windows) == Ok::<Seq<char>, PathError>(
                    out.deep_view()[t],
                ),
        decreases requested.len() - i,
    {
        assert(rv[i as int] == requested[i as int]@);
        match clean_relative_path(requested[i].as_str(), platform) {
            Ok(c) => {
                let ghost before = out.deep_view();
                out.push(c);
                assert(out.deep_view() =~= before.push(c@));
            },
            Err(e) => {
                assert forall|j: int| 0 <= j < i implies (#[trigger] clean_relative(
                    requested.deep_view()[j],
                    platform.windows,
                )).is_ok() by {
                    assert(clean_relative(rv[j], platform.windows) == Ok::<Seq<char>, PathError>(out.deep_view()[j]));
                }
                return Err(DocsError::Path(e));
            },
        }
        i = i + 1;
    }
    Ok(out)
}

/// The discovered doc paths in path order without repeats, or `NoDocs`
/// when discovery found none.
pub fn discovered_doc_paths(
    readme_exists: bool,
    docs_dir_files: Vec<String>,
    root_files: Vec<String>,
    platform: HostPlatform,
) -> (r: Result<Vec<String>, DocsError>)
    requires
        keys_faithful(docs_dir_files.deep_view(), path_order(platform.windows)),
        keys_faithful(root_files.deep_view(), path_order(platform.windows)),
    ensures
        match r {
            Ok(v) => {
                &&& v.len() > 0
                &&& sorted_by(v.deep_view(), path_order(platform.windows))
                &&& v.deep_view().no_duplicates()
                &&& v.deep_view().to_set() == discovery_candidates(
                    readme_exists,
                    docs_dir_files.deep_view(),
                    root_files.deep_view(),
                ).to_set()
            },
            Err(e) => e == DocsError::NoDocs && discovery_candidates(
                readme_exists,
                docs_dir_files.deep_view(),
                root_files.deep_view(),
            ).len() == 0,
        },
{
    let ghost cand = discovery_candidates(
        readme_exists,
        docs_dir_files.deep_view(),
        root_files.deep_view(),
    );
    let v = auto_discover_docs(readme_exists, docs_dir_files, root_files, platform);
    if v.len() == 0 {
        proof {
            if cand.len() > 0 {
                assert(cand.to_set().contains(cand[0]));
                assert(v.deep_view().to_set().contains(cand[0]));
            }
        }
        Err(DocsError::NoDocs)
    } else {
        Ok(v)
    }
}

/// The bundle entry of one doc: its path and its content cut to
/// `MAX_DOC_FILE_BYTES`, in a text fence.
pub open spec fn doc_chunk(path: Seq<char>, content: Seq<char>) -> Seq<char> {
    "FILE: "@ + path + "\n```text\n"@ + truncate_with(
        content,
        MAX_DOC_FILE_BYTES as nat,
        TRUNCATION_MARKER@,
    ) + "\n```\n\n"@
}

/// The seed docs handed to the agent, filled doc by doc while they fit in
/// `MAX_DOC_BUNDLE_BYTES`.
pub struct DocBundle {
    text: String,
    bytes: usize,
}

impl View for DocBundle {
    type V = Seq<char>;

    closed spec fn view(&self) -> Seq<char> {
        self.text@
    }
}

impl DocBundle {
    #[verifier::type_invariant]
    spec fn inv(&self) -> bool {
        &&& self.bytes == utf8_len(self.text@)
        &&& self.bytes <= MAX_DOC_BUNDLE_BYTES
    }

    /// An empty bundle.
    pub fn new() -> (b: Self)
        ensures
            b@ == Seq::<char>::empty(),
    {
        DocBundle { text: String::new(), bytes: 0 }
    }

    /// Adds the entry of the doc at `path` whose text is `content` when it
    /// still fits. `false` means the bundle is full: the doc is left out,
    /// and so is every later one.
    pub fn offer(&mut self, path: &str, content: &str) -> (added: bool)
        ensures
            added == (utf8_len(old(self)@) + utf8_len(doc_chunk(path@, content@))
                <= MAX_DOC_BUNDLE_BYTES),
            added ==> final(self)@ == old(self)@ + doc_chunk(path@, content@),
            !added ==> final(self)@ == old(self)@,
            utf8_len(final(self)@) <= MAX_DOC_BUNDLE_BYTES,
    {
        proof {
            use_type_invariant(&*self);
        }
        let body = truncate_text(content, MAX_DOC_FILE_BYTES);
        let chunk = cat5("FILE: ", path, "\n```text\n", body.as_str(), "\n```\n\n");
        let r = match utf8_len_within(chunk.as_str(), MAX_DOC_BUNDLE_BYTES - self.bytes) {
            Some(n) => {
                let text = concat(self.text.as_str(), chunk.as_str());
                proof {
                    lemma_utf8_len_add(self.text@, chunk@);
                }
                *self = DocBundle { text, bytes: self.bytes + n };
                true
            },
            None => false,
        };
        proof {
            use_type_invariant(&*self);
        }
        r
    }

    /// The bundled text.
    pub fn text(&self) -> (s: String)
        ensures
            s@ == self@,
            utf8_len(s@) <= MAX_DOC_BUNDLE_BYTES,
    {
        proof {
            use_type_invariant(self);
        }
        self.text.clone()
    }
}

/// What loading the docs observes.
pub open spec fn loaded_observation(paths: Seq<Seq<char>>) -> Seq<char> {
    "Loaded "@ + dec(paths.len()) + " doc file(s): "@ + join(paths, ", "@) + "."@
}

/// The selected docs with their bundle.
pub fn docs_selection(doc_paths: Vec<String>, bundle: &DocBundle) -> (s: DocsSelection)
    ensures
        s.doc_paths.deep_view() == doc_paths.deep_view(),
        s.bundle@ == bundle@,
        s.observations.deep_view() == seq![loaded_observation(doc_paths.deep_view())],
{
    let count = u64_string(doc_paths.len() as u64);
    let names = join_strings(&doc_paths, ", ");
    let note = cat5("Loaded ", count.as_str(), " doc file(s): ", names.as_str(), ".");
    let mut observations: Vec<String> = Vec::new();
    observations.push(note);
    assert(observations.deep_view() =~= seq![loaded_observation(doc_paths.deep_view())]);
    DocsSelection { doc_paths, bundle: bundle.text(), observations }
}

// ---------------------------------------------------------------------------
// The prompt
// ---------------------------------------------------------------------------

/// The closing part of every prompt: the allowed actions and the rules.
pub const PROMPT_RULES: &'static str = "\nReturn exactly one JSON object and nothing else.\nAllowed actions:\n1. {\"kind\":\"read_file\",\"summary\":\"why you need it\",\"path\":\"relative/path/from/repo\"}\n2. {\"kind\":\"run_command\",\"summary\":\"why you are running it\",\"label\":\"short human label\",\"program\":\"python\",\"args\":[\"-m\",\"pip\",\"install\",\".\"],\"cwd\":\"relative/path/from/repo\"}\n3. {\"kind\":\"finish\",\"summary\":\"final verdict summary\",\"verdict\":\"passed|failed|inconclusive\",\"classification\":\"none|docs|product|environment|unclear-audit\",\"suggestions\":[\"next action\"],\"missing_envs\":[\"ENV_NAME\"]}\nRules:\n- Do not use markdown fences.\n- Do not use shell operators such as &&, ||, ;, |, >, or <.\n- Use explicit programs and args.\n- Keep cwd inside the repository root.\n- Read files before guessing when the docs are unclear.\n- Finish with `environment` if missing credentials or host prerequisites block the documented flow.\n- Finish with `docs` if the documented flow is wrong or incomplete.\n- Finish with `product` if the docs look reasonable but the product behavior is broken.\n- Finish with `none` only when the goal is actually complete.\n";

/// Used when no success criteria were given.
pub const NO_CRITERIA: &'static str = "- No explicit success criteria were provided. Use the goal and docs to decide whether the intended flow completed.";

/// The success criteria as a list, or a note that there are none.
pub open spec fn criteria_block(criteria: Seq<Seq<char>>) -> Seq<char> {
    if criteria.len() == 0 {
        NO_CRITERIA@
    } else {
        "- "@ + join(criteria, "\n- "@)
    }
}

/// Names separated by commas, or `(none)`.
pub open spec fn names_or_none(names: Seq<Seq<char>>) -> Seq<char> {
    if names.len() == 0 {
        "(none)"@
    } else {
        join(names, ", "@)
    }
}

/// The prompt of one audit step.
pub open spec fn agent_prompt(
    o: DocsAuditOptions,
    bundle: Seq<char>,
    observations: Seq<Seq<char>>,
    step: u32,
    repo_root: Seq<char>,
    f: SecretSetView,
) -> Seq<char> {
    "You are sdkcheck's audit agent.\nAudit step: "@ + dec(step as nat) + "\nRepository root: "@
        + repo_root + "\nGoal: "@ + o.goal@ + "\nSuccess criteria:\n"@ + criteria_block(
        o.success_criteria.deep_view(),
    ) + "\nForwarded env names available to commands: "@ + names_or_none(
        o.forwarded_env_names.deep_view(),
    ) + "\nForwarded env names requested but missing on the host: "@ + names_or_none(
        sorted_perm(f.missing),
    ) + "\nSeed docs loaded for you:\n"@ + bundle + "\nObservations so far:\n- "@ + join(
        recent(observations),
        "\n- "@,
    ) + PROMPT_RULES@
}

fn names_or_none_text(names: &Vec<String>) -> (r: String)
    ensures
        r@ == names_or_none(names.deep_view()),
{
    if names.len() == 0 {
        owned("(none)")
    } else {
        join_strings(names, ", ")
    }
}

/// The prompt for audit step `step`.
pub fn build_agent_prompt(
    options: &DocsAuditOptions,
    docs_selection: &DocsSelection,
    observations: &Vec<String>,
    step: u32,
    repo_dir: &str,
    forwarded_envs: &SecretSet,
) -> (r: String)
    ensures
        r@ == agent_prompt(
            *options,
            docs_selection.bundle@,
            observations.deep_view(),
            step,
            repo_dir@,
            forwarded_envs@,
        ),
{
    let criteria = if options.success_criteria.len() == 0 {
        owned(NO_CRITERIA)
    } else {
        let j = join_strings(&options.success_criteria, "\n- ");
        concat("- ", j.as_str())
    };
    let env_names = names_or_none_text(&options.forwarded_env_names);
    let missing = forwarded_envs.missing_names();
    let missing_names = names_or_none_text(&missing);
    let recent_obs = recent_observations(observations);
    let obs = join_strings(&recent_obs, "\n- ");
    let n = u64_string(step as u64);
    let mut v: Vec<char> = Vec::new();
    push_str(&mut v, "You are sdkcheck's audit agent.\nAudit step: ");
    push_str(&mut v, n.as_str());
    push_str(&mut v, "\nRepository root: ");
    push_str(&mut v, repo_dir);
    push_str(&mut v, "\nGoal: ");
    push_str(&mut v, options.goal.as_str());
    push_str(&mut v, "\nSuccess criteria:\n");
    push_str(&mut v, criteria.as_str());
    push_str(&mut v, "\nForwarded env names available to commands: ");
    push_str(&mut v, env_names.as_str());
    push_str(&mut v, "\nForwarded env names requested but missing on the host: ");
    push_str(&mut v, missing_names.as_str());
    push_str(&mut v, "\nSeed docs loaded for you:\n");
    push_str(&mut v, docs_selection.bundle.as_str());
    push_str(&mut v, "\nObservations so far:\n- ");
    push_str(&mut v, obs.as_str());
    push_str(&mut v, PROMPT_RULES);
    assert(v@ =~= agent_prompt(
        *options,
        docs_selection.bundle@,
        observations.deep_view(),
        step,
        repo_dir@,
        forwarded_envs@,
    ));
    string_from_chars(&v)
}

// ---------------------------------------------------------------------------
// The agent loop
// ---------------------------------------------------------------------------

/// What the audit has gathered for its report: the steps it took, what it
/// observed about the docs, and the evidence of every command.
pub struct AuditEvidence {
    pub audit_steps: Vec<String>,
    pub docs_observations: Vec<String>,
    pub commands: Vec<CommandResult>,
}

impl AuditEvidence {
    /// Nothing gathered yet.
    pub fn new() -> (e: Self)
        ensures
            e.audit_steps.deep_view() == Seq::<Seq<char>>::empty(),
            e.docs_observations.deep_view() == Seq::<Seq<char>>::empty(),
            e.commands@ == Seq::<CommandResult>::empty(),
    {
        let e = AuditEvidence {
            audit_steps: Vec::new(),
            docs_observations: Vec::new(),
            commands: Vec::new(),
        };
        assert(e.audit_steps.deep_view() =~= Seq::<Seq<char>>::empty());
        assert(e.docs_observations.deep_view() =~= Seq::<Seq<char>>::empty());
        e
    }
}

/// The step in which the agent proposed an action.
pub open spec fn step_prefix(step: u32) -> Seq<char> {
    "Step "@ + dec(step as nat)
}

/// What the agent is told before its first step.
pub open spec fn initial_observations(
    o: DocsAuditOptions,
    doc_paths: Seq<Seq<char>>,
    f: SecretSetView,
) -> Seq<Seq<char>> {
    let base = seq!["Audit goal: "@ + o.goal@, "Seed docs: "@ + join(doc_paths, ", "@)];
    let with_criteria = if o.success_criteria.len() > 0 {
        base.push("Success criteria:\n- "@ + join(o.success_criteria.deep_view(), "\n- "@))
    } else {
        base
    };
    let with_names = if f.names.len() > 0 {
        with_criteria.push("Forwarded env names available to commands: "@ + join(f.names, ", "@))
    } else {
        with_criteria
    };
    if f.missing.len() > 0 {
        with_names.push(
            "Forwarded env names requested but missing on the host: "@ + join(
                sorted_perm(f.missing),
                ", "@,
            ),
        )
    } else {
        with_names
    }
}

/// The state of the agent loop: what the agent has been told so far, the
/// current step and the last step it may take.
pub struct AgentSessionView {
    pub observations: Seq<Seq<char>>,
    pub step: u32,
    pub limit: u32,
}

/// The agent loop, one step at a time.
pub struct AgentSession {
    observations: Vec<String>,
    step: u32,
    limit: u32,
}

impl View for AgentSession {
    type V = AgentSessionView;

    closed spec fn view(&self) -> AgentSessionView {
        AgentSessionView {
            observations: self.observations.deep_view(),
            step: self.step,
            limit: self.limit,
        }
    }
}

/// What the caller does next for the agent.
pub enum AgentMove {
    /// Read the file at `path` (`relative` under the repository) and hand
    /// its text to `record_read`.
    Read { path: String, relative: String, summary: String },
    /// Run `command` and hand its outcome to `record_run`.
    Run { command: CommandSpec },
    /// Nothing to do; go on with the next step.
    Skip,
    /// The agent reached its verdict.
    Finish { finish: AgentFinish },
}

/// The observation for a refused path.
pub open spec fn invalid_path_note(step: u32, path: Seq<char>, e: PathError) -> Seq<char> {
    step_prefix(step) + ": agent requested an invalid file path `"@ + path + "` ("@
        + path_error_text(e) + ")."@
}

/// The observation for a refused working directory.
pub open spec fn invalid_cwd_note(step: u32, cwd: Seq<char>, e: PathError) -> Seq<char> {
    step_prefix(step) + ": agent requested invalid cwd `"@ + cwd + "` ("@ + path_error_text(e)
        + ")."@
}

/// The label of a command the agent runs: its label, or its summary when
/// the label is blank.
pub open spec fn command_label(summary: Seq<char>, label: Seq<char>) -> Seq<char> {
    if trim(label).len() == 0 {
        summary
    } else {
        label
    }
}

/// A command the agent runs is recorded under its label, or under its
/// summary when the label is empty or only whitespace.
pub proof fn lemma_command_label_rules(summary: Seq<char>, label: Seq<char>)
    ensures
        trim(label).len() == 0 ==> command_label(summary, label) == summary,
        trim(label).len() > 0 ==> command_label(summary, label) == label,
{
}

/// The evidence left by a command that could not be started.
pub open spec fn start_failure(c: CommandResult, label: Seq<char>, repo_dir: Seq<char>, error: Seq<
    char,
>) -> bool {
    &&& c.label@ == label
    &&& c.command@ == "[sdkcheck internal failure before command start]"@
    &&& c.cwd@ == repo_dir
    &&& c.exit_code is None
    &&& !c.success
    &&& !c.timed_out
    &&& c.stdout@ == Seq::<char>::empty()
    &&& c.stderr@ == error
    &&& c.duration_ms == 0
}

fn push_note(v: &mut Vec<String>, note: String)
    ensures
        final(v).deep_view() == old(v).deep_view().push(note@),
{
    let ghost before = v.deep_view();
    v.push(note);
    assert(v.deep_view() =~= before.push(note@));
}

fn step_text(step: u32) -> (r: String)
    ensures
        r@ == step_prefix(step),
{
    let n = u64_string(step as u64);
    concat("Step ", n.as_str())
}

impl AgentSession {
    /// A session told the goal, the seed docs, the success criteria and
    /// the forwarded and missing env names, before its first step; it may
    /// take `max_steps` steps, and at least one.
    pub fn start(
        options: &DocsAuditOptions,
        docs_selection: &DocsSelection,
        forwarded_envs: &SecretSet,
    ) -> (s: Self)
        ensures
            s@.observations == initial_observations(
                *options,
                docs_selection.doc_paths.deep_view(),
                forwarded_envs@,
            ),
            s@.step == 0,
            s@.limit == if options.max_steps < 1 {
                1
            } else {
                options.max_steps
            },
    {
        let mut obs: Vec<String> = Vec::new();
        push_note(&mut obs, concat("Audit goal: ", options.goal.as_str()));
        let docs = join_strings(&docs_selection.doc_paths, ", ");
        push_note(&mut obs, concat("Seed docs: ", docs.as_str()));
        if options.success_criteria.len() > 0 {
            let c = join_strings(&options.success_criteria, "\n- ");
            push_note(&mut obs, concat("Success criteria:\n- ", c.as_str()));
        }
        let names = forwarded_envs.names();
        if names.len() > 0 {
            let n = join_strings(&names, ", ");
            push_note(&mut obs, concat("Forwarded env names available to commands: ", n.as_str()));
        }
        let missing = forwarded_envs.missing_names();
        proof {
            missing.deep_view().to_multiset_ensures();
            forwarded_envs@.missing.to_multiset_ensures();
        }
        if missing.len() > 0 {
            let m = join_strings(&missing, ", ");
            push_note(
                &mut obs,
                concat("Forwarded env names requested but missing on the host: ", m.as_str()),
            );
        }
        assert(obs.deep_view() =~= initial_observations(
            *options,
            docs_selection.doc_paths.deep_view(),
            forwarded_envs@,
        ));
        let limit: u32 = if options.max_steps < 1 {
            1
        } else {
            options.max_steps
        };
        AgentSession { observations: obs, step: 0, limit }
    }

    /// What the agent has been told so far.
    pub fn observations(&self) -> (r: &Vec<String>)
        ensures
            r.deep_view() == self@.observations,
    {
        &self.observations
    }

    /// Starts the next step and returns its number, or `None` when the
    /// session has used all its steps.
    pub fn begin_step(&mut self) -> (r: Option<u32>)
        ensures
            final(self)@.observations == old(self)@.observations,
            final(self)@.limit == old(self)@.limit,
            old(self)@.step < old(self)@.limit ==> r == Some((old(self)@.step + 1) as u32)
                && final(self)@.step == old(self)@.step + 1,
            old(self)@.step >= old(self)@.limit ==> r is None && final(self)@.step == old(
                self,
            )@.step,
    {
        if self.step < self.limit {
            self.step = self.step + 1;
            Some(self.step)
        } else {
            None
        }
    }

    /// The prompt of the current step.
    pub fn prompt(
        &self,
        options: &DocsAuditOptions,
        docs_selection: &DocsSelection,
        repo_dir: &str,
        forwarded_envs: &SecretSet,
    ) -> (r: String)
        ensures
            r@ == agent_prompt(
                *options,
                docs_selection.bundle@,
                self@.observations,
                self@.step,
                repo_dir@,
                forwarded_envs@,
            ),
    {
        build_agent_prompt(
            options,
            docs_selection,
            &self.observations,
            self.step,
            repo_dir,
            forwarded_envs,
        )
    }

    /// Checks the action the agent proposed in the current step and says
    /// what to do about it. A file to read and a working directory must be
    /// relative paths that stay inside the repository; a refused one is
    /// noted and the step ends. A command is labelled by its label, or its
    /// summary when the label is blank, and runs with `command_env`. A
    /// finish ends the loop with the agent's verdict.
    pub fn apply_action(
        &mut self,
        evidence: &mut AuditEvidence,
        action: AgentAction,
        repo_dir: &str,
        forwarded_envs: &SecretSet,
        platform: HostPlatform,
    ) -> (mv: AgentMove)
        ensures
            final(self)@.step == old(self)@.step,
            final(self)@.limit == old(self)@.limit,
            final(evidence).docs_observations.deep_view() == old(
                evidence,
            ).docs_observations.deep_view(),
            final(evidence).commands@ == old(evidence).commands@,
            match action {
                AgentAction::ReadFile { summary, path } => match clean_relative(path@, platform.windows) {
                    Err(e) => {
                        &&& mv is Skip
                        &&& final(self)@.observations == old(self)@.observations.push(
                            invalid_path_note(old(self)@.step, path@, e),
                        )
                        &&& final(evidence).audit_steps.deep_view() == old(
                            evidence,
                        ).audit_steps.deep_view().push(
                            step_prefix(old(self)@.step) + ": agent requested invalid path `"@
                                + path@ + "`."@,
                        )
                    },
                    Ok(c) => {
                        &&& (mv matches AgentMove::Read { path: p, relative: rel, summary: sm }
                            && p@ == path_join(repo_dir@, c, platform.windows) && rel@ == c && sm@ == summary@)
                        &&& final(self)@.observations == old(self)@.observations
                        &&& final(evidence).audit_steps.deep_view() == old(
                            evidence,
                        ).audit_steps.deep_view()
                    },
                },
                AgentAction::RunCommand { summary, label, program, args, cwd } => {
                    let cwd_text = match cwd {
                        Some(c) => c@,
                        None => "."@,
                    };
                    match clean_relative(cwd_text, platform.windows) {
                        Err(e) => {
                            &&& mv is Skip
                            &&& final(self)@.observations == old(self)@.observations.push(
                                invalid_cwd_note(old(self)@.step, cwd_text, e),
                            )
                            &&& final(evidence).audit_steps.deep_view() == old(
                                evidence,
                            ).audit_steps.deep_view().push(
                                step_prefix(old(self)@.step) + ": agent requested invalid cwd `"@
                                    + cwd_text + "`."@,
                            )
                        },
                        Ok(c) => {
                            let lab = command_label(summary@, label@);
                            &&& (mv matches AgentMove::Run { command: cmd } && cmd.label@ == lab
                                && cmd.program@ == program@ && cmd.args.deep_view()
                                == args.deep_view() && cmd.cwd@ == path_join(repo_dir@, c, platform.windows)
                                && cmd.env@ == map_extend(
                                empty_env_map(),
                                command_env_spec(forwarded_envs@),
                            ))
                            &&& final(self)@.observations == old(self)@.observations
                            &&& final(evidence).audit_steps.deep_view() == old(
                                evidence,
                            ).audit_steps.deep_view().push(
                                step_prefix(old(self)@.step) + ": run `"@ + lab + "` ("@ + summary@
                                    + ")."@,
                            )
                        },
                    }
                },
                AgentAction::Finish { summary, verdict, classification, suggestions, missing_envs } => {
                    &&& (mv matches AgentMove::Finish { finish: f } && f.verdict == verdict
                        && f.classification == classification && f.summary@ == summary@
                        && f.suggestions.deep_view() == suggestions.deep_view()
                        && f.missing_envs.deep_view() == missing_envs.deep_view())
                    &&& final(self)@.observations == old(self)@.observations
                    &&& final(evidence).audit_steps.deep_view() == old(
                        evidence,
                    ).audit_steps.deep_view().push(step_prefix(old(self)@.step) + ": finish audit."@)
                },
            },
    {
        let step = step_text(self.step);
        match action {
            AgentAction::ReadFile { summary, path } => {
                match clean_relative_path(path.as_str(), platform) {
                    Err(e) => {
                        let et = e.to_text();
                        let mut v: Vec<char> = Vec::new();
                        push_str(&mut v, step.as_str());
                        push_str(&mut v, ": agent requested an invalid file path `");
                        push_str(&mut v, path.as_str());
                        push_str(&mut v, "` (");
                        push_str(&mut v, et.as_str());
                        push_str(&mut v, ").");
                        assert(v@ =~= invalid_path_note(self@.step, path@, e));
                        push_note(&mut self.observations, string_from_chars(&v));
                        push_note(
                            &mut evidence.audit_steps,
                            cat4(
                                step.as_str(),
                                ": agent requested invalid path `",
                                path.as_str(),
                                "`.",
                            ),
                        );
                        AgentMove::Skip
                    },
                    Ok(c) => {
                        let p = join_path(repo_dir, c.as_str(), platform);
                        AgentMove::Read { path: p, relative: c, summary }
                    },
                }
            },
            AgentAction::RunCommand { summary, label, program, args, cwd } => {
                let cwd_text = match cwd {
                    Some(c) => c,
                    None => owned("."),
                };
                match clean_relative_path(cwd_text.as_str(), platform) {
                    Err(e) => {
                        let et = e.to_text();
                        let mut v: Vec<char> = Vec::new();
                        push_str(&mut v, step.as_str());
                        push_str(&mut v, ": agent requested invalid cwd `");
                        push_str(&mut v, cwd_text.as_str());
                        push_str(&mut v, "` (");
                        push_str(&mut v, et.as_str());
                        push_str(&mut v, ").");
                        assert(v@ =~= invalid_cwd_note(self@.step, cwd_text@, e));
                        push_note(&mut self.observations, string_from_chars(&v));
                        push_note(
                            &mut evidence.audit_steps,
                            cat4(
                                step.as_str(),
                                ": agent requested invalid cwd `",
                                cwd_text.as_str(),
                                "`.",
                            ),
                        );
                        AgentMove::Skip
                    },
                    Ok(c) => {
                        let lab = if is_blank(label.as_str()) {
                            summary.clone()
                        } else {
                            label
                        };
                        let mut v: Vec<char> = Vec::new();
                        push_str(&mut v, step.as_str());
                        push_str(&mut v, ": run `");
                        push_str(&mut v, lab.as_str());
                        push_str(&mut v, "` (");
                        push_str(&mut v, summary.as_str());
                        push_str(&mut v, ").");
                        push_note(&mut evidence.audit_steps, string_from_chars(&v));
                        let resolved = join_path(repo_dir, c.as_str(), platform);
                        let command = CommandSpec::new(
                            lab.as_str(),
                            program.as_str(),
                            resolved.as_str(),
                        ).args(args).envs(command_env(forwarded_envs));
                        AgentMove::Run { command }
                    },
                }
            },
            AgentAction::Finish { summary, verdict, classification, suggestions, missing_envs } => {
                push_note(&mut evidence.audit_steps, concat(step.as_str(), ": finish audit."));
                AgentMove::Finish {
                    finish: AgentFinish { verdict, classification, summary, suggestions, missing_envs },
                }
            },
        }
    }

    /// Records the outcome of reading the file at `relative`: its text, cut
    /// to `MAX_FILE_READ_BYTES`, or why it could not be read.
    pub fn record_read(
        &mut self,
        evidence: &mut AuditEvidence,
        relative: &str,
        summary: &str,
        content: Result<String, String>,
    )
        ensures
            final(self)@.step == old(self)@.step,
            final(self)@.limit == old(self)@.limit,
            final(evidence).commands@ == old(evidence).commands@,
            match content {
                Ok(t) => {
                    &&& final(self)@.observations == old(self)@.observations.push(
                        step_prefix(old(self)@.step) + ": file `"@ + relative@ + "` content:\n"@
                            + truncate_with(t@, MAX_FILE_READ_BYTES as nat, TRUNCATION_MARKER@),
                    )
                    &&& final(evidence).audit_steps.deep_view() == old(
                        evidence,
                    ).audit_steps.deep_view().push(
                        step_prefix(old(self)@.step) + ": read `"@ + relative@ + "` ("@ + summary@
                            + ")."@,
                    )
                    &&& final(evidence).docs_observations.deep_view() == old(
                        evidence,
                    ).docs_observations.deep_view().push("Agent read `"@ + relative@ + "`."@)
                },
                Err(e) => {
                    &&& final(self)@.observations == old(self)@.observations.push(
                        step_prefix(old(self)@.step) + ": failed to read `"@ + relative@ + "` ("@
                            + e@ + ")."@,
                    )
                    &&& final(evidence).audit_steps.deep_view() == old(
                        evidence,
                    ).audit_steps.deep_view().push(
                        step_prefix(old(self)@.step) + ": failed to read `"@ + relative@ + "`."@,
                    )
                    &&& final(evidence).docs_observations.deep_view() == old(
                        evidence,
                    ).docs_observations.deep_view()
                },
            },
    {
        let step = step_text(self.step);
        match content {
            Ok(t) => {
                let mut v: Vec<char> = Vec::new();
                push_str(&mut v, step.as_str());
                push_str(&mut v, ": read `");
                push_str(&mut v, relative);
                push_str(&mut v, "` (");
                push_str(&mut v, summary);
                push_str(&mut v, ").");
                push_note(&mut evidence.audit_steps, string_from_chars(&v));
                push_note(&mut evidence.docs_observations, cat3("Agent read `", relative, "`."));
                let body = truncate_text(t.as_str(), MAX_FILE_READ_BYTES);
                push_note(
                    &mut self.observations,
                    cat5(step.as_str(), ": file `", relative, "` content:\n", body.as_str()),
                );
            },
            Err(e) => {
                let mut v: Vec<char> = Vec::new();
                push_str(&mut v, step.as_str());
                push_str(&mut v, ": failed to read `");
                push_str(&mut v, relative);
                push_str(&mut v, "` (");
                push_str(&mut v, e.as_str());
                push_str(&mut v, ").");
                push_note(&mut self.observations, string_from_chars(&v));
                push_note(
                    &mut evidence.audit_steps,
                    cat4(step.as_str(), ": failed to read `", relative, "`."),
                );
            },
        }
    }

    /// Records the outcome of running the command labelled `label`: its
    /// evidence, or, when it could not be started, evidence of that with
    /// the error.
    pub fn record_run(
        &mut self,
        evidence: &mut AuditEvidence,
        label: &str,
        repo_dir: &str,
        result: Result<CommandResult, String>,
    )
        ensures
            final(self)@.step == old(self)@.step,
            final(self)@.limit == old(self)@.limit,
            final(evidence).audit_steps.deep_view() == old(evidence).audit_steps.deep_view(),
            final(evidence).docs_observations.deep_view() == old(
                evidence,
            ).docs_observations.deep_view(),
            match result {
                Ok(c) => {
                    &&& final(self)@.observations == old(self)@.observations.push(
                        command_observation_text(old(self)@.step, c),
                    )
                    &&& final(evidence).commands@ == old(evidence).commands@.push(c)
                },
                Err(e) => {
                    &&& final(self)@.observations == old(self)@.observations.push(
                        step_prefix(old(self)@.step) + ": failed to start `"@ + label@ + "` ("@
                            + e@ + ")."@,
                    )
                    &&& final(evidence).commands@.len() == old(evidence).commands@.len() + 1
                    &&& final(evidence).commands@.drop_last() == old(evidence).commands@
                    &&& start_failure(final(evidence).commands@.last(), label@, repo_dir@, e@)
                },
            },
    {
        match result {
            Ok(c) => {
                push_note(&mut self.observations, command_observation(self.step, &c));
                evidence.commands.push(c);
            },
            Err(e) => {
                let step = step_text(self.step);
                let mut v: Vec<char> = Vec::new();
                push_str(&mut v, step.as_str());
                push_str(&mut v, ": failed to start `");
                push_str(&mut v, label);
                push_str(&mut v, "` (");
                push_str(&mut v, e.as_str());
                push_str(&mut v, ").");
                push_note(&mut self.observations, string_from_chars(&v));
                let c = CommandResult {
                    label: owned(label),
                    command: owned("[sdkcheck internal failure before command start]"),
                    cwd: owned(repo_dir),
                    exit_code: None,
                    success: false,
                    timed_out: false,
                    stdout: String::new(),
                    stderr: e,
                    duration_ms: 0,
                };
                let ghost before = evidence.commands@;
                evidence.commands.push(c);
                assert(evidence.commands@.drop_last() =~= before);
            },
        }
    }

    /// The verdict when the agent used all its steps without finishing.
    pub fn out_of_steps(&self) -> (f: AgentFinish)
        ensures
            f.verdict == AgentVerdict::Inconclusive,
            f.classification == FailureClassification::UnclearAudit,
            f.summary@ == "sdkcheck stopped after "@ + dec(self@.limit as nat)
                + " agent steps without a final verdict."@,
            f.suggestions.deep_view() == seq![
                "Increase --max-steps if the docs require a longer setup path."@,
                "Tighten --docs and --success so the agent has a narrower target."@,
            ],
            f.missing_envs.deep_view() == Seq::<Seq<char>>::empty(),
    {
        let n = u64_string(self.limit as u64);
        let mut suggestions: Vec<String> = Vec::new();
        suggestions.push(owned("Increase --max-steps if the docs require a longer setup path."));
        suggestions.push(owned("Tighten --docs and --success so the agent has a narrower target."));
        let f = AgentFinish {
            verdict: AgentVerdict::Inconclusive,
            classification: FailureClassification::UnclearAudit,
            summary: cat3(
                "sdkcheck stopped after ",
                n.as_str(),
                " agent steps without a final verdict.",
            ),
            suggestions,
            missing_envs: Vec::new(),
        };
        assert(f.suggestions.deep_view() =~= seq![
            "Increase --max-steps if the docs require a longer setup path."@,
            "Tighten --docs and --success so the agent has a narrower target."@,
        ]);
        assert(f.missing_envs.deep_view() =~= Seq::<Seq<char>>::empty());
        f
    }
}

/// A failed verdict with one suggestion.
fn failed_with(
    classification: FailureClassification,
    summary: String,
    suggestion: &str,
) -> (f: AgentFinish)
    ensures
        f.verdict == AgentVerdict::Failed,
        f.classification == classification,
        f.summary@ == summary@,
        f.suggestions.deep_view() == seq![suggestion@],
        f.missing_envs.deep_view() == Seq::<Seq<char>>::empty(),
{
    let mut suggestions: Vec<String> = Vec::new();
    suggestions.push(owned(suggestion));
    let f = AgentFinish {
        verdict: AgentVerdict::Failed,
        classification,
        summary,
        suggestions,
        missing_envs: Vec::new(),
    };
    assert(f.suggestions.deep_view() =~= seq![suggestion@]);
    assert(f.missing_envs.deep_view() =~= Seq::<Seq<char>>::empty());
    f
}

/// The verdict when the agent could not be asked for its next action.
pub fn agent_unreachable(error: &str) -> (f: AgentFinish)
    ensures
        f.verdict == AgentVerdict::Failed,
        f.classification == FailureClassification::Environment,
        f.summary@ == "sdkcheck could not get the next action from the audit agent: "@ + error@,
        f.suggestions.deep_view() == seq![
            "Verify the audit agent endpoint, API key, and model, then retry the audit."@,
        ],
        f.missing_envs.deep_view() == Seq::<Seq<char>>::empty(),
{
    failed_with(
        FailureClassification::Environment,
        concat("sdkcheck could not get the next action from the audit agent: ", error),
        "Verify the audit agent endpoint, API key, and model, then retry the audit.",
    )
}

/// The verdict when the agent could not be set up; notes that no command
/// ran.
pub fn agent_start_failed(evidence: &mut AuditEvidence, error: &str) -> (f: AgentFinish)
    ensures
        f.verdict == AgentVerdict::Failed,
        f.classification == FailureClassification::Environment,
        f.summary@ == "sdkcheck could not start the audit agent: "@ + error@,
        f.suggestions.deep_view() == seq![
            "Set a valid audit agent API key, base URL, and model before retrying."@,
        ],
        f.missing_envs.deep_view() == Seq::<Seq<char>>::empty(),
        final(evidence).docs_observations.deep_view() == old(
            evidence,
        ).docs_observations.deep_view().push(
            "Audit agent configuration failed before command execution."@,
        ),
        final(evidence).audit_steps.deep_view() == old(evidence).audit_steps.deep_view(),
        final(evidence).commands@ == old(evidence).commands@,
{
    push_note(
        &mut evidence.docs_observations,
        owned("Audit agent configuration failed before command execution."),
    );
    failed_with(
        FailureClassification::Environment,
        concat("sdkcheck could not start the audit agent: ", error),
        "Set a valid audit agent API key, base URL, and model before retrying.",
    )
}

/// The verdict when the docs could not be loaded; notes the error.
pub fn docs_load_failed(evidence: &mut AuditEvidence, error: &str) -> (f: AgentFinish)
    ensures
        f.verdict == AgentVerdict::Failed,
        f.classification == FailureClassification::Docs,
        f.summary@ == "sdkcheck could not load the requested docs: "@ + error@,
        f.suggestions.deep_view() == seq![
            "Pass valid --docs paths or make sure README.md/docs/*.md exist in the target repository."@,
        ],
        f.missing_envs.deep_view() == Seq::<Seq<char>>::empty(),
        final(evidence).docs_observations.deep_view() == old(
            evidence,
        ).docs_observations.deep_view().push("Failed to load docs: "@ + error@),
        final(evidence).audit_steps.deep_view() == old(evidence).audit_steps.deep_view(),
        final(evidence).commands@ == old(evidence).commands@,
{
    push_note(&mut evidence.docs_observations, concat("Failed to load docs: ", error));
    failed_with(
        FailureClassification::Docs,
        concat("sdkcheck could not load the requested docs: ", error),
        "Pass valid --docs paths or make sure README.md/docs/*.md exist in the target repository.",
    )
}

// ---------------------------------------------------------------------------
// The run
// ---------------------------------------------------------------------------

/// The folder of one run under `runs/`: the target's name and the time the
/// run started.
pub open spec fn run_folder(target: Seq<char>, timestamp: Seq<char>) -> Seq<char> {
    target + "-"@ + timestamp
}

/// The run folder's name for a run started at `timestamp`.
pub fn run_folder_name_at(repo: &str, local_name: Option<&str>, timestamp: &str) -> (r: String)
    ensures
        r@ == run_folder(
            target_name(
                repo@,
                name_view(local_name),
            ),
            timestamp@,
        ),
{
    let target = audit_target_name(repo, local_name);
    cat3(target.as_str(), "-", timestamp)
}

/// Where a run keeps its files: `runs/<folder>` under the work directory,
/// which is taken relative to `current_dir` unless it is absolute.
pub fn run_dir_path(current_dir: &str, workdir: &str, folder: &str, platform: HostPlatform) -> (r:
    String)
    ensures
        r@ == path_join(
            path_join(path_join(current_dir@, workdir@, platform.windows), "runs"@, platform.windows),
            folder@,
            platform.windows,
        ),
{
    let base = join_path(current_dir, workdir, platform);
    let runs = join_path(base.as_str(), "runs", platform);
    join_path(runs.as_str(), folder, platform)
}

/// Where the audited repository is cloned.
pub fn repo_dir_path(run_dir: &str, platform: HostPlatform) -> (r: String)
    ensures
        r@ == path_join(run_dir@, "repo"@, platform.windows),
{
    join_path(run_dir, "repo", platform)
}

/// Notes the clone step and returns the command that clones `source` into
/// `repo` under the run folder, outside any container.
pub fn clone_command(evidence: &mut AuditEvidence, repo: &str, run_dir: &str, source: &str) -> (c:
    CommandSpec)
    ensures
        final(evidence).audit_steps.deep_view() == old(evidence).audit_steps.deep_view().push(
            "Clone audit repository `"@ + repo@ + "` into the isolated run directory."@,
        ),
        final(evidence).docs_observations.deep_view() == old(evidence).docs_observations.deep_view(),
        final(evidence).commands@ == old(evidence).commands@,
        c.label@ == "clone audit repository"@,
        c.program@ == "git"@,
        c.args.deep_view() == seq!["clone"@, "--depth"@, "1"@, source@, "repo"@],
        c.cwd@ == run_dir@,
        c.env@ == empty_env_map(),
{
    push_note(
        &mut evidence.audit_steps,
        cat3("Clone audit repository `", repo, "` into the isolated run directory."),
    );
    let mut args: Vec<String> = Vec::new();
    args.push(owned("clone"));
    args.push(owned("--depth"));
    args.push(owned("1"));
    args.push(owned(source));
    args.push(owned("repo"));
    let c = CommandSpec::new("clone audit repository", "git", run_dir).args(args);
    assert(c.args.deep_view() =~= seq!["clone"@, "--depth"@, "1"@, source@, "repo"@]);
    c
}

/// Notes that the seed docs were loaded.
pub fn docs_loaded(evidence: &mut AuditEvidence, docs_selection: &DocsSelection)
    ensures
        final(evidence).audit_steps.deep_view() == old(evidence).audit_steps.deep_view().push(
            "Load seed docs for the agent: "@ + join(docs_selection.doc_paths.deep_view(), ", "@)
                + "."@,
        ),
        final(evidence).docs_observations.deep_view() == old(evidence).docs_observations.deep_view()
            + docs_selection.observations.deep_view(),
        final(evidence).commands@ == old(evidence).commands@,
{
    let names = join_strings(&docs_selection.doc_paths, ", ");
    push_note(
        &mut evidence.audit_steps,
        cat3("Load seed docs for the agent: ", names.as_str(), "."),
    );
    let ghost start = evidence.docs_observations.deep_view();
    let ghost steps = evidence.audit_steps.deep_view();
    let ghost commands = evidence.commands@;
    let ghost added = docs_selection.observations.deep_view();
    let mut i: usize = 0;
    while i < docs_selection.observations.len()
        invariant
            i <= docs_selection.observations.len(),
            added == docs_selection.observations.deep_view(),
            evidence.docs_observations.deep_view() == start + added.take(i as int),
            evidence.audit_steps.deep_view() == steps,
            evidence.commands@ == commands,
        decreases docs_selection.observations.len() - i,
    {
        assert(added[i as int] == docs_selection.observations[i as int]@);
        push_note(&mut evidence.docs_observations, docs_selection.observations[i].clone());
        assert(added.take(i + 1) =~= added.take(i as int).push(added[i as int]));
        i = i + 1;
    }
    assert(added.take(added.len() as int) =~= added);
}

/// The endpoint the agent is asked at: the base URL without trailing '/'
/// followed by `/chat/completions`.
pub fn agent_endpoint(base_url: &str) -> (r: String)
    ensures
        r@ == trim_end_slashes(base_url@) + "/chat/completions"@,
{
    let c = to_chars(base_url);
    let mut end: usize = c.len();
    assert(c@.take(end as int) =~= c@);
    while end > 0 && c[end - 1] == '/'
        invariant
            end <= c.len(),
            c@ == base_url@,
            trim_end_slashes(base_url@) == trim_end_slashes(c@.take(end as int)),
        decreases end,
    {
        assert(c@.take(end as int).drop_last() =~= c@.take(end - 1));
        end = end - 1;
    }
    let mut v: Vec<char> = Vec::new();
    let mut k: usize = 0;
    while k < end
        invariant
            k <= end <= c.len(),
            v@ == c@.take(k as int),
        decreases end - k,
    {
        v.push(c[k]);
        assert(c@.take(k + 1) =~= c@.take(k as int).push(c@[k as int]));
        k = k + 1;
    }
    push_str(&mut v, "/chat/completions");
    string_from_chars(&v)
}

/// The audit agent cannot start without a model name.
pub open spec fn missing_model_text() -> Seq<char> {
    "missing audit agent model; pass --agent-model or set SDKCHECK_AGENT_MODEL"@
}

/// Why the agent cannot be asked: no model was named (a blank name).
pub fn agent_model_error(model: &str) -> (r: Option<String>)
    ensures
        match r {
            Some(e) => trim(model@).len() == 0 && e@ == missing_model_text(),
            None => trim(model@).len() > 0,
        },
{
    if is_blank(model) {
        Some(owned("missing audit agent model; pass --agent-model or set SDKCHECK_AGENT_MODEL"))
    } else {
        None
    }
}

/// A file in a snapshot of the repository: its path under the repository
/// and its stamp.
#[derive(Clone, Debug)]
pub struct FileEntry {
    pub path: String,
    pub stamp: FileStamp,
}

/// At most `MAX_GENERATED_FILES` paths are listed.
pub proof fn lemma_changed_upto_len(current: Seq<FileEntry>, baseline: Seq<FileEntry>, n: int)
    ensures
        changed_upto(current, baseline, n).len() <= MAX_GENERATED_FILES,
    decreases n,
{
    if n > 0 {
        lemma_changed_upto_len(current, baseline, n - 1);
    }
}

/// The stamp a snapshot holds for `path`.
pub open spec fn stamp_of(snapshot: Seq<FileEntry>, path: Seq<char>) -> Option<FileStamp>
    decreases snapshot.len(),
{
    if snapshot.len() == 0 {
        None
    } else if snapshot[0].path@ == path {
        Some(snapshot[0].stamp)
    } else {
        stamp_of(snapshot.drop_first(), path)
    }
}

/// The first `MAX_GENERATED_FILES` paths among the first `n` files of the
/// current snapshot that are new or changed since the baseline, in
/// snapshot order.
pub open spec fn changed_upto(current: Seq<FileEntry>, baseline: Seq<FileEntry>, n: int) -> Seq<
    Seq<char>,
>
    decreases n,
{
    if n <= 0 {
        seq![]
    } else {
        let prev = changed_upto(current, baseline, n - 1);
        let e = current[n - 1];
        if prev.len() < MAX_GENERATED_FILES && stamp_of(baseline, e.path@) != Some(e.stamp) {
            prev.push(e.path@)
        } else {
            prev
        }
    }
}

proof fn lemma_stamp_of_found(snapshot: Seq<FileEntry>, path: Seq<char>)
    ensures
        stamp_of(snapshot, path) is Some ==> exists|b: int|
            0 <= b < snapshot.len() && (#[trigger] snapshot[b]).path@ == path && snapshot[b].stamp
                == stamp_of(snapshot, path)->Some_0,
    decreases snapshot.len(),
{
    if snapshot.len() > 0 && snapshot[0].path@ != path {
        lemma_stamp_of_found(snapshot.drop_first(), path);
        if stamp_of(snapshot, path) is Some {
            let b = choose|b: int|
                0 <= b < snapshot.drop_first().len() && (#[trigger] snapshot.drop_first()[b]).path@
                    == path && snapshot.drop_first()[b].stamp == stamp_of(snapshot, path)->Some_0;
            assert(snapshot[b + 1] == snapshot.drop_first()[b]);
        }
    }
}

proof fn lemma_stamp_of_unique(snapshot: Seq<FileEntry>, b: int)
    requires
        0 <= b < snapshot.len(),
        forall|x: int, y: int|
            0 <= x < y < snapshot.len() ==> (#[trigger] snapshot[x]).path@ != (#[trigger] snapshot[y]).path@,
    ensures
        stamp_of(snapshot, snapshot[b].path@) == Some(snapshot[b].stamp),
    decreases snapshot.len(),
{
    if b > 0 {
        let rest = snapshot.drop_first();
        assert(snapshot[0].path@ != snapshot[b].path@);
        assert forall|x: int, y: int| 0 <= x < y < rest.len() implies (#[trigger] rest[x]).path@ != (
        #[trigger] rest[y]).path@ by {
            assert(rest[x] == snapshot[x + 1] && rest[y] == snapshot[y + 1]);
        }
        assert(rest[b - 1] == snapshot[b]);
        lemma_stamp_of_unique(rest, b - 1);
    }
}

/// The list over more files extends the list over fewer.
proof fn lemma_changed_prefix(current: Seq<FileEntry>, baseline: Seq<FileEntry>, n: int, m: int)
    requires
        0 <= n <= m <= current.len(),
    ensures
        changed_upto(current, baseline, n).len() <= changed_upto(current, baseline, m).len(),
        changed_upto(current, baseline, m).take(changed_upto(current, baseline, n).len() as int)
            == changed_upto(current, baseline, n),
    decreases m - n,
{
    if n < m {
        lemma_changed_prefix(current, baseline, n, m - 1);
        let a = changed_upto(current, baseline, n);
        let p = changed_upto(current, baseline, m - 1);
        let q = changed_upto(current, baseline, m);
        assert(q.take(a.len() as int) =~= p.take(a.len() as int));
    } else {
        assert(changed_upto(current, baseline, m).take(changed_upto(current, baseline, n).len() as int)
            =~= changed_upto(current, baseline, n));
    }
}

proof fn lemma_changed_members(current: Seq<FileEntry>, baseline: Seq<FileEntry>, n: int)
    requires
        0 <= n <= current.len(),
    ensures
        forall|k: int|
            #![trigger changed_upto(current, baseline, n)[k]]
            0 <= k < changed_upto(current, baseline, n).len() ==> exists|i: int|
                0 <= i < n && (#[trigger] current[i]).path@ == changed_upto(current, baseline, n)[k]
                    && stamp_of(baseline, current[i].path@) != Some(current[i].stamp),
    decreases n,
{
    if n > 0 {
        lemma_changed_members(current, baseline, n - 1);
        let p = changed_upto(current, baseline, n - 1);
        let q = changed_upto(current, baseline, n);
        assert forall|k: int| #![trigger q[k]] 0 <= k < q.len() implies exists|i: int|
            0 <= i < n && (#[trigger] current[i]).path@ == q[k] && stamp_of(baseline, current[i].path@)
                != Some(current[i].stamp) by {
            if k < p.len() {
                assert(q[k] == p[k]);
                let i = choose|i: int|
                    0 <= i < n - 1 && (#[trigger] current[i]).path@ == p[k] && stamp_of(
                        baseline,
                        current[i].path@,
                    ) != Some(current[i].stamp);
                assert(current[i].path@ == q[k]);
            } else {
                assert(current[n - 1].path@ == q[k]);
            }
        }
    }
}

/// The generated or changed files. Never more than `MAX_GENERATED_FILES`
/// are listed. While fewer are listed, every current file is listed whose
/// size or modification time differs from every baseline entry for its
/// path (a new file has none). And when the baseline lists each path once,
/// every listed path is a current file that is new or whose size or
/// modification time differs from the baseline's.
pub proof fn lemma_changed_files_rules(current: Seq<FileEntry>, baseline: Seq<FileEntry>)
    ensures
        changed_upto(current, baseline, current.len() as int).len() <= MAX_GENERATED_FILES,
        forall|i: int|
            #![trigger current[i]]
            0 <= i < current.len() && changed_upto(current, baseline, current.len() as int).len()
                < MAX_GENERATED_FILES && (forall|b: int|
                0 <= b < baseline.len() && (#[trigger] baseline[b]).path@ == current[i].path@ ==> (
                baseline[b].stamp.len != current[i].stamp.len || baseline[b].stamp.modified_unix_seconds
                    != current[i].stamp.modified_unix_seconds)) ==> changed_upto(
                current,
                baseline,
                current.len() as int,
            ).contains(current[i].path@),
        (forall|x: int, y: int|
            0 <= x < y < baseline.len() ==> (#[trigger] baseline[x]).path@ != (#[trigger] baseline[y]).path@)
            ==> forall|k: int|
            #![trigger changed_upto(current, baseline, current.len() as int)[k]]
            0 <= k < changed_upto(current, baseline, current.len() as int).len() ==> exists|i: int|
                0 <= i < current.len() && (#[trigger] current[i]).path@ == changed_upto(
                    current,
                    baseline,
                    current.len() as int,
                )[k] && forall|b: int|
                    0 <= b < baseline.len() && (#[trigger] baseline[b]).path@ == current[i].path@ ==> (
                    baseline[b].stamp.len != current[i].stamp.len
                        || baseline[b].stamp.modified_unix_seconds
                        != current[i].stamp.modified_unix_seconds),
{
    let n = current.len() as int;
    let l = changed_upto(current, baseline, n);
    lemma_changed_upto_len(current, baseline, n);
    assert forall|i: int|
        #![trigger current[i]]
        0 <= i < current.len() && l.len() < MAX_GENERATED_FILES && (forall|b: int|
            0 <= b < baseline.len() && (#[trigger] baseline[b]).path@ == current[i].path@ ==> (
            baseline[b].stamp.len != current[i].stamp.len || baseline[b].stamp.modified_unix_seconds
                != current[i].stamp.modified_unix_seconds)) implies l.contains(current[i].path@) by {
        lemma_stamp_of_found(baseline, current[i].path@);
        if stamp_of(baseline, current[i].path@) == Some(current[i].stamp) {
            let b = choose|b: int|
                0 <= b < baseline.len() && (#[trigger] baseline[b]).path@ == current[i].path@
                    && baseline[b].stamp == stamp_of(baseline, current[i].path@)->Some_0;
            assert(baseline[b].stamp == current[i].stamp);
        }
        lemma_changed_prefix(current, baseline, i, i + 1);
        lemma_changed_prefix(current, baseline, i + 1, n);
        let a = changed_upto(current, baseline, i);
        let c = changed_upto(current, baseline, i + 1);
        assert(c == a.push(current[i].path@));
        assert(l.take(c.len() as int)[a.len() as int] == current[i].path@);
        assert(l[a.len() as int] == current[i].path@);
    }
    lemma_changed_members(current, baseline, n);
    if forall|x: int, y: int|
        0 <= x < y < baseline.len() ==> (#[trigger] baseline[x]).path@ != (#[trigger] baseline[y]).path@ {
        assert forall|k: int| #![trigger l[k]] 0 <= k < l.len() implies exists|i: int|
            0 <= i < current.len() && (#[trigger] current[i]).path@ == l[k] && forall|b: int|
                0 <= b < baseline.len() && (#[trigger] baseline[b]).path@ == current[i].path@ ==> (
                baseline[b].stamp.len != current[i].stamp.len
                    || baseline[b].stamp.modified_unix_seconds
                    != current[i].stamp.modified_unix_seconds) by {
            let i = choose|i: int|
                0 <= i < n && (#[trigger] current[i]).path@ == l[k] && stamp_of(baseline, current[i].path@)
                    != Some(current[i].stamp);
            assert forall|b: int|
                0 <= b < baseline.len() && (#[trigger] baseline[b]).path@ == current[i].path@ implies (
                baseline[b].stamp.len != current[i].stamp.len
                    || baseline[b].stamp.modified_unix_seconds
                    != current[i].stamp.modified_unix_seconds) by {
                lemma_stamp_of_unique(baseline, b);
            }
        }
    }
}

fn lookup_stamp(snapshot: &Vec<FileEntry>, path: &String) -> (r: Option<FileStamp>)
    ensures
        r == stamp_of(snapshot@, path@),
{
    let mut i: usize = 0;
    assert(snapshot@.skip(0) =~= snapshot@);
    while i < snapshot.len()
        invariant
            i <= snapshot.len(),
            stamp_of(snapshot@, path@) == stamp_of(snapshot@.skip(i as int), path@),
        decreases snapshot.len() - i,
    {
        assert(snapshot@.skip(i as int)[0] == snapshot@[i as int]);
        if snapshot[i].path == *path {
            return Some(snapshot[i].stamp);
        }
        assert(snapshot@.skip(i as int).drop_first() =~= snapshot@.skip(i + 1));
        i = i + 1;
    }
    None
}

/// The files the audit created or changed, at most `MAX_GENERATED_FILES`
/// of them, in path order. `current` and `baseline` list the repository's
/// files after and before the agent worked.
pub fn changed_files(current: &Vec<FileEntry>, baseline: &Vec<FileEntry>, platform: HostPlatform) -> (r:
    Vec<String>)
    ensures
        sorted_by(r.deep_view(), path_order(platform.windows)),
        r.deep_view().to_multiset() == changed_upto(
            current@,
            baseline@,
            current.len() as int,
        ).to_multiset(),
        r.len() <= MAX_GENERATED_FILES,
        forall|i: int|
            #![trigger current@[i]]
            0 <= i < current.len() && r.len() < MAX_GENERATED_FILES && (forall|b: int|
                0 <= b < baseline.len() && (#[trigger] baseline@[b]).path@ == current@[i].path@ ==> (
                baseline@[b].stamp.len != current@[i].stamp.len
                    || baseline@[b].stamp.modified_unix_seconds
                    != current@[i].stamp.modified_unix_seconds)) ==> r.deep_view().contains(
                current@[i].path@,
            ),
{
    let mut changed: Vec<String> = Vec::new();
    let mut i: usize = 0;
    while i < current.len()
        invariant
            i <= current.len(),
            changed.deep_view() == changed_upto(current@, baseline@, i as int),
        decreases current.len() - i,
    {
        let ghost before = changed.deep_view();
        let same = match lookup_stamp(baseline, &current[i].path) {
            Some(b) => b.len == current[i].stamp.len && b.modified_unix_seconds
                == current[i].stamp.modified_unix_seconds,
            None => false,
        };
        if changed.len() < MAX_GENERATED_FILES && !same {
            changed.push(current[i].path.clone());
            assert(changed.deep_view() =~= before.push(current@[i as int].path@));
        }
        i = i + 1;
    }
    proof {
        lemma_changed_upto_len(current@, baseline@, current.len() as int);
    }
    let r = sort_strings_by(changed, host_path_order(platform));
    proof {
        let l = changed_upto(current@, baseline@, current.len() as int);
        lemma_changed_files_rules(current@, baseline@);
        r.deep_view().to_multiset_ensures();
        l.to_multiset_ensures();
        assert(r.deep_view().len() == l.len());
        assert forall|i: int|
            #![trigger current@[i]]
            0 <= i < current.len() && r.len() < MAX_GENERATED_FILES && (forall|b: int|
                0 <= b < baseline.len() && (#[trigger] baseline@[b]).path@ == current@[i].path@ ==> (
                baseline@[b].stamp.len != current@[i].stamp.len
                    || baseline@[b].stamp.modified_unix_seconds
                    != current@[i].stamp.modified_unix_seconds)) implies r.deep_view().contains(
            current@[i].path@,
        ) by {
            assert(l.contains(current@[i].path@));
            assert(l.to_multiset().count(current@[i].path@) > 0);
        }
    }
    r
}

/// The report of a docs audit, assembled from what the run gathered: its
/// folder, the steps and evidence, the agent's verdict if it reached one,
/// the forwarded env names and the files the audit changed.
/// `local_name` is the folder name of the repository when it is a path on
/// this host.
pub fn run(
    options: &DocsAuditOptions,
    local_name: Option<&str>,
    run_dir: &str,
    evidence: AuditEvidence,
    finish: Option<AgentFinish>,
    forwarded_envs: &SecretSet,
    generated_files: Vec<String>,
) -> (r: ScenarioReport)
    ensures
        r.title@ == "sdkcheck audit report: "@ + target_name(
            options.repo@,
            name_view(local_name),
        ),
        r.status == verdict_status(finish),
        r.classification == report_classification(
            finish,
            evidence.commands@,
            r.missing_secrets.deep_view(),
        ),
        r.summary@ == report_summary(finish, evidence.commands@, r.missing_secrets.deep_view()),
        r.backend@ == backend_text(options.backend),
        r.run_dir@ == run_dir@,
        r.scenario_steps.deep_view() == evidence.audit_steps.deep_view(),
        r.docs_observations.deep_view() == evidence.docs_observations.deep_view(),
        r.provided_secrets.deep_view() == forwarded_envs@.names,
        sorted(r.missing_secrets.deep_view()),
        r.missing_secrets.deep_view().no_duplicates(),
        forall|name: Seq<char>|
            r.missing_secrets.deep_view().contains(name) <==> reported_missing(
                forwarded_envs@,
                finish,
                name,
            ),
        r.commands@ == evidence.commands@,
        r.generated_files.deep_view() == generated_files.deep_view(),
        r.suggestions.deep_view() == report_suggestions(
            finish,
            evidence.commands@,
            r.missing_secrets.deep_view(),
        ),
        r.reproduction@ == join(reproduction_parts(*options), " "@),
        (r.classification == FailureClassification::NoFailure) <==> (r.status
            == ReportStatus::Passed),
{
    let missing = merged_missing_envs(forwarded_envs, &finish);
    let classification = classification_for_report(&finish, &evidence.commands, &missing);
    let summary = summary_for_report(&finish, &evidence.commands, &missing);
    let suggestions = suggestions_for_report(&finish, &evidence.commands, &missing);
    let status = match &finish {
        Some(f) => if f.verdict == AgentVerdict::Passed {
            ReportStatus::Passed
        } else {
            ReportStatus::Failed
        },
        None => ReportStatus::Failed,
    };
    let target = audit_target_name(options.repo.as_str(), local_name);
    let title = concat("sdkcheck audit report: ", target.as_str());
    let reproduction = reproduction_command(options);
    proof {
        lemma_passed_iff_no_failure(finish, evidence.commands@, missing.deep_view());
    }
    let AuditEvidence { audit_steps, docs_observations, commands } = evidence;
    ScenarioReport {
        title,
        status,
        classification,
        summary,
        backend: options.backend.to_text(),
        run_dir: owned(run_dir),
        scenario_steps: audit_steps,
        docs_observations,
        provided_secrets: forwarded_envs.names(),
        missing_secrets: missing,
        commands,
        generated_files,
        suggestions,
        reproduction,
    }
}

} // verus!
