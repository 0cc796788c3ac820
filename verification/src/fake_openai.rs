//! A deterministic OpenAI-compatible endpoint for dogfood runs: its Docker
//! sidecar names and commands, the parsing of the HTTP requests it serves,
//! and the canned translations it answers with.
use vstd::prelude::*;
use vstd::utf8::{decode_utf8, valid_utf8};

use crate::naming::safe_core;
use crate::paths::{file_name, join_path, path_file_name, path_join, HostPlatform};
use crate::runner::{
    eq_ignore_ascii_case, eq_ignore_ascii_case_exec, output_excerpt, output_excerpt_spec,
    DEFAULT_DOCKER_IMAGE,
};
use crate::text::{
    concat, contains_seq, contains_text, debug_quote, debug_str, dec, owned, parse_usize,
    parse_usize_exec, push_str, split_on, split_text, string_from_chars, to_chars, trim,
    u64_string, utf8_len, utf8_len_within,
};

verus! {

/// The fake endpoint running as a container on a private Docker network.
pub struct DockerFakeOpenAiServer {
    network: String,
    container: String,
}

/// The suffix of the sidecar names for a run directory.
pub open spec fn sidecar_suffix(run_dir: Seq<char>, w: bool) -> Seq<char> {
    safe_core(
        match file_name(run_dir, w) {
            Some(n) => n,
            None => "run"@,
        },
    )
}

/// The script the sidecar runs, relative to the run directory.
pub open spec fn fake_script_name() -> Seq<char> {
    ".sdkcheck-fake-openai.py"@
}

/// The Python probe that posts one chat completion to `url`.
pub open spec fn probe_script_spec(url: Seq<char>) -> Seq<char> {
    "import json, urllib.request\npayload = {\"model\": \"sdkcheck-fake-model\", \"messages\": [{\"role\": \"user\", \"content\": \"ping\"}]}\nrequest = urllib.request.Request("@
        + debug_str(url)
        + ", data=json.dumps(payload).encode(\"utf-8\"), headers={\"content-type\": \"application/json\"}, method=\"POST\")\nprint(urllib.request.urlopen(request, timeout=5).status)\n"@
}

impl DockerFakeOpenAiServer {
    pub closed spec fn spec_network(&self) -> Seq<char> {
        self.network@
    }

    pub closed spec fn spec_container(&self) -> Seq<char> {
        self.container@
    }

    /// The network and container names for a run directory.
    pub fn for_run_dir(run_dir: &str, platform: HostPlatform) -> (s: Self)
        ensures
            s.spec_network() == "sdkcheck-"@ + sidecar_suffix(run_dir@, platform.windows),
            s.spec_container() == "sdkcheck-fake-openai-"@ + sidecar_suffix(run_dir@, platform.windows),
    {
        let name = match path_file_name(run_dir, platform) {
            Some(n) => n,
            None => owned("run"),
        };
        let suffix = crate::naming::safe_name_core(name.as_str());
        DockerFakeOpenAiServer {
            network: concat("sdkcheck-", suffix.as_str()),
            container: concat("sdkcheck-fake-openai-", suffix.as_str()),
        }
    }

    pub fn network(&self) -> (n: String)
        ensures
            n@ == self.spec_network(),
    {
        self.network.clone()
    }

    pub fn container(&self) -> (c: String)
        ensures
            c@ == self.spec_container(),
    {
        self.container.clone()
    }

    /// The URL at which commands on the sidecar network reach the endpoint.
    pub fn base_url(&self) -> (u: String)
        ensures
            u@ == "http://"@ + self.spec_container() + ":8080/v1"@,
    {
        let mut v: Vec<char> = Vec::new();
        push_str(&mut v, "http://");
        push_str(&mut v, self.container.as_str());
        push_str(&mut v, ":8080/v1");
        string_from_chars(&v)
    }

    /// Where the sidecar's script is written.
    pub fn script_path(run_dir: &str, platform: HostPlatform) -> (p: String)
        ensures
            p@ == path_join(run_dir@, fake_script_name(), platform.windows),
    {
        join_path(run_dir, ".sdkcheck-fake-openai.py", platform)
    }

    /// The arguments of `docker` that start the sidecar.
    pub fn run_args(&self, run_dir: &str) -> (r: Vec<String>)
        ensures
            r.deep_view() == seq![
                "run"@,
                "-d"@,
                "--rm"@,
                "--name"@,
                self.spec_container(),
                "--network"@,
                self.spec_network(),
                "--security-opt"@,
                "no-new-privileges"@,
                "--pids-limit"@,
                "128"@,
                "--memory"@,
                "256m"@,
                "--cpus"@,
                "1"@,
                "--mount"@,
                "type=bind,source="@ + run_dir@ + ",target=/work"@,
                "-w"@,
                "/work"@,
                DEFAULT_DOCKER_IMAGE@,
                "python"@,
                "-u"@,
                fake_script_name(),
            ],
    {
        let mut mount: Vec<char> = Vec::new();
        push_str(&mut mount, "type=bind,source=");
        push_str(&mut mount, run_dir);
        push_str(&mut mount, ",target=/work");
        let mut r: Vec<String> = Vec::new();
        r.push(owned("run"));
        r.push(owned("-d"));
        r.push(owned("--rm"));
        r.push(owned("--name"));
        r.push(self.container.clone());
        r.push(owned("--network"));
        r.push(self.network.clone());
        r.push(owned("--security-opt"));
        r.push(owned("no-new-privileges"));
        r.push(owned("--pids-limit"));
        r.push(owned("128"));
        r.push(owned("--memory"));
        r.push(owned("256m"));
        r.push(owned("--cpus"));
        r.push(owned("1"));
        r.push(owned("--mount"));
        r.push(string_from_chars(&mount));
        r.push(owned("-w"));
        r.push(owned("/work"));
        r.push(owned(DEFAULT_DOCKER_IMAGE));
        r.push(owned("python"));
        r.push(owned("-u"));
        r.push(owned(".sdkcheck-fake-openai.py"));
        assert(r.deep_view() =~= seq![
            "run"@,
            "-d"@,
            "--rm"@,
            "--name"@,
            self.spec_container(),
            "--network"@,
            self.spec_network(),
            "--security-opt"@,
            "no-new-privileges"@,
            "--pids-limit"@,
            "128"@,
            "--memory"@,
            "256m"@,
            "--cpus"@,
            "1"@,
            "--mount"@,
            "type=bind,source="@ + run_dir@ + ",target=/work"@,
            "-w"@,
            "/work"@,
            DEFAULT_DOCKER_IMAGE@,
            "python"@,
            "-u"@,
            fake_script_name(),
        ]);
        r
    }

    /// The readiness probe: a Python snippet posting to the endpoint.
    pub fn probe_script(&self) -> (s: String)
        ensures
            s@ == probe_script_spec(
                "http://"@ + self.spec_container() + ":8080/v1/chat/completions"@,
            ),
    {
        let url = concat(
            concat("http://", self.container.as_str()).as_str(),
            ":8080/v1/chat/completions",
        );
        let q = debug_quote(url.as_str());
        let mut v: Vec<char> = Vec::new();
        push_str(
            &mut v,
            "import json, urllib.request\npayload = {\"model\": \"sdkcheck-fake-model\", \"messages\": [{\"role\": \"user\", \"content\": \"ping\"}]}\nrequest = urllib.request.Request(",
        );
        push_str(&mut v, q.as_str());
        push_str(
            &mut v,
            ", data=json.dumps(payload).encode(\"utf-8\"), headers={\"content-type\": \"application/json\"}, method=\"POST\")\nprint(urllib.request.urlopen(request, timeout=5).status)\n",
        );
        assert(url@ =~= "http://"@ + self.spec_container() + ":8080/v1/chat/completions"@);
        string_from_chars(&v)
    }

    /// The arguments of `docker` that run the readiness probe.
    pub fn probe_args(&self) -> (r: Vec<String>)
        ensures
            r.deep_view() == seq![
                "run"@,
                "--rm"@,
                "--network"@,
                self.spec_network(),
                "--security-opt"@,
                "no-new-privileges"@,
                "--pids-limit"@,
                "64"@,
                "--memory"@,
                "128m"@,
                "--cpus"@,
                "1"@,
                DEFAULT_DOCKER_IMAGE@,
                "python"@,
                "-c"@,
                probe_script_spec("http://"@ + self.spec_container() + ":8080/v1/chat/completions"@),
            ],
    {
        let probe = self.probe_script();
        let mut r: Vec<String> = Vec::new();
        r.push(owned("run"));
        r.push(owned("--rm"));
        r.push(owned("--network"));
        r.push(self.network.clone());
        r.push(owned("--security-opt"));
        r.push(owned("no-new-privileges"));
        r.push(owned("--pids-limit"));
        r.push(owned("64"));
        r.push(owned("--memory"));
        r.push(owned("128m"));
        r.push(owned("--cpus"));
        r.push(owned("1"));
        r.push(owned(DEFAULT_DOCKER_IMAGE));
        r.push(owned("python"));
        r.push(owned("-c"));
        r.push(probe);
        assert(r.deep_view() =~= seq![
            "run"@,
            "--rm"@,
            "--network"@,
            self.spec_network(),
            "--security-opt"@,
            "no-new-privileges"@,
            "--pids-limit"@,
            "64"@,
            "--memory"@,
            "128m"@,
            "--cpus"@,
            "1"@,
            DEFAULT_DOCKER_IMAGE@,
            "python"@,
            "-c"@,
            probe_script_spec("http://"@ + self.spec_container() + ":8080/v1/chat/completions"@),
        ]);
        r
    }
}

/// The URL of the fake endpoint served on the host at `port`.
pub fn host_base_url(port: u16) -> (u: String)
    ensures
        u@ == "http://127.0.0.1:"@ + dec(port as nat) + "/v1"@,
{
    let p = u64_string(port as u64);
    let mut v: Vec<char> = Vec::new();
    push_str(&mut v, "http://127.0.0.1:");
    push_str(&mut v, p.as_str());
    push_str(&mut v, "/v1");
    string_from_chars(&v)
}

/// The Python endpoint the Docker sidecar runs: it answers every chat
/// completion with the canned translation `fake_translation_for` picks.
pub const DOCKER_FAKE_OPENAI_SCRIPT: &'static str = r##"from http.server import BaseHTTPRequestHandler, ThreadingHTTPServer
import json


def fake_translation_for(request_body: str) -> str:
    if "# Setup" in request_body:
        return "# Setup\n\nSet the `EXAMPLE_API_KEY` environment variable.\n"
    return "# Sample Project\n\nThis is a sample document for sdkcheck Co-op Translator dogfood.\n\n```python\nprint(\"hello from sdkcheck\")\n```\n\nSee [Setup](docs/setup.md) for details.\n"


class Handler(BaseHTTPRequestHandler):
    def do_POST(self):
        length = int(self.headers.get("content-length", "0") or "0")
        body = self.rfile.read(length).decode("utf-8", errors="replace")
        content = fake_translation_for(body)
        payload = {
            "id": "chatcmpl-sdkcheck-fake",
            "object": "chat.completion",
            "created": 0,
            "model": "sdkcheck-fake-model",
            "choices": [
                {
                    "index": 0,
                    "message": {"role": "assistant", "content": content},
                    "finish_reason": "stop",
                }
            ],
            "usage": {"prompt_tokens": 1, "completion_tokens": 1, "total_tokens": 2},
        }
        encoded = json.dumps(payload).encode("utf-8")
        self.send_response(200)
        self.send_header("content-type", "application/json")
        self.send_header("content-length", str(len(encoded)))
        self.send_header("connection", "close")
        self.end_headers()
        self.wfile.write(encoded)

    def do_GET(self):
        encoded = b'{"ok": true}'
        self.send_response(200)
        self.send_header("content-type", "application/json")
        self.send_header("content-length", str(len(encoded)))
        self.end_headers()
        self.wfile.write(encoded)

    def log_message(self, fmt, *args):
        return


ThreadingHTTPServer(("0.0.0.0", 8080), Handler).serve_forever()
"##;

/// Readiness probes tried before the sidecar is given up on.
pub const READINESS_PROBES: usize = 30;

/// Milliseconds between two readiness probes.
pub const READINESS_PROBE_INTERVAL_MS: u64 = 500;

/// A hexadecimal digit in lower case.
pub open spec fn hex_digit(d: u32) -> char {
    if d < 10 {
        ((d + 48) as u8) as char
    } else {
        ((d + 87) as u8) as char
    }
}

/// How serde_json writes one character inside a JSON string: `"` and `\`
/// behind a backslash; U+0008, U+0009, U+000A, U+000C and U+000D as `\b`,
/// `\t`, `\n`, `\f` and `\r`; the other characters below U+0020 as `\u00xx`
/// in lower-case hex; every other character as it is.
pub open spec fn json_char(c: char) -> Seq<char> {
    let u = c as u32;
    if c == '"' {
        seq!['\\', '"']
    } else if c == '\\' {
        seq!['\\', '\\']
    } else if u == 8 {
        seq!['\\', 'b']
    } else if u == 9 {
        seq!['\\', 't']
    } else if u == 10 {
        seq!['\\', 'n']
    } else if u == 12 {
        seq!['\\', 'f']
    } else if u == 13 {
        seq!['\\', 'r']
    } else if u < 32 {
        seq!['\\', 'u', '0', '0', hex_digit(u / 16), hex_digit(u % 16)]
    } else {
        seq![c]
    }
}

pub open spec fn json_escaped(s: Seq<char>) -> Seq<char>
    decreases s.len(),
{
    if s.len() == 0 {
        seq![]
    } else {
        json_escaped(s.drop_last()) + json_char(s.last())
    }
}

/// The JSON string that holds `s`.
pub open spec fn json_string_literal(s: Seq<char>) -> Seq<char> {
    seq!['"'] + json_escaped(s) + seq!['"']
}

/// Calls serde_json's `Display` for `Value::String`, which writes `s` as a
/// JSON string through its escape table. Claims that the text is `s` in
/// double quotes with each character written as `json_char` says.
#[verifier::external_body]
fn json_string(s: &str) -> (r: String)
    ensures
        r@ == json_string_literal(s@),
{
    serde_json::Value::String(s.to_string()).to_string()
}

/// The chat completion the endpoint answers with, as serde_json writes the
/// object (its keys in sorted order, no spaces), `content` as the message.
pub open spec fn completion_body_spec(content: Seq<char>) -> Seq<char> {
    "{\"choices\":[{\"finish_reason\":\"stop\",\"index\":0,\"message\":{\"content\":"@
        + json_string_literal(content)
        + ",\"role\":\"assistant\"}}],\"created\":0,\"id\":\"chatcmpl-sdkcheck-fake\",\"model\":\"sdkcheck-fake-model\",\"object\":\"chat.completion\",\"usage\":{\"completion_tokens\":1,\"prompt_tokens\":1,\"total_tokens\":2}}"@
}

/// The JSON body of the endpoint's answer carrying `content`.
pub fn completion_body(content: &str) -> (r: String)
    ensures
        r@ == completion_body_spec(content@),
{
    let quoted = json_string(content);
    let mut v: Vec<char> = Vec::new();
    push_str(
        &mut v,
        "{\"choices\":[{\"finish_reason\":\"stop\",\"index\":0,\"message\":{\"content\":",
    );
    push_str(&mut v, quoted.as_str());
    push_str(
        &mut v,
        ",\"role\":\"assistant\"}}],\"created\":0,\"id\":\"chatcmpl-sdkcheck-fake\",\"model\":\"sdkcheck-fake-model\",\"object\":\"chat.completion\",\"usage\":{\"completion_tokens\":1,\"prompt_tokens\":1,\"total_tokens\":2}}",
    );
    string_from_chars(&v)
}

/// What follows a readiness probe of the sidecar. After a failed probe the
/// caller waits `READINESS_PROBE_INTERVAL_MS` either way.
pub enum ReadinessStep {
    /// The endpoint answered: the sidecar is ready.
    Ready,
    /// Probe again.
    Retry,
    /// Every probe failed: the run fails with this message.
    GiveUp(String),
}

/// The error of a sidecar that never answered, with the output of its last
/// probe.
pub open spec fn not_ready_message(container: Seq<char>, stdout: Seq<char>, stderr: Seq<char>) -> Seq<
    char,
> {
    "Docker fake OpenAI container `"@ + container + "` did not become ready\n"@ + output_excerpt_spec(
        stdout,
        stderr,
    )
}

impl DockerFakeOpenAiServer {
    /// The decision after probe number `attempt` (counted from 0), given
    /// whether it succeeded and what it printed: ready on success, another
    /// probe while fewer than `READINESS_PROBES` have been made, else give
    /// up with the last probe's output.
    pub fn readiness_step(&self, attempt: usize, probe_succeeded: bool, stdout: &str, stderr: &str) -> (r:
        ReadinessStep)
        requires
            attempt < READINESS_PROBES,
        ensures
            (r is Ready) == probe_succeeded,
            (r is Retry) == (!probe_succeeded && attempt + 1 < READINESS_PROBES),
            (r is GiveUp) == (!probe_succeeded && attempt + 1 == READINESS_PROBES),
            r matches ReadinessStep::GiveUp(m) ==> m@ == not_ready_message(
                self.spec_container(),
                stdout@,
                stderr@,
            ),
    {
        if probe_succeeded {
            ReadinessStep::Ready
        } else if attempt + 1 < READINESS_PROBES {
            ReadinessStep::Retry
        } else {
            let mut v: Vec<char> = Vec::new();
            push_str(&mut v, "Docker fake OpenAI container `");
            push_str(&mut v, self.container.as_str());
            push_str(&mut v, "` did not become ready\n");
            let excerpt = output_excerpt(stdout, stderr);
            push_str(&mut v, excerpt.as_str());
            ReadinessStep::GiveUp(string_from_chars(&v))
        }
    }
}

/// The HTTP response that carries a JSON body and closes the connection.
pub open spec fn json_response_spec(body: Seq<char>) -> Seq<char> {
    "HTTP/1.1 200 OK\r\ncontent-type: application/json\r\ncontent-length: "@ + dec(utf8_len(body))
        + "\r\nconnection: close\r\n\r\n"@ + body
}

/// Frames a JSON body as the endpoint's HTTP response; the length header
/// counts the body's UTF-8 bytes.
pub fn json_response(body: &str) -> (r: String)
    requires
        utf8_len(body@) <= usize::MAX,
    ensures
        r@ == json_response_spec(body@),
{
    let n = match utf8_len_within(body, usize::MAX) {
        Some(n) => n,
        None => 0,
    };
    let len = u64_string(n as u64);
    let mut v: Vec<char> = Vec::new();
    push_str(&mut v, "HTTP/1.1 200 OK\r\ncontent-type: application/json\r\ncontent-length: ");
    push_str(&mut v, len.as_str());
    push_str(&mut v, "\r\nconnection: close\r\n\r\n");
    push_str(&mut v, body);
    string_from_chars(&v)
}

// ---------------------------------------------------------------------------
// HTTP request parsing
// ---------------------------------------------------------------------------

/// The bytes of "\r\n\r\n".
pub open spec fn header_terminator() -> Seq<u8> {
    seq![13u8, 10u8, 13u8, 10u8]
}

/// The first position at or after `from` where the header terminator starts.
pub open spec fn find_terminator(req: Seq<u8>, from: int) -> Option<int>
    decreases req.len() - from,
{
    if from < 0 || from + 4 > req.len() {
        None
    } else if req.subrange(from, from + 4) == header_terminator() {
        Some(from)
    } else {
        find_terminator(req, from + 1)
    }
}

/// The position of the blank line that ends the headers (`windows(4).position`).
pub open spec fn header_end_spec(req: Seq<u8>) -> Option<int> {
    find_terminator(req, 0)
}

proof fn lemma_find_terminator(req: Seq<u8>, from: int)
    requires
        0 <= from,
    ensures
        match find_terminator(req, from) {
            Some(p) => from <= p && p + 4 <= req.len() && req.subrange(p, p + 4) == seq![
                13u8,
                10u8,
                13u8,
                10u8,
            ] && forall|q: int|
                from <= q < p ==> #[trigger] req.subrange(q, q + 4) != seq![13u8, 10u8, 13u8, 10u8],
            None => forall|q: int|
                from <= q && q + 4 <= req.len() ==> #[trigger] req.subrange(q, q + 4) != seq![
                    13u8,
                    10u8,
                    13u8,
                    10u8,
                ],
        },
    decreases req.len() - from,
{
    if from + 4 <= req.len() && req.subrange(from, from + 4) != header_terminator() {
        lemma_find_terminator(req, from + 1);
    }
}

/// The headers end where the first `\r\n\r\n` of the request starts;
/// a request without one has no end of headers yet.
pub proof fn lemma_header_end_first(req: Seq<u8>)
    ensures
        match header_end_spec(req) {
            Some(p) => 0 <= p && p + 4 <= req.len() && req.subrange(p, p + 4) == seq![
                13u8,
                10u8,
                13u8,
                10u8,
            ] && forall|q: int|
                0 <= q < p ==> #[trigger] req.subrange(q, q + 4) != seq![13u8, 10u8, 13u8, 10u8],
            None => forall|q: int|
                0 <= q && q + 4 <= req.len() ==> #[trigger] req.subrange(q, q + 4) != seq![
                    13u8,
                    10u8,
                    13u8,
                    10u8,
                ],
        },
{
    lemma_find_terminator(req, 0);
}

/// `s` without one trailing carriage return.
pub open spec fn strip_cr(s: Seq<char>) -> Seq<char> {
    if s.len() > 0 && s.last() == '\r' {
        s.drop_last()
    } else {
        s
    }
}

/// `str::lines`: pieces between '\n', without a final empty piece and
/// without the '\r' of a "\r\n" ending.
pub open spec fn lines_of(s: Seq<char>) -> Seq<Seq<char>> {
    let p = split_on(s, '\n');
    let q = if s.len() == 0 || s.last() == '\n' {
        p.drop_last()
    } else {
        p
    };
    q.map_values(|l: Seq<char>| strip_cr(l))
}

/// The position of the first `c` in `s`.
pub open spec fn first_index(s: Seq<char>, c: char) -> Option<int>
    decreases s.len(),
{
    if s.len() == 0 {
        None
    } else if s[0] == c {
        Some(0)
    } else {
        match first_index(s.drop_first(), c) {
            Some(i) => Some(i + 1),
            None => None,
        }
    }
}

/// The value of a `content-length` header line, if this line is one and its
/// value parses.
pub open spec fn line_content_length(line: Seq<char>) -> Option<usize> {
    match first_index(line, ':') {
        None => None,
        Some(i) => if eq_ignore_ascii_case(line.take(i), "content-length"@) {
            parse_usize(trim(line.skip(i + 1)))
        } else {
            None
        },
    }
}

/// The first `content-length` value among `lines`.
pub open spec fn first_content_length(lines: Seq<Seq<char>>) -> Option<usize>
    decreases lines.len(),
{
    if lines.len() == 0 {
        None
    } else {
        match line_content_length(lines[0]) {
            Some(v) => Some(v),
            None => first_content_length(lines.drop_first()),
        }
    }
}

/// The `content-length` of a header block that is valid UTF-8.
pub open spec fn content_length_spec(headers: Seq<u8>) -> Option<usize> {
    if valid_utf8(headers) {
        first_content_length(lines_of(decode_utf8(headers)))
    } else {
        None
    }
}

/// The body of a request: the text after the headers when it is valid
/// UTF-8, else empty.
pub open spec fn request_body_spec(req: Seq<u8>) -> Seq<char> {
    match header_end_spec(req) {
        None => seq![],
        Some(he) => if valid_utf8(req.skip(he + 4)) {
            decode_utf8(req.skip(he + 4))
        } else {
            seq![]
        },
    }
}

/// Whether a request has been read in full: its headers are complete and
/// the body is as long as `content-length` says (0 when absent).
pub open spec fn request_complete_spec(req: Seq<u8>) -> bool {
    match header_end_spec(req) {
        None => false,
        Some(he) => {
            let want = match content_length_spec(req.take(he)) {
                Some(n) => n as int,
                None => 0,
            };
            req.len() - (he + 4) >= want
        },
    }
}

/// Calls `std::str::from_utf8`. Claims that it succeeds exactly on valid
/// UTF-8, and then yields the decoded characters (vstd's `valid_utf8` and
/// `decode_utf8`).
#[verifier::external_body]
fn utf8_text(bytes: &[u8]) -> (r: Option<String>)
    ensures
        r.is_some() == valid_utf8(bytes@),
        r matches Some(s) ==> s@ == decode_utf8(bytes@),
{
    match std::str::from_utf8(bytes) {
        Ok(s) => Some(s.to_string()),
        Err(_) => None,
    }
}

/// The position of the blank line that ends the headers.
pub fn header_end(request: &[u8]) -> (r: Option<usize>)
    ensures
        match r {
            Some(i) => header_end_spec(request@) == Some(i as int),
            None => header_end_spec(request@).is_none(),
        },
{
    if request.len() < 4 {
        return None;
    }
    let mut i: usize = 0;
    while i <= request.len() - 4
        invariant
            request.len() >= 4,
            i + 3 <= request.len(),
            find_terminator(request@, 0) == find_terminator(request@, i as int),
        decreases request.len() - i,
    {
        if request[i] == 13 && request[i + 1] == 10 && request[i + 2] == 13 && request[i + 3] == 10 {
            assert(request@.subrange(i as int, i + 4) =~= header_terminator());
            return Some(i);
        }
        assert(request@.subrange(i as int, i + 4) != header_terminator()) by {
            if request@.subrange(i as int, i + 4) == header_terminator() {
                assert(request@.subrange(i as int, i + 4)[0] == request@[i as int]);
                assert(request@.subrange(i as int, i + 4)[1] == request@[i + 1]);
                assert(request@.subrange(i as int, i + 4)[2] == request@[i + 2]);
                assert(request@.subrange(i as int, i + 4)[3] == request@[i + 3]);
            }
        }
        i = i + 1;
    }
    None
}

fn first_colon(line: &Vec<char>) -> (r: Option<usize>)
    ensures
        match r {
            Some(i) => first_index(line@, ':') == Some(i as int) && i < line.len(),
            None => first_index(line@, ':').is_none(),
        },
{
    let mut i: usize = 0;
    assert(line@.skip(0) =~= line@);
    while i < line.len()
        invariant
            i <= line.len(),
            forall|t: int| 0 <= t < i ==> line@[t] != ':',
            first_index(line@, ':') == match first_index(line@.skip(i as int), ':') {
                Some(k) => Some(k + i),
                None => None::<int>,
            },
        decreases line.len() - i,
    {
        if line[i] == ':' {
            assert(line@.skip(i as int)[0] == ':');
            return Some(i);
        }
        assert(line@.skip(i as int).drop_first() =~= line@.skip(i + 1));
        i = i + 1;
    }
    None
}

fn chars_range(v: &Vec<char>, from: usize, to: usize) -> (r: String)
    requires
        from <= to <= v.len(),
    ensures
        r@ == v@.subrange(from as int, to as int),
{
    let mut out: Vec<char> = Vec::new();
    let mut i: usize = from;
    while i < to
        invariant
            from <= i <= to <= v.len(),
            out@ == v@.subrange(from as int, i as int),
        decreases to - i,
    {
        out.push(v[i]);
        assert(v@.subrange(from as int, i + 1) =~= v@.subrange(from as int, i as int).push(
            v@[i as int],
        ));
        i = i + 1;
    }
    string_from_chars(&out)
}

fn trimmed(s: &str) -> (r: String)
    ensures
        r@ == trim(s@),
{
    let v = to_chars(s);
    let start = crate::text::trim_start_len(&v);
    proof {
        crate::text::lemma_trim_start_suffix(v@);
    }
    let rest = chars_range(&v, start, v.len());
    assert(rest@ =~= v@.skip(start as int));
    let rv = to_chars(rest.as_str());
    let n = crate::text::trim_end_len(&rv);
    proof {
        crate::text::lemma_trim_end_prefix(rv@);
    }
    let r = chars_range(&rv, 0, n);
    assert(r@ =~= rv@.take(n as int));
    r
}

fn line_content_length_exec(line: &str) -> (r: Option<usize>)
    ensures
        r == line_content_length(line@),
{
    let v = to_chars(line);
    match first_colon(&v) {
        None => None,
        Some(i) => {
            let name = chars_range(&v, 0, i);
            assert(name@ =~= line@.take(i as int));
            if eq_ignore_ascii_case_exec(name.as_str(), "content-length") {
                let value = chars_range(&v, i + 1, v.len());
                assert(value@ =~= line@.skip(i + 1));
                let t = trimmed(value.as_str());
                parse_usize_exec(t.as_str())
            } else {
                None
            }
        },
    }
}

fn strip_cr_exec(s: &str) -> (r: String)
    ensures
        r@ == strip_cr(s@),
{
    let v = to_chars(s);
    if v.len() > 0 && v[v.len() - 1] == '\r' {
        let r = chars_range(&v, 0, v.len() - 1);
        assert(r@ =~= s@.drop_last());
        r
    } else {
        owned(s)
    }
}

/// `str::lines`.
pub fn text_lines(s: &str) -> (r: Vec<String>)
    ensures
        r.deep_view() == lines_of(s@),
{
    let pieces = split_text(s, '\n');
    let v = to_chars(s);
    proof {
        crate::text::lemma_split_on_nonempty(s@, '\n');
    }
    let n = if v.len() == 0 || v[v.len() - 1] == '\n' {
        pieces.len() - 1
    } else {
        pieces.len()
    };
    let ghost q = if s@.len() == 0 || s@.last() == '\n' {
        pieces.deep_view().drop_last()
    } else {
        pieces.deep_view()
    };
    assert(q.len() == n);
    let mut r: Vec<String> = Vec::new();
    let mut i: usize = 0;
    while i < n
        invariant
            i <= n <= pieces.len(),
            q.len() == n,
            forall|t: int| 0 <= t < n ==> q[t] == pieces.deep_view()[t],
            r.deep_view() == q.take(i as int).map_values(|l: Seq<char>| strip_cr(l)),
        decreases n - i,
    {
        let ghost before = r.deep_view();
        assert(pieces.deep_view()[i as int] == pieces[i as int]@);
        r.push(strip_cr_exec(pieces[i].as_str()));
        assert(q.take(i + 1) =~= q.take(i as int).push(q[i as int]));
        assert(q.take(i + 1).map_values(|l: Seq<char>| strip_cr(l)) =~= q.take(i as int).map_values(
            |l: Seq<char>| strip_cr(l),
        ).push(strip_cr(q[i as int])));
        assert(r.deep_view() =~= before.push(strip_cr(q[i as int])));
        i = i + 1;
    }
    assert(q.take(n as int) =~= q);
    r
}

/// The `content-length` of a header block, if it is valid UTF-8 and has one.
pub fn content_length(headers: &[u8]) -> (r: Option<usize>)
    ensures
        r == content_length_spec(headers@),
{
    let text = match utf8_text(headers) {
        Some(t) => t,
        None => {
            return None;
        },
    };
    let lines = text_lines(text.as_str());
    let ghost lv = lines.deep_view();
    let mut i: usize = 0;
    assert(lv.skip(0) =~= lv);
    while i < lines.len()
        invariant
            i <= lines.len(),
            lv == lines.deep_view(),
            content_length_spec(headers@) == first_content_length(lv),
            first_content_length(lv) == first_content_length(lv.skip(i as int)),
        decreases lines.len() - i,
    {
        assert(lv[i as int] == lines[i as int]@);
        assert(lv.skip(i as int)[0] == lv[i as int]);
        assert(lv.skip(i as int).drop_first() =~= lv.skip(i + 1));
        match line_content_length_exec(lines[i].as_str()) {
            Some(v) => {
                return Some(v);
            },
            None => {},
        }
        i = i + 1;
    }
    None
}

fn bytes_range(v: &[u8], from: usize, to: usize) -> (r: Vec<u8>)
    requires
        from <= to <= v@.len(),
    ensures
        r@ == v@.subrange(from as int, to as int),
{
    let mut out: Vec<u8> = Vec::new();
    let mut i: usize = from;
    while i < to
        invariant
            from <= i <= to <= v@.len(),
            out@ == v@.subrange(from as int, i as int),
        decreases to - i,
    {
        out.push(v[i]);
        assert(v@.subrange(from as int, i + 1) =~= v@.subrange(from as int, i as int).push(
            v@[i as int],
        ));
        i = i + 1;
    }
    out
}

proof fn lemma_header_end_bound(req: Seq<u8>, from: int)
    requires
        0 <= from,
    ensures
        find_terminator(req, from) matches Some(i) ==> from <= i && i + 4 <= req.len(),
    decreases req.len() - from,
{
    if from + 4 <= req.len() && req.subrange(from, from + 4) != header_terminator() {
        lemma_header_end_bound(req, from + 1);
    }
}

/// The body of a request as text; empty when the headers are incomplete or
/// the body is not valid UTF-8.
pub fn request_body(request: &[u8]) -> (r: String)
    ensures
        r@ == request_body_spec(request@),
{
    proof {
        lemma_header_end_bound(request@, 0);
    }
    proof {
        reveal_strlit("");
        assert(""@ =~= Seq::<char>::empty());
    }
    match header_end(request) {
        None => owned(""),
        Some(he) => {
            let n = request.len();
            assert(he + 4 <= n);
            let body = bytes_range(request, he + 4, n);
            assert(body@ =~= request@.skip(he + 4));
            match utf8_text(body.as_slice()) {
                Some(t) => t,
                None => owned(""),
            }
        },
    }
}

/// Whether a request has been read in full.
pub fn request_complete(request: &[u8]) -> (b: bool)
    ensures
        b == request_complete_spec(request@),
{
    proof {
        lemma_header_end_bound(request@, 0);
    }
    match header_end(request) {
        None => false,
        Some(he) => {
            assert(he + 4 <= request@.len());
            let head = bytes_range(request, 0, he);
            assert(head@ =~= request@.take(he as int));
            let want = match content_length(head.as_slice()) {
                Some(n) => n,
                None => 0,
            };
            request.len() - (he + 4) >= want
        },
    }
}

/// The canned Markdown "translation" for a request body: the setup page
/// when the body mentions its heading, else the README.
pub fn fake_translation_for(request_body: &str) -> (r: &'static str)
    ensures
        contains_seq(request_body@, "# Setup"@) ==> r@
            == "# Setup\n\nSet the `EXAMPLE_API_KEY` environment variable.\n"@,
        !contains_seq(request_body@, "# Setup"@) ==> r@
            == "# Sample Project\n\nThis is a sample document for sdkcheck Co-op Translator dogfood.\n\n```python\nprint(\"hello from sdkcheck\")\n```\n\nSee [Setup](docs/setup.md) for details.\n"@,
{
    if contains_text(request_body, "# Setup") {
        "# Setup\n\nSet the `EXAMPLE_API_KEY` environment variable.\n"
    } else {
        "# Sample Project\n\nThis is a sample document for sdkcheck Co-op Translator dogfood.\n\n```python\nprint(\"hello from sdkcheck\")\n```\n\nSee [Setup](docs/setup.md) for details.\n"
    }
}

} // verus!
