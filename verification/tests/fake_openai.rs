use sdkcheck::fake_openai::{
    completion_body, content_length, fake_translation_for, header_end, host_base_url, json_response, request_body,
    request_complete, text_lines, DockerFakeOpenAiServer, ReadinessStep, DOCKER_FAKE_OPENAI_SCRIPT,
    READINESS_PROBES,
};
use sdkcheck::runner::DEFAULT_DOCKER_IMAGE;
use sdkcheck::paths::HostPlatform;

const LINUX: HostPlatform = HostPlatform { windows: false, linux: true };

#[test]
fn returns_setup_specific_content() {
    let content = fake_translation_for("please translate\n# Setup\n");

    assert!(content.contains("EXAMPLE_API_KEY"));
    assert!(!content.contains("```python"));
}

#[test]
fn returns_readme_content_otherwise() {
    let content = fake_translation_for("{\"messages\":[]}");
    assert!(content.starts_with("# Sample Project\n"));
    assert!(content.contains("```python"));
}

#[test]
fn parses_http_requests() {
    let req = b"POST /v1/chat/completions HTTP/1.1\r\nHost: x\r\nContent-Length: 5\r\n\r\nhello";
    assert_eq!(header_end(req), Some(62));
    assert_eq!(content_length(&req[..62]), Some(5));
    assert_eq!(request_body(req), "hello");
    assert!(request_complete(req));
    assert!(!request_complete(&req[..70]));
    assert!(!request_complete(b"POST / HTTP/1.1\r\nHost"));
    assert_eq!(header_end(b"no end"), None);
    assert_eq!(request_body(b"no end"), "");
    assert_eq!(content_length(b"content-length: abc"), None);
    assert_eq!(content_length(b"X: 1\ncontent-length:  7 "), Some(7));
    assert_eq!(request_body(b"H\r\n\r\n\xff\xfe"), "");
    assert_eq!(text_lines("a\r\nb\n\nc"), vec!["a", "b", "", "c"]);
}

#[test]
fn frames_json_responses() {
    assert_eq!(
        json_response("{\"é\":1}"),
        "HTTP/1.1 200 OK\r\ncontent-type: application/json\r\ncontent-length: 8\r\nconnection: close\r\n\r\n{\"é\":1}"
    );
    assert_eq!(host_base_url(8080), "http://127.0.0.1:8080/v1");
}

#[test]
fn docker_sidecar_names_and_commands() {
    let server = DockerFakeOpenAiServer::for_run_dir("/w/runs/co-op-translator-20260101-000000", LINUX);
    assert_eq!(server.network(), "sdkcheck-co-op-translator-20260101-000000");
    assert_eq!(server.container(), "sdkcheck-fake-openai-co-op-translator-20260101-000000");
    assert_eq!(server.base_url(), "http://sdkcheck-fake-openai-co-op-translator-20260101-000000:8080/v1");
    assert_eq!(
        DockerFakeOpenAiServer::script_path("/w/run", LINUX),
        "/w/run/.sdkcheck-fake-openai.py"
    );
    let args = server.run_args("/w/run");
    assert_eq!(args[0], "run");
    assert_eq!(args[4], server.container());
    assert!(args.contains(&"type=bind,source=/w/run,target=/work".to_string()));
    assert!(args.contains(&DEFAULT_DOCKER_IMAGE.to_string()));
    assert_eq!(args.last().unwrap(), ".sdkcheck-fake-openai.py");
    let probe = server.probe_args();
    assert_eq!(probe[0], "run");
    assert_eq!(probe[probe.len() - 2], "-c");
    assert!(server.probe_script().contains(
        "urllib.request.Request(\"http://sdkcheck-fake-openai-co-op-translator-20260101-000000:8080/v1/chat/completions\""
    ));
    assert!(DOCKER_FAKE_OPENAI_SCRIPT.contains("ThreadingHTTPServer((\"0.0.0.0\", 8080), Handler)"));
}

#[test]
fn readiness_probes_retry_then_give_up() {
    let server = DockerFakeOpenAiServer::for_run_dir("/w/runs/demo-1", LINUX);
    assert!(matches!(server.readiness_step(0, true, "", ""), ReadinessStep::Ready));
    assert!(matches!(server.readiness_step(0, false, "", "refused"), ReadinessStep::Retry));
    assert!(matches!(server.readiness_step(READINESS_PROBES - 2, false, "", ""), ReadinessStep::Retry));
    match server.readiness_step(READINESS_PROBES - 1, false, "out  \n", "connection refused\n") {
        ReadinessStep::GiveUp(message) => assert_eq!(
            message,
            "Docker fake OpenAI container `sdkcheck-fake-openai-demo-1` did not become ready\nstdout:\nout\nstderr:\nconnection refused"
        ),
        _ => panic!("the last failed probe gives up"),
    }
}

#[test]
fn windows_sidecar_names_come_from_the_last_component() {
    let win = HostPlatform { windows: true, linux: false };
    let server = DockerFakeOpenAiServer::for_run_dir(r"C:\w\runs\demo-1", win);
    assert_eq!(server.network(), "sdkcheck-demo-1");
    assert_eq!(server.container(), "sdkcheck-fake-openai-demo-1");
    assert_eq!(DockerFakeOpenAiServer::script_path(r"C:\w\run", win), r"C:\w\run\.sdkcheck-fake-openai.py");
}

#[test]
fn completion_bodies_carry_the_content_as_json() {
    let body = completion_body("a\"b\\c\n\t\u{1}\u{8}é/");
    assert_eq!(
        body,
        "{\"choices\":[{\"finish_reason\":\"stop\",\"index\":0,\"message\":{\"content\":\"a\\\"b\\\\c\\n\\t\\u0001\\bé/\",\"role\":\"assistant\"}}],\"created\":0,\"id\":\"chatcmpl-sdkcheck-fake\",\"model\":\"sdkcheck-fake-model\",\"object\":\"chat.completion\",\"usage\":{\"completion_tokens\":1,\"prompt_tokens\":1,\"total_tokens\":2}}"
    );
    let content = fake_translation_for("# Setup");
    let parsed: serde_json::Value = serde_json::from_str(&completion_body(content)).expect("json");
    assert_eq!(parsed["choices"][0]["message"]["content"], content);
    assert_eq!(parsed["object"], "chat.completion");
}
