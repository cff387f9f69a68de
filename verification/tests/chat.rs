use llm_sidecar::chat::{
    begin_ask, check_status, complete_ask, completions_url, delta_content, finish_ask,
    is_success, ready_request, record_prompt, record_reply, reply_content, request_body,
    request_json, ChatError, ChatRequest, CONTENT_TYPE, MODEL_NAME, REQUEST_METHOD,
    UNWRITTEN_REQUEST,
};
use llm_sidecar::history::SessionStore;
use llm_sidecar::message::Message;
use serde_json::Value;

fn text(s: &str) -> Value {
    Value::String(s.to_string())
}

fn object(entries: &[(&str, Value)]) -> Value {
    entries.iter().map(|(key, value)| (key.to_string(), value.clone())).collect()
}

fn wire(role: &str, content: &str) -> Value {
    object(&[("role", text(role)), ("content", text(content))])
}

fn answer(content: &str) -> Vec<u8> {
    let body = object(&[(
        "choices",
        Value::Array(vec![object(&[("message", wire("assistant", content))])]),
    )]);
    serde_json::to_vec(&body).unwrap()
}

#[test]
fn the_endpoint_is_on_the_loopback_address() {
    assert_eq!(completions_url(1234), "http://127.0.0.1:1234/v1/chat/completions");
    assert_eq!(completions_url(65535), "http://127.0.0.1:65535/v1/chat/completions");
    assert_eq!(completions_url(0), "http://127.0.0.1:0/v1/chat/completions");
    assert_eq!(MODEL_NAME, "qwen3");
    assert_eq!(CONTENT_TYPE, "application/json");
}

#[test]
fn a_request_names_the_endpoint_and_holds_the_body() {
    let mut store = SessionStore::with_limit(1, "p");
    let request = begin_ask(&mut store, 1301, "w1", "hi", false).unwrap();
    assert_eq!(
        request,
        ChatRequest {
            method: "POST",
            url: "http://127.0.0.1:1301/v1/chat/completions".to_string(),
            body: "{\"messages\":[{\"content\":\"hi\",\"role\":\"user\"}],\"model\":\"qwen3\"}"
                .to_string(),
        }
    );
}

#[test]
fn success_is_the_two_hundreds() {
    assert!(!is_success(199));
    assert!(is_success(200));
    assert!(is_success(204));
    assert!(is_success(299));
    assert!(!is_success(300));
    assert!(!is_success(404));
    assert!(!is_success(500));
    assert!(!is_success(0));
    assert_eq!(check_status(200), Ok(()));
    assert_eq!(check_status(503), Err(ChatError::Server(503)));
}

#[test]
fn error_messages() {
    assert_eq!(ChatError::Server(500).message(), "Server error 500");
    assert_eq!(ChatError::MalformedResponse.message(), "Bad response");
    assert_eq!(
        ChatError::Network("connection refused".to_string()).message(),
        "connection refused"
    );
}

#[test]
fn the_request_carries_model_and_messages() {
    let history = vec![
        Message::system("be brief"),
        Message::user("What crop suits clay soil?"),
    ];
    let expected = object(&[
        ("model", text("qwen3")),
        (
            "messages",
            Value::Array(vec![
                wire("system", "be brief"),
                wire("user", "What crop suits clay soil?"),
            ]),
        ),
    ]);
    assert_eq!(request_json(&history, false), expected);
    let body = request_body(&history, false).unwrap();
    assert_eq!(serde_json::from_str::<Value>(&body).unwrap(), expected);
    assert_eq!(
        body,
        "{\"messages\":[{\"content\":\"be brief\",\"role\":\"system\"},{\"content\":\"What crop suits clay soil?\",\"role\":\"user\"}],\"model\":\"qwen3\"}"
    );
}

#[test]
fn a_streaming_request_sets_the_flag() {
    let history = vec![Message::user("hi"), Message::assistant("hello")];
    let expected = object(&[
        ("model", text("qwen3")),
        ("messages", Value::Array(vec![wire("user", "hi"), wire("assistant", "hello")])),
        ("stream", Value::Bool(true)),
    ]);
    assert_eq!(request_json(&history, true), expected);
    let plain = request_json(&history, false);
    assert_eq!(plain.get("stream"), None);
}

#[test]
fn a_request_for_an_empty_history_has_no_messages() {
    let expected = object(&[("model", text("qwen3")), ("messages", Value::Array(Vec::new()))]);
    assert_eq!(request_json(&Vec::new(), false), expected);
}

#[test]
fn content_is_escaped_by_the_writer() {
    let history = vec![Message::user("say \"hi\"\n\tnow \u{1f33e}")];
    let body = request_body(&history, false).unwrap();
    let parsed: Value = serde_json::from_str(&body).unwrap();
    assert_eq!(
        parsed["messages"][0]["content"].as_str(),
        Some("say \"hi\"\n\tnow \u{1f33e}")
    );
}

#[test]
fn the_reply_is_the_content_of_the_first_message() {
    let body: Value = serde_json::from_slice(&answer("Hello")).unwrap();
    assert_eq!(reply_content(&body), Some("Hello".to_string()));
    assert_eq!(delta_content(&body), None);
}

#[test]
fn a_body_without_the_reply_has_none() {
    let cases = [
        "{}",
        "[]",
        "null",
        "\"text\"",
        "{\"choices\":[]}",
        "{\"choices\":{}}",
        "{\"choices\":[{}]}",
        "{\"choices\":[{\"message\":{}}]}",
        "{\"choices\":[{\"message\":{\"content\":null}}]}",
        "{\"choices\":[{\"message\":{\"content\":7}}]}",
        "{\"choices\":[{\"message\":[\"content\"]}]}",
        "{\"choices\":[{\"delta\":{\"content\":\"x\"}}]}",
    ];
    for case in cases {
        let body: Value = serde_json::from_str(case).unwrap();
        assert_eq!(reply_content(&body), None, "{case}");
    }
}

#[test]
fn only_the_first_choice_counts() {
    let body: Value = serde_json::from_str(
        "{\"choices\":[{\"message\":{\"content\":\"one\"}},{\"message\":{\"content\":\"two\"}}]}",
    )
    .unwrap();
    assert_eq!(reply_content(&body), Some("one".to_string()));
    let body: Value = serde_json::from_str(
        "{\"choices\":[{\"index\":0},{\"message\":{\"content\":\"two\"}}]}",
    )
    .unwrap();
    assert_eq!(reply_content(&body), None);
}

#[test]
fn the_fragment_is_the_content_of_the_first_delta() {
    let body: Value =
        serde_json::from_str("{\"choices\":[{\"delta\":{\"content\":\"Hel\"}}]}").unwrap();
    assert_eq!(delta_content(&body), Some("Hel".to_string()));
    assert_eq!(reply_content(&body), None);
    let body: Value =
        serde_json::from_str("{\"choices\":[{\"delta\":{\"role\":\"assistant\"}}]}").unwrap();
    assert_eq!(delta_content(&body), None);
    let body: Value =
        serde_json::from_str("{\"choices\":[{\"delta\":{\"content\":\"\"}}]}").unwrap();
    assert_eq!(delta_content(&body), Some(String::new()));
}

#[test]
fn ask_records_prompt_and_reply() {
    let mut store = SessionStore::with_limit(100, "You are helpful.");
    let request = begin_ask(&mut store, 1234, "w1", "What crop suits clay soil?", false).unwrap();
    assert_eq!(request.url, "http://127.0.0.1:1234/v1/chat/completions");
    let sent: Value = serde_json::from_str(&request.body).unwrap();
    assert_eq!(
        sent,
        object(&[
            ("model", text("qwen3")),
            (
                "messages",
                Value::Array(vec![
                    wire("system", "You are helpful."),
                    wire("user", "What crop suits clay soil?"),
                ])
            ),
        ])
    );
    let reply = finish_ask(&mut store, "w1", 200, &answer("Try brassicas.")).unwrap();
    assert_eq!(reply, "Try brassicas.");
    assert_eq!(
        store.snapshot("w1"),
        vec![
            Message::system("You are helpful."),
            Message::user("What crop suits clay soil?"),
            Message::assistant("Try brassicas."),
        ]
    );
}

#[test]
fn n_asks_leave_one_plus_two_n_messages_in_order() {
    let mut store = SessionStore::with_limit(100, "p");
    let mut expected = vec![Message::system("p")];
    for i in 0..20 {
        let prompt = format!("question {i}");
        let reply = format!("answer {i}");
        begin_ask(&mut store, 1234, "w1", &prompt, false).unwrap();
        assert_eq!(finish_ask(&mut store, "w1", 200, &answer(&reply)), Ok(reply.clone()));
        expected.push(Message::user(&prompt));
        expected.push(Message::assistant(&reply));
        assert_eq!(store.snapshot("w1").len(), 1 + 2 * (i + 1));
    }
    assert_eq!(store.snapshot("w1"), expected);
}

#[test]
fn asks_beyond_the_limit_keep_the_newest_messages() {
    let mut store = SessionStore::with_limit(4, "p");
    for i in 0..5 {
        begin_ask(&mut store, 1234, "w1", &format!("q{i}"), false).unwrap();
        assert!(store.snapshot("w1").len() <= 4);
        finish_ask(&mut store, "w1", 200, &answer(&format!("a{i}"))).unwrap();
        assert!(store.snapshot("w1").len() <= 4);
    }
    assert_eq!(
        store.snapshot("w1"),
        vec![
            Message::user("q3"),
            Message::assistant("a3"),
            Message::user("q4"),
            Message::assistant("a4"),
        ]
    );
}

#[test]
fn the_request_holds_the_history_as_trimmed() {
    let mut store = SessionStore::with_limit(2, "p");
    begin_ask(&mut store, 1234, "w1", "q0", false).unwrap();
    finish_ask(&mut store, "w1", 200, &answer("a0")).unwrap();
    let request = begin_ask(&mut store, 1240, "w1", "q1", true).unwrap();
    assert_eq!(request.url, completions_url(1240));
    let sent: Value = serde_json::from_str(&request.body).unwrap();
    assert_eq!(
        sent,
        object(&[
            ("model", text("qwen3")),
            ("messages", Value::Array(vec![wire("assistant", "a0"), wire("user", "q1")])),
            ("stream", Value::Bool(true)),
        ])
    );
}

#[test]
fn a_server_error_carries_the_status_and_records_nothing() {
    let mut store = SessionStore::with_limit(10, "p");
    begin_ask(&mut store, 1234, "w1", "q", false).unwrap();
    let before = store.snapshot("w1");
    assert_eq!(finish_ask(&mut store, "w1", 500, &answer("x")), Err(ChatError::Server(500)));
    assert_eq!(finish_ask(&mut store, "w1", 404, b"not found"), Err(ChatError::Server(404)));
    assert_eq!(finish_ask(&mut store, "w1", 302, b""), Err(ChatError::Server(302)));
    assert_eq!(store.snapshot("w1"), before);
}

#[test]
fn a_body_without_reply_is_malformed_and_records_nothing() {
    let mut store = SessionStore::with_limit(10, "p");
    begin_ask(&mut store, 1234, "w1", "q", false).unwrap();
    let before = store.snapshot("w1");
    assert_eq!(finish_ask(&mut store, "w1", 200, b"{}"), Err(ChatError::MalformedResponse));
    assert_eq!(finish_ask(&mut store, "w1", 200, b"not json"), Err(ChatError::MalformedResponse));
    assert_eq!(finish_ask(&mut store, "w1", 200, b""), Err(ChatError::MalformedResponse));
    assert_eq!(
        finish_ask(&mut store, "w1", 200, b"{\"choices\":[{\"message\":{\"content\":1}}]}"),
        Err(ChatError::MalformedResponse)
    );
    assert_eq!(store.snapshot("w1"), before);
}

#[test]
fn complete_ask_decides_on_a_parsed_body() {
    let mut store = SessionStore::with_limit(10, "p");
    let body: Value = serde_json::from_slice(&answer("fine")).unwrap();
    assert_eq!(complete_ask(&mut store, "w1", 200, Some(body.clone())), Ok("fine".to_string()));
    assert_eq!(store.snapshot("w1"), vec![Message::assistant("fine")]);
    assert_eq!(complete_ask(&mut store, "w1", 418, Some(body)), Err(ChatError::Server(418)));
    assert_eq!(complete_ask(&mut store, "w1", 200, None), Err(ChatError::MalformedResponse));
    assert_eq!(complete_ask(&mut store, "w1", 500, None), Err(ChatError::Server(500)));
    assert_eq!(store.snapshot("w1"), vec![Message::assistant("fine")]);
}

#[test]
fn an_empty_reply_is_recorded_as_it_is() {
    let mut store = SessionStore::with_limit(10, "p");
    begin_ask(&mut store, 1234, "w1", "q", false).unwrap();
    assert_eq!(finish_ask(&mut store, "w1", 200, &answer("")), Ok(String::new()));
    assert_eq!(store.snapshot("w1").last(), Some(&Message::assistant("")));
}

#[test]
fn record_prompt_hands_out_a_copy_of_the_history() {
    let mut store = SessionStore::with_limit(3, "p");
    let sent = record_prompt(&mut store, "w1", "one");
    assert_eq!(sent, vec![Message::system("p"), Message::user("one")]);
    assert_eq!(store.snapshot("w1"), sent);
    record_reply(&mut store, "w1", "two");
    let sent = record_prompt(&mut store, "w1", "three");
    assert_eq!(
        sent,
        vec![Message::user("one"), Message::assistant("two"), Message::user("three")]
    );
    record_reply(&mut store, "other", "alone");
    assert_eq!(store.snapshot("other"), vec![Message::assistant("alone")]);
}

#[test]
fn sessions_do_not_see_each_other() {
    let mut store = SessionStore::with_limit(10, "p");
    begin_ask(&mut store, 1234, "w1", "q1", false).unwrap();
    begin_ask(&mut store, 1234, "w2", "q2", false).unwrap();
    finish_ask(&mut store, "w2", 200, &answer("a2")).unwrap();
    finish_ask(&mut store, "w1", 200, &answer("a1")).unwrap();
    assert_eq!(
        store.snapshot("w1"),
        vec![Message::system("p"), Message::user("q1"), Message::assistant("a1")]
    );
    assert_eq!(
        store.snapshot("w2"),
        vec![Message::system("p"), Message::user("q2"), Message::assistant("a2")]
    );
}

#[test]
fn a_written_body_makes_a_request() {
    assert_eq!(REQUEST_METHOD, "POST");
    assert_eq!(
        ready_request(1234, Some("{}".to_string())),
        Ok(ChatRequest {
            method: "POST",
            url: "http://127.0.0.1:1234/v1/chat/completions".to_string(),
            body: "{}".to_string(),
        })
    );
    assert_eq!(
        ready_request(8080, Some(String::new())),
        Ok(ChatRequest {
            method: "POST",
            url: "http://127.0.0.1:8080/v1/chat/completions".to_string(),
            body: String::new(),
        })
    );
}

#[test]
fn without_a_body_there_is_no_request() {
    assert_eq!(UNWRITTEN_REQUEST, "the request could not be written");
    let error = ready_request(1234, None).unwrap_err();
    assert_eq!(error, ChatError::Network("the request could not be written".to_string()));
    assert_eq!(error.message(), "the request could not be written");
}

#[test]
fn the_body_of_a_request_is_always_written_here() {
    let histories = vec![
        Vec::new(),
        vec![Message::user("")],
        vec![Message::system("p"), Message::user("\u{0}\u{1f}\"\\"), Message::assistant("\u{10ffff}")],
    ];
    for history in histories {
        for stream in [false, true] {
            let body = request_body(&history, stream).expect("a body");
            assert_eq!(serde_json::from_str::<Value>(&body).unwrap(), request_json(&history, stream));
        }
    }
}
