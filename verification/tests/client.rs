use rlm::client::{
    completion_outcome, read_completion, root_client, sub_client, two_messages, ChatMessage, LlmClient,
};
use rlm::config::RlmConfig;

fn some(s: &str) -> Option<String> {
    Some(s.to_string())
}

#[test]
fn messages_hold_role_and_content() {
    let list = two_messages(ChatMessage::new("system", "s"), ChatMessage::new("user", "u"));
    assert_eq!(list.len(), 2);
    assert_eq!((list[0].role.as_str(), list[0].content.as_str()), ("system", "s"));
    assert_eq!((list[1].role.as_str(), list[1].content.as_str()), ("user", "u"));
}

#[test]
fn clients_know_their_addresses() {
    let cfg = RlmConfig::default();
    let c = LlmClient::new(&cfg);
    assert_eq!(c.base_url, "http://127.0.0.1:8090");
    assert_eq!(c.health_url(), "http://127.0.0.1:8090/health");
    let r = c.chat(vec![ChatMessage::new("user", "hi")], 7);
    assert_eq!(r.url, "http://127.0.0.1:8090/v1/chat/completions");
    assert_eq!((r.max_tokens, r.enable_thinking, r.messages.len()), (7, true, 1));
    assert_eq!(r.messages[0].content, "hi");
    assert!(c.thinking);
    assert!(!c.without_thinking().thinking);
    assert_eq!(LlmClient::for_port(&cfg, 8092).base_url, "http://127.0.0.1:8092");
}

#[test]
fn each_tier_thinks_only_if_configured() {
    let mut cfg = RlmConfig::default();
    assert!(!root_client(&cfg).thinking);
    assert!(!sub_client(&cfg, true).thinking);
    cfg.root_thinking = true;
    assert!(root_client(&cfg).thinking);
    assert!(!sub_client(&cfg, true).thinking);
    assert!(sub_client(&cfg, false).thinking);
    cfg.worker_thinking = true;
    assert!(sub_client(&cfg, true).thinking);
}

#[test]
fn sub_calls_go_to_a_worker_that_is_up() {
    let mut cfg = RlmConfig::default();
    assert_eq!(sub_client(&cfg, true).base_url, "http://127.0.0.1:8092");
    assert_eq!(sub_client(&cfg, false).base_url, "http://127.0.0.1:8090");
    cfg.worker_port = None;
    assert_eq!(sub_client(&cfg, true).base_url, "http://127.0.0.1:8090");
}

#[test]
fn an_answer_is_read_out_of_a_completion() {
    let body = r#"{"choices":[{"message":{"role":"assistant","content":"hi \"there\""},"finish_reason":"stop"}]}"#;
    assert_eq!(read_completion(body), Ok("hi \"there\"".to_string()));
}

#[test]
fn an_empty_answer_is_an_error_with_its_reason() {
    let body = r#"{"choices":[{"message":{"content":""},"finish_reason":"length"}]}"#;
    assert_eq!(
        read_completion(body),
        Err("model returned empty content (finish_reason=length); the token budget was likely consumed by reasoning — raise max_tokens/sub_max_tokens in the config".to_string())
    );
    let body = r#"{"choices":[{"message":{"content":""},"finish_reason":7}]}"#;
    assert!(read_completion(body).unwrap_err().contains("(finish_reason=?)"));
}

#[test]
fn other_documents_are_shown_in_compact_form() {
    assert_eq!(
        read_completion("{ \"b\" : 1, \"a\" : [ ] }"),
        Err("unexpected llama-server response: {\"a\":[],\"b\":1}".to_string())
    );
    assert_eq!(
        read_completion(r#"{"choices":[{"message":{"content":null}}]}"#),
        Err(r#"unexpected llama-server response: {"choices":[{"message":{"content":null}}]}"#.to_string())
    );
    let long = format!("\"{}\"", "x".repeat(600));
    let e = read_completion(&long).unwrap_err();
    assert!(e.ends_with("\n...[truncated 500 of 602 chars]"));
}

#[test]
fn a_body_that_is_no_document_is_an_error() {
    assert_eq!(read_completion("<html>"), Err("llama-server returned non-JSON".to_string()));
    assert_eq!(read_completion(""), Err("llama-server returned non-JSON".to_string()));
}

#[test]
fn outcomes_are_settled_by_what_was_found() {
    assert_eq!(completion_outcome(None, some("x"), None), Err("llama-server returned non-JSON".to_string()));
    assert_eq!(completion_outcome(some("{}"), some("x"), None), Ok("x".to_string()));
    assert_eq!(
        completion_outcome(some("{}"), None, None),
        Err("unexpected llama-server response: {}".to_string())
    );
    assert!(completion_outcome(some("{}"), some(""), None).unwrap_err().contains("finish_reason=?"));
}
