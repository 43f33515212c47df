use rlm::client::LlmClient;
use rlm::config::RlmConfig;
use rlm::env::{context_slice, llm, nested_reply, no_context_message, sub_reply, EvalState, SubCall, PEEK_CAP};
use rlm::memory::Memory;

fn sub() -> LlmClient {
    LlmClient::for_port(&RlmConfig::default(), 8092).without_thinking()
}

fn state(allow_memory: bool) -> EvalState {
    EvalState::new(
        vec![("doc".to_string(), "héllo world".to_string()), ("b".to_string(), String::new())],
        allow_memory,
    )
}

#[test]
fn contexts_are_listed_with_their_sizes() {
    assert_eq!(state(false).ctx_list(), "doc (11 chars)\nb (0 chars)");
    assert_eq!(EvalState::new(vec![], false).ctx_list(), "");
}

#[test]
fn sizes_are_in_characters() {
    assert_eq!(state(false).ctx_len("doc"), 11);
    assert_eq!(state(false).ctx_len("b"), 0);
    assert_eq!(state(false).ctx_len("nope"), -1);
}

#[test]
fn slices_are_read() {
    let s = state(false);
    assert_eq!(s.peek("doc", 1, 4), "éllo");
    assert_eq!(s.peek("doc", -3, 2), "hé");
    assert_eq!(s.peek("doc", 6, 100), "world");
    assert_eq!(s.peek("doc", 0, -1), "");
}

#[test]
fn a_missing_context_is_answered_with_those_there_are() {
    let s = state(false);
    assert_eq!(s.peek("x", 0, 1), r#"[error] no context named 'x'. Available: ["doc", "b"]"#);
    let odd = vec![("a\"\n".to_string(), String::new())];
    assert_eq!(
        context_slice(&odd, "x", 0, 1),
        Err(r#"[error] no context named 'x'. Available: ["a\"\n"]"#.to_string())
    );
    assert_eq!(no_context_message("x", &vec![]), "[error] no context named 'x'. Available: []");
}

#[test]
fn a_reading_is_bounded() {
    let long = "y".repeat(20_000);
    let s = EvalState::new(vec![("long".to_string(), long)], false);
    assert_eq!(s.peek("long", 0, 20_000).chars().count() as i64, PEEK_CAP);
    assert_eq!(s.peek("long", 0, i64::MAX).chars().count(), 16_000);
    assert_eq!(s.peek("long", 19_999, 10), "y");
}

#[test]
fn readings_that_follow_one_another_make_up_the_whole() {
    let s = state(false);
    assert_eq!(format!("{}{}", s.peek("doc", 0, 4), s.peek("doc", 4, 7)), "héllo world");
}

#[test]
fn the_first_context_of_a_name_counts() {
    let s = EvalState::new(vec![("d".to_string(), "1".to_string()), ("d".to_string(), "22".to_string())], false);
    assert_eq!(s.peek("d", 0, 9), "1");
}

#[test]
fn printing_adds_lines() {
    let mut s = state(false);
    s.print("a");
    s.print("");
    assert_eq!(s.output, "a\n\n");
}

#[test]
fn a_plain_sub_call_has_two_messages() {
    let request = llm(&RlmConfig::default(), &sub(), "why?");
    assert_eq!(request.url, "http://127.0.0.1:8092/v1/chat/completions");
    assert_eq!((request.max_tokens, request.enable_thinking), (2048, false));
    let m = request.messages;
    assert_eq!(m[0].content, "You are a capable assistant. Answer concisely and directly.");
    assert_eq!((m[1].role.as_str(), m[1].content.as_str()), ("user", "why?"));
}

#[test]
fn a_short_slice_is_one_grounded_chat() {
    let cfg = RlmConfig::default();
    match state(false).llm_on(&cfg, &sub(), 0, "what?", "doc", 0, 5) {
        SubCall::Single(request) => {
            assert_eq!(request.url, "http://127.0.0.1:8092/v1/chat/completions");
            assert_eq!(request.max_tokens, 2048);
            let m = request.messages;
            assert_eq!(m.len(), 2);
            assert_eq!(m[0].role, "system");
            assert_eq!(
                m[0].content,
                "Answer the user's question using ONLY the following excerpt from 'doc'. If the answer is not in the excerpt, say so.\n--- EXCERPT ---\nhéllo\n--- END EXCERPT ---"
            );
            assert_eq!((m[1].role.as_str(), m[1].content.as_str()), ("user", "what?"));
        }
        _ => panic!(),
    }
}

#[test]
fn a_slice_without_text_or_context_is_an_error() {
    let cfg = RlmConfig::default();
    assert!(matches!(state(false).llm_on(&cfg, &sub(), 0, "q", "b", 0, 5), SubCall::Answer(e) if e == "[error] empty slice"));
    assert!(matches!(state(false).llm_on(&cfg, &sub(), 0, "q", "x", 0, 5), SubCall::Answer(e) if e.starts_with("[error] no context named 'x'")));
}

#[test]
fn a_long_slice_gets_a_loop_of_its_own_within_the_depth() {
    let mut cfg = RlmConfig::default();
    cfg.recurse_threshold = 5;
    assert!(matches!(state(false).llm_on(&cfg, &sub(), 0, "q", "doc", 0, 6), SubCall::Nested { contexts, depth: 1 } if contexts == vec![("excerpt".to_string(), "héllo ".to_string())]));
    assert!(matches!(state(false).llm_on(&cfg, &sub(), 0, "q", "doc", 0, 5), SubCall::Single(_)));
    assert!(matches!(state(false).llm_on(&cfg, &sub(), 1, "q", "doc", 0, 6), SubCall::Single(_)));
    assert!(matches!(state(false).llm_on(&cfg, &sub(), u32::MAX, "q", "doc", 0, 6), SubCall::Single(_)));
}

#[test]
fn an_excerpt_is_cut_for_a_single_chat() {
    let cfg = RlmConfig::default();
    let s = EvalState::new(vec![("d".to_string(), "z".repeat(80_001))], false);
    match s.llm_on(&cfg, &sub(), 1, "q", "d", 0, 80_001) {
        SubCall::Single(r) => assert!(r.messages[0].content.contains("\n...[truncated 80000 of 80001 chars]\n--- END")),
        _ => panic!(),
    }
}

#[test]
fn failures_are_handed_to_the_script() {
    assert_eq!(sub_reply(Ok("a".to_string())), "a");
    assert_eq!(sub_reply(Err("e".to_string())), "[error] sub-call failed: e");
    assert_eq!(nested_reply(Ok("a".to_string())), "a");
    assert_eq!(nested_reply(Err("e".to_string())), "[error] recursive call failed: e");
}

#[test]
fn scripts_use_a_memory_they_may_use() {
    let mut s = state(true);
    let mut m = Memory::new();
    assert_eq!(s.memory_keys(&m), "(memory is empty)");
    assert!(s.remember(&mut m, "b", "2"));
    assert!(s.remember(&mut m, "a", "1"));
    assert_eq!(s.memory_keys(&m), "a\nb");
    assert_eq!(s.recall(&m, "a"), "1");
    assert_eq!(s.recall(&m, "c"), "[error] no memory for key 'c'");
    assert_eq!(s.output, "");
}

#[test]
fn scripts_learn_nothing_of_a_memory_they_may_not_use() {
    let mut s = state(false);
    let mut m = Memory::new();
    m.remember("a", "1");
    let denied = s.recall(&m, "a");
    assert_eq!(denied, s.recall(&Memory::new(), "a"));
    assert_eq!(s.memory_keys(&m), s.memory_keys(&Memory::new()));
    assert!(!s.remember(&mut m, "b", "2"));
    assert_eq!(m.recall("b"), None);
    assert_eq!(s.output, format!("{denied}\n"));
}

#[test]
fn finishing_keeps_the_answer() {
    let mut s = state(false);
    s.finish("42");
    s.finish("43");
    assert_eq!(s.final_answer.as_deref(), Some("43"));
}
