use rlm::admission::{
    check_announced, check_body, check_request, grant, sanitize_name, Capabilities, ContextIn, Limits, Refusal,
    RunRequest, MAX_BODY_BYTES,
};
use rlm::config::RlmConfig;

fn request(prompt: &str) -> RunRequest {
    RunRequest {
        prompt: prompt.to_string(),
        contexts: vec![],
        capabilities: Capabilities { memory: false },
        limits: Limits { max_iterations: None, max_tokens: None, max_run_seconds: None },
    }
}

fn context(name: &str, text: &str) -> ContextIn {
    ContextIn { name: name.to_string(), text: text.to_string() }
}

#[test]
fn bodies_are_bounded() {
    assert!(check_announced(None).is_none());
    assert!(check_announced(Some(MAX_BODY_BYTES)).is_none());
    assert!(matches!(check_announced(Some(MAX_BODY_BYTES + 1)), Some(Refusal::BodyTooLarge)));
    assert!(check_body(Some(MAX_BODY_BYTES)).is_none());
    assert!(matches!(check_body(Some(MAX_BODY_BYTES + 1)), Some(Refusal::BodyUnreadable)));
    assert!(matches!(check_body(None), Some(Refusal::BodyUnreadable)));
    assert_eq!(MAX_BODY_BYTES, 32 * 1024 * 1024);
}

#[test]
fn requests_are_held_against_the_configuration() {
    let mut cfg = RlmConfig::default();
    cfg.daemon_max_context_chars = 4;
    assert!(check_request(&request("hi"), &cfg).is_none());
    assert!(matches!(check_request(&request(" \n"), &cfg), Some(Refusal::PromptRequired)));
    let mut req = request("hi");
    req.contexts = vec![context("a", "éé"), context("b", "xx")];
    assert!(check_request(&req, &cfg).is_none());
    req.contexts.push(context("c", "y"));
    assert!(matches!(check_request(&req, &cfg), Some(Refusal::ContextsTooLarge)));
    req.contexts = (0..16).map(|_| context("a", "")).collect();
    assert!(check_request(&req, &cfg).is_none());
    req.contexts.push(context("a", ""));
    assert!(matches!(check_request(&req, &cfg), Some(Refusal::TooManyContexts)));
}

#[test]
fn names_are_made_safe() {
    assert_eq!(sanitize_name("notes.txt"), "notes.txt");
    assert_eq!(sanitize_name("../etc/pass wd"), "..etcpasswd");
    assert_eq!(sanitize_name("é/ "), "context");
    assert_eq!(sanitize_name(""), "context");
    assert_eq!(sanitize_name(&"a/".repeat(100)), "a".repeat(64));
    assert_eq!(sanitize_name("A-z_09"), "A-z_09");
    let once = sanitize_name("we?ird näme");
    assert_eq!(sanitize_name(&once), once);
}

#[test]
fn limits_only_go_down() {
    let cfg = RlmConfig::default();
    let mut req = request("hi");
    req.limits = Limits { max_iterations: Some(99), max_tokens: Some(1_000_000), max_run_seconds: Some(5000) };
    let run = grant(req, &cfg);
    assert_eq!((run.run_cfg.max_iterations, run.run_cfg.max_tokens, run.run_cfg.max_run_seconds), (12, 4096, 900));
    let mut req = request("hi");
    req.limits = Limits { max_iterations: Some(0), max_tokens: Some(1), max_run_seconds: Some(30) };
    let run = grant(req, &cfg);
    assert_eq!((run.run_cfg.max_iterations, run.run_cfg.max_tokens, run.run_cfg.max_run_seconds), (1, 64, 30));
    let mut req = request("hi");
    req.limits = Limits { max_iterations: Some(6), max_tokens: Some(100), max_run_seconds: Some(0) };
    let run = grant(req, &cfg);
    assert_eq!((run.run_cfg.max_iterations, run.run_cfg.max_tokens, run.run_cfg.max_run_seconds), (6, 100, 900));
}

#[test]
fn no_limit_goes_above_a_small_ceiling() {
    let mut cfg = RlmConfig::default();
    cfg.max_tokens = 10;
    cfg.max_iterations = 0;
    cfg.max_run_seconds = 0;
    let mut req = request("hi");
    req.limits = Limits { max_iterations: Some(5), max_tokens: Some(5), max_run_seconds: Some(7) };
    let run = grant(req, &cfg);
    assert_eq!((run.run_cfg.max_iterations, run.run_cfg.max_tokens, run.run_cfg.max_run_seconds), (0, 10, 7));
}

#[test]
fn a_request_without_limits_gets_the_configured_ones() {
    let cfg = RlmConfig::default();
    let run = grant(request("hi"), &cfg);
    assert_eq!((run.run_cfg.max_iterations, run.run_cfg.max_tokens, run.run_cfg.max_run_seconds), (12, 4096, 900));
    assert_eq!(run.prompt, "hi");
}

#[test]
fn memory_takes_both_sides() {
    for (asked, allowed) in [(false, false), (false, true), (true, false), (true, true)] {
        let mut cfg = RlmConfig::default();
        cfg.daemon_allow_memory = allowed;
        let mut req = request("hi");
        req.capabilities.memory = asked;
        assert_eq!(grant(req, &cfg).allow_memory, asked && allowed);
    }
}

#[test]
fn contexts_come_under_safe_names() {
    let mut req = request("hi");
    req.contexts = vec![context("a b", "text"), context("//", "more")];
    let run = grant(req, &RlmConfig::default());
    assert_eq!(
        run.contexts,
        vec![("ab".to_string(), "text".to_string()), ("context".to_string(), "more".to_string())]
    );
}

#[test]
fn refusals_have_codes_and_words() {
    for (r, code, text) in [
        (Refusal::BodyTooLarge, 413, "body too large"),
        (Refusal::BodyUnreadable, 400, "unreadable or oversized body"),
        (Refusal::BadRequest("x".to_string()), 400, "bad request: x"),
        (Refusal::PromptRequired, 400, "prompt is required"),
        (Refusal::TooManyContexts, 413, "too many contexts"),
        (Refusal::ContextsTooLarge, 413, "contexts exceed configured size limit"),
        (Refusal::QueueFull, 429, "run queue is full"),
        (Refusal::Unauthorized, 401, "missing or invalid bearer token"),
        (Refusal::NotFound, 404, "not found"),
        (Refusal::UnknownRun, 404, "unknown run"),
    ] {
        assert_eq!(r.code(), code);
        assert_eq!(r.message(), text);
    }
}
