use rlm::admission::{Capabilities, Limits, RunRequest, MAX_BODY_BYTES};
use rlm::config::RlmConfig;
use rlm::daemon::{
    conclude_run, create_run, handle, persist_snapshot, ready_reply, Answer, Reply, ReplyBody, RunBody, LOOPBACK,
};
use rlm::memory::Memory;
use rlm::runs::RunStatus;
use rlm::store::Store;

fn body(prompt: &str) -> RunBody {
    RunBody::Read {
        bytes: 10,
        request: Ok(RunRequest {
            prompt: prompt.to_string(),
            contexts: vec![],
            capabilities: Capabilities { memory: false },
            limits: Limits { max_iterations: None, max_tokens: None, max_run_seconds: None },
        }),
    }
}

fn error(r: &Reply) -> (u16, &str) {
    match &r.body {
        ReplyBody::Error(e) => (r.code, e.as_str()),
        _ => panic!(),
    }
}

fn ask(store: &mut Store, method: &str, url: &str) -> Answer {
    handle(store, method, url, &None, &None, 50)
}

fn created(store: &mut Store) -> String {
    let r = create_run(store, None, body("hi"), &RlmConfig::default(), 40, 3);
    assert_eq!(r.code, 202);
    match r.body {
        ReplyBody::Run(s) => {
            assert_eq!(s.status, RunStatus::Queued);
            s.run_id
        }
        _ => panic!(),
    }
}

#[test]
fn health_and_readiness() {
    let mut store = Store::new();
    assert!(matches!(ask(&mut store, "GET", "/health"), Answer::Reply(Reply { code: 200, body: ReplyBody::Health })));
    assert!(matches!(ask(&mut store, "GET", "/ready"), Answer::Probe));
    assert!(matches!(ready_reply(true), Reply { code: 200, body: ReplyBody::Ready(true) }));
    assert!(matches!(ready_reply(false), Reply { code: 503, body: ReplyBody::Ready(false) }));
    assert_eq!(LOOPBACK, "127.0.0.1");
}

#[test]
fn a_created_run_is_found() {
    let mut store = Store::new();
    let id = created(&mut store);
    match ask(&mut store, "GET", &format!("/v1/runs/{id}")) {
        Answer::Reply(Reply { code: 200, body: ReplyBody::Run(s) }) => assert_eq!((s.run_id, s.status), (id.clone(), RunStatus::Queued)),
        _ => panic!(),
    }
    match ask(&mut store, "GET", &format!("/v1/runs/{id}/events?after=2")) {
        Answer::Stream { run_id, after } => assert_eq!((run_id, after), (id.clone(), 2)),
        _ => panic!(),
    }
    match ask(&mut store, "POST", &format!("/v1/runs/{id}/cancel")) {
        Answer::Reply(Reply { code: 200, body: ReplyBody::Run(s) }) => {
            assert_eq!((s.status, s.finished_unix), (RunStatus::Cancelled, Some(50)))
        }
        _ => panic!(),
    }
}

#[test]
fn unknown_runs_are_not_found() {
    let mut store = Store::new();
    for (m, u) in [("GET", "/v1/runs/x"), ("POST", "/v1/runs/x/cancel"), ("GET", "/v1/runs/x/events")] {
        match ask(&mut store, m, u) {
            Answer::Reply(r) => assert_eq!(error(&r), (404, "unknown run")),
            _ => panic!(),
        }
    }
    match ask(&mut store, "GET", "/other") {
        Answer::Reply(r) => assert_eq!(error(&r), (404, "not found")),
        _ => panic!(),
    }
}

#[test]
fn a_stranger_is_told_nothing() {
    let mut store = Store::new();
    let id = created(&mut store);
    let token = Some("t".to_string());
    for u in [format!("/v1/runs/{id}"), "/v1/runs/other".to_string()] {
        match handle(&mut store, "GET", &u, &None, &token, 50) {
            Answer::Reply(r) => assert_eq!(error(&r), (401, "missing or invalid bearer token")),
            _ => panic!(),
        }
    }
    handle(&mut store, "POST", &format!("/v1/runs/{id}/cancel"), &None, &token, 50);
    assert_eq!(store.get_run(&id).unwrap().status, RunStatus::Queued);
    assert!(matches!(
        handle(&mut store, "POST", "/v1/runs", &Some("Bearer t".to_string()), &token, 50),
        Answer::ReadBody
    ));
}

#[test]
fn bodies_are_refused_in_order() {
    let mut store = Store::new();
    let cfg = RlmConfig::default();
    let r = create_run(&mut store, Some(MAX_BODY_BYTES + 1), RunBody::Unreadable, &cfg, 1, 1);
    assert_eq!(error(&r), (413, "body too large"));
    let r = create_run(&mut store, None, RunBody::Unreadable, &cfg, 1, 1);
    assert_eq!(error(&r), (400, "unreadable or oversized body"));
    let big = RunBody::Read { bytes: MAX_BODY_BYTES + 1, request: Err("cut".to_string()) };
    let r = create_run(&mut store, None, big, &cfg, 1, 1);
    assert_eq!(error(&r), (400, "unreadable or oversized body"));
    let bad = RunBody::Read { bytes: 3, request: Err("no".to_string()) };
    let r = create_run(&mut store, Some(3), bad, &cfg, 1, 1);
    assert_eq!(error(&r), (400, "bad request: no"));
    let r = create_run(&mut store, None, body("  "), &cfg, 1, 1);
    assert_eq!(error(&r), (400, "prompt is required"));
    for _ in 0..8 {
        created(&mut store);
    }
    let r = create_run(&mut store, None, body("one more"), &cfg, 1, 1);
    assert_eq!(error(&r), (429, "run queue is full"));
}

#[test]
fn snapshots_are_kept_where_there_is_a_file() {
    let mut store = Store::new();
    let id = created(&mut store);
    let s = store.get_run(&id).unwrap();
    let mut cfg = RlmConfig::default();
    assert_eq!(persist_snapshot(&cfg, &s).unwrap().run_id, id);
    cfg.daemon_runs_path = String::new();
    assert!(persist_snapshot(&cfg, &s).is_none());
}

#[test]
fn only_allowed_answers_are_logged() {
    let mut m = Memory::new();
    assert!(!conclude_run(&mut m, false, "q", &Ok("a".to_string())));
    assert!(!conclude_run(&mut m, true, "q", &Err("e".to_string())));
    assert_eq!(m.sessions.len(), 0);
    assert!(conclude_run(&mut m, true, "q", &Ok("a".to_string())));
    assert_eq!((m.sessions[0].query.as_str(), m.sessions[0].answer.as_str()), ("q", "a"));
}
