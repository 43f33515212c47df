use rlm::admission::{Capabilities, Limits, Refusal, RunRequest};
use rlm::config::RlmConfig;
use rlm::engine::{RunEvent, CANCELLED_MSG};
use rlm::runs::{new_run_id, EventData, RunEntry, RunStatus, Snapshot, MAX_EVENTS_PER_RUN};
use rlm::store::{NextRun, Store, MAX_PENDING_RUNS};

fn request(prompt: &str) -> RunRequest {
    RunRequest {
        prompt: prompt.to_string(),
        contexts: vec![],
        capabilities: Capabilities { memory: true },
        limits: Limits { max_iterations: None, max_tokens: None, max_run_seconds: None },
    }
}

fn create(store: &mut Store, prompt: &str) -> Snapshot {
    match store.create_run(request(prompt), &RlmConfig::default(), 100, 7) {
        Ok(s) => s,
        Err(e) => panic!("{}", e.message()),
    }
}

fn started(store: &mut Store, now: u64) -> (String, String) {
    match store.next_run(now) {
        NextRun::Started { run_id, run } => (run_id, run.prompt),
        _ => panic!(),
    }
}

fn kinds(entry: &RunEntry) -> Vec<String> {
    entry.events.iter().map(|e| e.kind()).collect()
}

#[test]
fn names_of_runs_hold_time_and_number() {
    assert_eq!(new_run_id(1700000000, 123_456_789, 1), "run-1700000000-456789-1");
    assert_eq!(new_run_id(0, 5, 12), "run-0-000005-12");
    assert_ne!(new_run_id(0, 5, 12), new_run_id(0, 5, 13));
}

#[test]
fn an_admitted_run_waits() {
    let mut store = Store::new();
    let s = create(&mut store, "a");
    assert_eq!(s.run_id, "run-100-000007-1");
    assert_eq!(s.status, RunStatus::Queued);
    assert_eq!((s.created_unix, s.finished_unix, s.iterations), (100, None, 0));
    assert_eq!((s.answer.clone(), s.error.clone()), (None, None));
    let entry = store.entry(&s.run_id).unwrap();
    assert_eq!(kinds(entry), vec!["queued"]);
    assert!(matches!(entry.events[0].data, EventData::Queued { memory: false }));
    assert!(store.entry("nope").is_none());
    assert!(store.get_run("nope").is_none());
}

#[test]
fn a_run_goes_from_queue_to_answer() {
    let mut store = Store::new();
    let id = create(&mut store, "a").run_id;
    assert_eq!(started(&mut store, 101), (id.clone(), "a".to_string()));
    assert_eq!(store.get_run(&id).unwrap().status, RunStatus::Running);
    store.record_iteration(RunEvent::Iteration { n: 1, of: 12, repl_preview: "x".to_string() }, 102);
    assert_eq!(store.get_run(&id).unwrap().iterations, 1);
    let end = store.finish_run(Ok("yes".to_string()), 103).unwrap();
    assert_eq!(end.status, RunStatus::Done);
    assert_eq!(end.answer.as_deref(), Some("yes"));
    assert_eq!(end.finished_unix, Some(103));
    let entry = store.entry(&id).unwrap();
    assert_eq!(kinds(entry), vec!["queued", "running", "iteration", "done"]);
    assert_eq!(entry.events.iter().map(|e| (e.seq, e.unix)).collect::<Vec<_>>(), vec![(0, 100), (1, 101), (2, 102), (3, 103)]);
    assert!(entry.terminal());
}

#[test]
fn ends_are_told_apart_by_their_error() {
    for (error, status) in [(CANCELLED_MSG, RunStatus::Cancelled), ("model down", RunStatus::Failed)] {
        let mut store = Store::new();
        let id = create(&mut store, "a").run_id;
        started(&mut store, 101);
        let end = store.finish_run(Err(error.to_string()), 103).unwrap();
        assert_eq!(end.status, status);
        assert_eq!(end.error.as_deref(), if status == RunStatus::Failed { Some("model down") } else { None });
        assert_eq!(kinds(store.entry(&id).unwrap()).last().unwrap(), &status.name());
    }
}

#[test]
fn previews_are_cut() {
    let mut store = Store::new();
    create(&mut store, "a");
    started(&mut store, 101);
    let end = store.finish_run(Ok("x".repeat(8001)), 103).unwrap();
    assert!(end.answer.unwrap().ends_with("\n...[truncated 8000 of 8001 chars]"));
    create(&mut store, "b");
    started(&mut store, 104);
    let end = store.finish_run(Err("x".repeat(2001)), 105).unwrap();
    assert!(end.error.unwrap().ends_with("\n...[truncated 2000 of 2001 chars]"));
}

#[test]
fn runs_are_served_one_at_a_time_and_in_order() {
    let mut store = Store::new();
    let a = create(&mut store, "a").run_id;
    let b = create(&mut store, "b").run_id;
    assert_eq!(started(&mut store, 101).0, a);
    assert!(matches!(store.next_run(102), NextRun::Idle));
    assert_eq!(store.get_run(&b).unwrap().status, RunStatus::Queued);
    store.finish_run(Ok("1".to_string()), 103);
    assert_eq!(started(&mut store, 104).0, b);
    store.finish_run(Ok("2".to_string()), 105);
    assert!(matches!(store.next_run(106), NextRun::Idle));
    assert!(store.finish_run(Ok("3".to_string()), 107).is_none());
}

#[test]
fn over_admission_is_refused() {
    let mut store = Store::new();
    for _ in 0..MAX_PENDING_RUNS {
        create(&mut store, "a");
    }
    let refused = store.create_run(request("b"), &RlmConfig::default(), 100, 7);
    assert!(matches!(refused, Err(Refusal::QueueFull)));
    assert!(store.get_run("run-100-000007-9").is_none());
    started(&mut store, 101);
    assert_eq!(create(&mut store, "c").run_id, "run-100-000007-10");
}

#[test]
fn a_bad_request_takes_no_number() {
    let mut store = Store::new();
    assert!(matches!(store.create_run(request(" "), &RlmConfig::default(), 1, 1), Err(Refusal::PromptRequired)));
    assert!(store.has_number());
    assert_eq!(create(&mut store, "a").run_id, "run-100-000007-1");
}

#[test]
fn a_run_cancelled_while_it_waits_never_begins() {
    let mut store = Store::new();
    let a = create(&mut store, "a").run_id;
    let b = create(&mut store, "b").run_id;
    let s = store.cancel_run(&a, 101).unwrap();
    assert_eq!((s.status, s.finished_unix), (RunStatus::Cancelled, Some(101)));
    assert!(store.cancel_requested(&a) && !store.cancel_requested(&b) && !store.cancel_requested("nope"));
    assert!(matches!(store.next_run(102), NextRun::Skipped { snapshot, run } if snapshot.run_id == a && snapshot.status == RunStatus::Cancelled && run.prompt == "a"));
    assert_eq!(started(&mut store, 103).0, b);
    assert!(store.cancel_run("nope", 104).is_none());
}

#[test]
fn a_run_under_way_is_not_interrupted() {
    let mut store = Store::new();
    let a = create(&mut store, "a").run_id;
    started(&mut store, 101);
    let s = store.cancel_run(&a, 102).unwrap();
    assert_eq!((s.status, s.finished_unix), (RunStatus::Running, None));
    assert!(store.cancel_requested(&a));
    let end = store.finish_run(Err(CANCELLED_MSG.to_string()), 103).unwrap();
    assert_eq!(end.status, RunStatus::Cancelled);
}

#[test]
fn an_end_is_not_changed_any_more() {
    let mut store = Store::new();
    let a = create(&mut store, "a").run_id;
    started(&mut store, 101);
    store.finish_run(Ok("1".to_string()), 102);
    store.cancel_run(&a, 103);
    store.record_iteration(RunEvent::Iteration { n: 9, of: 12, repl_preview: String::new() }, 104);
    create(&mut store, "b");
    started(&mut store, 105);
    store.finish_run(Err("x".to_string()), 106);
    let s = store.get_run(&a).unwrap();
    assert_eq!((s.status, s.finished_unix, s.iterations), (RunStatus::Done, Some(102), 0));
    assert_eq!(store.entry(&a).unwrap().events.len(), 3);
}

#[test]
fn events_are_capped() {
    let mut store = Store::new();
    let a = create(&mut store, "a").run_id;
    started(&mut store, 101);
    for n in 0..1100u32 {
        store.record_iteration(RunEvent::Iteration { n, of: 2000, repl_preview: String::new() }, 102);
    }
    assert_eq!(store.entry(&a).unwrap().events.len(), MAX_EVENTS_PER_RUN);
    assert_eq!(store.get_run(&a).unwrap().iterations, 1099);
    assert_eq!(store.entry(&a).unwrap().events[999].seq, 999);
}

#[test]
fn an_entry_notes_events_in_order() {
    let mut e = RunEntry::queued("r", true, 5);
    e.push_event(EventData::Running, 6);
    assert_eq!(kinds(&e), vec!["queued", "running"]);
    assert!(!e.terminal());
    assert_eq!(RunStatus::Failed.name(), "failed");
    assert!(RunStatus::Failed.terminal() && !RunStatus::Queued.terminal());
}
