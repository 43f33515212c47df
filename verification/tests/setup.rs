use rlm::config::RlmConfig;
use rlm::server::{EnsureAction, EnsureInput};
use rlm::setup::{Setup, SetupAction, StartPolicy};

fn config() -> RlmConfig {
    let mut c = RlmConfig::default();
    c.server_bin = "llama-server".to_string();
    c
}

const MAIN: &str = "http://127.0.0.1:8090";
const WORKER: &str = "http://127.0.0.1:8092";

fn ready(a: SetupAction) -> (String, String, Option<String>) {
    match a {
        SetupAction::Ready { root, sub, note } => (root.base_url, sub.base_url, note),
        _ => panic!(),
    }
}

#[test]
fn both_servers_are_used_where_they_are_up() {
    let mut s = Setup::new(&config(), StartPolicy::Start);
    assert!(matches!(s.step(EnsureInput::Begin), SetupAction::Main(EnsureAction::Probe)));
    assert!(matches!(s.step(EnsureInput::Health(true)), SetupAction::Worker(EnsureAction::Probe)));
    assert_eq!(ready(s.step(EnsureInput::Health(true))), (MAIN.to_string(), WORKER.to_string(), None));
    assert!(matches!(s.step(EnsureInput::Health(true)), SetupAction::Main(EnsureAction::Ignored)));
}

#[test]
fn a_missed_worker_stops_no_run() {
    let mut s = Setup::new(&config(), StartPolicy::Start);
    s.step(EnsureInput::Begin);
    s.step(EnsureInput::Health(true));
    assert!(matches!(s.step(EnsureInput::Health(false)), SetupAction::Worker(EnsureAction::CheckFile(_))));
    assert_eq!(
        ready(s.step(EnsureInput::Exists(false))),
        (
            MAIN.to_string(),
            MAIN.to_string(),
            Some("worker unavailable (worker model file not found at ); sub-calls use the main model".to_string())
        )
    );
}

#[test]
fn a_missed_main_server_stops_the_run() {
    let mut s = Setup::new(&config(), StartPolicy::Attach);
    s.step(EnsureInput::Begin);
    match s.step(EnsureInput::Health(false)) {
        SetupAction::Fail(e) => {
            assert_eq!(e.message(), format!("no llama-server reachable at {MAIN} and --no-server was given"))
        }
        _ => panic!(),
    }
}

#[test]
fn nothing_is_started_unasked() {
    let mut s = Setup::new(&config(), StartPolicy::Attach);
    s.step(EnsureInput::Begin);
    s.step(EnsureInput::Health(true));
    assert_eq!(ready(s.step(EnsureInput::Health(false))), (MAIN.to_string(), MAIN.to_string(), None));
    let mut s = Setup::new(&config(), StartPolicy::Unchecked);
    assert!(matches!(s.step(EnsureInput::Begin), SetupAction::Worker(EnsureAction::Probe)));
    assert_eq!(ready(s.step(EnsureInput::Health(true))), (MAIN.to_string(), WORKER.to_string(), None));
}

#[test]
fn a_worker_tier_that_is_off_is_used_only_if_up() {
    let mut c = config();
    c.enabled_servers = vec!["main".to_string()];
    for (up, sub) in [(true, WORKER), (false, MAIN)] {
        let mut s = Setup::new(&c, StartPolicy::Start);
        s.step(EnsureInput::Begin);
        assert!(matches!(s.step(EnsureInput::Health(true)), SetupAction::Worker(EnsureAction::Probe)));
        assert_eq!(ready(s.step(EnsureInput::Health(up))), (MAIN.to_string(), sub.to_string(), None));
    }
}

#[test]
fn without_a_worker_the_main_model_answers_all() {
    let mut c = config();
    c.worker_port = None;
    let mut s = Setup::new(&c, StartPolicy::Start);
    s.step(EnsureInput::Begin);
    assert_eq!(ready(s.step(EnsureInput::Health(true))), (MAIN.to_string(), MAIN.to_string(), None));
    let mut s = Setup::new(&c, StartPolicy::Unchecked);
    assert_eq!(ready(s.step(EnsureInput::Begin)), (MAIN.to_string(), MAIN.to_string(), None));
}
