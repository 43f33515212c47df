use rlm::config::RlmConfig;
use rlm::server::{
    attach_server, ensure, ensure_server, ensure_worker, main_spec, server_args, worker_spec, Ensure, EnsureAction,
    EnsureInput,
};

fn config() -> RlmConfig {
    let mut c = RlmConfig::default();
    c.server_bin = "/bin/llama-server".to_string();
    c.model_path = "/m/main.gguf".to_string();
    c.worker_model_path = "/m/worker.gguf".to_string();
    c.startup_timeout_secs = 10;
    c
}

fn begin(run: &mut Ensure) -> EnsureAction {
    ensure(run, EnsureInput::Begin)
}

fn health(run: &mut Ensure, up: bool) -> EnsureAction {
    ensure(run, EnsureInput::Health(up))
}

fn message(a: EnsureAction) -> String {
    match a {
        EnsureAction::Fail(e) => e.message(),
        _ => panic!(),
    }
}

#[test]
fn a_server_gets_its_arguments() {
    let mut c = config();
    c.extra_server_args = vec!["--x".to_string(), "1".to_string()];
    assert_eq!(
        server_args(&c, &main_spec(&c)),
        vec![
            "-m", "/m/main.gguf", "--host", "127.0.0.1", "--port", "8090", "-c", "32768", "--jinja", "-fa", "on",
            "--cache-type-k", "q8_0", "--cache-type-v", "q8_0", "-ngl", "38", "--x", "1",
        ]
    );
    assert_eq!(
        server_args(&c, &worker_spec(&c, 8092)),
        vec![
            "-m", "/m/worker.gguf", "--host", "127.0.0.1", "--port", "8092", "-c", "8192", "--jinja", "-fa", "on",
            "--cache-type-k", "q8_0", "--cache-type-v", "q8_0", "-ngl", "99", "--alias", "local-worker",
            "--chat-template-kwargs", "{\"enable_thinking\":false}",
        ]
    );
}

#[test]
fn arguments_are_left_out_where_nothing_is_configured() {
    let mut c = config();
    c.flash_attn = false;
    c.kv_cache_type = String::new();
    c.n_gpu_layers = None;
    assert_eq!(
        server_args(&c, &main_spec(&c)),
        vec!["-m", "/m/main.gguf", "--host", "127.0.0.1", "--port", "8090", "-c", "32768", "--jinja"]
    );
    c.n_gpu_layers = Some(-1);
    assert_eq!(server_args(&c, &main_spec(&c))[9..], ["-ngl".to_string(), "-1".to_string()]);
}

#[test]
fn a_server_that_is_up_is_used() {
    let mut run = ensure_server(&config());
    assert!(matches!(begin(&mut run), EnsureAction::Probe));
    assert!(matches!(health(&mut run, true), EnsureAction::Done { started: false }));
    assert!(matches!(health(&mut run, true), EnsureAction::Ignored));
}

#[test]
fn a_server_is_started_and_waited_for() {
    let c = config();
    let mut run = ensure_server(&c);
    begin(&mut run);
    assert!(matches!(health(&mut run, false), EnsureAction::CheckFile(p) if p == "/bin/llama-server"));
    assert!(matches!(ensure(&mut run, EnsureInput::Exists(true)), EnsureAction::CheckFile(p) if p == "/m/main.gguf"));
    match ensure(&mut run, EnsureInput::Exists(true)) {
        EnsureAction::Start { bin, args } => {
            assert_eq!(bin, "/bin/llama-server");
            assert_eq!(args, server_args(&c, &main_spec(&c)));
        }
        _ => panic!(),
    }
    assert!(matches!(ensure(&mut run, EnsureInput::Started(Ok(()))), EnsureAction::Clock));
    assert!(matches!(ensure(&mut run, EnsureInput::Elapsed(0)), EnsureAction::Probe));
    assert!(matches!(health(&mut run, false), EnsureAction::Pause));
    assert!(matches!(ensure(&mut run, EnsureInput::Elapsed(2)), EnsureAction::Probe));
    assert!(matches!(health(&mut run, true), EnsureAction::Done { started: true }));
}

#[test]
fn a_slow_server_is_given_up() {
    let mut run = ensure_worker(&config());
    begin(&mut run);
    health(&mut run, false);
    ensure(&mut run, EnsureInput::Exists(true));
    ensure(&mut run, EnsureInput::Exists(true));
    ensure(&mut run, EnsureInput::Started(Ok(())));
    assert_eq!(
        message(ensure(&mut run, EnsureInput::Elapsed(10))),
        "worker llama-server did not become healthy within 10s (large models can take a while; raise startup_timeout_secs in the config if needed)"
    );
    assert!(matches!(begin(&mut run), EnsureAction::Ignored));
}

#[test]
fn missing_files_are_named() {
    let mut run = ensure_server(&config());
    begin(&mut run);
    health(&mut run, false);
    assert_eq!(message(ensure(&mut run, EnsureInput::Exists(false))), "llama-server not found at /bin/llama-server");
    let mut run = ensure_worker(&config());
    begin(&mut run);
    health(&mut run, false);
    ensure(&mut run, EnsureInput::Exists(true));
    assert_eq!(message(ensure(&mut run, EnsureInput::Exists(false))), "worker model file not found at /m/worker.gguf");
}

#[test]
fn a_bare_command_is_not_looked_for() {
    let mut c = config();
    c.server_bin = "llama-server".to_string();
    let mut run = ensure_server(&c);
    begin(&mut run);
    assert!(matches!(health(&mut run, false), EnsureAction::CheckFile(p) if p == "/m/main.gguf"));
}

#[test]
fn a_server_that_does_not_start_is_told_of() {
    let mut run = ensure_server(&config());
    begin(&mut run);
    health(&mut run, false);
    ensure(&mut run, EnsureInput::Exists(true));
    ensure(&mut run, EnsureInput::Exists(true));
    assert_eq!(message(ensure(&mut run, EnsureInput::Started(Err("no exec".to_string())))), "no exec");
}

#[test]
fn a_tier_that_is_off_is_never_started() {
    let mut c = config();
    c.enabled_servers = vec![];
    let mut run = ensure_server(&c);
    begin(&mut run);
    assert!(matches!(health(&mut run, true), EnsureAction::Done { started: false }));
    let mut run = ensure_server(&c);
    begin(&mut run);
    assert_eq!(
        message(health(&mut run, false)),
        "the 'main' server tier is disabled in enabled_servers and nothing is listening on port 8090"
    );
    let mut run = ensure_worker(&c);
    assert!(matches!(begin(&mut run), EnsureAction::Done { started: false }));
}

#[test]
fn without_a_worker_there_is_nothing_to_do() {
    let mut c = config();
    c.worker_port = None;
    let mut run = ensure_worker(&c);
    assert!(matches!(begin(&mut run), EnsureAction::Done { started: false }));
}

#[test]
fn an_attached_server_must_be_up() {
    let mut run = attach_server(&config());
    begin(&mut run);
    assert_eq!(
        message(health(&mut run, false)),
        "no llama-server reachable at http://127.0.0.1:8090 and --no-server was given"
    );
}
