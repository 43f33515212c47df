use rlm::cli::{chat_line, parse_cli, Chat, ChatLine, Cli, CliStop, Command, USAGE};
use rlm::config::RlmConfig;
use rlm::setup::StartPolicy;

fn parse(args: &[&str]) -> Result<Cli, CliStop> {
    parse_cli(&args.iter().map(|a| a.to_string()).collect())
}

fn ok(args: &[&str]) -> Cli {
    match parse(args) {
        Ok(c) => c,
        Err(e) => panic!("{}", e.message()),
    }
}

fn told(args: &[&str]) -> String {
    match parse(args) {
        Ok(_) => panic!(),
        Err(e) => e.message(),
    }
}

#[test]
fn options_are_read() {
    let c = ok(&[
        "chat", "-q", "why?", "-c", "a.txt", "--context", "b.txt", "--model", "m.gguf", "--config", "c.json", "--port", "81",
        "--iters", "3", "--depth", "4", "--no-server",
    ]);
    assert_eq!(c.command, "chat");
    assert_eq!(c.query.as_deref(), Some("why?"));
    assert_eq!(c.context_files, vec!["a.txt", "b.txt"]);
    assert_eq!((c.model.as_deref(), c.config_path.as_deref()), (Some("m.gguf"), Some("c.json")));
    assert_eq!((c.port, c.iters, c.depth, c.no_server), (Some(81), Some(3), Some(4), true));
}

#[test]
fn the_command_is_run_unless_one_is_given() {
    assert_eq!(ok(&[]).command, "run");
    assert_eq!(ok(&["--no-server"]).command, "run");
    assert_eq!(ok(&["serve"]).command, "serve");
    assert_eq!(ok(&[""]).command, "");
}

#[test]
fn later_options_win_and_values_may_look_like_options() {
    assert_eq!(ok(&["-q", "a", "--query", "b"]).query.as_deref(), Some("b"));
    assert_eq!(ok(&["-q", "--no-server"]).query.as_deref(), Some("--no-server"));
}

#[test]
fn bad_command_lines_are_told() {
    assert_eq!(told(&["run", "-q"]), "missing value for -q");
    assert_eq!(told(&["--port", "x"]), "invalid digit found in string");
    assert_eq!(told(&["--port", "65536"]), "number too large to fit in target type");
    assert_eq!(told(&["--iters", ""]), "cannot parse integer from empty string");
    assert_eq!(told(&["run", "--bogus"]), format!("unknown argument: --bogus\n\n{USAGE}"));
    assert_eq!(told(&["run", "extra"]), format!("unknown argument: extra\n\n{USAGE}"));
    assert!(matches!(parse(&["run", "--help", "--bogus"]), Err(CliStop::Help)));
    assert_eq!(told(&["-h"]), USAGE);
    assert!(matches!(parse(&["--bogus", "-h"]), Err(CliStop::Unknown(a)) if a == "--bogus"));
}

#[test]
fn the_configuration_is_overridden() {
    let mut cfg = RlmConfig::default();
    ok(&["run"]).apply(&mut cfg);
    assert_eq!((cfg.port, cfg.max_iterations, cfg.max_depth, cfg.model_path.as_str()), (8090, 12, 2, ""));
    ok(&["--model", "m", "--port", "1", "--iters", "2", "--depth", "3"]).apply(&mut cfg);
    assert_eq!((cfg.port, cfg.max_iterations, cfg.max_depth, cfg.model_path.as_str()), (1, 2, 3, "m"));
}

#[test]
fn commands_are_told_apart() {
    assert!(matches!(ok(&["serve"]).to_command(), Ok(Command::Serve)));
    assert!(matches!(ok(&["daemon"]).to_command(), Ok(Command::Daemon)));
    assert!(matches!(ok(&["run", "-q", "x"]).to_command(), Ok(Command::Run { query, policy: StartPolicy::Start }) if query == "x"));
    assert!(matches!(ok(&["-q", "x", "--no-server"]).to_command(), Ok(Command::Run { policy: StartPolicy::Attach, .. })));
    assert!(matches!(ok(&["chat"]).to_command(), Ok(Command::Chat { policy: StartPolicy::Start })));
    assert!(matches!(ok(&["chat", "--no-server"]).to_command(), Ok(Command::Chat { policy: StartPolicy::Unchecked })));
    match ok(&["run"]).to_command() {
        Err(e) => assert_eq!(e, format!("run mode needs -q \"<question>\"\n\n{USAGE}")),
        Ok(_) => panic!(),
    }
    match ok(&["fly"]).to_command() {
        Err(e) => assert_eq!(e, format!("unknown command: fly\n\n{USAGE}")),
        Ok(_) => panic!(),
    }
}

#[test]
fn chat_lines_are_told_apart() {
    assert!(matches!(chat_line("  \t"), ChatLine::Skip));
    for word in ["exit", "quit", " /exit ", "/quit"] {
        assert!(matches!(chat_line(word), ChatLine::Quit));
    }
    assert!(matches!(chat_line(" hello "), ChatLine::Ask(q) if q == "hello"));
    assert!(matches!(chat_line("EXIT"), ChatLine::Ask(_)));
}

#[test]
fn what_was_said_is_a_context_of_its_own() {
    let base = vec![("doc".to_string(), "text".to_string())];
    let mut chat = Chat::new(base.clone());
    assert_eq!(chat.contexts(), base);
    chat.note("q1", "a1");
    chat.note("q2", "a2");
    assert_eq!(
        chat.contexts()[1],
        (
            "conversation_history".to_string(),
            "USER: q1\nASSISTANT: a1\n\nUSER: q2\nASSISTANT: a2\n\n".to_string()
        )
    );
    assert_eq!(chat.contexts().len(), 2);
    assert_eq!(chat.base, base);
}

#[test]
fn usage_names_every_command_and_option() {
    for word in ["run", "chat", "serve", "daemon", "--query", "--context", "--model", "--config", "--port", "--iters", "--depth", "--no-server"] {
        assert!(USAGE.contains(word));
    }
    assert!(USAGE.contains(r"rlm-rs\rlm.config.json"));
}
