use rlm::client::LlmClient;
use rlm::config::RlmConfig;
use rlm::engine::{
    run_rlm, system_prompt, Phase, RlmRun, RunAction, RunError, RunEvent, RunInput, ScriptOutcome, CANCELLED_MSG,
};
use rlm::env::EvalState;
use rlm::memory::Memory;

fn contexts() -> Vec<(String, String)> {
    vec![("doc".to_string(), "héllo".to_string()), ("b".to_string(), "x".to_string())]
}

fn expected_prompt(role: &str, depth: u32, ctx_lines: &str, mem_digest: &str, iters: u32) -> String {
    let peek_cap = 16_000;
    format!(
        r#"You are a Recursive Language Model ({role} call, depth {depth}). Long context is NOT pasted into your prompt; it lives in an environment you interact with by writing code.

Loaded contexts:
{ctx_lines}

{mem_digest}
Each of your messages must contain exactly ONE fenced code block (```rhai ... ```) with a short script. After it runs you receive the printed output, then you write the next script. Available functions:
  ctx_list()                        -> list of context names and sizes
  ctx_len(name)                     -> length of a context in chars
  peek(name, start, len)            -> read a slice of a context (max {peek_cap} chars)
  grep(name, regex)                 -> matching lines with their char offsets
  llm(prompt)                       -> ask a fresh sub-model (no context attached)
  llm_on(prompt, name, start, len)  -> ask a sub-model grounded on a context slice; large slices recurse
  remember(key, value) / recall(key) / memory_keys()  -> persistent memory across sessions
  print(x)                          -> show a value in the REPL output
  finish(answer)                    -> submit your final answer and stop

Rhai syntax notes: `let x = 3;`, string concat with `+`, `if`/`for`/`while` as in Rust, no Python syntax.

Strategy: inspect sizes first, grep/peek to locate relevant regions, delegate large regions to llm_on, combine results, then call finish() with a complete, well-written answer. You have at most {iters} script turns. Never fabricate content you did not observe."#
    )
}

fn start(max_iterations: u32) -> (RlmRun, EvalState) {
    let mut cfg = RlmConfig::default();
    cfg.max_iterations = max_iterations;
    cfg.max_run_seconds = 100;
    let state = EvalState::new(contexts(), true);
    let run = RlmRun::start(&cfg, &state, &Memory::new(), "why?", 0);
    (run, state)
}

fn boundary(run: &mut RlmRun, state: &mut EvalState) -> RunAction {
    run_rlm(run, state, RunInput::Boundary { cancelled: false, elapsed_secs: 0 })
}

fn reply(run: &mut RlmRun, state: &mut EvalState, text: &str) -> RunAction {
    run_rlm(run, state, RunInput::Reply(Ok(text.to_string())))
}

#[test]
fn the_root_prompt_is_complete() {
    let cfg = RlmConfig::default();
    let state = EvalState::new(contexts(), true);
    let mut memory = Memory::new();
    memory.remember("k", "secret value");
    let p = system_prompt(&cfg, &state, &memory, 0);
    let digest = "Persistent memory facts (use recall(key) for values):\n  - k\n";
    assert_eq!(p, expected_prompt("root", 0, "  - \"doc\": 5 chars\n  - \"b\": 1 chars", digest, 12));
}

#[test]
fn the_nested_prompt_is_complete() {
    let mut cfg = RlmConfig::default();
    cfg.max_iterations = 3;
    let state = EvalState::new(vec![], true);
    let p = system_prompt(&cfg, &state, &Memory::new(), 1);
    let none = "  (none loaded — you can still use llm(), memory, and your own knowledge)";
    assert_eq!(p, expected_prompt("recursive sub", 1, none, "", 3));
}

#[test]
fn the_prompt_holds_no_content_and_no_denied_memory() {
    let cfg = RlmConfig::default();
    let one = EvalState::new(vec![("d".to_string(), "aaaa".to_string())], false);
    let other = EvalState::new(vec![("d".to_string(), "bbbb".to_string())], false);
    let mut memory = Memory::new();
    memory.remember("k", "v");
    assert_eq!(system_prompt(&cfg, &one, &memory, 0), system_prompt(&cfg, &other, &Memory::new(), 0));
}

#[test]
fn a_run_begins_with_prompt_and_question() {
    let (run, _) = start(2);
    assert_eq!(run.messages.len(), 2);
    assert_eq!(run.messages[0].role, "system");
    assert_eq!((run.messages[1].role.as_str(), run.messages[1].content.as_str()), ("user", "why?"));
    let request = run.request(&LlmClient::new(&RlmConfig::default()));
    assert_eq!(request.url, "http://127.0.0.1:8090/v1/chat/completions");
    assert_eq!((request.max_tokens, request.messages.len()), (4096, 2));
    assert_eq!(request.messages[1].content, "why?");
}

#[test]
fn a_script_runs_and_its_output_is_shown() {
    let (mut run, mut state) = start(2);
    assert!(matches!(boundary(&mut run, &mut state), RunAction::Chat));
    state.output = "stale".to_string();
    let a = reply(&mut run, &mut state, "```rhai\nprint(1);\n```");
    assert!(matches!(a, RunAction::Eval(code) if code == "print(1);\n"));
    assert_eq!(state.output, "");
    state.print("1");
    let a = run_rlm(&mut run, &mut state, RunInput::Evaluated(ScriptOutcome::Value("7".to_string())));
    match a {
        RunAction::Turn(Some(RunEvent::Iteration { n, of, repl_preview })) => {
            assert_eq!((n, of, repl_preview.as_str()), (1, 2, "1\n=> 7\n"));
        }
        _ => panic!(),
    }
    assert_eq!(run.messages.last().unwrap().content, "[REPL output]\n1\n=> 7\n");
    assert_eq!(run.messages.len(), 4);
}

#[test]
fn script_errors_and_silence_are_shown() {
    let (mut run, mut state) = start(3);
    boundary(&mut run, &mut state);
    reply(&mut run, &mut state, "```\nx\n```");
    run_rlm(&mut run, &mut state, RunInput::Evaluated(ScriptOutcome::Error("bad".to_string())));
    assert_eq!(run.messages.last().unwrap().content, "[REPL output]\n[script error] bad\n");
    boundary(&mut run, &mut state);
    reply(&mut run, &mut state, "```\nx\n```");
    state.print("  ");
    run_rlm(&mut run, &mut state, RunInput::Evaluated(ScriptOutcome::Unit));
    assert_eq!(
        run.messages.last().unwrap().content,
        "[REPL output]\n  \n(no output — use print(...) to inspect values)\n"
    );
}

#[test]
fn long_output_is_cut() {
    let (mut run, mut state) = start(3);
    boundary(&mut run, &mut state);
    reply(&mut run, &mut state, "```\nx\n```");
    state.print(&"o".repeat(12_500));
    let a = run_rlm(&mut run, &mut state, RunInput::Evaluated(ScriptOutcome::Unit));
    assert!(run.messages.last().unwrap().content.ends_with("\n...[truncated 12000 of 12501 chars]"));
    assert!(matches!(a, RunAction::Turn(Some(RunEvent::Iteration { repl_preview, .. })) if repl_preview.ends_with("\n...[truncated 500 of 12501 chars]")));
}

#[test]
fn plain_text_is_the_answer() {
    let (mut run, mut state) = start(2);
    boundary(&mut run, &mut state);
    assert!(matches!(reply(&mut run, &mut state, "  it is so \n"), RunAction::Done(a) if a == "it is so"));
    assert_eq!(run.phase, Phase::Over);
    assert!(matches!(boundary(&mut run, &mut state), RunAction::Ignored));
}

#[test]
fn a_submitted_answer_ends_the_run() {
    let (mut run, mut state) = start(2);
    boundary(&mut run, &mut state);
    reply(&mut run, &mut state, "```\nfinish(\"x\")\n```");
    state.print("noise");
    state.finish("x");
    let a = run_rlm(&mut run, &mut state, RunInput::Evaluated(ScriptOutcome::Error("late".to_string())));
    assert!(matches!(a, RunAction::Done(a) if a == "x"));
}

#[test]
fn without_turns_left_the_answer_is_asked_for() {
    let (mut run, mut state) = start(1);
    boundary(&mut run, &mut state);
    reply(&mut run, &mut state, "```\nx\n```");
    run_rlm(&mut run, &mut state, RunInput::Evaluated(ScriptOutcome::Unit));
    assert!(matches!(boundary(&mut run, &mut state), RunAction::Chat));
    assert_eq!(
        run.messages.last().unwrap().content,
        "Iteration limit reached. Reply now with your final answer as plain text (no code block)."
    );
    assert!(matches!(reply(&mut run, &mut state, " ```\ncode\n``` "), RunAction::Done(a) if a == "```\ncode\n```"));
}

#[test]
fn a_run_with_no_turns_answers_at_once() {
    let (mut run, mut state) = start(0);
    assert!(matches!(boundary(&mut run, &mut state), RunAction::Chat));
    assert_eq!(run.phase, Phase::LastReply);
}

#[test]
fn a_loop_ends_within_its_bound() {
    let (mut run, mut state) = start(4);
    let mut chats = 0;
    let mut scripts = 0;
    let mut steps = 0;
    let mut action = boundary(&mut run, &mut state);
    loop {
        steps += 1;
        action = match action {
            RunAction::Chat => {
                chats += 1;
                reply(&mut run, &mut state, "```\nagain\n```")
            }
            RunAction::Eval(_) => {
                scripts += 1;
                run_rlm(&mut run, &mut state, RunInput::Evaluated(ScriptOutcome::Unit))
            }
            RunAction::Turn(_) => boundary(&mut run, &mut state),
            RunAction::Done(_) => break,
            _ => panic!(),
        };
    }
    assert_eq!((chats, scripts, steps), (5, 4, 3 * 4 + 2));
}

#[test]
fn cancellation_and_time_work_at_boundaries() {
    let (mut run, mut state) = start(2);
    let a = run_rlm(&mut run, &mut state, RunInput::Boundary { cancelled: true, elapsed_secs: 0 });
    match a {
        RunAction::Fail(e) => {
            assert!(matches!(e, RunError::Cancelled));
            assert_eq!(e.message(), CANCELLED_MSG);
        }
        _ => panic!(),
    }
    let (mut run, mut state) = start(2);
    let a = run_rlm(&mut run, &mut state, RunInput::Boundary { cancelled: false, elapsed_secs: 100 });
    match a {
        RunAction::Fail(e) => assert_eq!(e.message(), "run exceeded max_run_seconds (100s)"),
        _ => panic!(),
    }
    let (mut run, mut state) = start(2);
    run.max_run_seconds = 0;
    let a = run_rlm(&mut run, &mut state, RunInput::Boundary { cancelled: false, elapsed_secs: u64::MAX });
    assert!(matches!(a, RunAction::Chat));
    let a = run_rlm(&mut run, &mut state, RunInput::Boundary { cancelled: true, elapsed_secs: 0 });
    assert!(matches!(a, RunAction::Ignored));
}

#[test]
fn a_failing_model_ends_the_run() {
    let (mut run, mut state) = start(2);
    boundary(&mut run, &mut state);
    let a = run_rlm(&mut run, &mut state, RunInput::Reply(Err("down".to_string())));
    assert!(matches!(a, RunAction::Fail(RunError::Chat(e)) if e == "down"));
}

#[test]
fn nested_loops_tell_of_no_turns() {
    let cfg = RlmConfig::default();
    let mut state = EvalState::new(contexts(), false);
    let mut run = RlmRun::start(&cfg, &state, &Memory::new(), "q", 1);
    boundary(&mut run, &mut state);
    reply(&mut run, &mut state, "```\nx\n```");
    assert!(matches!(
        run_rlm(&mut run, &mut state, RunInput::Evaluated(ScriptOutcome::Unit)),
        RunAction::Turn(None)
    ));
}

#[test]
fn the_conversation_only_grows() {
    let (mut run, mut state) = start(2);
    let before: Vec<String> = run.messages.iter().map(|m| m.content.clone()).collect();
    boundary(&mut run, &mut state);
    reply(&mut run, &mut state, "```\nx\n```");
    run_rlm(&mut run, &mut state, RunInput::Evaluated(ScriptOutcome::Unit));
    let after: Vec<String> = run.messages.iter().map(|m| m.content.clone()).collect();
    assert_eq!(after[..before.len()], before[..]);
    assert_eq!(after.len(), before.len() + 2);
}
