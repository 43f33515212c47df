//! The root loop: the model writes a script, sees what it printed and writes the next one, until
//! it submits an answer.
//!
//! The loop is a machine that takes what came back from outside, one input at a time, and says
//! what to do next. It asks the model and runs scripts by actions only.
use vstd::prelude::*;

use crate::client::{
    chat_of, copy_messages, message, messages_view, two_messages, ChatMessage, ChatRequest, LlmClient, MessageView,
};
use crate::config::{ConfigView, RlmConfig};
use crate::env::{EnvView, EvalState, PEEK_CAP};
use crate::fence::{code_block, extract_code};
use crate::memory::{digest_text, Memory, MemoryView};
use crate::text::{
    copy_opt, decimal, decimal_of, join, joined, trim, trimmed, truncate, truncated, views,
};

verus! {

/// Most characters of a script's output that the model is shown.
pub const REPL_OUTPUT_CAP: usize = 12_000;

/// Most characters of a script's output that an event shows.
pub const REPL_PREVIEW_CAP: usize = 500;

/// Most characters of the memory digest in the prompt.
pub const DIGEST_CAP: usize = 2000;

/// What a cancelled run says.
pub const CANCELLED_MSG: &'static str = "run cancelled";

// --------------------------------------------------------------------- prompt

pub const PROMPT_ROLE: &'static str = "You are a Recursive Language Model (";

pub const PROMPT_DEPTH: &'static str = " call, depth ";

pub const PROMPT_CONTEXTS: &'static str = "). Long context is NOT pasted into your prompt; it lives in an environment you interact with by writing code.\n\nLoaded contexts:\n";

pub const PROMPT_FUNCTIONS: &'static str = "\nEach of your messages must contain exactly ONE fenced code block (```rhai ... ```) with a short script. After it runs you receive the printed output, then you write the next script. Available functions:\n  ctx_list()                        -> list of context names and sizes\n  ctx_len(name)                     -> length of a context in chars\n  peek(name, start, len)            -> read a slice of a context (max ";

pub const PROMPT_STRATEGY: &'static str = " chars)\n  grep(name, regex)                 -> matching lines with their char offsets\n  llm(prompt)                       -> ask a fresh sub-model (no context attached)\n  llm_on(prompt, name, start, len)  -> ask a sub-model grounded on a context slice; large slices recurse\n  remember(key, value) / recall(key) / memory_keys()  -> persistent memory across sessions\n  print(x)                          -> show a value in the REPL output\n  finish(answer)                    -> submit your final answer and stop\n\nRhai syntax notes: `let x = 3;`, string concat with `+`, `if`/`for`/`while` as in Rust, no Python syntax.\n\nStrategy: inspect sizes first, grep/peek to locate relevant regions, delegate large regions to llm_on, combine results, then call finish() with a complete, well-written answer. You have at most ";

pub const PROMPT_END: &'static str = " script turns. Never fabricate content you did not observe.";

pub const PROMPT_NO_CONTEXTS: &'static str = "  (none loaded — you can still use llm(), memory, and your own knowledge)";

/// How the prompt shows a context: its name and its size.
pub open spec fn prompt_entry(c: (Seq<char>, Seq<char>)) -> Seq<char> {
    "  - \""@ + c.0 + "\": "@ + decimal(c.1.len()) + " chars"@
}

/// How the prompt shows the contexts.
pub open spec fn prompt_contexts(contexts: Seq<(Seq<char>, Seq<char>)>) -> Seq<char> {
    if contexts.len() == 0 {
        PROMPT_NO_CONTEXTS@
    } else {
        joined(contexts.map_values(|c: (Seq<char>, Seq<char>)| prompt_entry(c)), "\n"@)
    }
}

/// What the prompt says of the memory: its digest, where scripts may use it, and nothing where
/// they may not.
pub open spec fn prompt_memory(
    allow_memory: bool,
    keys: Seq<Seq<char>>,
    memory: MemoryView,
) -> Seq<char> {
    if allow_memory {
        truncated(digest_text(keys, memory.sessions), DIGEST_CAP as nat)
    } else {
        seq![]
    }
}

/// The prompt that a loop begins with.
pub open spec fn prompt(
    contexts: Seq<(Seq<char>, Seq<char>)>,
    memory_part: Seq<char>,
    depth: nat,
    max_iterations: nat,
) -> Seq<char> {
    PROMPT_ROLE@ + (if depth == 0 {
        "root"@
    } else {
        "recursive sub"@
    }) + PROMPT_DEPTH@ + decimal(depth) + PROMPT_CONTEXTS@ + prompt_contexts(contexts) + "\n\n"@
        + memory_part + PROMPT_FUNCTIONS@ + decimal(PEEK_CAP as nat) + PROMPT_STRATEGY@ + decimal(
        max_iterations,
    ) + PROMPT_END@
}

/// Writes the prompt that a loop begins with.
pub fn system_prompt(cfg: &RlmConfig, state: &EvalState, memory: &Memory, depth: u32) -> (r: String)
    requires
        memory.wf(),
    ensures
        r@ == prompt(
            state@.contexts,
            prompt_memory(state@.allow_memory, memory.facts.keys(), memory@),
            depth as nat,
            cfg.max_iterations as nat,
        ),
{
    let contexts = if state.contexts.len() == 0 {
        PROMPT_NO_CONTEXTS.to_owned()
    } else {
        let mut entries: Vec<String> = Vec::new();
        let ghost want = state@.contexts.map_values(|c: (Seq<char>, Seq<char>)| prompt_entry(c));
        for i in 0..state.contexts.len()
            invariant
                want == state@.contexts.map_values(|c: (Seq<char>, Seq<char>)| prompt_entry(c)),
                entries@.len() == i,
                forall|j: int| 0 <= j < i ==> (#[trigger] entries@[j])@ == want[j],
        {
            let mut e = "  - \"".to_owned();
            e.append(state.contexts[i].0.as_str());
            e.append("\": ");
            e.append(decimal_of(state.contexts[i].1.as_str().unicode_len() as u64).as_str());
            e.append(" chars");
            entries.push(e);
        }
        assert(views(entries@) =~= want);
        join(&entries, "\n")
    };
    let digest = if state.allow_memory {
        memory.digest(DIGEST_CAP)
    } else {
        String::new()
    };
    let mut p = PROMPT_ROLE.to_owned();
    if depth == 0 {
        p.append("root");
    } else {
        p.append("recursive sub");
    }
    p.append(PROMPT_DEPTH);
    p.append(decimal_of(depth as u64).as_str());
    p.append(PROMPT_CONTEXTS);
    p.append(contexts.as_str());
    p.append("\n\n");
    p.append(digest.as_str());
    p.append(PROMPT_FUNCTIONS);
    p.append(decimal_of(PEEK_CAP as u64).as_str());
    p.append(PROMPT_STRATEGY);
    p.append(decimal_of(cfg.max_iterations as u64).as_str());
    p.append(PROMPT_END);
    p
}

// ----------------------------------------------------------------------- runs

/// What a loop is waiting for.
#[derive(Clone, Copy, PartialEq, Eq, Structural, Debug)]
pub enum Phase {
    /// The boundary between two script turns.
    Turn,
    /// The model's next message.
    Reply,
    /// The end of a script.
    Script,
    /// The model's answer behind the last script turn.
    LastReply,
    /// Nothing: the loop has ended.
    Over,
}

/// A loop of script turns.
pub struct RlmRun {
    /// The conversation so far.
    pub messages: Vec<ChatMessage>,
    pub phase: Phase,
    /// The script turns that are done.
    pub iter: u32,
    pub max_iterations: u32,
    /// Most tokens of one response.
    pub max_tokens: u32,
    /// Wall-clock cap in seconds; zero means none.
    pub max_run_seconds: u64,
    /// How many loops this one is nested in.
    pub depth: u32,
}

/// What a loop holds.
pub struct RunView {
    pub messages: Seq<MessageView>,
    pub phase: Phase,
    pub iter: u32,
    pub max_iterations: u32,
    pub max_tokens: u32,
    pub max_run_seconds: u64,
    pub depth: u32,
}

impl View for RlmRun {
    type V = RunView;

    open spec fn view(&self) -> RunView {
        RunView {
            messages: messages_view(self.messages@),
            phase: self.phase,
            iter: self.iter,
            max_iterations: self.max_iterations,
            max_tokens: self.max_tokens,
            max_run_seconds: self.max_run_seconds,
            depth: self.depth,
        }
    }
}

impl RunView {
    /// No more script turns are done than may be, and a turn that is under way is one of them.
    pub open spec fn wf(self) -> bool {
        &&& self.iter <= self.max_iterations
        &&& self.phase == Phase::Reply || self.phase == Phase::Script ==> self.iter < self.max_iterations
    }
}

/// How a script ended.
pub enum ScriptOutcome {
    /// With a value, as text.
    Value(String),
    /// Without a value.
    Unit,
    /// With an error.
    Error(String),
}

/// What came back from outside.
pub enum RunInput {
    /// The boundary between two turns is reached.
    Boundary { cancelled: bool, elapsed_secs: u64 },
    /// The model answered, or could not be asked.
    Reply(Result<String, String>),
    /// The script ended.
    Evaluated(ScriptOutcome),
}

pub enum OutcomeView {
    Value(Seq<char>),
    Unit,
    Error(Seq<char>),
}

pub enum InputView {
    Boundary { cancelled: bool, elapsed_secs: u64 },
    Reply(Result<Seq<char>, Seq<char>>),
    Evaluated(OutcomeView),
}

impl View for ScriptOutcome {
    type V = OutcomeView;

    open spec fn view(&self) -> OutcomeView {
        match self {
            ScriptOutcome::Value(v) => OutcomeView::Value(v@),
            ScriptOutcome::Unit => OutcomeView::Unit,
            ScriptOutcome::Error(e) => OutcomeView::Error(e@),
        }
    }
}

impl View for RunInput {
    type V = InputView;

    open spec fn view(&self) -> InputView {
        match self {
            RunInput::Boundary { cancelled, elapsed_secs } => InputView::Boundary {
                cancelled: *cancelled,
                elapsed_secs: *elapsed_secs,
            },
            RunInput::Reply(r) => InputView::Reply(crate::client::result_view(*r)),
            RunInput::Evaluated(o) => InputView::Evaluated(o@),
        }
    }
}

/// What is told of a loop while it goes on.
pub enum RunEvent {
    /// A script turn is done.
    Iteration { n: u32, of: u32, repl_preview: String },
}

pub enum RunEventView {
    Iteration { n: u32, of: u32, repl_preview: Seq<char> },
}

impl View for RunEvent {
    type V = RunEventView;

    open spec fn view(&self) -> RunEventView {
        match self {
            RunEvent::Iteration { n, of, repl_preview } => RunEventView::Iteration {
                n: *n,
                of: *of,
                repl_preview: repl_preview@,
            },
        }
    }
}

/// Why a loop failed.
pub enum RunError {
    /// It was cancelled.
    Cancelled,
    /// It ran longer than this many seconds.
    TimedOut(u64),
    /// The model could not be asked.
    Chat(String),
}

pub enum ErrorView {
    Cancelled,
    TimedOut(u64),
    Chat(Seq<char>),
}

impl View for RunError {
    type V = ErrorView;

    open spec fn view(&self) -> ErrorView {
        match self {
            RunError::Cancelled => ErrorView::Cancelled,
            RunError::TimedOut(n) => ErrorView::TimedOut(*n),
            RunError::Chat(e) => ErrorView::Chat(e@),
        }
    }
}

/// An error in words.
pub open spec fn error_text(e: ErrorView) -> Seq<char> {
    match e {
        ErrorView::Cancelled => CANCELLED_MSG@,
        ErrorView::TimedOut(n) => "run exceeded max_run_seconds ("@ + decimal(n as nat) + "s)"@,
        ErrorView::Chat(text) => text,
    }
}

impl RunError {
    /// The error in words.
    pub fn message(&self) -> (r: String)
        ensures
            r@ == error_text(self@),
    {
        match self {
            RunError::Cancelled => CANCELLED_MSG.to_owned(),
            RunError::TimedOut(n) => {
                let mut r = "run exceeded max_run_seconds (".to_owned();
                r.append(decimal_of(*n).as_str());
                r.append("s)");
                r
            },
            RunError::Chat(e) => e.clone(),
        }
    }
}

/// What is to be done next.
pub enum RunAction {
    /// Ask the main model with the conversation.
    Chat,
    /// Run a script.
    Eval(String),
    /// Go on to the next boundary; a root loop tells of the turn that is done.
    Turn(Option<RunEvent>),
    /// The loop ended with an answer.
    Done(String),
    /// The loop failed.
    Fail(RunError),
    /// The loop was not waiting for this.
    Ignored,
}

pub enum ActionView {
    Chat,
    Eval(Seq<char>),
    Turn(Option<RunEventView>),
    Done(Seq<char>),
    Fail(ErrorView),
    Ignored,
}

impl View for RunAction {
    type V = ActionView;

    open spec fn view(&self) -> ActionView {
        match self {
            RunAction::Chat => ActionView::Chat,
            RunAction::Eval(code) => ActionView::Eval(code@),
            RunAction::Turn(None) => ActionView::Turn(None),
            RunAction::Turn(Some(e)) => ActionView::Turn(Some(e@)),
            RunAction::Done(a) => ActionView::Done(a@),
            RunAction::Fail(e) => ActionView::Fail(e@),
            RunAction::Ignored => ActionView::Ignored,
        }
    }
}

pub const NO_OUTPUT: &'static str = "(no output — use print(...) to inspect values)\n";

pub const LIMIT_REACHED: &'static str = "Iteration limit reached. Reply now with your final answer as plain text (no code block).";

/// What a script left to be shown: what it printed, and then its value or its error.
pub open spec fn repl_text(output: Seq<char>, outcome: OutcomeView) -> Seq<char> {
    match outcome {
        OutcomeView::Value(v) => output + "=> "@ + v + "\n"@,
        OutcomeView::Unit => output,
        OutcomeView::Error(e) => output + "[script error] "@ + e + "\n"@,
    }
}

/// What the model is shown of a script: a hint where there is nothing to see.
pub open spec fn shown_text(repl: Seq<char>) -> Seq<char> {
    if trimmed(repl).len() == 0 {
        repl + NO_OUTPUT@
    } else {
        repl
    }
}

/// Whether a run has used up its time.
pub open spec fn out_of_time(max_run_seconds: u64, elapsed_secs: u64) -> bool {
    max_run_seconds != 0 && elapsed_secs >= max_run_seconds
}

pub open spec fn said(run: RunView, role: Seq<char>, content: Seq<char>) -> RunView {
    RunView { messages: run.messages.push(message(role, content)), ..run }
}

pub open spec fn over(run: RunView) -> RunView {
    RunView { phase: Phase::Over, ..run }
}

/// At the boundary between two turns a run ends if it was cancelled or is out of time. Otherwise
/// the model is asked: for the next script, or, when no turn is left, for its answer.
pub open spec fn at_boundary(run: RunView, cancelled: bool, elapsed_secs: u64) -> (RunView, ActionView) {
    if cancelled {
        (over(run), ActionView::Fail(ErrorView::Cancelled))
    } else if out_of_time(run.max_run_seconds, elapsed_secs) {
        (over(run), ActionView::Fail(ErrorView::TimedOut(run.max_run_seconds)))
    } else if run.iter < run.max_iterations {
        (RunView { phase: Phase::Reply, ..run }, ActionView::Chat)
    } else {
        (
            RunView { phase: Phase::LastReply, ..said(run, "user"@, LIMIT_REACHED@) },
            ActionView::Chat,
        )
    }
}

/// A message of the model is run if it holds a script. One without a script is the answer.
pub open spec fn at_reply(run: RunView, env: EnvView, text: Seq<char>) -> (RunView, EnvView, ActionView) {
    let told = said(run, "assistant"@, text);
    match (env.final_answer, code_block(text)) {
        (Some(answer), _) => (over(told), env, ActionView::Done(answer)),
        (None, None) => (over(told), env, ActionView::Done(trimmed(text))),
        (None, Some(code)) => (
            RunView { phase: Phase::Script, ..told },
            EnvView { output: seq![], ..env },
            ActionView::Eval(code),
        ),
    }
}

/// Behind a script the run ends if the script submitted an answer. Otherwise the model is shown
/// what the script left, and the turn is done.
pub open spec fn at_script_end(run: RunView, env: EnvView, outcome: OutcomeView) -> (RunView, ActionView) {
    let shown = shown_text(repl_text(env.output, outcome));
    match env.final_answer {
        Some(answer) => (over(run), ActionView::Done(answer)),
        None => (
            RunView {
                phase: Phase::Turn,
                iter: (run.iter + 1) as u32,
                ..said(
                    run,
                    "user"@,
                    "[REPL output]\n"@ + truncated(shown, REPL_OUTPUT_CAP as nat),
                )
            },
            ActionView::Turn(
                if run.depth == 0 {
                    Some(
                        RunEventView::Iteration {
                            n: (run.iter + 1) as u32,
                            of: run.max_iterations,
                            repl_preview: truncated(shown, REPL_PREVIEW_CAP as nat),
                        },
                    )
                } else {
                    None
                },
            ),
        ),
    }
}

/// What a loop does with an input: the loop and the environment behind it, and what is next.
pub open spec fn run_step(run: RunView, env: EnvView, input: InputView) -> (
    RunView,
    EnvView,
    ActionView,
) {
    match (run.phase, input) {
        (Phase::Turn, InputView::Boundary { cancelled, elapsed_secs }) => {
            let (next, action) = at_boundary(run, cancelled, elapsed_secs);
            (next, env, action)
        },
        (Phase::Reply, InputView::Reply(Ok(text))) => at_reply(run, env, text),
        (Phase::LastReply, InputView::Reply(Ok(text))) => (
            over(run),
            env,
            ActionView::Done(trimmed(text)),
        ),
        (Phase::Reply, InputView::Reply(Err(e))) => (over(run), env, ActionView::Fail(ErrorView::Chat(e))),
        (Phase::LastReply, InputView::Reply(Err(e))) => (
            over(run),
            env,
            ActionView::Fail(ErrorView::Chat(e)),
        ),
        (Phase::Script, InputView::Evaluated(outcome)) => {
            let (next, action) = at_script_end(run, env, outcome);
            (next, env, action)
        },
        _ => (run, env, ActionView::Ignored),
    }
}

impl RlmRun {
    /// A loop over the contexts of an environment, before its first turn.
    pub fn start(
        cfg: &RlmConfig,
        state: &EvalState,
        memory: &Memory,
        query: &str,
        depth: u32,
    ) -> (r: RlmRun)
        requires
            memory.wf(),
        ensures
            r@ == started(
                cfg@,
                prompt(
                    state@.contexts,
                    prompt_memory(state@.allow_memory, memory.facts.keys(), memory@),
                    depth as nat,
                    cfg.max_iterations as nat,
                ),
                query@,
                depth,
            ),
            r@.wf(),
    {
        let system = system_prompt(cfg, state, memory, depth);
        let messages = two_messages(
            ChatMessage::new("system", system.as_str()),
            ChatMessage::new("user", query),
        );
        RlmRun {
            messages,
            phase: Phase::Turn,
            iter: 0,
            max_iterations: cfg.max_iterations,
            max_tokens: cfg.max_tokens,
            max_run_seconds: cfg.max_run_seconds,
            depth,
        }
    }

    /// The request that asks the main model with the conversation so far.
    pub fn request(&self, root: &LlmClient) -> (r: ChatRequest)
        ensures
            r@ == chat_of(root@, self@.messages, self.max_tokens),
    {
        root.chat(copy_messages(&self.messages), self.max_tokens)
    }

    fn say(&mut self, role: &str, content: &str)
        ensures
            final(self)@ == said(old(self)@, role@, content@),
    {
        let ghost was = self@;
        let m = ChatMessage::new(role, content);
        let ghost mv = m@;
        self.messages.push(m);
        assert(self@.messages =~= was.messages.push(mv));
    }
}

/// A loop before its first turn.
pub open spec fn started(cfg: ConfigView, system: Seq<char>, query: Seq<char>, depth: u32) -> RunView {
    RunView {
        messages: seq![message("system"@, system), message("user"@, query)],
        phase: Phase::Turn,
        iter: 0,
        max_iterations: cfg.max_iterations,
        max_tokens: cfg.max_tokens,
        max_run_seconds: cfg.max_run_seconds,
        depth,
    }
}

/// Takes an input of a loop and says what is next. What a loop is not waiting for changes
/// nothing.
pub fn run_rlm(run: &mut RlmRun, state: &mut EvalState, input: RunInput) -> (r: RunAction)
    requires
        old(run)@.wf(),
    ensures
        final(run)@.wf(),
        (final(run)@, final(state)@, r@) == run_step(old(run)@, old(state)@, input@),
{
    match input {
        RunInput::Boundary { cancelled, elapsed_secs } => {
            if run.phase != Phase::Turn {
                return RunAction::Ignored;
            }
            if cancelled {
                run.phase = Phase::Over;
                RunAction::Fail(RunError::Cancelled)
            } else if run.max_run_seconds != 0 && elapsed_secs >= run.max_run_seconds {
                run.phase = Phase::Over;
                RunAction::Fail(RunError::TimedOut(run.max_run_seconds))
            } else if run.iter < run.max_iterations {
                run.phase = Phase::Reply;
                RunAction::Chat
            } else {
                run.say("user", LIMIT_REACHED);
                run.phase = Phase::LastReply;
                RunAction::Chat
            }
        },
        RunInput::Reply(reply) => {
            if run.phase != Phase::Reply && run.phase != Phase::LastReply {
                return RunAction::Ignored;
            }
            let text = match reply {
                Ok(text) => text,
                Err(e) => {
                    run.phase = Phase::Over;
                    return RunAction::Fail(RunError::Chat(e));
                },
            };
            if run.phase == Phase::LastReply {
                run.phase = Phase::Over;
                return RunAction::Done(trim(text.as_str()));
            }
            run.say("assistant", text.as_str());
            if let Some(answer) = copy_opt(&state.final_answer) {
                run.phase = Phase::Over;
                return RunAction::Done(answer);
            }
            match extract_code(text.as_str()) {
                None => {
                    run.phase = Phase::Over;
                    RunAction::Done(trim(text.as_str()))
                },
                Some(code) => {
                    state.output = String::new();
                    run.phase = Phase::Script;
                    RunAction::Eval(code)
                },
            }
        },
        RunInput::Evaluated(outcome) => {
            if run.phase != Phase::Script {
                return RunAction::Ignored;
            }
            let mut repl = state.output.clone();
            match outcome {
                ScriptOutcome::Value(v) => {
                    repl.append("=> ");
                    repl.append(v.as_str());
                    repl.append("\n");
                },
                ScriptOutcome::Unit => {},
                ScriptOutcome::Error(e) => {
                    repl.append("[script error] ");
                    repl.append(e.as_str());
                    repl.append("\n");
                },
            }
            if let Some(answer) = copy_opt(&state.final_answer) {
                run.phase = Phase::Over;
                return RunAction::Done(answer);
            }
            if trim(repl.as_str()).as_str().is_empty() {
                repl.append(NO_OUTPUT);
            }
            let mut content = "[REPL output]\n".to_owned();
            content.append(truncate(repl.as_str(), REPL_OUTPUT_CAP).as_str());
            run.say("user", content.as_str());
            run.iter = run.iter + 1;
            run.phase = Phase::Turn;
            if run.depth == 0 {
                RunAction::Turn(
                    Some(
                        RunEvent::Iteration {
                            n: run.iter,
                            of: run.max_iterations,
                            repl_preview: truncate(repl.as_str(), REPL_PREVIEW_CAP),
                        },
                    ),
                )
            } else {
                RunAction::Turn(None)
            }
        },
    }
}

} // verus!
