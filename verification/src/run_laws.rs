//! What holds of every loop, whatever the model says and whatever scripts do.
use vstd::prelude::*;

use crate::client::{ChatRequest, LlmClient, MessageView};
use crate::config::{ConfigView, RlmConfig};
use crate::engine::{
    error_text, out_of_time, over, prompt, prompt_contexts, prompt_entry, prompt_memory, repl_text, run_step,
    shown_text, started, system_prompt, ActionView, ErrorView, InputView, OutcomeView, Phase, RlmRun, RunEventView,
    RunView, CANCELLED_MSG, PROMPT_CONTEXTS, PROMPT_DEPTH, PROMPT_END, PROMPT_FUNCTIONS, PROMPT_ROLE,
    PROMPT_STRATEGY,
};
use crate::env::{EnvView, EvalState, PEEK_CAP};
use crate::fence::code_block;
use crate::memory::{digest_text, Memory, MemoryView};
use crate::runs::{ended_snapshot, RunStatus, SnapshotView};
use crate::text::{begins, decimal, decimal_is_digits, holds, is_space, stands_at, trimmed, truncated};
use crate::text_laws::{
    cutting_keeps_the_front, joined_texts_stand, parts_are_found, parts_of_parts_stand,
    trimming_takes_the_ends_only,
};

verus! {

/// A move of a loop: the environment as scripts have left it, and the input.
pub struct Move {
    pub env: EnvView,
    pub input: InputView,
}

/// The loop behind some moves.
pub open spec fn played(run: RunView, moves: Seq<Move>) -> RunView
    decreases moves.len(),
{
    if moves.len() == 0 {
        run
    } else {
        run_step(played(run, moves.drop_last()), moves.last().env, moves.last().input).0
    }
}

/// What the loop does at its last move.
pub open spec fn last_action(run: RunView, moves: Seq<Move>) -> ActionView {
    run_step(played(run, moves.drop_last()), moves.last().env, moves.last().input).2
}

/// How often the moves have the model asked.
pub open spec fn chats(run: RunView, moves: Seq<Move>) -> nat
    decreases moves.len(),
{
    if moves.len() == 0 {
        0
    } else {
        chats(run, moves.drop_last()) + (if last_action(run, moves) is Chat {
            1nat
        } else {
            0nat
        })
    }
}

/// How many scripts the moves have run.
pub open spec fn scripts(run: RunView, moves: Seq<Move>) -> nat
    decreases moves.len(),
{
    if moves.len() == 0 {
        0
    } else {
        scripts(run, moves.drop_last()) + (if last_action(run, moves) is Eval {
            1nat
        } else {
            0nat
        })
    }
}

/// How many of the moves were inputs that the loop was waiting for.
pub open spec fn heeded(run: RunView, moves: Seq<Move>) -> nat
    decreases moves.len(),
{
    if moves.len() == 0 {
        0
    } else {
        heeded(run, moves.drop_last()) + (if last_action(run, moves) is Ignored {
            0nat
        } else {
            1nat
        })
    }
}

spec fn chats_left(run: RunView) -> int {
    match run.phase {
        Phase::Turn => run.max_iterations - run.iter + 1,
        Phase::Reply => run.max_iterations - run.iter as int,
        Phase::Script => run.max_iterations - run.iter as int,
        Phase::LastReply => 0,
        Phase::Over => 0,
    }
}

spec fn scripts_left(run: RunView) -> int {
    match run.phase {
        Phase::Turn => run.max_iterations - run.iter as int,
        Phase::Reply => run.max_iterations - run.iter as int,
        Phase::Script => run.max_iterations - run.iter - 1,
        Phase::LastReply => 0,
        Phase::Over => 0,
    }
}

/// The most inputs that a loop still heeds.
pub open spec fn steps_left(run: RunView) -> int {
    match run.phase {
        Phase::Turn => 3 * (run.max_iterations - run.iter) + 2,
        Phase::Reply => 3 * (run.max_iterations - run.iter) + 1,
        Phase::Script => 3 * (run.max_iterations - run.iter),
        Phase::LastReply => 1,
        Phase::Over => 0,
    }
}

/// Each input that a loop heeds brings it nearer to its end, and leaves its limits as they were.
pub proof fn heeded_input_is_progress(run: RunView, env: EnvView, input: InputView)
    requires
        run.wf(),
    ensures
        ({
            let (next, _, action) = run_step(run, env, input);
            &&& next.wf()
            &&& next.max_iterations == run.max_iterations
            &&& next.max_tokens == run.max_tokens
            &&& next.max_run_seconds == run.max_run_seconds
            &&& next.depth == run.depth
            &&& 0 <= steps_left(next)
            &&& action is Ignored ==> next == run
            &&& !(action is Ignored) ==> steps_left(next) < steps_left(run)
        }),
{
}

/// A loop that has not ended heeds the input that it waits for: it is never stuck.
pub proof fn awaited_input_is_heeded(
    run: RunView,
    env: EnvView,
    cancelled: bool,
    elapsed_secs: u64,
    reply: Result<Seq<char>, Seq<char>>,
    outcome: OutcomeView,
)
    requires
        run.wf(),
    ensures
        run.phase == Phase::Turn ==> !(run_step(
            run,
            env,
            InputView::Boundary { cancelled, elapsed_secs },
        ).2 is Ignored),
        run.phase == Phase::Reply || run.phase == Phase::LastReply ==> !(run_step(
            run,
            env,
            InputView::Reply(reply),
        ).2 is Ignored),
        run.phase == Phase::Script ==> !(run_step(run, env, InputView::Evaluated(outcome)).2 is Ignored),
{
}

proof fn played_bounds(run: RunView, moves: Seq<Move>)
    requires
        run.wf(),
    ensures
        played(run, moves).wf(),
        played(run, moves).max_iterations == run.max_iterations,
        chats(run, moves) + chats_left(played(run, moves)) <= chats_left(run),
        scripts(run, moves) + scripts_left(played(run, moves)) <= scripts_left(run),
        heeded(run, moves) + steps_left(played(run, moves)) <= steps_left(run),
        0 <= chats_left(played(run, moves)),
        0 <= scripts_left(played(run, moves)),
        0 <= steps_left(played(run, moves)),
    decreases moves.len(),
{
    if moves.len() > 0 {
        played_bounds(run, moves.drop_last());
        heeded_input_is_progress(
            played(run, moves.drop_last()),
            moves.last().env,
            moves.last().input,
        );
    }
}

/// Whatever happens, a loop runs no more scripts than it has turns, asks the model at most once
/// more than that, and ends behind a bounded number of inputs.
pub proof fn loop_is_bounded(
    cfg: ConfigView,
    system: Seq<char>,
    query: Seq<char>,
    depth: u32,
    moves: Seq<Move>,
)
    ensures
        scripts(started(cfg, system, query, depth), moves) <= cfg.max_iterations,
        chats(started(cfg, system, query, depth), moves) <= cfg.max_iterations + 1,
        heeded(started(cfg, system, query, depth), moves) <= 3 * cfg.max_iterations + 2,
{
    played_bounds(started(cfg, system, query, depth), moves);
}

/// A loop that has ended stays as it is, whatever comes.
pub proof fn end_is_final(run: RunView, env: EnvView, input: InputView)
    requires
        run.phase == Phase::Over,
    ensures
        run_step(run, env, input) == (run, env, ActionView::Ignored),
{
}

/// The conversation only grows: what was said stays said, in its order.
pub proof fn conversation_only_grows(run: RunView, moves: Seq<Move>)
    ensures
        run.messages.len() <= played(run, moves).messages.len(),
        played(run, moves).messages.take(run.messages.len() as int) == run.messages,
    decreases moves.len(),
{
    if moves.len() > 0 {
        let before = played(run, moves.drop_last());
        let next = played(run, moves);
        conversation_only_grows(run, moves.drop_last());
        let n = run.messages.len() as int;
        assert(next.messages == before.messages || (next.messages.len() == before.messages.len() + 1
            && next.messages.drop_last() =~= before.messages));
        assert(next.messages.take(n) =~= before.messages.take(n));
    } else {
        assert(run.messages.take(run.messages.len() as int) =~= run.messages);
    }
}

/// Once a script has submitted an answer, that answer is what the loop ends with.
pub proof fn submitted_answer_wins(run: RunView, env: EnvView, outcome: OutcomeView)
    requires
        run.phase == Phase::Script,
        env.final_answer is Some,
    ensures
        run_step(run, env, InputView::Evaluated(outcome)) == (
            over(run),
            env,
            ActionView::Done(env.final_answer->0),
        ),
{
}

/// Cancellation works at the boundary between two turns, and there alone: the run ends there
/// without asking the model again, and what says so is recognised as a cancellation.
pub proof fn cancellation_is_cooperative(run: RunView, env: EnvView, elapsed_secs: u64)
    requires
        run.phase == Phase::Turn,
    ensures
        run_step(run, env, InputView::Boundary { cancelled: true, elapsed_secs }) == (
            over(run),
            env,
            ActionView::Fail(ErrorView::Cancelled),
        ),
        holds(error_text(ErrorView::Cancelled), CANCELLED_MSG@),
{
    assert(stands_at(CANCELLED_MSG@, CANCELLED_MSG@, 0)) by {
        assert(CANCELLED_MSG@.subrange(0, CANCELLED_MSG@.len() as int) =~= CANCELLED_MSG@);
    }
}

/// A run that is out of time is not asked anything more.
pub proof fn time_is_capped(run: RunView, env: EnvView, elapsed_secs: u64)
    requires
        run.phase == Phase::Turn,
        out_of_time(run.max_run_seconds, elapsed_secs),
    ensures
        run_step(run, env, InputView::Boundary { cancelled: false, elapsed_secs }) == (
            over(run),
            env,
            ActionView::Fail(ErrorView::TimedOut(run.max_run_seconds)),
        ),
{
}

proof fn no_such_part(s: Seq<char>, part: Seq<char>, k: int)
    requires
        0 <= k < part.len(),
        forall|i: int| 0 <= i < s.len() ==> #[trigger] s[i] != part[k],
    ensures
        !holds(s, part),
{
    if holds(s, part) {
        let i = choose|i: int| stands_at(s, part, i);
        assert(s.subrange(i, i + part.len())[k] == s[i + k]);
    }
}

proof fn front_has_no_l()
    ensures
        forall|i: int|
            0 <= i < "run exceeded max_run_seconds ("@.len() ==> #[trigger] "run exceeded max_run_seconds ("@[i]
                != 'l',
        forall|i: int| 0 <= i < "s)"@.len() ==> #[trigger] "s)"@[i] != 'l',
{
    reveal_strlit("run exceeded max_run_seconds (");
    reveal_strlit("s)");
}

proof fn cancelled_has_an_l()
    ensures
        CANCELLED_MSG@.len() > 9,
        CANCELLED_MSG@[9] == 'l',
{
    reveal_strlit("run cancelled");
}

proof fn no_l_in_a_timeout(seconds: u64)
    ensures
        forall|i: int|
            0 <= i < error_text(ErrorView::TimedOut(seconds)).len() ==> #[trigger] error_text(
                ErrorView::TimedOut(seconds),
            )[i] != 'l',
{
    front_has_no_l();
    decimal_is_digits(seconds as nat);
    let front = "run exceeded max_run_seconds ("@;
    let middle = decimal(seconds as nat);
    let text = error_text(ErrorView::TimedOut(seconds));
    assert forall|i: int| 0 <= i < text.len() implies #[trigger] text[i] != 'l' by {
        if i < front.len() {
            assert(text[i] == front[i]);
        } else if i < front.len() + middle.len() {
            assert(text[i] == middle[i - front.len()]);
        } else {
            assert(text[i] == "s)"@[i - front.len() - middle.len()]);
        }
    }
}

/// A run that ends because it was cancelled is kept as cancelled, and one that ends because it
/// was out of time as failed.
pub proof fn ends_are_told_apart(s: SnapshotView, seconds: u64, now: u64)
    ensures
        ended_snapshot(s, Err(error_text(ErrorView::Cancelled)), now).status == RunStatus::Cancelled,
        ended_snapshot(s, Err(error_text(ErrorView::TimedOut(seconds))), now).status == RunStatus::Failed,
{
    assert(stands_at(CANCELLED_MSG@, CANCELLED_MSG@, 0)) by {
        assert(CANCELLED_MSG@.subrange(0, CANCELLED_MSG@.len() as int) =~= CANCELLED_MSG@);
    }
    cancelled_has_an_l();
    no_l_in_a_timeout(seconds);
    no_such_part(error_text(ErrorView::TimedOut(seconds)), CANCELLED_MSG@, 9);
}

/// Contexts are never pasted into the prompt: it tells their names and sizes and nothing else of
/// them.
pub proof fn prompt_tells_names_and_sizes_only(
    one: Seq<(Seq<char>, Seq<char>)>,
    other: Seq<(Seq<char>, Seq<char>)>,
    memory_part: Seq<char>,
    depth: nat,
    max_iterations: nat,
)
    requires
        one.len() == other.len(),
        forall|i: int|
            0 <= i < one.len() ==> (#[trigger] one[i]).0 == other[i].0 && one[i].1.len()
                == other[i].1.len(),
    ensures
        prompt(one, memory_part, depth, max_iterations) == prompt(
            other,
            memory_part,
            depth,
            max_iterations,
        ),
{
    let f = |c: (Seq<char>, Seq<char>)| prompt_entry(c);
    assert(one.map_values(f) =~= other.map_values(f));
}

/// Without the memory capability the prompt is the same whatever the memory holds.
pub proof fn prompt_keeps_denied_memory(
    keys: Seq<Seq<char>>,
    other_keys: Seq<Seq<char>>,
    one: MemoryView,
    other: MemoryView,
)
    ensures
        prompt_memory(false, keys, one) == prompt_memory(false, other_keys, other),
{
}

// ------------------------------------------------------------ conversation

/// What was said in a role, in order.
pub open spec fn said_by(messages: Seq<MessageView>, role: Seq<char>) -> Seq<Seq<char>>
    decreases messages.len(),
{
    if messages.len() == 0 {
        seq![]
    } else if messages.last().role == role {
        said_by(messages.drop_last(), role).push(messages.last().content)
    } else {
        said_by(messages.drop_last(), role)
    }
}

/// The replies of the model that the moves brought to script turns, in order and in full.
pub open spec fn replies(run: RunView, moves: Seq<Move>) -> Seq<Seq<char>>
    decreases moves.len(),
{
    if moves.len() == 0 {
        seq![]
    } else {
        let fore = replies(run, moves.drop_last());
        match moves.last().input {
            InputView::Reply(Ok(text)) => if played(run, moves.drop_last()).phase == Phase::Reply {
                fore.push(text)
            } else {
                fore
            },
            _ => fore,
        }
    }
}

/// A reply that a loop waits for is put into its conversation, in the role of the assistant and
/// exactly as the model gave it, and nothing else is.
pub proof fn a_reply_is_kept(run: RunView, env: EnvView, text: Seq<char>)
    requires
        run.phase == Phase::Reply,
    ensures
        ({
            let next = run_step(run, env, InputView::Reply(Ok(text))).0;
            &&& next.messages.len() == run.messages.len() + 1
            &&& next.messages.drop_last() == run.messages
            &&& next.messages.last().role == "assistant"@
            &&& next.messages.last().content == text
        }),
{
    let next = run_step(run, env, InputView::Reply(Ok(text))).0;
    assert(next.messages.drop_last() =~= run.messages);
}

proof fn roles_differ()
    ensures
        "assistant"@ != "user"@,
        "assistant"@ != "system"@,
        "user"@ != "system"@,
{
    reveal_strlit("assistant");
    reveal_strlit("user");
    reveal_strlit("system");
    assert("assistant"@.len() == 9 && "user"@.len() == 4 && "system"@.len() == 6);
}

/// The model sees all that it has said: over a whole history, what stands in the conversation in
/// the role of the assistant is what stood there before, and then the replies of script turns, each
/// in full and in their order.
pub proof fn the_model_sees_what_it_said(run: RunView, moves: Seq<Move>)
    ensures
        said_by(played(run, moves).messages, "assistant"@) == said_by(run.messages, "assistant"@) + replies(
            run,
            moves,
        ),
    decreases moves.len(),
{
    roles_differ();
    if moves.len() == 0 {
        assert(said_by(run.messages, "assistant"@) + Seq::<Seq<char>>::empty() =~= said_by(
            run.messages,
            "assistant"@,
        ));
    } else {
        let fore = moves.drop_last();
        let before = played(run, fore);
        let next = played(run, moves);
        the_model_sees_what_it_said(run, fore);
        if next.messages != before.messages {
            assert(next.messages.drop_last() =~= before.messages);
        }
        assert(said_by(next.messages, "assistant"@) =~= said_by(run.messages, "assistant"@) + replies(run, moves));
    }
}

/// Behind a script without an answer the model is shown what it left, in the role of the user and
/// behind a heading: all that the script printed, and behind it its value or its error, as far as
/// an output may be long. One turn more is done, and the next boundary is waited for.
pub proof fn a_script_is_shown(run: RunView, env: EnvView, outcome: OutcomeView)
    requires
        run.wf(),
        run.phase == Phase::Script,
        env.final_answer is None,
    ensures
        ({
            let (next, behind, action) = run_step(run, env, InputView::Evaluated(outcome));
            let told = next.messages.last();
            let heading = "[REPL output]\n"@;
            &&& next.messages.len() == run.messages.len() + 1
            &&& next.messages.drop_last() == run.messages
            &&& told.role == "user"@
            &&& begins(told.content, heading)
            &&& forall|k: int|
                0 <= k < env.output.len() && k < 12_000 ==> #[trigger] told.content[heading.len() + k]
                    == env.output[k]
            &&& outcome matches OutcomeView::Value(v) ==> env.output.len() + v.len() + 4 <= 12_000 ==> told.content == heading + env.output + "=> "@ + v + "\n"@
            &&& outcome matches OutcomeView::Error(e) ==> env.output.len() + e.len() + 16 <= 12_000 ==> told.content == heading + env.output + "[script error] "@ + e + "\n"@
            &&& outcome is Unit && trimmed(env.output).len() > 0 && env.output.len() <= 12_000 ==> told.content
                == heading + env.output
            &&& next.iter == run.iter + 1
            &&& next.phase == Phase::Turn
            &&& behind == env
            &&& action is Turn
            &&& run.depth > 0 ==> action == ActionView::Turn(None)
            &&& run.depth == 0 ==> action->Turn_0 is Some
        }),
{
    reveal_strlit("=> ");
    reveal_strlit("\n");
    reveal_strlit("[script error] ");
    let repl = repl_text(env.output, outcome);
    let shown = shown_text(repl);
    let next = run_step(run, env, InputView::Evaluated(outcome)).0;
    let heading = "[REPL output]\n"@;
    let content = next.messages.last().content;
    cutting_keeps_the_front(shown, 12_000);
    trimming_takes_the_ends_only(repl);
    assert(next.messages.drop_last() =~= run.messages);
    assert(content.take(heading.len() as int) =~= heading);
    assert forall|k: int| 0 <= k < env.output.len() && k < 12_000 implies #[trigger] content[heading.len() + k]
        == env.output[k] by {
        assert(content[heading.len() + k] == truncated(shown, 12_000)[k]);
        assert(shown[k] == repl[k]);
    }
    if outcome is Value {
        let at = env.output.len() as int;
        assert(repl[at] == "=> "@[0]);
        assert(!is_space("=> "@[0]));
        assert(trimmed(repl).len() > 0);
        assert(heading + repl =~= heading + env.output + "=> "@ + outcome->Value_0 + "\n"@);
    }
    if outcome is Error {
        let at = env.output.len() as int;
        assert(repl[at] == "[script error] "@[0]);
        assert(!is_space("[script error] "@[0]));
        assert(trimmed(repl).len() > 0);
        assert(heading + repl =~= heading + env.output + "[script error] "@ + outcome->Error_0 + "\n"@);
    }
}

/// A root loop tells of each turn: which it was, of how many, and the beginning of what the script
/// left.
pub proof fn a_turn_is_told(run: RunView, env: EnvView, outcome: OutcomeView)
    requires
        run.wf(),
        run.phase == Phase::Script,
        run.depth == 0,
        env.final_answer is None,
    ensures
        run_step(run, env, InputView::Evaluated(outcome)).2 matches ActionView::Turn(Some(
            RunEventView::Iteration { n, of, repl_preview },
        )) && n == run.iter + 1 && of == run.max_iterations && forall|k: int|
            0 <= k < env.output.len() && k < 500 ==> repl_preview[k] == env.output[k],
{
    let repl = repl_text(env.output, outcome);
    let shown = shown_text(repl);
    cutting_keeps_the_front(shown, 500);
    assert forall|k: int| 0 <= k < env.output.len() && k < 500 implies truncated(shown, 500)[k] == env.output[k] by {
        assert(shown[k] == repl[k]);
    }
}

/// At a boundary that is neither cancelled nor out of time the model is asked. While turns are left
/// it is asked with the conversation as it is; when none is left, it is told so first and its next
/// reply is the answer.
pub proof fn the_model_is_asked(run: RunView, env: EnvView, elapsed_secs: u64)
    requires
        run.phase == Phase::Turn,
        run.max_run_seconds == 0 || elapsed_secs < run.max_run_seconds,
    ensures
        ({
            let (next, behind, action) = run_step(run, env, InputView::Boundary { cancelled: false, elapsed_secs });
            &&& action is Chat
            &&& behind == env
            &&& next.iter == run.iter
            &&& run.iter < run.max_iterations ==> next.phase == Phase::Reply && next.messages == run.messages
            &&& run.iter >= run.max_iterations ==> {
                &&& next.phase == Phase::LastReply
                &&& next.messages.drop_last() == run.messages
                &&& next.messages.last().role == "user"@
                &&& next.messages.last().content
                    == "Iteration limit reached. Reply now with your final answer as plain text (no code block)."@
            }
        }),
{
    let next = run_step(run, env, InputView::Boundary { cancelled: false, elapsed_secs }).0;
    if run.iter >= run.max_iterations {
        assert(next.messages.drop_last() =~= run.messages);
    }
}

/// What a reply comes to: an answer that a script has submitted is the answer; a script is run as it
/// is written, with nothing printed yet; a reply without a script is the answer, without the white
/// space around it; and so is the last reply, whatever is in it. A model that cannot be asked ends
/// the loop with what went wrong.
pub proof fn a_reply_is_heeded(run: RunView, env: EnvView, text: Seq<char>, error: Seq<char>)
    requires
        run.phase == Phase::Reply || run.phase == Phase::LastReply,
    ensures
        ({
            let (next, behind, action) = run_step(run, env, InputView::Reply(Ok(text)));
            &&& run.phase == Phase::LastReply ==> action == ActionView::Done(trimmed(text)) && next.phase
                == Phase::Over
            &&& run.phase == Phase::Reply && env.final_answer is Some ==> action == ActionView::Done(
                env.final_answer->0,
            )
            &&& run.phase == Phase::Reply && env.final_answer is None && code_block(text) is None ==> action
                == ActionView::Done(trimmed(text))
            &&& run.phase == Phase::Reply && env.final_answer is None && code_block(text) is Some ==> {
                &&& action == ActionView::Eval(code_block(text)->0)
                &&& next.phase == Phase::Script
                &&& next.iter == run.iter
                &&& behind.output.len() == 0
            }
            &&& behind.contexts == env.contexts && behind.final_answer == env.final_answer
            &&& behind.allow_memory == env.allow_memory
        }),
        run_step(run, env, InputView::Reply(Err(error))).2 == ActionView::Fail(ErrorView::Chat(error)),
        run_step(run, env, InputView::Reply(Err(error))).0.phase == Phase::Over,
        error_text(ErrorView::Chat(error)) == error,
{
}

/// A loop begins with the prompt and the question, in this order and in full, with no turn done and
/// the limits of its configuration.
pub proof fn a_loop_begins_with_its_question(
    cfg: RlmConfig,
    state: EvalState,
    memory: Memory,
    query: &str,
    depth: u32,
    system: String,
    r: RlmRun,
)
    requires
        memory.wf(),
        call_ensures(system_prompt, (&cfg, &state, &memory, depth), system),
        call_ensures(RlmRun::start, (&cfg, &state, &memory, query, depth), r),
    ensures
        r.messages@.len() == 2,
        r.messages@[0].role@ == "system"@,
        r.messages@[0].content@ == system@,
        r.messages@[1].role@ == "user"@,
        r.messages@[1].content@ == query@,
        r.phase == Phase::Turn,
        r.iter == 0,
        r.max_iterations == cfg.max_iterations,
        r.max_tokens == cfg.max_tokens,
        r.max_run_seconds == cfg.max_run_seconds,
        r.depth == depth,
{
    let seen = r@.messages;
    assert(seen.len() == r.messages@.len());
    assert(seen[0] == r.messages@[0]@ && seen[1] == r.messages@[1]@);
}

/// The main model is asked with the whole conversation: each message in its place, in its role and
/// in full.
pub proof fn the_whole_conversation_is_sent(run: RlmRun, root: LlmClient, r: ChatRequest)
    requires
        call_ensures(RlmRun::request, (&run, &root), r),
    ensures
        r.messages@.len() == run.messages@.len(),
        forall|i: int|
            0 <= i < run.messages@.len() ==> (#[trigger] r.messages@[i]).role@ == run.messages@[i].role@
                && r.messages@[i].content@ == run.messages@[i].content@,
        r.max_tokens == run.max_tokens,
        r.enable_thinking == root.thinking,
        r.url@ == root.base_url@ + "/v1/chat/completions"@,
{
    assert(r@.messages == run@.messages);
    assert(r@.messages.len() == r.messages@.len() && run@.messages.len() == run.messages@.len());
    assert forall|i: int| 0 <= i < run.messages@.len() implies (#[trigger] r.messages@[i]).role@
        == run.messages@[i].role@ && r.messages@[i].content@ == run.messages@[i].content@ by {
        assert(r@.messages[i] == r.messages@[i]@ && run@.messages[i] == run.messages@[i]@);
    }
}

// ------------------------------------------------------------------- prompt

/// The prompt names every context with its size.
pub proof fn the_prompt_names_every_context(
    contexts: Seq<(Seq<char>, Seq<char>)>,
    memory_part: Seq<char>,
    depth: nat,
    max_iterations: nat,
    i: int,
)
    requires
        0 <= i < contexts.len(),
    ensures
        holds(
            prompt(contexts, memory_part, depth, max_iterations),
            "  - \""@ + contexts[i].0 + "\": "@ + decimal(contexts[i].1.len()) + " chars"@,
        ),
{
    let entries = contexts.map_values(|c: (Seq<char>, Seq<char>)| prompt_entry(c));
    assert(entries[i] == prompt_entry(contexts[i]));
    joined_texts_stand(entries, "\n"@, i);
    let front = prompt_front(depth);
    let back = "\n\n"@ + memory_part + prompt_back(max_iterations);
    prompt_has_parts(contexts, memory_part, depth, max_iterations);
    parts_of_parts_stand(front, prompt_contexts(contexts), back, entries[i]);
}

spec fn prompt_front(depth: nat) -> Seq<char> {
    PROMPT_ROLE@ + (if depth == 0 {
        "root"@
    } else {
        "recursive sub"@
    }) + PROMPT_DEPTH@ + decimal(depth) + PROMPT_CONTEXTS@
}

spec fn prompt_back(max_iterations: nat) -> Seq<char> {
    PROMPT_FUNCTIONS@ + decimal(PEEK_CAP as nat) + PROMPT_STRATEGY@ + decimal(max_iterations) + PROMPT_END@
}

proof fn prompt_has_parts(
    contexts: Seq<(Seq<char>, Seq<char>)>,
    memory_part: Seq<char>,
    depth: nat,
    max_iterations: nat,
)
    ensures
        prompt(contexts, memory_part, depth, max_iterations) == prompt_front(depth) + prompt_contexts(contexts) + (
        "\n\n"@ + memory_part + prompt_back(max_iterations)),
{
    assert(prompt(contexts, memory_part, depth, max_iterations) =~= prompt_front(depth) + prompt_contexts(contexts)
        + ("\n\n"@ + memory_part + prompt_back(max_iterations)));
}

/// The prompt tells what the memory has to tell, how many turns there are, and how deep the loop is.
pub proof fn the_prompt_tells_memory_and_limits(
    contexts: Seq<(Seq<char>, Seq<char>)>,
    memory_part: Seq<char>,
    depth: nat,
    max_iterations: nat,
)
    ensures
        holds(prompt(contexts, memory_part, depth, max_iterations), memory_part),
        holds(
            prompt(contexts, memory_part, depth, max_iterations),
            decimal(max_iterations) + " script turns. Never fabricate content you did not observe."@,
        ),
        begins(
            prompt(contexts, memory_part, depth, max_iterations),
            "You are a Recursive Language Model ("@ + (if depth == 0 {
                "root"@
            } else {
                "recursive sub"@
            }) + " call, depth "@ + decimal(depth) + "). Long context"@,
        ),
{
    let whole = prompt(contexts, memory_part, depth, max_iterations);
    let front = prompt_front(depth) + prompt_contexts(contexts) + "\n\n"@;
    let back = prompt_back(max_iterations);
    assert(whole =~= front + memory_part + back);
    parts_are_found(front, memory_part, back);
    let limit = decimal(max_iterations) + PROMPT_END@;
    let fore = front + memory_part + (PROMPT_FUNCTIONS@ + decimal(PEEK_CAP as nat) + PROMPT_STRATEGY@);
    assert(whole =~= fore + limit + Seq::<char>::empty());
    parts_are_found(fore, limit, Seq::empty());
    the_prompt_begins_with_its_depth(contexts, memory_part, depth, max_iterations);
}

proof fn the_prompt_begins_with_its_depth(
    contexts: Seq<(Seq<char>, Seq<char>)>,
    memory_part: Seq<char>,
    depth: nat,
    max_iterations: nat,
)
    ensures
        begins(
            prompt(contexts, memory_part, depth, max_iterations),
            "You are a Recursive Language Model ("@ + (if depth == 0 {
                "root"@
            } else {
                "recursive sub"@
            }) + " call, depth "@ + decimal(depth) + "). Long context"@,
        ),
{
    let whole = prompt(contexts, memory_part, depth, max_iterations);
    let fore = PROMPT_ROLE@ + (if depth == 0 {
        "root"@
    } else {
        "recursive sub"@
    }) + PROMPT_DEPTH@ + decimal(depth);
    let rest = PROMPT_CONTEXTS@ + prompt_contexts(contexts) + ("\n\n"@ + memory_part + prompt_back(max_iterations));
    assert(whole =~= fore + rest);
    contexts_begin_so();
    let head = fore + "). Long context"@;
    assert(whole.take(head.len() as int) =~= head);
}

proof fn contexts_begin_so()
    ensures
        PROMPT_CONTEXTS@.len() >= "). Long context"@.len(),
        forall|k: int| 0 <= k < "). Long context"@.len() ==> PROMPT_CONTEXTS@[k] == "). Long context"@[k],
{
    reveal_strlit("). Long context");
    reveal_strlit(
        "). Long context is NOT pasted into your prompt; it lives in an environment you interact with by writing code.\n\nLoaded contexts:\n",
    );
}

/// A prompt is made of what its loop has: its contexts, the memory where scripts may use it, its
/// depth and its turns.
pub proof fn a_prompt_is_of_its_loop(cfg: RlmConfig, state: EvalState, memory: Memory, depth: u32, r: String, i: int)
    requires
        memory.wf(),
        call_ensures(system_prompt, (&cfg, &state, &memory, depth), r),
        0 <= i < state.contexts@.len(),
    ensures
        holds(
            r@,
            "  - \""@ + state.contexts@[i].0@ + "\": "@ + decimal(state.contexts@[i].1@.len()) + " chars"@,
        ),
        holds(
            r@,
            decimal(cfg.max_iterations as nat) + " script turns. Never fabricate content you did not observe."@,
        ),
        state.allow_memory ==> holds(
            r@,
            truncated(digest_text(memory.facts.keys(), memory@.sessions), 2000),
        ),
{
    let part = prompt_memory(state@.allow_memory, memory.facts.keys(), memory@);
    assert(state@.contexts[i] == (state.contexts@[i].0@, state.contexts@[i].1@));
    the_prompt_names_every_context(state@.contexts, part, depth as nat, cfg.max_iterations as nat, i);
    the_prompt_tells_memory_and_limits(state@.contexts, part, depth as nat, cfg.max_iterations as nat);
}

/// A run is cut off by the clock if and only if it has a cap and has reached it; until then, and
/// without a cap, the model is asked on. The error tells the cap.
pub proof fn the_clock_cuts_off(run: RunView, env: EnvView, elapsed_secs: u64)
    requires
        run.phase == Phase::Turn,
    ensures
        ({
            let (next, _env, action) = run_step(run, env, InputView::Boundary { cancelled: false, elapsed_secs });
            &&& run.max_run_seconds > 0 && elapsed_secs >= run.max_run_seconds ==> action == ActionView::Fail(
                ErrorView::TimedOut(run.max_run_seconds),
            ) && next.phase == Phase::Over
            &&& run.max_run_seconds == 0 || elapsed_secs < run.max_run_seconds ==> action is Chat && next.phase
                != Phase::Over
        }),
        holds(error_text(ErrorView::TimedOut(run.max_run_seconds)), decimal(run.max_run_seconds as nat)),
{
    parts_are_found("run exceeded max_run_seconds ("@, decimal(run.max_run_seconds as nat), "s)"@);
}

/// Where a script left nothing to see, the model is told how to see something.
pub proof fn silence_is_explained(run: RunView, env: EnvView)
    requires
        run.wf(),
        run.phase == Phase::Script,
        env.final_answer is None,
        env.output.len() <= 1000,
        forall|i: int| 0 <= i < env.output.len() ==> is_space(#[trigger] env.output[i]),
    ensures
        run_step(run, env, InputView::Evaluated(OutcomeView::Unit)).0.messages.last().content
            == "[REPL output]\n"@ + env.output + "(no output — use print(...) to inspect values)\n"@,
{
    reveal_strlit("(no output — use print(...) to inspect values)\n");
    let hint = "(no output — use print(...) to inspect values)\n"@;
    let shown = env.output + hint;
    trimming_takes_the_ends_only(env.output);
    cutting_keeps_the_front(shown, 12_000);
    assert("[REPL output]\n"@ + shown =~= "[REPL output]\n"@ + env.output + hint);
}

} // verus!
