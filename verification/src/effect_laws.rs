//! What operations leave behind: what one call changes, and what a later call is given of it.
use vstd::prelude::*;

use crate::admission::{Refusal, RunRequest};
use crate::cli::{Chat, Cli};
use crate::client::{ChatRequest, LlmClient};
use crate::config::{ModelFile, PathFact, RlmConfig};
use crate::daemon::{conclude_run, handle, Answer, AnswerView, BodyView, ReplyView};
use crate::engine::{run_rlm, ActionView, Phase, RlmRun, RunAction, RunInput};
use crate::env::EvalState;
use crate::memory::Memory;
use crate::route::{ends_are_asked_for_by_name, plain_part, run_address, runs_are_reached_by_name};
use crate::runs::{DataView, RunStatus, Snapshot};
use crate::server::{ensure, Ensure, EnsureAction, EnsureActionView, EnsureInput, EnsurePhase};
use crate::setup::{Setup, SetupAction, SetupStage};
use crate::store::{NextRun, Store};
use crate::stream::ChunkBuffer;
use crate::text::{decimal, opt_view, trimmed};
use crate::text_laws::cutting_keeps_the_front;
use crate::textmap::{before, TextMap};

verus! {

// ------------------------------------------------------------------ scripts

/// What a script prints stands behind what it printed before, on a line of its own, and nothing
/// else changes.
pub proof fn what_is_printed_is_kept(state: &mut EvalState, line: &str)
    requires
        call_ensures(EvalState::print, (state, line), ()),
    ensures
        final(state)@.output.len() == old(state)@.output.len() + line@.len() + 1,
        forall|k: int|
            0 <= k < old(state)@.output.len() ==> final(state)@.output[k] == old(state)@.output[k],
        forall|k: int|
            0 <= k < line@.len() ==> final(state)@.output[old(state)@.output.len() + k] == #[trigger] line@[k],
        final(state)@.output.last() == '\n',
        final(state)@.contexts == old(state)@.contexts,
        final(state)@.final_answer == old(state)@.final_answer,
        final(state)@.allow_memory == old(state)@.allow_memory,
{
    reveal_strlit("\n");
}

/// What a script submits is the answer, in full, and nothing else changes.
pub proof fn what_is_submitted_is_kept(state: &mut EvalState, answer: &str)
    requires
        call_ensures(EvalState::finish, (state, answer), ()),
    ensures
        final(state)@.final_answer == Some(answer@),
        final(state)@.contexts == old(state)@.contexts,
        final(state)@.output == old(state)@.output,
        final(state)@.allow_memory == old(state)@.allow_memory,
{
}

/// An environment begins with the contexts that it is given, and with nothing printed or submitted.
pub proof fn an_environment_begins_with_its_contexts(
    contexts: Vec<(String, String)>,
    allow_memory: bool,
    r: EvalState,
)
    requires
        call_ensures(EvalState::new, (contexts, allow_memory), r),
    ensures
        r@.contexts.len() == contexts@.len(),
        forall|i: int|
            0 <= i < contexts@.len() ==> r@.contexts[i] == ((#[trigger] contexts@[i]).0@, contexts@[i].1@),
        r@.output.len() == 0,
        r@.final_answer is None,
        r@.allow_memory == allow_memory,
{
}

/// What a script keeps under a key is what it is given for that key later, and other keys are left
/// alone. A script that may not use the memory keeps nothing, and is told so.
pub proof fn what_is_kept_is_given_back(
    state: &mut EvalState,
    memory: &mut Memory,
    key: &str,
    value: &str,
    kept: bool,
    other: &str,
    before: String,
    again: String,
    after: String,
)
    requires
        old(memory).wf(),
        call_ensures(EvalState::recall, (&*old(state), &*old(memory), other), before),
        call_ensures(EvalState::remember, (state, memory, key, value), kept),
        call_ensures(EvalState::recall, (&*final(state), &*final(memory), key), again),
        call_ensures(EvalState::recall, (&*final(state), &*final(memory), other), after),
    ensures
        kept == old(state).allow_memory,
        final(state).allow_memory == old(state).allow_memory,
        kept ==> again@ == value@ && final(state)@.output == old(state)@.output,
        other@ != key@ ==> after@ == before@,
        !kept ==> *final(memory) == *old(memory) && again@.len() > 0 && final(state)@.output == old(state)@.output
            + again@ + "\n"@,
{
    reveal_strlit("[error] memory is not enabled for this run");
    assert(old(state)@.allow_memory == old(state).allow_memory);
    assert(final(state)@.allow_memory == final(state).allow_memory);
}

// ------------------------------------------------------------------- memory

/// A fact is given back as it was kept, and other facts and the log are left alone.
pub proof fn facts_are_kept(memory: &mut Memory, key: &str, value: &str, other: &str)
    requires
        call_ensures(Memory::remember, (memory, key, value), ()),
    ensures
        final(memory)@.facts.contains_key(key@),
        final(memory)@.facts[key@] == value@,
        other@ != key@ ==> final(memory)@.facts.contains_key(other@) == old(memory)@.facts.contains_key(other@),
        other@ != key@ && old(memory)@.facts.contains_key(other@) ==> final(memory)@.facts[other@]
            == old(memory)@.facts[other@],
        final(memory)@.sessions == old(memory)@.sessions,
{
}

/// A session comes last in the log, with its question and its answer, in full where they are short
/// enough. Those that were there before keep their order, and the oldest one goes only where the log
/// is full. The facts are left alone.
pub proof fn sessions_are_kept(memory: &mut Memory, query: &str, answer: &str)
    requires
        old(memory)@.sessions.len() <= 50,
        call_ensures(Memory::record_session, (memory, query, answer), ()),
    ensures
        final(memory)@.facts == old(memory)@.facts,
        final(memory)@.sessions.len() > 0,
        query@.len() <= 500 ==> final(memory)@.sessions.last().query == query@,
        answer@.len() <= 1000 ==> final(memory)@.sessions.last().answer == answer@,
        query@.len() > 500 ==> final(memory)@.sessions.last().query.take(500) == query@.take(500),
        answer@.len() > 1000 ==> final(memory)@.sessions.last().answer.take(1000) == answer@.take(1000),
        old(memory)@.sessions.len() < 50 ==> final(memory)@.sessions.drop_last() == old(memory)@.sessions,
        old(memory)@.sessions.len() == 50 ==> final(memory)@.sessions.drop_last() == old(memory)@.sessions.skip(1),
{
    cutting_keeps_the_front(query@, 500);
    cutting_keeps_the_front(answer@, 1000);
    let log = old(memory)@.sessions;
    let now = final(memory)@.sessions;
    if query@.len() > 500 {
        assert(now.last().query.take(500) =~= query@.take(500));
    }
    if answer@.len() > 1000 {
        assert(now.last().answer.take(1000) =~= answer@.take(1000));
    }
    if log.len() < 50 {
        assert(now.drop_last() =~= log);
    } else {
        assert(now.drop_last() =~= log.skip(1));
    }
}

/// What is put into a map under a key is found under it, and other keys are left alone; what is
/// taken out is gone, and handed over.
pub proof fn maps_keep_what_they_are_given<V>(
    map: &mut TextMap<V>,
    other: &mut TextMap<V>,
    key: &str,
    value: V,
    taken: Option<V>,
    found: Option<&V>,
    gone: Option<&V>,
)
    requires
        call_ensures(TextMap::<V>::insert, (map, key, value), ()),
        call_ensures(TextMap::<V>::get, (&*final(map), key), found),
        call_ensures(TextMap::<V>::remove, (other, key), taken),
        call_ensures(TextMap::<V>::get, (&*final(other), key), gone),
    ensures
        found == Some(&value),
        gone is None,
        taken == (if old(other)@.contains_key(key@) {
            Some(old(other)@[key@])
        } else {
            None
        }),
        forall|k: Seq<char>|
            k != key@ ==> (#[trigger] final(map)@.contains_key(k) <==> old(map)@.contains_key(k)),
        forall|k: Seq<char>|
            k != key@ && old(map)@.contains_key(k) ==> #[trigger] final(map)@[k] == old(map)@[k],
        forall|k: Seq<char>|
            k != key@ ==> (#[trigger] final(other)@.contains_key(k) <==> old(other)@.contains_key(k)),
        forall|k: Seq<char>|
            k != key@ && old(other)@.contains_key(k) ==> #[trigger] final(other)@[k] == old(other)@[k],
{
}

// --------------------------------------------------------------------- loop

/// What the model says is asked of it again: behind a reply, the next request holds the conversation
/// as it was, and behind it the reply, in full and as the model's own.
pub proof fn a_reply_is_sent_back(
    run: &mut RlmRun,
    state: &mut EvalState,
    text: String,
    r: RunAction,
    root: LlmClient,
    before: ChatRequest,
    after: ChatRequest,
)
    requires
        old(run)@.wf(),
        old(run)@.phase == Phase::Reply,
        call_ensures(RlmRun::request, (&*old(run), &root), before),
        call_ensures(run_rlm, (run, state, RunInput::Reply(Ok(text))), r),
        call_ensures(RlmRun::request, (&*final(run), &root), after),
    ensures
        after.messages@.len() == before.messages@.len() + 1,
        after.messages@.last().role@ == "assistant"@,
        after.messages@.last().content@ == text@,
        forall|i: int|
            0 <= i < before.messages@.len() ==> (#[trigger] after.messages@[i]).role@ == before.messages@[i].role@
                && after.messages@[i].content@ == before.messages@[i].content@,
        after.max_tokens == before.max_tokens,
        after.url@ == before.url@,
        after.enable_thinking == before.enable_thinking,
{
    let was = before@.messages;
    let now = after@.messages;
    assert(was == old(run)@.messages && now == final(run)@.messages);
    assert(was.len() == before.messages@.len() && now.len() == after.messages@.len());
    assert(now[was.len() as int] == after.messages@[was.len() as int]@);
    assert forall|i: int| 0 <= i < before.messages@.len() implies (#[trigger] after.messages@[i]).role@
        == before.messages@[i].role@ && after.messages@[i].content@ == before.messages@[i].content@ by {
        assert(was[i] == before.messages@[i]@ && now[i] == after.messages@[i]@);
        assert(now[i] == was[i]);
    }
    assert(before@.url == before.url@ && after@.url == after.url@);
}

/// A loop is done with what was submitted, in full, as soon as a script is over; and when no turn is
/// left, with what the model then says, without the space at its ends. An error of the model ends it
/// with that error.
pub proof fn a_loop_ends_with_its_answer(run: &mut RlmRun, state: &mut EvalState, input: RunInput, r: RunAction)
    requires
        old(run)@.wf(),
        call_ensures(run_rlm, (run, state, input), r),
    ensures
        old(run)@.phase == Phase::Script && input is Evaluated && old(state)@.final_answer is Some ==> r@
            == ActionView::Done(old(state)@.final_answer->0) && final(run)@.phase == Phase::Over,
        old(run)@.phase == Phase::LastReply ==> (input matches RunInput::Reply(Ok(text)) ==> r@
            == ActionView::Done(trimmed(text@)) && final(run)@.phase == Phase::Over),
        old(run)@.phase == Phase::Reply || old(run)@.phase == Phase::LastReply ==> (input matches RunInput::Reply(
            Err(e),
        ) ==> r matches RunAction::Fail(error) && final(run)@.phase == Phase::Over),
        old(run)@.phase == Phase::Turn ==> (input matches RunInput::Boundary { cancelled, elapsed_secs }
            ==> cancelled ==> r is Fail && final(run)@.phase == Phase::Over),
        final(state)@.contexts == old(state)@.contexts,
        final(state)@.final_answer == old(state)@.final_answer,
        final(state)@.allow_memory == old(state)@.allow_memory,
        final(run)@.depth == old(run)@.depth,
        final(run)@.max_iterations == old(run)@.max_iterations,
{
}

// -------------------------------------------------------------------- store

/// A run that ends has its answer, which everyone who asks is shown, and its last event tells the
/// same: the answer in full where it is short enough.
pub proof fn an_end_is_shown_to_all(
    store: &mut Store,
    id: &str,
    answer: String,
    now: u64,
    r: Option<Snapshot>,
    shown: Option<Snapshot>,
)
    requires
        old(store).wf(),
        old(store)@.running == Some(id@),
        call_ensures(Store::finish_run, (store, Ok(answer), now), r),
        call_ensures(Store::get_run, (&*final(store), id), shown),
    ensures
        r is Some && shown is Some && r->0@ == shown->0@,
        shown->0@.status == RunStatus::Done,
        shown->0@.finished_unix == Some(now),
        shown->0@.answer is Some,
        answer@.len() <= 8000 ==> shown->0@.answer == Some(answer@),
        answer@.len() > 8000 ==> shown->0@.answer->0.take(8000) == answer@.take(8000),
        final(store)@.running is None,
        ({
            let was = old(store)@.runs[id@].events;
            let events = final(store)@.runs[id@].events;
            was.len() < 1000 ==> events.len() == was.len() + 1 && events.last().data == DataView::Ended(shown->0@)
                && events.drop_last() == was && events.last().unix == now
        }),
{
    cutting_keeps_the_front(answer@, 8000);
    old(store).view_is_wf();
    assert(old(store)@.runs.contains_key(id@));
    if answer@.len() > 8000 {
        assert(shown->0@.answer->0.take(8000) =~= answer@.take(8000));
    }
    let was = old(store)@.runs[id@].events;
    let events = final(store)@.runs[id@].events;
    if was.len() < 1000 {
        assert(events.drop_last() =~= was);
    }
}

/// A run that was admitted is shown to wait under its name, and an executor with nothing else to do
/// is given it: with the prompt and the contents that were asked for.
pub proof fn an_admitted_run_is_carried_out(
    store: &mut Store,
    later: &mut Store,
    req: RunRequest,
    cfg: RlmConfig,
    unix: u64,
    nanos: u32,
    r: Result<Snapshot, Refusal>,
    now: u64,
    next: NextRun,
)
    requires
        old(store).wf(),
        old(store)@.next_id < u64::MAX,
        old(store)@.running is None,
        old(store)@.queue.len() == 0,
        call_ensures(Store::create_run, (store, req, &cfg, unix, nanos), r),
        *old(later) == *final(store),
        call_ensures(Store::next_run, (later, now), next),
        r is Ok,
    ensures
        r->Ok_0@.status == RunStatus::Queued,
        r->Ok_0@.created_unix == unix,
        final(store)@.runs.contains_key(r->Ok_0@.run_id),
        final(store)@.runs[r->Ok_0@.run_id].snapshot == r->Ok_0@,
        final(store)@.runs[r->Ok_0@.run_id].events.len() == 1,
        final(store)@.runs[r->Ok_0@.run_id].events[0].unix == unix,
        final(store)@.runs[r->Ok_0@.run_id].events[0].data == (DataView::Queued {
            memory: req.capabilities.memory && cfg.daemon_allow_memory,
        }),
        next matches NextRun::Started { run_id, run } && run_id@ == r->Ok_0@.run_id && run@.prompt == req.prompt@
            && run@.contexts.len() == req.contexts@.len() && (forall|i: int|
            0 <= i < req.contexts@.len() ==> (#[trigger] run@.contexts[i]).1 == req.contexts@[i].text@),
        final(later)@.running == Some(r->Ok_0@.run_id),
        final(later)@.runs[r->Ok_0@.run_id].snapshot.status == RunStatus::Running,
{
    let id = r->Ok_0@.run_id;
    assert(final(store)@.queue =~= seq![id]);
    assert(req@.contexts.len() == req.contexts@.len());
    if let NextRun::Started { run_id, run } = next {
        assert forall|i: int| 0 <= i < req.contexts@.len() implies (#[trigger] run@.contexts[i]).1
            == req.contexts@[i].text@ by {
            assert(req@.contexts[i].1 == req.contexts@[i].text@);
        }
    }
}

// ------------------------------------------------------------------- stream

/// Bytes come out as they went in: a chunk is handed out from its front, as much as there is room
/// for, what is left stays, and nothing behind it in the room is touched.
pub proof fn bytes_are_handed_out(buffer: &mut ChunkBuffer, out: &mut [u8], n: usize)
    requires
        call_ensures(ChunkBuffer::read, (buffer, out), n),
    ensures
        n <= old(buffer)@.len() && n <= old(out)@.len(),
        n == old(buffer)@.len() || n == old(out)@.len(),
        final(out)@.len() == old(out)@.len(),
        forall|i: int| 0 <= i < n ==> #[trigger] final(out)@[i] == old(buffer)@[i],
        forall|i: int| n <= i < old(out)@.len() ==> #[trigger] final(out)@[i] == old(out)@[i],
        old(buffer)@ == old(buffer)@.take(n as int) + final(buffer)@,
{
    assert(old(buffer)@ =~= old(buffer)@.take(n as int) + final(buffer)@);
}

// ------------------------------------------------------------------- others

/// A command line overrides what it says, and leaves the rest of the configuration alone.
pub proof fn a_command_line_takes_effect(cli: Cli, cfg: &mut RlmConfig)
    requires
        call_ensures(Cli::apply, (&cli, cfg), ()),
    ensures
        cli.model matches Some(m) ==> final(cfg)@.model_path == m@,
        cli.model is None ==> final(cfg)@.model_path == old(cfg)@.model_path,
        final(cfg)@.port == (match cli.port {
            Some(p) => p,
            None => old(cfg)@.port,
        }),
        final(cfg)@.max_iterations == (match cli.iters {
            Some(n) => n,
            None => old(cfg)@.max_iterations,
        }),
        final(cfg)@.max_depth == (match cli.depth {
            Some(n) => n,
            None => old(cfg)@.max_depth,
        }),
        final(cfg)@.host == old(cfg)@.host,
        final(cfg)@.worker_port == old(cfg)@.worker_port,
        final(cfg)@.worker_model_path == old(cfg)@.worker_model_path,
        final(cfg)@.max_tokens == old(cfg)@.max_tokens,
        final(cfg)@.memory_path == old(cfg)@.memory_path,
{
}

/// What was said in a chat is a context of the next question, in full.
pub proof fn what_was_said_is_asked_about(chat: &mut Chat, query: &str, answer: &str, next: Vec<(String, String)>)
    requires
        call_ensures(Chat::note, (chat, query, answer), ()),
        call_ensures(Chat::contexts, (&*final(chat),), next),
    ensures
        next@.len() == old(chat).base@.len() + 1,
        next@.last().0@ == "conversation_history"@,
        next@.last().1@ == old(chat).conversation@ + "USER: "@ + query@ + "\nASSISTANT: "@ + answer@ + "\n\n"@,
        forall|i: int|
            0 <= i < old(chat).base@.len() ==> (#[trigger] next@[i]).0@ == old(chat).base@[i].0@ && next@[i].1@
                == old(chat).base@[i].1@,
{
    reveal_strlit("USER: ");
    crate::cli::a_question_has_its_contexts(*final(chat), next);
}

/// Settling paths and looking for models each change nothing but what they are for.
pub proof fn settling_changes_paths_only(
    cfg: &mut RlmConfig,
    model: PathFact,
    server: PathFact,
    memory: PathFact,
    worker: PathFact,
    runs: PathFact,
    found: &mut RlmConfig,
    models: Vec<ModelFile>,
    workers: Vec<ModelFile>,
)
    requires
        call_ensures(RlmConfig::settle_paths, (cfg, model, server, memory, worker, runs), ()),
        call_ensures(RlmConfig::discover, (found, &models, &workers), ()),
    ensures
        old(cfg)@.memory_path.len() > 0 && memory.relative ==> final(cfg)@.memory_path == memory.joined@,
        old(cfg)@.memory_path.len() == 0 || !memory.relative ==> final(cfg)@.memory_path == old(cfg)@.memory_path,
        old(cfg)@.model_path.len() > 0 && model.relative ==> final(cfg)@.model_path == model.joined@,
        old(cfg)@.server_bin.len() > 0 && server.relative ==> final(cfg)@.server_bin == server.joined@,
        old(cfg)@.worker_model_path.len() > 0 && worker.relative ==> final(cfg)@.worker_model_path == worker.joined@,
        old(cfg)@.daemon_runs_path.len() > 0 && runs.relative ==> final(cfg)@.daemon_runs_path == runs.joined@,
        final(cfg)@.host == old(cfg)@.host && final(cfg)@.port == old(cfg)@.port,
        old(found)@.model_path.len() > 0 ==> final(found)@.model_path == old(found)@.model_path,
        models@.len() == 0 ==> final(found)@.model_path == old(found)@.model_path,
        old(found)@.worker_model_path.len() > 0 ==> final(found)@.worker_model_path
            == old(found)@.worker_model_path && final(found)@.worker_port == old(found)@.worker_port,
        final(found)@.host == old(found)@.host && final(found)@.port == old(found)@.port,
{
}

/// A run is logged if and only if it may use the memory and has an answer, and it is told whether it
/// was. One that is not logged leaves the memory alone.
pub proof fn logging_is_told(
    memory: &mut Memory,
    allow_memory: bool,
    prompt: &str,
    outcome: Result<String, String>,
    r: bool,
)
    requires
        call_ensures(conclude_run, (memory, allow_memory, prompt, &outcome), r),
    ensures
        r <==> allow_memory && outcome is Ok,
        !r ==> final(memory)@ == old(memory)@,
        r ==> final(memory)@.facts == old(memory)@.facts && final(memory)@.sessions.len() > 0,
        r && prompt@.len() <= 500 ==> final(memory)@.sessions.last().query == prompt@,
        r && outcome->Ok_0@.len() <= 1000 ==> final(memory)@.sessions.last().answer == outcome->Ok_0@,
{
    cutting_keeps_the_front(prompt@, 500);
    if outcome is Ok {
        cutting_keeps_the_front(outcome->Ok_0@, 1000);
    }
}

/// The keys of a map are read in ascending order, each with its value.
pub proof fn keys_are_read_in_order<V>(
    map: TextMap<V>,
    i: usize,
    j: usize,
    n: usize,
    first: &String,
    second: &String,
    value: &V,
)
    requires
        map.wf(),
        call_ensures(TextMap::<V>::len, (&map,), n),
        i < j < map.keys().len(),
        call_ensures(TextMap::<V>::key_at, (&map, i), first),
        call_ensures(TextMap::<V>::key_at, (&map, j), second),
        call_ensures(TextMap::<V>::value_at, (&map, i), value),
    ensures
        j < n,
        before(first@, second@),
        map@.contains_key(first@) && map@.contains_key(second@),
        *value == map@[first@],
{
    map.keys_are_the_domain();
    assert(map.keys().contains(first@));
    assert(map.keys().contains(second@));
}

/// A run is shown to whoever asks for it by its name and may ask: how it stands, where it is there,
/// and that it is unknown where it is not. Asking changes nothing.
pub proof fn a_run_is_shown_by_name(
    store: &mut Store,
    url: &str,
    id: Seq<char>,
    authorization: Option<String>,
    token: Option<String>,
    now: u64,
    r: Answer,
)
    requires
        plain_part(id),
        url@ == "/v1/runs/"@ + id,
        token is Some ==> authorization is Some && authorization->0@ == "Bearer "@ + token->0@,
        call_ensures(handle, (store, "GET", url, &authorization, &token, now), r),
    ensures
        final(store)@ == old(store)@,
        old(store)@.runs.contains_key(id) ==> r@ == AnswerView::Reply(
            ReplyView { code: 200, body: BodyView::Run(old(store)@.runs[id].snapshot) },
        ),
        !old(store)@.runs.contains_key(id) ==> (r@ matches AnswerView::Reply(reply) && reply.code == 404),
{
    runs_are_reached_by_name(id, opt_view(authorization), opt_view(token));
}

/// The end of a run is asked for by its name: one that waits ends at once, one that is under way is
/// asked to end, and it is shown as it then stands. No other run is touched.
pub proof fn a_run_is_cancelled_by_name(
    store: &mut Store,
    url: &str,
    id: Seq<char>,
    other: Seq<char>,
    authorization: Option<String>,
    token: Option<String>,
    now: u64,
    r: Answer,
)
    requires
        plain_part(id),
        url@ == run_address(id, "/"@ + "cancel"@),
        token is Some ==> authorization is Some && authorization->0@ == "Bearer "@ + token->0@,
        call_ensures(handle, (store, "POST", url, &authorization, &token, now), r),
        old(store)@.runs.contains_key(id),
        other != id,
    ensures
        final(store)@.runs[id].cancel,
        old(store)@.runs[id].snapshot.status == RunStatus::Queued ==> final(store)@.runs[id].snapshot.status
            == RunStatus::Cancelled && final(store)@.runs[id].snapshot.finished_unix == Some(now),
        old(store)@.runs[id].snapshot.status != RunStatus::Queued ==> final(store)@.runs[id].snapshot
            == old(store)@.runs[id].snapshot,
        r@ == AnswerView::Reply(ReplyView { code: 200, body: BodyView::Run(final(store)@.runs[id].snapshot) }),
        final(store)@.runs.contains_key(other) == old(store)@.runs.contains_key(other),
        old(store)@.runs.contains_key(other) ==> final(store)@.runs[other] == old(store)@.runs[other],
        final(store)@.queue == old(store)@.queue,
        final(store)@.running == old(store)@.running,
{
    ends_are_asked_for_by_name(id, opt_view(authorization), opt_view(token));
}

/// A step in bringing up a server changes nothing of what is brought up. A server that says that it
/// is up is used, and it was started here only if it was waited for; and it is started with its own
/// program and arguments.
pub proof fn a_step_keeps_what_is_brought_up(run: &mut Ensure, input: EnsureInput, r: EnsureAction)
    requires
        call_ensures(ensure, (run, input), r),
    ensures
        final(run)@.label == old(run)@.label,
        final(run)@.bin == old(run)@.bin,
        final(run)@.model == old(run)@.model,
        final(run)@.args == old(run)@.args,
        final(run)@.timeout == old(run)@.timeout,
        final(run)@.port == old(run)@.port,
        final(run)@.url == old(run)@.url,
        input == EnsureInput::Health(true) && (old(run)@.phase == EnsurePhase::Probing || old(run)@.phase
            == EnsurePhase::Attaching) ==> r == (EnsureAction::Done { started: false }),
        input == EnsureInput::Health(true) && old(run)@.phase == EnsurePhase::Polling ==> r == (EnsureAction::Done {
            started: true,
        }),
        input == EnsureInput::Exists(true) && old(run)@.phase == EnsurePhase::Model ==> r@ == (
        EnsureActionView::Start { bin: old(run)@.bin, args: old(run)@.args }),
        r matches EnsureAction::Start { bin, args } ==> old(run)@.phase == EnsurePhase::Model,
{
}

/// A step of a setup keeps its configuration and its policy, and the run begins with clients of that
/// configuration: the root loop on the main port of its host.
pub proof fn a_step_keeps_the_setup(setup: &mut Setup, input: EnsureInput, r: SetupAction)
    requires
        call_ensures(Setup::step, (setup, input), r),
    ensures
        final(setup)@.cfg == old(setup)@.cfg,
        final(setup)@.policy == old(setup)@.policy,
        r matches SetupAction::Ready { root, sub, note } ==> final(setup)@.stage == SetupStage::Over
            && root@.base_url == "http://"@ + old(setup)@.cfg.host + ":"@ + decimal(old(setup)@.cfg.port as nat)
            && root@.thinking == old(setup)@.cfg.root_thinking,
        r is Fail ==> old(setup)@.stage == SetupStage::Main && final(setup)@.stage == SetupStage::Over,
{
}

} // verus!
