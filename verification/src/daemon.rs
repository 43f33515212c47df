//! The control plane: what each request is answered.
use vstd::prelude::*;

use crate::admission::{
    announced_refusal, body_refusal, check_announced, check_body, granted, refusal_code, refusal_text,
    request_refusal, Refusal, RefusalView, RequestView, RunRequest,
};
use crate::client::result_view;
use crate::config::{ConfigView, RlmConfig};
use crate::memory::{logged, Memory, MemoryView};
use crate::route::{path_of, route, route_of, Route, RouteView};
use crate::runs::{
    ended_snapshot, id_text, queued_entry, RunStatus, Snapshot, SnapshotView, ANSWER_PREVIEW_CAP,
    ERROR_PREVIEW_CAP,
};
use crate::store::{
    admitted, cancel_result, create_result, finish_result, next_result, opt_snapshot, NextView, Store, StoreView,
    MAX_PENDING_RUNS,
};
use crate::text::{begins, opt_view};

verus! {

/// The one interface that the control plane listens on.
pub const LOOPBACK: &'static str = "127.0.0.1";

/// What stands in an answer.
pub enum ReplyBody {
    /// The control plane is up.
    Health,
    /// Whether the model server is up.
    Ready(bool),
    /// How a run stands.
    Run(Snapshot),
    /// What went wrong.
    Error(String),
}

/// An answer.
pub struct Reply {
    pub code: u16,
    pub body: ReplyBody,
}

pub enum BodyView {
    Health,
    Ready(bool),
    Run(SnapshotView),
    Error(Seq<char>),
}

pub struct ReplyView {
    pub code: u16,
    pub body: BodyView,
}

impl View for ReplyBody {
    type V = BodyView;

    open spec fn view(&self) -> BodyView {
        match self {
            ReplyBody::Health => BodyView::Health,
            ReplyBody::Ready(up) => BodyView::Ready(*up),
            ReplyBody::Run(s) => BodyView::Run(s@),
            ReplyBody::Error(e) => BodyView::Error(e@),
        }
    }
}

impl View for Reply {
    type V = ReplyView;

    open spec fn view(&self) -> ReplyView {
        ReplyView { code: self.code, body: self.body@ }
    }
}

/// What is to be done for a request.
pub enum Answer {
    /// It is answered.
    Reply(Reply),
    /// The model server is probed; the outcome makes the answer.
    Probe,
    /// The body is read; what it asks for makes the answer.
    ReadBody,
    /// The events of a run are streamed.
    Stream { run_id: String, after: i64 },
}

pub enum AnswerView {
    Reply(ReplyView),
    Probe,
    ReadBody,
    Stream { run_id: Seq<char>, after: i64 },
}

impl View for Answer {
    type V = AnswerView;

    open spec fn view(&self) -> AnswerView {
        match self {
            Answer::Reply(r) => AnswerView::Reply(r@),
            Answer::Probe => AnswerView::Probe,
            Answer::ReadBody => AnswerView::ReadBody,
            Answer::Stream { run_id, after } => AnswerView::Stream { run_id: run_id@, after: *after },
        }
    }
}

// ------------------------------------------------------------------ answers

pub open spec fn refused(r: RefusalView) -> ReplyView {
    ReplyView { code: refusal_code(r), body: BodyView::Error(refusal_text(r)) }
}

pub open spec fn shown(s: SnapshotView) -> ReplyView {
    ReplyView { code: 200, body: BodyView::Run(s) }
}

/// What a request comes to: the store behind it, and what is to be done.
pub open spec fn handled(s: StoreView, asked: RouteView, now: u64) -> (StoreView, AnswerView) {
    match asked {
        RouteView::Health => (s, AnswerView::Reply(ReplyView { code: 200, body: BodyView::Health })),
        RouteView::Ready => (s, AnswerView::Probe),
        RouteView::Unauthorized => (s, AnswerView::Reply(refused(RefusalView::Unauthorized))),
        RouteView::NotFound => (s, AnswerView::Reply(refused(RefusalView::NotFound))),
        RouteView::CreateRun => (s, AnswerView::ReadBody),
        RouteView::GetRun(id) => (
            s,
            AnswerView::Reply(
                if s.runs.contains_key(id) {
                    shown(s.runs[id].snapshot)
                } else {
                    refused(RefusalView::UnknownRun)
                },
            ),
        ),
        RouteView::CancelRun(id) => (
            cancel_result(s, id, now).0,
            AnswerView::Reply(
                match cancel_result(s, id, now).1 {
                    Some(snapshot) => shown(snapshot),
                    None => refused(RefusalView::UnknownRun),
                },
            ),
        ),
        RouteView::Events(id, after) => (
            s,
            if s.runs.contains_key(id) {
                AnswerView::Stream { run_id: id, after }
            } else {
                AnswerView::Reply(refused(RefusalView::UnknownRun))
            },
        ),
    }
}

fn refuse(refusal: Refusal) -> (r: Reply)
    ensures
        r@ == refused(refusal@),
{
    Reply { code: refusal.code(), body: ReplyBody::Error(refusal.message()) }
}

fn show(snapshot: Option<Snapshot>) -> (r: Answer)
    ensures
        r@ == AnswerView::Reply(
            match opt_snapshot(snapshot) {
                Some(s) => shown(s),
                None => refused(RefusalView::UnknownRun),
            },
        ),
{
    match snapshot {
        Some(s) => Answer::Reply(Reply { code: 200, body: ReplyBody::Run(s) }),
        None => Answer::Reply(refuse(Refusal::UnknownRun)),
    }
}

/// Handles a request, as far as its head says what to do.
pub fn handle(
    store: &mut Store,
    method: &str,
    url: &str,
    authorization: &Option<String>,
    token: &Option<String>,
    now: u64,
) -> (r: Answer)
    requires
        old(store).wf(),
    ensures
        final(store).wf(),
        (final(store)@, r@) == handled(
            old(store)@,
            route_of(method@, url@, opt_view(*authorization), opt_view(*token)),
            now,
        ),
{
    match route(method, url, authorization, token) {
        Route::Health => Answer::Reply(Reply { code: 200, body: ReplyBody::Health }),
        Route::Ready => Answer::Probe,
        Route::Unauthorized => Answer::Reply(refuse(Refusal::Unauthorized)),
        Route::NotFound => Answer::Reply(refuse(Refusal::NotFound)),
        Route::CreateRun => Answer::ReadBody,
        Route::GetRun(id) => show(store.get_run(id.as_str())),
        Route::CancelRun(id) => show(store.cancel_run(id.as_str(), now)),
        Route::Events(id, after) => {
            if store.entry(id.as_str()).is_some() {
                Answer::Stream { run_id: id, after }
            } else {
                Answer::Reply(refuse(Refusal::UnknownRun))
            }
        },
    }
}

/// Says whether the model server is up.
pub fn ready_reply(up: bool) -> (r: Reply)
    ensures
        r@ == (ReplyView {
            code: if up {
                200
            } else {
                503
            },
            body: BodyView::Ready(up),
        }),
{
    Reply {
        code: if up {
            200
        } else {
            503
        },
        body: ReplyBody::Ready(up),
    }
}

/// The body of a request for a run.
pub enum RunBody {
    /// It could not be read.
    Unreadable,
    /// It was read: its bytes, and what it asks for or why it asks for nothing.
    Read { bytes: u64, request: Result<RunRequest, String> },
}

pub enum RunBodyView {
    Unreadable,
    Read { bytes: u64, request: Result<RequestView, Seq<char>> },
}

impl View for RunBody {
    type V = RunBodyView;

    open spec fn view(&self) -> RunBodyView {
        match self {
            RunBody::Unreadable => RunBodyView::Unreadable,
            RunBody::Read { bytes, request } => RunBodyView::Read {
                bytes: *bytes,
                request: match request {
                    Ok(req) => Ok(req@),
                    Err(e) => Err(e@),
                },
            },
        }
    }
}

/// What a body comes to: the store behind it, and the answer. Without a refusal the run is
/// admitted.
pub open spec fn created(
    s: StoreView,
    announced: Option<u64>,
    body: RunBodyView,
    cfg: ConfigView,
    unix: u64,
    nanos: u32,
) -> (StoreView, ReplyView) {
    if announced_refusal(announced) is Some {
        (s, refused(announced_refusal(announced)->0))
    } else {
        match body {
            RunBodyView::Unreadable => (s, refused(RefusalView::BodyUnreadable)),
            RunBodyView::Read { bytes, request } => if body_refusal(Some(bytes)) is Some {
                (s, refused(body_refusal(Some(bytes))->0))
            } else {
                match request {
                    Err(e) => (s, refused(RefusalView::BadRequest(e))),
                    Ok(req) => {
                        let result = create_result(s, req, cfg, unix, nanos);
                        (
                            result.0,
                            match result.1 {
                                Ok(snapshot) => ReplyView { code: 202, body: BodyView::Run(snapshot) },
                                Err(refusal) => refused(refusal),
                            },
                        )
                    },
                }
            },
        }
    }
}

/// Creates a run, or says why not.
pub fn create_run(
    store: &mut Store,
    announced: Option<u64>,
    body: RunBody,
    cfg: &RlmConfig,
    unix: u64,
    nanos: u32,
) -> (r: Reply)
    requires
        old(store).wf(),
        old(store)@.next_id < u64::MAX,
    ensures
        final(store).wf(),
        (final(store)@, r@) == created(old(store)@, announced, body@, cfg@, unix, nanos),
{
    if let Some(refusal) = check_announced(announced) {
        return refuse(refusal);
    }
    match body {
        RunBody::Unreadable => refuse(Refusal::BodyUnreadable),
        RunBody::Read { bytes, request } => {
            if let Some(refusal) = check_body(Some(bytes)) {
                return refuse(refusal);
            }
            match request {
                Err(e) => refuse(Refusal::BadRequest(e)),
                Ok(req) => match store.create_run(req, cfg, unix, nanos) {
                    Ok(snapshot) => Reply { code: 202, body: ReplyBody::Run(snapshot) },
                    Err(refusal) => refuse(refusal),
                },
            }
        },
    }
}

// -------------------------------------------------------------- what is kept

/// The snapshot that is appended to the file of runs, where there is one.
pub fn persist_snapshot(cfg: &RlmConfig, snapshot: &Snapshot) -> (r: Option<Snapshot>)
    ensures
        opt_snapshot(r) == (if cfg@.daemon_runs_path.len() == 0 {
            None
        } else {
            Some(snapshot@)
        }),
{
    if cfg.daemon_runs_path.as_str().is_empty() {
        None
    } else {
        Some(snapshot.clone())
    }
}

/// The memory behind a run: a run that may use it and has an answer is logged.
pub open spec fn concluded(
    m: MemoryView,
    allow_memory: bool,
    prompt: Seq<char>,
    outcome: Result<Seq<char>, Seq<char>>,
) -> MemoryView {
    match outcome {
        Ok(answer) if allow_memory => MemoryView { sessions: logged(m.sessions, prompt, answer), ..m },
        _ => m,
    }
}

/// Logs a run that may use the memory and has an answer; says whether it did.
pub fn conclude_run(
    memory: &mut Memory,
    allow_memory: bool,
    prompt: &str,
    outcome: &Result<String, String>,
) -> (r: bool)
    requires
        old(memory).wf(),
    ensures
        final(memory).wf(),
        final(memory)@ == concluded(old(memory)@, allow_memory, prompt@, result_view(*outcome)),
        r == (allow_memory && *outcome is Ok),
{
    match outcome {
        Ok(answer) => if allow_memory {
            memory.record_session(prompt, answer.as_str());
            true
        } else {
            false
        },
        Err(_) => false,
    }
}

// --------------------------------------------------------------------- laws

/// With a token set, a request that does not bring it changes nothing and is told nothing of any
/// run: whatever runs there are, it is answered the same.
pub proof fn a_stranger_learns_nothing(
    s: StoreView,
    other: StoreView,
    method: Seq<char>,
    url: Seq<char>,
    authorization: Option<Seq<char>>,
    token: Seq<char>,
    now: u64,
)
    requires
        authorization != Some("Bearer "@ + token),
    ensures
        handled(s, route_of(method, url, authorization, Some(token)), now).0 == s,
        handled(s, route_of(method, url, authorization, Some(token)), now).1 == handled(
            other,
            route_of(method, url, authorization, Some(token)),
            now,
        ).1,
        begins(path_of(url), "/v1/"@) && path_of(url) != "/health"@ ==> handled(
            s,
            route_of(method, url, authorization, Some(token)),
            now,
        ).1 == AnswerView::Reply(refused(RefusalView::Unauthorized)),
{
}

/// Health and readiness tell nothing of any run: the answer does not depend on the runs, and they
/// stay as they are.
pub proof fn health_tells_nothing_of_runs(
    s: StoreView,
    other: StoreView,
    url: Seq<char>,
    authorization: Option<Seq<char>>,
    token: Option<Seq<char>>,
    now: u64,
)
    requires
        path_of(url) == "/health"@ || path_of(url) == "/ready"@,
    ensures
        handled(s, route_of("GET"@, url, authorization, token), now).0 == s,
        handled(s, route_of("GET"@, url, authorization, token), now).1 == handled(
            other,
            route_of("GET"@, url, authorization, token),
            now,
        ).1,
{
    crate::route::health_is_open(url, authorization, token);
}

/// A request that only asks changes nothing.
pub proof fn asking_changes_nothing(
    s: StoreView,
    url: Seq<char>,
    authorization: Option<Seq<char>>,
    token: Option<Seq<char>>,
    now: u64,
)
    ensures
        handled(s, route_of("GET"@, url, authorization, token), now).0 == s,
{
    reveal_strlit("GET");
    reveal_strlit("POST");
    assert("GET"@.len() != "POST"@.len());
}

/// A run that was created is found under its name, as it was shown to its creator.
pub proof fn a_created_run_is_found(
    s: StoreView,
    announced: Option<u64>,
    req: RequestView,
    bytes: u64,
    cfg: ConfigView,
    unix: u64,
    nanos: u32,
    now: u64,
)
    requires
        s.wf(),
        s.next_id < u64::MAX,
        announced_refusal(announced) is None,
        body_refusal(Some(bytes)) is None,
        request_refusal(req, cfg) is None,
        s.queue.len() < MAX_PENDING_RUNS,
    ensures
        ({
            let id = id_text(unix as nat, nanos as nat, s.next_id as nat);
            let body = RunBodyView::Read { bytes, request: Ok(req) };
            let result = created(s, announced, body, cfg, unix, nanos);
            let snapshot = queued_entry(id, granted(req, cfg).allow_memory, unix).snapshot;
            &&& result.1 == ReplyView { code: 202, body: BodyView::Run(snapshot) }
            &&& result.0 == admitted(s, id, granted(req, cfg), unix)
            &&& snapshot.run_id == id && snapshot.status == RunStatus::Queued
            &&& handled(result.0, RouteView::GetRun(id), now).1 == AnswerView::Reply(shown(snapshot))
        }),
{
}

/// What is kept of runs on file are ends: a run that the executor skips or finishes has ended.
pub proof fn kept_snapshots_are_terminal(
    s: StoreView,
    outcome: Result<Seq<char>, Seq<char>>,
    now: u64,
)
    requires
        s.wf(),
    ensures
        next_result(s, now).1 matches NextView::Skipped { snapshot, run } ==> snapshot.status.is_terminal(),
        finish_result(s, outcome, now).1 matches Some(snapshot) ==> snapshot.status.is_terminal(),
{
    if s.queue.len() > 0 {
        assert(s.waits(s.queue[0]));
    }
}

/// What is kept of answers and errors are previews.
pub proof fn previews_are_bounded(
    s: SnapshotView,
    outcome: Result<Seq<char>, Seq<char>>,
    now: u64,
)
    requires
        s.answer is None,
        s.error is None,
        outcome is Ok ==> outcome->Ok_0.len() <= u64::MAX,
        outcome is Err ==> outcome->Err_0.len() <= u64::MAX,
    ensures
        ended_snapshot(s, outcome, now).answer matches Some(a) ==> a.len() <= ANSWER_PREVIEW_CAP + 66,
        ended_snapshot(s, outcome, now).error matches Some(e) ==> e.len() <= ERROR_PREVIEW_CAP + 66,
{
    match outcome {
        Ok(answer) => {
            crate::text::a_cut_text_is_bounded(answer, ANSWER_PREVIEW_CAP as nat);
        },
        Err(e) => {
            crate::text::a_cut_text_is_bounded(e, ERROR_PREVIEW_CAP as nat);
        },
    }
}

/// A run that may not use the memory leaves it as it was, and so does one without an answer.
pub proof fn denied_memory_is_left_alone(
    m: MemoryView,
    allow_memory: bool,
    prompt: Seq<char>,
    outcome: Result<Seq<char>, Seq<char>>,
)
    requires
        !allow_memory || outcome is Err,
    ensures
        concluded(m, allow_memory, prompt, outcome) == m,
{
}

/// What a request for a run is answered: how the run itself stands, where it is there, and that it
/// is unknown where it is not. A stream is of the run and from the number that were asked for.
pub proof fn requests_for_a_run_are_answered(s: StoreView, id: Seq<char>, after: i64, now: u64)
    requires
        s.wf(),
    ensures
        s.runs.contains_key(id) ==> {
            &&& handled(s, RouteView::GetRun(id), now).1 == AnswerView::Reply(
                ReplyView { code: 200, body: BodyView::Run(s.runs[id].snapshot) },
            )
            &&& s.runs[id].snapshot.run_id == id
            &&& handled(s, RouteView::Events(id, after), now).1 == AnswerView::Stream { run_id: id, after }
            &&& handled(s, RouteView::CancelRun(id), now).1 == AnswerView::Reply(
                ReplyView {
                    code: 200,
                    body: BodyView::Run(handled(s, RouteView::CancelRun(id), now).0.runs[id].snapshot),
                },
            )
            &&& handled(s, RouteView::CancelRun(id), now).0.runs[id].cancel
        },
        !s.runs.contains_key(id) ==> {
            let unknown = AnswerView::Reply(ReplyView { code: 404, body: BodyView::Error("unknown run"@) });
            &&& handled(s, RouteView::GetRun(id), now) == (s, unknown)
            &&& handled(s, RouteView::Events(id, after), now) == (s, unknown)
            &&& handled(s, RouteView::CancelRun(id), now) == (s, unknown)
        },
{
    if s.runs.contains_key(id) {
        assert(s.run_wf(id));
    }
}

/// What a body is answered: it is refused by its size, then because it cannot be read, then because
/// of what is wrong with it, and a refused body changes no run.
pub proof fn bodies_are_answered_in_order(
    s: StoreView,
    announced: Option<u64>,
    bytes: u64,
    request: Result<RequestView, Seq<char>>,
    cfg: ConfigView,
    unix: u64,
    nanos: u32,
)
    ensures
        ({
            let body = RunBodyView::Read { bytes, request };
            let (after, reply) = created(s, announced, body, cfg, unix, nanos);
            let unread = created(s, announced, RunBodyView::Unreadable, cfg, unix, nanos);
            let too_large = announced is Some && announced->0 > 33_554_432;
            &&& too_large ==> after == s && reply == (ReplyView {
                code: 413,
                body: BodyView::Error("body too large"@),
            })
            &&& !too_large ==> unread == (
                s,
                ReplyView { code: 400, body: BodyView::Error("unreadable or oversized body"@) },
            )
            &&& !too_large && bytes > 33_554_432 ==> after == s && reply == (ReplyView {
                code: 400,
                body: BodyView::Error("unreadable or oversized body"@),
            })
            &&& !too_large && bytes <= 33_554_432 && request is Err ==> after == s && reply == (ReplyView {
                code: 400,
                body: BodyView::Error("bad request: "@ + request->Err_0),
            })
            &&& reply.code != 202 ==> after.runs == s.runs && after.queue == s.queue && after.pending == s.pending
        }),
{
}

/// A run that may use the memory and has an answer is logged with its prompt and its answer, each in
/// full where it is short, behind all sessions before it; the facts stay as they are.
pub proof fn an_answer_is_logged(m: MemoryView, prompt: Seq<char>, answer: Seq<char>)
    requires
        prompt.len() <= 500,
        answer.len() <= 1000,
    ensures
        ({
            let after = concluded(m, true, prompt, Ok(answer));
            &&& after.facts == m.facts
            &&& after.sessions.len() > 0
            &&& after.sessions.last().query == prompt
            &&& after.sessions.last().answer == answer
            &&& m.sessions.len() < 50 ==> after.sessions.drop_last() == m.sessions
        }),
{
    crate::memory::log_is_bounded(m.sessions, prompt, answer);
    crate::text_laws::cutting_keeps_the_front(prompt, 500);
    crate::text_laws::cutting_keeps_the_front(answer, 1000);
    let after = concluded(m, true, prompt, Ok(answer));
    if m.sessions.len() < 50 {
        assert(after.sessions.drop_last() =~= m.sessions);
    }
}

/// Every end of a run is kept on file where there is one, as it is.
pub proof fn ends_are_kept_as_they_are(cfg: RlmConfig, snapshot: Snapshot, r: Option<Snapshot>, ready: Reply, up: bool)
    requires
        call_ensures(persist_snapshot, (&cfg, &snapshot), r),
        call_ensures(ready_reply, (up,), ready),
    ensures
        r is Some <==> cfg.daemon_runs_path@.len() > 0,
        r matches Some(s) ==> s.run_id@ == snapshot.run_id@ && s.status == snapshot.status && s.created_unix
            == snapshot.created_unix && s.finished_unix == snapshot.finished_unix && s.iterations
            == snapshot.iterations && opt_view(s.answer) == opt_view(snapshot.answer) && opt_view(s.error)
            == opt_view(snapshot.error),
        ready.code == (if up {
            200u16
        } else {
            503
        }),
        ready.body == ReplyBody::Ready(up),
{
    if let Some(s) = r {
        assert(opt_snapshot(r) == Some(s@));
        assert(s@ == snapshot@);
    }
    assert(ready@.body == ready.body@);
}

/// What asks for no run is answered at once, and changes nothing: that the control plane is up, that
/// the model server is to be asked, that the caller may not ask, or that there is no such thing.
pub proof fn what_asks_for_no_run_is_answered(s: StoreView, now: u64)
    ensures
        handled(s, RouteView::Health, now) == (
            s,
            AnswerView::Reply(ReplyView { code: 200, body: BodyView::Health }),
        ),
        handled(s, RouteView::Ready, now) == (s, AnswerView::Probe),
        handled(s, RouteView::CreateRun, now) == (s, AnswerView::ReadBody),
        handled(s, RouteView::Unauthorized, now).0 == s,
        handled(s, RouteView::Unauthorized, now).1 matches AnswerView::Reply(reply) && reply.code == 401,
        handled(s, RouteView::NotFound, now).0 == s,
        handled(s, RouteView::NotFound, now).1 matches AnswerView::Reply(reply) && reply.code == 404,
{
}

} // verus!
