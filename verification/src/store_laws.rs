//! What holds of the store of runs, whatever is asked of it and in whatever order.
use vstd::prelude::*;

use crate::admission::{request_refusal, RefusalView, RequestView};
use crate::config::ConfigView;
use crate::engine::RunEventView;
use crate::runs::{RunEntry, RunStatus, Snapshot, SnapshotView, MAX_EVENTS_PER_RUN};
use crate::store::{
    cancel_result, create_result, finish_result, iteration_result, new_name_is_fresh, next_result, steps_keep_wf,
    NextView, Store, StoreView, MAX_PENDING_RUNS,
};

verus! {

/// Something that is asked of the store.
pub enum StoreMove {
    Create { req: RequestView, cfg: ConfigView, unix: u64, nanos: u32 },
    Cancel { id: Seq<char>, now: u64 },
    Next { now: u64 },
    Iteration { event: RunEventView, now: u64 },
    Finish { outcome: Result<Seq<char>, Seq<char>>, now: u64 },
}

/// The store behind a move.
pub open spec fn moved(s: StoreView, m: StoreMove) -> StoreView {
    match m {
        StoreMove::Create { req, cfg, unix, nanos } => create_result(s, req, cfg, unix, nanos).0,
        StoreMove::Cancel { id, now } => cancel_result(s, id, now).0,
        StoreMove::Next { now } => next_result(s, now).0,
        StoreMove::Iteration { event, now } => iteration_result(s, event, now),
        StoreMove::Finish { outcome, now } => finish_result(s, outcome, now).0,
    }
}

/// The store behind a list of moves.
pub open spec fn moved_all(s: StoreView, moves: Seq<StoreMove>) -> StoreView
    decreases moves.len(),
{
    if moves.len() == 0 {
        s
    } else {
        moved(moved_all(s, moves.drop_last()), moves.last())
    }
}

/// The name of the run that a move admits.
pub open spec fn admits(s: StoreView, m: StoreMove) -> Seq<Seq<char>> {
    match m {
        StoreMove::Create { req, cfg, unix, nanos } => match create_result(s, req, cfg, unix, nanos).1 {
            Ok(snapshot) => seq![snapshot.run_id],
            Err(_) => seq![],
        },
        _ => seq![],
    }
}

/// The name of the run that a move takes from the queue, to begin it or to skip it.
pub open spec fn takes(s: StoreView, m: StoreMove) -> Seq<Seq<char>> {
    match m {
        StoreMove::Next { now } => match next_result(s, now).1 {
            NextView::Idle => seq![],
            NextView::Skipped { snapshot, run } => seq![snapshot.run_id],
            NextView::Started { run_id, run } => seq![run_id],
        },
        _ => seq![],
    }
}

/// The names of the runs that moves admit, in order.
pub open spec fn all_admitted(s: StoreView, moves: Seq<StoreMove>) -> Seq<Seq<char>>
    decreases moves.len(),
{
    if moves.len() == 0 {
        seq![]
    } else {
        all_admitted(s, moves.drop_last()) + admits(moved_all(s, moves.drop_last()), moves.last())
    }
}

/// The names of the runs that moves take from the queue, in order.
pub open spec fn all_taken(s: StoreView, moves: Seq<StoreMove>) -> Seq<Seq<char>>
    decreases moves.len(),
{
    if moves.len() == 0 {
        seq![]
    } else {
        all_taken(s, moves.drop_last()) + takes(moved_all(s, moves.drop_last()), moves.last())
    }
}

/// A move gives out at most one number.
proof fn one_number_a_move(s: StoreView, m: StoreMove)
    requires
        s.next_id < u64::MAX,
    ensures
        s.next_id <= moved(s, m).next_id <= s.next_id + 1,
{
}

/// Whatever is asked of the store, its invariant is kept.
pub proof fn invariant_is_kept(s: StoreView, moves: Seq<StoreMove>)
    requires
        s.wf(),
        s.next_id + moves.len() <= u64::MAX,
    ensures
        moved_all(s, moves).wf(),
        moved_all(s, moves).next_id <= s.next_id + moves.len(),
    decreases moves.len(),
{
    if moves.len() > 0 {
        let before = moved_all(s, moves.drop_last());
        invariant_is_kept(s, moves.drop_last());
        one_number_a_move(before, moves.last());
        steps_keep_wf(before);
        match moves.last() {
            StoreMove::Create { req, cfg, unix, nanos } => {
                assert(create_result(before, req, cfg, unix, nanos).0.wf());
            },
            StoreMove::Cancel { id, now } => {
                assert(cancel_result(before, id, now).0.wf());
            },
            StoreMove::Next { now } => {
                assert(next_result(before, now).0.wf());
            },
            StoreMove::Iteration { event, now } => {
                assert(iteration_result(before, event, now).wf());
            },
            StoreMove::Finish { outcome, now } => {
                assert(finish_result(before, outcome, now).0.wf());
            },
        }
    }
}

/// One run is under way at a time.
pub proof fn one_run_at_a_time(s: StoreView, a: Seq<char>, b: Seq<char>)
    requires
        s.wf(),
        s.runs.contains_key(a),
        s.runs.contains_key(b),
        s.status(a) == RunStatus::Running,
        s.status(b) == RunStatus::Running,
    ensures
        a == b,
{
    assert(s.run_wf(a));
    assert(s.run_wf(b));
}

/// While a run is under way no other begins.
pub proof fn the_permit_is_held(s: StoreView, now: u64)
    requires
        s.running is Some,
    ensures
        next_result(s, now) == (s, NextView::Idle),
{
}

proof fn a_move_keeps_runs(s: StoreView, m: StoreMove, id: Seq<char>)
    requires
        s.wf(),
        s.runs.contains_key(id),
    ensures
        moved(s, m).runs.contains_key(id),
        s.status(id).is_terminal() ==> moved(s, m).runs[id].snapshot == s.runs[id].snapshot,
        s.status(id).is_terminal() ==> moved(s, m).runs[id].events == s.runs[id].events,
        moved(s, m).runs[id].events.len() >= s.runs[id].events.len(),
        moved(s, m).runs[id].events.take(s.runs[id].events.len() as int) == s.runs[id].events,
        s.runs[id].cancel ==> moved(s, m).runs[id].cancel,
{
    assert(s.run_wf(id));
    match m {
        StoreMove::Create { req, cfg, unix, nanos } => {
            new_name_is_fresh(s, unix as nat, nanos as nat);
        },
        StoreMove::Next { now } => {
            if s.queue.len() > 0 {
                assert(s.waits(s.queue[0]));
            }
        },
        _ => {},
    }
    assert(moved(s, m).runs[id].events.take(s.runs[id].events.len() as int) =~= s.runs[id].events);
}

/// No run is forgotten, and a run that has ended stays as it ended: whatever is asked of the
/// store afterwards, the run is there, and how it stands and its events are the same.
pub proof fn an_end_is_final(s: StoreView, moves: Seq<StoreMove>, id: Seq<char>)
    requires
        s.wf(),
        s.next_id + moves.len() <= u64::MAX,
        s.runs.contains_key(id),
    ensures
        moved_all(s, moves).runs.contains_key(id),
        s.status(id).is_terminal() ==> moved_all(s, moves).runs[id].snapshot == s.runs[id].snapshot,
        s.status(id).is_terminal() ==> moved_all(s, moves).runs[id].events == s.runs[id].events,
    decreases moves.len(),
{
    if moves.len() > 0 {
        an_end_is_final(s, moves.drop_last(), id);
        invariant_is_kept(s, moves.drop_last());
        a_move_keeps_runs(moved_all(s, moves.drop_last()), moves.last(), id);
    }
}

/// The events of a run only grow, and never beyond what they may be.
pub proof fn events_are_kept(s: StoreView, moves: Seq<StoreMove>, id: Seq<char>)
    requires
        s.wf(),
        s.next_id + moves.len() <= u64::MAX,
        s.runs.contains_key(id),
    ensures
        moved_all(s, moves).runs.contains_key(id),
        s.runs[id].events.len() <= moved_all(s, moves).runs[id].events.len() <= MAX_EVENTS_PER_RUN,
        moved_all(s, moves).runs[id].events.take(s.runs[id].events.len() as int) == s.runs[id].events,
    decreases moves.len(),
{
    let was = s.runs[id].events;
    invariant_is_kept(s, moves);
    if moves.len() > 0 {
        let before = moved_all(s, moves.drop_last());
        events_are_kept(s, moves.drop_last(), id);
        invariant_is_kept(s, moves.drop_last());
        a_move_keeps_runs(before, moves.last(), id);
        let middle = before.runs[id].events;
        let after = moved_all(s, moves).runs[id].events;
        assert(after.take(was.len() as int) =~= after.take(middle.len() as int).take(was.len() as int));
    } else {
        assert(was.take(was.len() as int) =~= was);
    }
    assert(moved_all(s, moves).run_wf(id));
}

/// A run begins only if its end was not asked for while it waited, and what begins is what has
/// waited longest, with what it was granted.
pub proof fn a_cancelled_run_never_begins(s: StoreView, now: u64)
    requires
        s.wf(),
        next_result(s, now).1 is Started,
    ensures
        s.queue.len() > 0,
        next_result(s, now).1 == (NextView::Started { run_id: s.queue[0], run: s.pending[s.queue[0]] }),
        !s.runs[s.queue[0]].cancel,
        s.status(s.queue[0]) == RunStatus::Queued,
        next_result(s, now).0.status(s.queue[0]) == RunStatus::Running,
{
    assert(s.waits(s.queue[0]));
    assert(s.run_wf(s.queue[0]));
}

/// A run whose end is asked for while it is under way goes on: only the run itself ends it, at
/// its next safe boundary.
pub proof fn a_running_run_is_not_interrupted(s: StoreView, id: Seq<char>, now: u64)
    requires
        s.wf(),
        s.running == Some(id),
    ensures
        cancel_result(s, id, now).0.running == Some(id),
        cancel_result(s, id, now).0.runs[id].cancel,
        cancel_result(s, id, now).0.runs[id].snapshot == s.runs[id].snapshot,
        cancel_result(s, id, now).0.status(id) == RunStatus::Running,
{
    assert(s.run_wf(id));
}

/// A request that is refused leaves all runs as they were; over-admission is refused for a full
/// queue, and for nothing else.
pub proof fn a_refusal_changes_no_run(
    s: StoreView,
    req: RequestView,
    cfg: ConfigView,
    unix: u64,
    nanos: u32,
)
    ensures
        create_result(s, req, cfg, unix, nanos).1 is Err ==> {
            let t = create_result(s, req, cfg, unix, nanos).0;
            t.runs == s.runs && t.pending == s.pending && t.queue == s.queue && t.running == s.running
        },
        request_refusal(req, cfg) is None ==> (create_result(s, req, cfg, unix, nanos).1 is Err
            <==> s.queue.len() >= MAX_PENDING_RUNS),
        create_result(s, req, cfg, unix, nanos).1 == Err::<crate::runs::SnapshotView, RefusalView>(
            RefusalView::QueueFull,
        ) <==> request_refusal(req, cfg) is None && s.queue.len() >= MAX_PENDING_RUNS,
{
}

/// Runs are served in the order in which they came, none twice and none left out: those that
/// were taken from the queue, followed by those that still wait, are those that waited at first,
/// followed by those that were admitted.
pub proof fn runs_are_served_in_order(s: StoreView, moves: Seq<StoreMove>)
    requires
        s.wf(),
        s.next_id + moves.len() <= u64::MAX,
    ensures
        all_taken(s, moves) + moved_all(s, moves).queue == s.queue + all_admitted(s, moves),
    decreases moves.len(),
{
    if moves.len() == 0 {
        assert(all_taken(s, moves) + s.queue =~= s.queue + all_admitted(s, moves));
    } else {
        let fore = moves.drop_last();
        let before = moved_all(s, fore);
        let m = moves.last();
        runs_are_served_in_order(s, fore);
        invariant_is_kept(s, fore);
        if let StoreMove::Next { now } = m {
            if before.queue.len() > 0 {
                assert(before.waits(before.queue[0]));
                assert(before.run_wf(before.queue[0]));
            }
        }
        assert(takes(before, m) + moved(before, m).queue =~= before.queue + admits(before, m));
        assert(all_taken(s, moves) + moved_all(s, moves).queue =~= all_taken(s, fore) + (takes(
            before,
            m,
        ) + moved(before, m).queue));
        assert(all_taken(s, fore) + (before.queue + admits(before, m)) =~= (all_taken(s, fore)
            + before.queue) + admits(before, m));
        assert((s.queue + all_admitted(s, fore)) + admits(before, m) =~= s.queue + all_admitted(
            s,
            moves,
        ));
    }
}

/// Whatever is asked of the store touches at most one run: all others stay as they are.
pub proof fn other_runs_are_left_alone(s: StoreView, m: StoreMove, id: Seq<char>)
    requires
        s.wf(),
        s.runs.contains_key(id),
        match m {
            StoreMove::Create { req, cfg, unix, nanos } => true,
            StoreMove::Cancel { id: other, now } => other != id,
            StoreMove::Next { now } => s.queue.len() == 0 || s.queue[0] != id,
            StoreMove::Iteration { event, now } => s.running != Some(id),
            StoreMove::Finish { outcome, now } => s.running != Some(id),
        },
    ensures
        moved(s, m).runs.contains_key(id),
        moved(s, m).runs[id] == s.runs[id],
{
    if let StoreMove::Create { req, cfg, unix, nanos } = m {
        new_name_is_fresh(s, unix as nat, nanos as nat);
    }
}

/// A run that is admitted waits behind all others, under a new name, with what its request was
/// granted.
pub proof fn an_admitted_run_waits(s: StoreView, req: RequestView, cfg: ConfigView, unix: u64, nanos: u32)
    requires
        s.wf(),
        s.next_id < u64::MAX,
        create_result(s, req, cfg, unix, nanos).1 is Ok,
    ensures
        ({
            let (after, result) = create_result(s, req, cfg, unix, nanos);
            let id = result->Ok_0.run_id;
            &&& !s.runs.contains_key(id)
            &&& after.runs.contains_key(id)
            &&& after.runs[id].snapshot == result->Ok_0
            &&& after.status(id) == RunStatus::Queued
            &&& after.runs[id].snapshot.created_unix == unix
            &&& after.pending.contains_key(id)
            &&& after.pending[id].prompt == req.prompt
            &&& after.pending[id].contexts.len() == req.contexts.len()
            &&& forall|i: int|
                0 <= i < req.contexts.len() ==> (#[trigger] after.pending[id].contexts[i]).1 == req.contexts[i].1
            &&& after.pending[id].allow_memory == (req.memory && cfg.daemon_allow_memory)
            &&& after.queue.drop_last() == s.queue
            &&& after.queue.last() == id
            &&& after.running == s.running
            &&& after.next_id == s.next_id + 1
        }),
{
    new_name_is_fresh(s, unix as nat, nanos as nat);
    let (after, result) = create_result(s, req, cfg, unix, nanos);
    assert(after.queue.drop_last() =~= s.queue);
}

/// A free permit is used: where no run is under way and one waits, the one that has waited longest
/// is taken. It begins if its end was not asked for, with the prompt and the contexts it came with.
pub proof fn a_waiting_run_is_taken(s: StoreView, now: u64)
    requires
        s.wf(),
        s.running is None,
        s.queue.len() > 0,
    ensures
        ({
            let id = s.queue[0];
            let (after, next) = next_result(s, now);
            &&& after.queue == s.queue.skip(1)
            &&& !after.pending.contains_key(id)
            &&& forall|other: Seq<char>|
                other != id && s.pending.contains_key(other) ==> #[trigger] after.pending.contains_key(other)
                    && after.pending[other] == s.pending[other]
            &&& !s.runs[id].cancel ==> {
                &&& next == (NextView::Started { run_id: id, run: s.pending[id] })
                &&& after.running == Some(id)
                &&& after.status(id) == RunStatus::Running
            }
            &&& s.runs[id].cancel ==> {
                &&& next == (NextView::Skipped { snapshot: s.runs[id].snapshot, run: s.pending[id] })
                &&& after.running is None
                &&& after.runs[id] == s.runs[id]
            }
        }),
{
    assert(s.waits(s.queue[0]));
    assert(s.run_wf(s.queue[0]));
}

/// The outcome of a run is the end of the run that is under way, and gives the permit back; without
/// one under way nothing ends. What is given back is how the run stands then.
pub proof fn an_outcome_ends_the_run_under_way(s: StoreView, outcome: Result<Seq<char>, Seq<char>>, now: u64)
    requires
        s.wf(),
    ensures
        s.running is None ==> finish_result(s, outcome, now) == (s, None::<crate::runs::SnapshotView>),
        s.running matches Some(id) ==> {
            let (after, end) = finish_result(s, outcome, now);
            &&& after.running is None
            &&& end == Some(after.runs[id].snapshot)
            &&& after.status(id).is_terminal()
            &&& after.status(id) == RunStatus::Done <==> outcome is Ok
            &&& outcome is Ok && outcome->Ok_0.len() <= 8000 ==> after.runs[id].snapshot.answer == Some(
                outcome->Ok_0,
            )
            &&& after.runs[id].snapshot.finished_unix == Some(now)
            &&& after.queue == s.queue && after.pending == s.pending
        },
{
    if let Some(id) = s.running {
        assert(s.run_wf(id));
        crate::runs::a_run_ends_as_its_outcome_says(s.runs[id], outcome, now);
    }
}

/// A turn counts for the run that is under way.
pub proof fn a_turn_counts_for_the_run_under_way(s: StoreView, n: u32, of: u32, repl_preview: Seq<char>, now: u64)
    requires
        s.wf(),
    ensures
        s.running is None ==> iteration_result(s, RunEventView::Iteration { n, of, repl_preview }, now) == s,
        s.running matches Some(id) ==> {
            let after = iteration_result(s, RunEventView::Iteration { n, of, repl_preview }, now);
            &&& after.runs[id].snapshot.iterations == n
            &&& after.status(id) == RunStatus::Running
            &&& after.running == s.running && after.queue == s.queue && after.pending == s.pending
        },
{
    if let Some(id) = s.running {
        assert(s.run_wf(id));
    }
}

/// Asking for the end of a run that is not there changes nothing and is answered by nothing; of one
/// that is there, how it stands then is given back, and its end was asked for.
pub proof fn a_cancellation_is_answered(s: StoreView, id: Seq<char>, now: u64)
    requires
        s.wf(),
    ensures
        !s.runs.contains_key(id) ==> cancel_result(s, id, now) == (s, None::<crate::runs::SnapshotView>),
        s.runs.contains_key(id) ==> {
            let (after, shown) = cancel_result(s, id, now);
            &&& after.runs.contains_key(id)
            &&& after.runs[id].cancel
            &&& shown == Some(after.runs[id].snapshot)
            &&& s.status(id) == RunStatus::Queued ==> after.status(id) == RunStatus::Cancelled
                && after.runs[id].snapshot.finished_unix == Some(now)
            &&& s.status(id) != RunStatus::Queued ==> after.runs[id].snapshot == s.runs[id].snapshot
            &&& after.queue == s.queue && after.pending == s.pending && after.running == s.running
        },
{
}

/// What is asked of a run by its name is what the store has under it.
pub proof fn a_run_is_shown_as_it_stands(
    store: Store,
    id: &str,
    shown: Option<Snapshot>,
    entry: Option<&RunEntry>,
    asked: bool,
)
    requires
        store.wf(),
        call_ensures(Store::get_run, (&store, id), shown),
        call_ensures(Store::entry, (&store, id), entry),
        call_ensures(Store::cancel_requested, (&store, id), asked),
    ensures
        shown is Some <==> store@.runs.contains_key(id@),
        shown matches Some(s) ==> s@ == store@.runs[id@].snapshot,
        entry is Some <==> store@.runs.contains_key(id@),
        entry matches Some(e) ==> e@ == store@.runs[id@],
        asked <==> store@.runs.contains_key(id@) && store@.runs[id@].cancel,
{
}

/// A sound request that finds the queue full uses up a number all the same, so that no name is ever
/// given out twice; one that is unsound uses up none.
pub proof fn numbers_are_used_up(s: StoreView, req: RequestView, cfg: ConfigView, unix: u64, nanos: u32)
    requires
        s.next_id < u64::MAX,
    ensures
        ({
            let (next, r) = create_result(s, req, cfg, unix, nanos);
            &&& request_refusal(req, cfg) is Some ==> next == s && r == Err::<SnapshotView, RefusalView>(
                request_refusal(req, cfg)->0,
            )
            &&& request_refusal(req, cfg) is None ==> next.next_id == s.next_id + 1
            &&& request_refusal(req, cfg) is None && s.queue.len() >= 8 ==> r == Err::<SnapshotView, RefusalView>(
                RefusalView::QueueFull,
            ) && next.runs == s.runs && next.queue == s.queue && next.pending == s.pending
            &&& request_refusal(req, cfg) is None && s.queue.len() < 8 ==> r is Ok
        }),
{
}

} // verus!
