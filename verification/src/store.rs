//! All runs of the control plane: those that wait, the one that is under way and those that have
//! ended.
use vstd::prelude::*;

use crate::admission::{
    check_request, grant, granted, request_refusal, PendingRun, PendingView, Refusal, RefusalView,
    RequestView, RunRequest,
};
use crate::config::{ConfigView, RlmConfig};
use crate::engine::{RunEvent, RunEventView};
use crate::runs::{
    cancelled_entry, ended_entry, id_text, iterated_entry, new_run_id, queued_entry, run_ids_are_distinct,
    running_entry, EntryView, RunEntry, RunStatus, Snapshot, SnapshotView,
};
use crate::text::{opt_view, views};
use crate::textmap::TextMap;

verus! {

/// Most runs that wait for their turn.
pub const MAX_PENDING_RUNS: usize = 8;

/// The runs. There is one permit: one run is under way at a time, the others wait in the order in
/// which they came.
pub struct Store {
    runs: TextMap<RunEntry>,
    pending: TextMap<PendingRun>,
    queue: Vec<String>,
    running: Option<String>,
    next_id: u64,
}

/// What a store holds.
pub struct StoreView {
    pub runs: Map<Seq<char>, EntryView>,
    pub pending: Map<Seq<char>, PendingView>,
    pub queue: Seq<Seq<char>>,
    pub running: Option<Seq<char>>,
    pub next_id: u64,
}

impl View for Store {
    type V = StoreView;

    closed spec fn view(&self) -> StoreView {
        StoreView {
            runs: self.runs@.map_values(|e: RunEntry| e@),
            pending: self.pending@.map_values(|p: PendingRun| p@),
            queue: views(self.queue@),
            running: opt_view(self.running),
            next_id: self.next_id,
        }
    }
}

/// A name that was given out before the number `next`.
pub open spec fn given_out(id: Seq<char>, next: nat) -> bool {
    exists|unix: nat, nanos: nat, n: nat| n < next && id == #[trigger] id_text(unix, nanos, n)
}

impl StoreView {
    pub open spec fn status(self, id: Seq<char>) -> RunStatus {
        self.runs[id].snapshot.status
    }

    /// A run that waits is there, with what it was granted, and has not begun.
    pub open spec fn waits(self, id: Seq<char>) -> bool {
        &&& self.runs.contains_key(id)
        &&& self.pending.contains_key(id)
        &&& self.status(id) == RunStatus::Queued || self.status(id) == RunStatus::Cancelled
        &&& self.status(id) == RunStatus::Cancelled <==> self.runs[id].cancel
    }

    pub open spec fn queue_wf(self) -> bool {
        &&& self.queue.len() <= MAX_PENDING_RUNS
        &&& self.queue.no_duplicates()
        &&& forall|i: int| 0 <= i < self.queue.len() ==> self.waits(#[trigger] self.queue[i])
        &&& forall|id: Seq<char>| #[trigger] self.pending.contains_key(id) ==> self.queue.contains(id)
    }

    pub open spec fn run_wf(self, id: Seq<char>) -> bool {
        &&& self.runs[id].wf()
        &&& self.runs[id].snapshot.run_id == id
        &&& given_out(id, self.next_id as nat)
        &&& self.status(id) == RunStatus::Running <==> self.running == Some(id)
        &&& self.status(id) == RunStatus::Queued ==> self.queue.contains(id)
    }

    /// The queue is bounded and holds no run twice, every run that waits is in it, the one run
    /// that is under way is the one that holds the permit, and every name was given out once.
    pub open spec fn wf(self) -> bool {
        &&& self.queue_wf()
        &&& forall|id: Seq<char>| #[trigger] self.runs.contains_key(id) ==> self.run_wf(id)
        &&& self.running matches Some(id) ==> self.runs.contains_key(id)
    }
}

// -------------------------------------------------------------- transitions

/// The store behind the admission of a run.
pub open spec fn admitted(s: StoreView, id: Seq<char>, run: PendingView, now: u64) -> StoreView {
    StoreView {
        runs: s.runs.insert(id, queued_entry(id, run.allow_memory, now)),
        pending: s.pending.insert(id, run),
        queue: s.queue.push(id),
        next_id: (s.next_id + 1) as u64,
        ..s
    }
}

/// The store with a run in another state.
pub open spec fn with_run(s: StoreView, id: Seq<char>, e: EntryView) -> StoreView {
    StoreView { runs: s.runs.insert(id, e), ..s }
}

/// What a request for a run comes to: the store behind it, and the run or the refusal.
pub open spec fn create_result(
    s: StoreView,
    req: RequestView,
    cfg: ConfigView,
    unix: u64,
    nanos: u32,
) -> (StoreView, Result<SnapshotView, RefusalView>) {
    let id = id_text(unix as nat, nanos as nat, s.next_id as nat);
    match request_refusal(req, cfg) {
        Some(refusal) => (s, Err(refusal)),
        None => if s.queue.len() >= MAX_PENDING_RUNS {
            (StoreView { next_id: (s.next_id + 1) as u64, ..s }, Err(RefusalView::QueueFull))
        } else {
            (
                admitted(s, id, granted(req, cfg), unix),
                Ok(queued_entry(id, granted(req, cfg).allow_memory, unix).snapshot),
            )
        },
    }
}

/// What asking for the end of a run comes to.
pub open spec fn cancel_result(s: StoreView, id: Seq<char>, now: u64) -> (StoreView, Option<SnapshotView>) {
    if s.runs.contains_key(id) {
        let e = cancelled_entry(s.runs[id], now);
        (with_run(s, id, e), Some(e.snapshot))
    } else {
        (s, None)
    }
}

/// What the executor is given.
pub enum NextRun {
    /// Nothing: a run is under way, or none waits.
    Idle,
    /// A run that ended while it waited.
    Skipped { snapshot: Snapshot, run: PendingRun },
    /// A run that begins.
    Started { run_id: String, run: PendingRun },
}

pub enum NextView {
    Idle,
    Skipped { snapshot: SnapshotView, run: PendingView },
    Started { run_id: Seq<char>, run: PendingView },
}

impl View for NextRun {
    type V = NextView;

    open spec fn view(&self) -> NextView {
        match self {
            NextRun::Idle => NextView::Idle,
            NextRun::Skipped { snapshot, run } => NextView::Skipped { snapshot: snapshot@, run: run@ },
            NextRun::Started { run_id, run } => NextView::Started { run_id: run_id@, run: run@ },
        }
    }
}

/// The store without the run that has waited longest.
pub open spec fn dequeued(s: StoreView) -> StoreView {
    StoreView { queue: s.queue.skip(1), pending: s.pending.remove(s.queue[0]), ..s }
}

/// What asking for the next run comes to.
pub open spec fn next_result(s: StoreView, now: u64) -> (StoreView, NextView) {
    if s.running is Some || s.queue.len() == 0 {
        (s, NextView::Idle)
    } else {
        let id = s.queue[0];
        let rest = dequeued(s);
        if s.runs[id].cancel {
            (rest, NextView::Skipped { snapshot: s.runs[id].snapshot, run: s.pending[id] })
        } else {
            (
                StoreView { running: Some(id), ..with_run(rest, id, running_entry(s.runs[id], now)) },
                NextView::Started { run_id: id, run: s.pending[id] },
            )
        }
    }
}

/// What a script turn of the run that is under way comes to.
pub open spec fn iteration_result(s: StoreView, event: RunEventView, now: u64) -> StoreView {
    match s.running {
        Some(id) => with_run(s, id, iterated_entry(s.runs[id], event, now)),
        None => s,
    }
}

/// What the end of the run that is under way comes to.
pub open spec fn finish_result(
    s: StoreView,
    outcome: Result<Seq<char>, Seq<char>>,
    now: u64,
) -> (StoreView, Option<SnapshotView>) {
    match s.running {
        Some(id) => {
            let e = ended_entry(s.runs[id], outcome, now);
            (StoreView { running: None, ..with_run(s, id, e) }, Some(e.snapshot))
        },
        None => (s, None),
    }
}

pub open spec fn opt_snapshot(s: Option<Snapshot>) -> Option<SnapshotView> {
    match s {
        Some(x) => Some(x@),
        None => None,
    }
}

pub open spec fn created_view(r: Result<Snapshot, Refusal>) -> Result<SnapshotView, RefusalView> {
    match r {
        Ok(s) => Ok(s@),
        Err(e) => Err(e@),
    }
}

// --------------------------------------------------- the invariant is kept

proof fn given_out_stays(id: Seq<char>, a: nat, b: nat)
    requires
        given_out(id, a),
        a <= b,
    ensures
        given_out(id, b),
{
    let (unix, nanos, n) = choose|unix: nat, nanos: nat, n: nat|
        n < a && id == #[trigger] id_text(unix, nanos, n);
    assert(n < b && id == id_text(unix, nanos, n));
}

/// A name with a number that was not given out yet names no run.
pub proof fn new_name_is_fresh(s: StoreView, unix: nat, nanos: nat)
    requires
        s.wf(),
    ensures
        !s.runs.contains_key(id_text(unix, nanos, s.next_id as nat)),
        !s.pending.contains_key(id_text(unix, nanos, s.next_id as nat)),
        !s.queue.contains(id_text(unix, nanos, s.next_id as nat)),
{
    let id = id_text(unix, nanos, s.next_id as nat);
    if s.runs.contains_key(id) {
        assert(s.run_wf(id));
        let (u, m, n) = choose|u: nat, m: nat, n: nat|
            n < s.next_id && id == #[trigger] id_text(u, m, n);
        run_ids_are_distinct(unix, nanos, s.next_id as nat, u, m, n);
    }
    if s.queue.contains(id) {
        let i = s.queue.index_of(id);
        assert(s.waits(s.queue[i]));
    }
}

proof fn admission_keeps_wf(s: StoreView, unix: nat, nanos: nat, run: PendingView, now: u64)
    requires
        s.wf(),
        s.next_id < u64::MAX,
        s.queue.len() < MAX_PENDING_RUNS,
    ensures
        admitted(s, id_text(unix, nanos, s.next_id as nat), run, now).wf(),
        (StoreView { next_id: (s.next_id + 1) as u64, ..s }).wf(),
{
    let id = id_text(unix, nanos, s.next_id as nat);
    let t = admitted(s, id, run, now);
    new_name_is_fresh(s, unix, nanos);
    counter_keeps_wf(s);
    assert(t.queue.last() == id);
    assert forall|i: int| 0 <= i < t.queue.len() implies t.waits(#[trigger] t.queue[i]) by {
        if i < s.queue.len() {
            assert(s.waits(s.queue[i]));
            assert(t.queue[i] == s.queue[i]);
            assert(s.queue.contains(s.queue[i]));
        }
    }
    assert(t.queue.no_duplicates());
    assert forall|k: Seq<char>| #[trigger] t.pending.contains_key(k) implies t.queue.contains(k) by {
        if k != id {
            assert(s.pending.contains_key(k));
            let i = s.queue.index_of(k);
            assert(t.queue[i] == k);
        } else {
            assert(t.queue[s.queue.len() as int] == id);
        }
    }
    assert forall|k: Seq<char>| #[trigger] t.runs.contains_key(k) implies t.run_wf(k) by {
        if k != id {
            assert(s.run_wf(k));
            given_out_stays(k, s.next_id as nat, t.next_id as nat);
            if t.status(k) == RunStatus::Queued {
                let i = s.queue.index_of(k);
                assert(t.queue[i] == k);
            }
        } else {
            assert(t.queue[s.queue.len() as int] == id);
            if t.running == Some(id) {
                assert(s.runs.contains_key(id));
            }
            assert(given_out(id, t.next_id as nat));
            assert(t.runs[id] == queued_entry(id, run.allow_memory, now));
        }
    }
}

proof fn counter_keeps_wf(s: StoreView)
    requires
        s.wf(),
        s.next_id < u64::MAX,
    ensures
        (StoreView { next_id: (s.next_id + 1) as u64, ..s }).wf(),
{
    let t = StoreView { next_id: (s.next_id + 1) as u64, ..s };
    assert forall|i: int| 0 <= i < t.queue.len() implies t.waits(#[trigger] t.queue[i]) by {
        assert(s.waits(s.queue[i]));
    }
    assert forall|k: Seq<char>| #[trigger] t.runs.contains_key(k) implies t.run_wf(k) by {
        assert(s.run_wf(k));
        given_out_stays(k, s.next_id as nat, t.next_id as nat);
    }
}

proof fn cancel_keeps_wf(s: StoreView, id: Seq<char>, now: u64)
    requires
        s.wf(),
        s.runs.contains_key(id),
    ensures
        with_run(s, id, cancelled_entry(s.runs[id], now)).wf(),
{
    let t = with_run(s, id, cancelled_entry(s.runs[id], now));
    assert(s.run_wf(id));
    assert forall|i: int| 0 <= i < t.queue.len() implies t.waits(#[trigger] t.queue[i]) by {
        assert(s.waits(s.queue[i]));
    }
    assert forall|k: Seq<char>| #[trigger] t.runs.contains_key(k) implies t.run_wf(k) by {
        assert(s.run_wf(k));
    }
}

proof fn dequeue_keeps_queue(s: StoreView)
    requires
        s.wf(),
        s.queue.len() > 0,
    ensures
        dequeued(s).queue_wf(),
        !dequeued(s).queue.contains(s.queue[0]),
        forall|k: Seq<char>| s.queue.contains(k) && k != s.queue[0] ==> #[trigger] dequeued(s).queue.contains(k),
{
    let id = s.queue[0];
    let t = dequeued(s);
    assert(forall|i: int| 0 <= i < t.queue.len() ==> t.queue[i] == s.queue[i + 1]);
    assert forall|i: int| 0 <= i < t.queue.len() implies t.waits(#[trigger] t.queue[i]) by {
        assert(s.waits(s.queue[i + 1]));
        assert(s.queue[i + 1] != s.queue[0]);
    }
    assert forall|k: Seq<char>| s.queue.contains(k) && k != id implies #[trigger] t.queue.contains(k) by {
        let i = s.queue.index_of(k);
        assert(s.queue[i] == k);
        assert(t.queue[i - 1] == k);
    }
    assert forall|k: Seq<char>| #[trigger] t.pending.contains_key(k) implies t.queue.contains(k) by {
        assert(s.pending.contains_key(k));
        assert(s.queue.contains(k) && k != id);
    }
    if t.queue.contains(id) {
        let i = t.queue.index_of(id);
        assert(s.queue[i + 1] == id);
    }
}

proof fn next_keeps_wf(s: StoreView, now: u64)
    requires
        s.wf(),
    ensures
        next_result(s, now).0.wf(),
{
    if s.running is None && s.queue.len() > 0 {
        let id = s.queue[0];
        let t = next_result(s, now).0;
        dequeue_keeps_queue(s);
        assert(s.waits(s.queue[0]));
        assert(s.run_wf(id));
        assert forall|i: int| 0 <= i < t.queue.len() implies t.waits(#[trigger] t.queue[i]) by {
            assert(dequeued(s).waits(dequeued(s).queue[i]));
            assert(dequeued(s).queue.contains(dequeued(s).queue[i]));
        }
        assert(t.queue_wf());
        assert forall|k: Seq<char>| #[trigger] t.runs.contains_key(k) implies t.run_wf(k) by {
            assert(s.runs.contains_key(k));
            assert(s.run_wf(k));
            if k != id && t.status(k) == RunStatus::Queued {
                assert(dequeued(s).queue.contains(k));
            }
        }
    }
}

proof fn running_change_keeps_wf(s: StoreView, e: EntryView)
    requires
        s.wf(),
        s.running is Some,
        e.wf(),
        e.snapshot.run_id == s.running->0,
    ensures
        e.snapshot.status == RunStatus::Running ==> with_run(s, s.running->0, e).wf(),
        e.snapshot.status.is_terminal() ==> (StoreView { running: None, ..with_run(s, s.running->0, e) }).wf(),
{
    let id = s.running->0;
    assert(s.run_wf(id));
    let t = if e.snapshot.status == RunStatus::Running {
        with_run(s, id, e)
    } else {
        StoreView { running: None, ..with_run(s, id, e) }
    };
    assert forall|i: int| 0 <= i < t.queue.len() implies t.waits(#[trigger] t.queue[i]) by {
        assert(s.waits(s.queue[i]));
        assert(s.queue[i] != id);
    }
    if e.snapshot.status == RunStatus::Running || e.snapshot.status.is_terminal() {
        assert forall|k: Seq<char>| #[trigger] t.runs.contains_key(k) implies t.run_wf(k) by {
            assert(s.runs.contains_key(k));
            assert(s.run_wf(k));
        }
    }
}

/// Each thing that can be asked of a store keeps its invariant.
pub proof fn steps_keep_wf(s: StoreView)
    requires
        s.wf(),
        s.next_id < u64::MAX,
    ensures
        forall|req: RequestView, cfg: ConfigView, unix: u64, nanos: u32|
            (#[trigger] create_result(s, req, cfg, unix, nanos)).0.wf(),
        forall|id: Seq<char>, now: u64| (#[trigger] cancel_result(s, id, now)).0.wf(),
        forall|now: u64| (#[trigger] next_result(s, now)).0.wf(),
        forall|event: RunEventView, now: u64| (#[trigger] iteration_result(s, event, now)).wf(),
        forall|outcome: Result<Seq<char>, Seq<char>>, now: u64|
            (#[trigger] finish_result(s, outcome, now)).0.wf(),
{
    assert forall|req: RequestView, cfg: ConfigView, unix: u64, nanos: u32|
        (#[trigger] create_result(s, req, cfg, unix, nanos)).0.wf() by {
        counter_keeps_wf(s);
        if s.queue.len() < MAX_PENDING_RUNS {
            admission_keeps_wf(s, unix as nat, nanos as nat, granted(req, cfg), unix);
        }
    }
    assert forall|id: Seq<char>, now: u64| (#[trigger] cancel_result(s, id, now)).0.wf() by {
        if s.runs.contains_key(id) {
            cancel_keeps_wf(s, id, now);
        }
    }
    assert forall|now: u64| (#[trigger] next_result(s, now)).0.wf() by {
        next_keeps_wf(s, now);
    }
    if s.running is Some {
        let id = s.running->0;
        assert(s.run_wf(id));
        assert forall|event: RunEventView, now: u64| (#[trigger] iteration_result(s, event, now)).wf() by {
            running_change_keeps_wf(s, iterated_entry(s.runs[id], event, now));
        }
        assert forall|outcome: Result<Seq<char>, Seq<char>>, now: u64|
            (#[trigger] finish_result(s, outcome, now)).0.wf() by {
            running_change_keeps_wf(s, ended_entry(s.runs[id], outcome, now));
        }
    }
}

// ---------------------------------------------------------------- the store

impl Store {
    /// The maps of the store are sound, and what it holds keeps the invariant.
    pub closed spec fn wf(&self) -> bool {
        self.runs.wf() && self.pending.wf() && self@.wf()
    }

    /// What a sound store holds keeps the invariant.
    pub proof fn view_is_wf(&self)
        requires
            self.wf(),
        ensures
            self@.wf(),
    {
    }

    /// A store without any run.
    pub fn new() -> (r: Store)
        ensures
            r.wf(),
            r@ == (StoreView {
                runs: Map::empty(),
                pending: Map::empty(),
                queue: seq![],
                running: None,
                next_id: 1,
            }),
    {
        let r = Store {
            runs: TextMap::new(),
            pending: TextMap::new(),
            queue: Vec::new(),
            running: None,
            next_id: 1,
        };
        assert(r@.runs =~= Map::empty());
        assert(r@.pending =~= Map::empty());
        assert(r@.queue =~= seq![]);
        r
    }

    /// Whether there is a number left for another run.
    pub fn has_number(&self) -> (r: bool)
        ensures
            r == (self@.next_id < u64::MAX),
    {
        self.next_id < u64::MAX
    }

    /// Admits a run, or says why not.
    pub fn create_run(&mut self, req: RunRequest, cfg: &RlmConfig, unix: u64, nanos: u32) -> (r: Result<
        Snapshot,
        Refusal,
    >)
        requires
            old(self).wf(),
            old(self)@.next_id < u64::MAX,
        ensures
            final(self).wf(),
            (final(self)@, created_view(r)) == create_result(old(self)@, req@, cfg@, unix, nanos),
    {
        if let Some(refusal) = check_request(&req, cfg) {
            return Err(refusal);
        }
        let ghost was = self@;
        let id = new_run_id(unix, nanos, self.next_id);
        self.next_id = self.next_id + 1;
        if self.queue.len() >= MAX_PENDING_RUNS {
            proof {
                counter_keeps_wf(was);
            }
            return Err(Refusal::QueueFull);
        }
        let ghost want = granted(req@, cfg@);
        let run = grant(req, cfg);
        let entry = RunEntry::queued(id.as_str(), run.allow_memory, unix);
        let snapshot = entry.snapshot.clone();
        self.pending.insert(id.as_str(), run);
        self.runs.insert(id.as_str(), entry);
        self.queue.push(id);
        proof {
            let iv = id_text(unix as nat, nanos as nat, was.next_id as nat);
            let t = admitted(was, iv, want, unix);
            assert(self@.runs =~= t.runs);
            assert(self@.pending =~= t.pending);
            assert(self@.queue =~= t.queue);
            assert(self@ == t);
            admission_keeps_wf(was, unix as nat, nanos as nat, want, unix);
        }
        Ok(snapshot)
    }

    /// How a run stands.
    pub fn get_run(&self, id: &str) -> (r: Option<Snapshot>)
        requires
            self.wf(),
        ensures
            opt_snapshot(r) == (if self@.runs.contains_key(id@) {
                Some(self@.runs[id@].snapshot)
            } else {
                None
            }),
    {
        match self.runs.get(id) {
            Some(e) => Some(e.snapshot.clone()),
            None => None,
        }
    }

    /// The entry of a run.
    pub fn entry(&self, id: &str) -> (r: Option<&RunEntry>)
        requires
            self.wf(),
        ensures
            match r {
                Some(e) => self@.runs.contains_key(id@) && e@ == self@.runs[id@] && e@.wf(),
                None => !self@.runs.contains_key(id@),
            },
    {
        proof {
            if self@.runs.contains_key(id@) {
                assert(self@.run_wf(id@));
            }
        }
        self.runs.get(id)
    }

    /// Whether the end of a run was asked for.
    pub fn cancel_requested(&self, id: &str) -> (r: bool)
        requires
            self.wf(),
        ensures
            r == (self@.runs.contains_key(id@) && self@.runs[id@].cancel),
    {
        match self.runs.get(id) {
            Some(e) => e.cancel,
            None => false,
        }
    }

    /// Asks for the end of a run.
    pub fn cancel_run(&mut self, id: &str, now: u64) -> (r: Option<Snapshot>)
        requires
            old(self).wf(),
        ensures
            final(self).wf(),
            (final(self)@, opt_snapshot(r)) == cancel_result(old(self)@, id@, now),
    {
        let ghost was = self@;
        match self.runs.remove(id) {
            None => {
                assert(self@.runs =~= was.runs);
                None
            },
            Some(mut entry) => {
                proof {
                    assert(was.runs.contains_key(id@));
                    assert(was.run_wf(id@));
                    cancel_keeps_wf(was, id@, now);
                }
                entry.request_cancel(now);
                let snapshot = entry.snapshot.clone();
                self.runs.insert(id, entry);
                assert(self@.runs =~= with_run(was, id@, cancelled_entry(was.runs[id@], now)).runs);
                Some(snapshot)
            },
        }
    }

    /// Gives out the run that has waited longest, if no other is under way.
    pub fn next_run(&mut self, now: u64) -> (r: NextRun)
        requires
            old(self).wf(),
        ensures
            final(self).wf(),
            (final(self)@, r@) == next_result(old(self)@, now),
    {
        if self.running.is_some() || self.queue.len() == 0 {
            return NextRun::Idle;
        }
        let ghost was = self@;
        proof {
            assert(was.waits(was.queue[0]));
            assert(was.run_wf(was.queue[0]));
            next_keeps_wf(was, now);
            assert(was.queue[0] == self.queue@[0]@);
        }
        let run_id = self.queue.remove(0);
        assert(views(self.queue@) =~= was.queue.skip(1));
        let pending = self.pending.remove(run_id.as_str());
        let entry = self.runs.remove(run_id.as_str());
        assert(self@.pending =~= was.pending.remove(run_id@));
        match (entry, pending) {
            (Some(mut entry), Some(run)) => {
                if entry.cancel {
                    let snapshot = entry.snapshot.clone();
                    self.runs.insert(run_id.as_str(), entry);
                    assert(self@.runs =~= was.runs);
                    NextRun::Skipped { snapshot, run }
                } else {
                    entry.begin(now);
                    self.runs.insert(run_id.as_str(), entry);
                    self.running = Some(run_id.clone());
                    assert(self@.runs =~= next_result(was, now).0.runs);
                    NextRun::Started { run_id, run }
                }
            },
            _ => {
                assert(false);
                NextRun::Idle
            },
        }
    }

    /// Notes a script turn of the run that is under way.
    pub fn record_iteration(&mut self, event: RunEvent, now: u64)
        requires
            old(self).wf(),
        ensures
            final(self).wf(),
            final(self)@ == iteration_result(old(self)@, event@, now),
    {
        let ghost was = self@;
        let id = match &self.running {
            Some(id) => id.clone(),
            None => {
                return;
            },
        };
        proof {
            assert(was.run_wf(id@));
        }
        match self.runs.remove(id.as_str()) {
            Some(mut entry) => {
                let ghost e = iterated_entry(was.runs[id@], event@, now);
                entry.iteration(event, now);
                self.runs.insert(id.as_str(), entry);
                proof {
                    running_change_keeps_wf(was, e);
                    assert(self@.runs =~= with_run(was, id@, e).runs);
                }
            },
            None => {
                assert(false);
            },
        }
    }

    /// Ends the run that is under way.
    pub fn finish_run(&mut self, outcome: Result<String, String>, now: u64) -> (r: Option<Snapshot>)
        requires
            old(self).wf(),
        ensures
            final(self).wf(),
            (final(self)@, opt_snapshot(r)) == finish_result(
                old(self)@,
                crate::client::result_view(outcome),
                now,
            ),
    {
        let ghost was = self@;
        let id = match self.running.take() {
            Some(id) => id,
            None => {
                assert(self@ == was);
                return None;
            },
        };
        proof {
            assert(was.run_wf(id@));
        }
        match self.runs.remove(id.as_str()) {
            Some(mut entry) => {
                let ghost e = ended_entry(was.runs[id@], crate::client::result_view(outcome), now);
                entry.end(outcome, now);
                let snapshot = entry.snapshot.clone();
                self.runs.insert(id.as_str(), entry);
                proof {
                    running_change_keeps_wf(was, e);
                    assert(self@.runs =~= with_run(was, id@, e).runs);
                }
                Some(snapshot)
            },
            None => {
                assert(false);
                None
            },
        }
    }
}

} // verus!
