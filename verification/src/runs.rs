//! A run as its clients see it: where it stands, and the events it has gone through.
use vstd::prelude::*;

use crate::engine::{RunEvent, RunEventView, CANCELLED_MSG};
use crate::text::{
    all_digits, contains, copy_opt, decimal, decimal_is_digits, decimal_of, digit, digits_value, holds, opt_view,
    padded, padded_of, truncate, truncated,
};
use crate::text_laws::filled_numbers_keep_their_value;

verus! {

/// Most characters of an answer that a snapshot keeps.
pub const ANSWER_PREVIEW_CAP: usize = 8000;

/// Most characters of an error that a snapshot keeps.
pub const ERROR_PREVIEW_CAP: usize = 2000;

/// Most events of a run.
pub const MAX_EVENTS_PER_RUN: usize = 1000;

/// Where a run stands.
#[derive(Clone, Copy, PartialEq, Eq, Structural, Debug)]
pub enum RunStatus {
    Queued,
    Running,
    Done,
    Failed,
    Cancelled,
}

impl RunStatus {
    /// Whether a run that stands so has ended.
    pub open spec fn is_terminal(self) -> bool {
        self == RunStatus::Done || self == RunStatus::Failed || self == RunStatus::Cancelled
    }

    pub open spec fn text(self) -> Seq<char> {
        match self {
            RunStatus::Queued => "queued"@,
            RunStatus::Running => "running"@,
            RunStatus::Done => "done"@,
            RunStatus::Failed => "failed"@,
            RunStatus::Cancelled => "cancelled"@,
        }
    }

    /// Whether a run that stands so has ended.
    pub fn terminal(&self) -> (r: bool)
        ensures
            r == self.is_terminal(),
    {
        match self {
            RunStatus::Done | RunStatus::Failed | RunStatus::Cancelled => true,
            RunStatus::Queued | RunStatus::Running => false,
        }
    }

    /// The word for it.
    pub fn name(&self) -> (r: String)
        ensures
            r@ == self.text(),
    {
        match self {
            RunStatus::Queued => "queued".to_owned(),
            RunStatus::Running => "running".to_owned(),
            RunStatus::Done => "done".to_owned(),
            RunStatus::Failed => "failed".to_owned(),
            RunStatus::Cancelled => "cancelled".to_owned(),
        }
    }
}

/// A run at a moment.
pub struct Snapshot {
    pub run_id: String,
    pub status: RunStatus,
    pub created_unix: u64,
    pub finished_unix: Option<u64>,
    /// The script turns that are done.
    pub iterations: u32,
    pub answer: Option<String>,
    pub error: Option<String>,
}

/// What a snapshot holds.
pub struct SnapshotView {
    pub run_id: Seq<char>,
    pub status: RunStatus,
    pub created_unix: u64,
    pub finished_unix: Option<u64>,
    pub iterations: u32,
    pub answer: Option<Seq<char>>,
    pub error: Option<Seq<char>>,
}

impl View for Snapshot {
    type V = SnapshotView;

    open spec fn view(&self) -> SnapshotView {
        SnapshotView {
            run_id: self.run_id@,
            status: self.status,
            created_unix: self.created_unix,
            finished_unix: self.finished_unix,
            iterations: self.iterations,
            answer: opt_view(self.answer),
            error: opt_view(self.error),
        }
    }
}

impl Clone for Snapshot {
    fn clone(&self) -> (r: Self)
        ensures
            r@ == self@,
    {
        Snapshot {
            run_id: self.run_id.clone(),
            status: self.status,
            created_unix: self.created_unix,
            finished_unix: self.finished_unix,
            iterations: self.iterations,
            answer: copy_opt(&self.answer),
            error: copy_opt(&self.error),
        }
    }
}

/// What an event tells.
pub enum EventData {
    /// The run was admitted, with or without the memory.
    Queued { memory: bool },
    /// The run began.
    Running,
    /// A script turn is done.
    Iteration { n: u32, of: u32, repl_preview: String },
    /// The run ended.
    Ended(Snapshot),
}

pub enum DataView {
    Queued { memory: bool },
    Running,
    Iteration { n: u32, of: u32, repl_preview: Seq<char> },
    Ended(SnapshotView),
}

impl View for EventData {
    type V = DataView;

    open spec fn view(&self) -> DataView {
        match self {
            EventData::Queued { memory } => DataView::Queued { memory: *memory },
            EventData::Running => DataView::Running,
            EventData::Iteration { n, of, repl_preview } => DataView::Iteration {
                n: *n,
                of: *of,
                repl_preview: repl_preview@,
            },
            EventData::Ended(s) => DataView::Ended(s@),
        }
    }
}

impl Clone for EventData {
    fn clone(&self) -> (r: Self)
        ensures
            r@ == self@,
    {
        match self {
            EventData::Queued { memory } => EventData::Queued { memory: *memory },
            EventData::Running => EventData::Running,
            EventData::Iteration { n, of, repl_preview } => EventData::Iteration {
                n: *n,
                of: *of,
                repl_preview: repl_preview.clone(),
            },
            EventData::Ended(s) => EventData::Ended(s.clone()),
        }
    }
}

/// The word for what an event tells.
pub open spec fn kind_of(data: DataView) -> Seq<char> {
    match data {
        DataView::Queued { memory } => "queued"@,
        DataView::Running => "running"@,
        DataView::Iteration { n, of, repl_preview } => "iteration"@,
        DataView::Ended(s) => s.status.text(),
    }
}

/// An event of a run.
pub struct EventRecord {
    pub seq: u64,
    pub unix: u64,
    pub data: EventData,
}

pub struct EventView {
    pub seq: u64,
    pub unix: u64,
    pub data: DataView,
}

impl View for EventRecord {
    type V = EventView;

    open spec fn view(&self) -> EventView {
        EventView { seq: self.seq, unix: self.unix, data: self.data@ }
    }
}

impl Clone for EventRecord {
    fn clone(&self) -> (r: Self)
        ensures
            r@ == self@,
    {
        EventRecord { seq: self.seq, unix: self.unix, data: self.data.clone() }
    }
}

impl EventRecord {
    /// The word for what the event tells.
    pub fn kind(&self) -> (r: String)
        ensures
            r@ == kind_of(self@.data),
    {
        match &self.data {
            EventData::Queued { memory } => "queued".to_owned(),
            EventData::Running => "running".to_owned(),
            EventData::Iteration { n, of, repl_preview } => "iteration".to_owned(),
            EventData::Ended(s) => s.status.name(),
        }
    }
}

/// What each event of a list holds.
pub open spec fn events_view(list: Seq<EventRecord>) -> Seq<EventView> {
    list.map_values(|e: EventRecord| e@)
}

/// A run, its events, and whether its end was asked for.
pub struct RunEntry {
    pub snapshot: Snapshot,
    pub events: Vec<EventRecord>,
    pub cancel: bool,
}

/// What the entry of a run holds.
pub struct EntryView {
    pub snapshot: SnapshotView,
    pub events: Seq<EventView>,
    pub cancel: bool,
}

impl View for RunEntry {
    type V = EntryView;

    open spec fn view(&self) -> EntryView {
        EntryView {
            snapshot: self.snapshot@,
            events: events_view(self.events@),
            cancel: self.cancel,
        }
    }
}

// -------------------------------------------------------------- transitions

/// An entry with one more event, as long as there is room for it.
pub open spec fn with_event(e: EntryView, data: DataView, now: u64) -> EntryView {
    if e.events.len() >= MAX_EVENTS_PER_RUN {
        e
    } else {
        EntryView {
            events: e.events.push(EventView { seq: e.events.len() as u64, unix: now, data }),
            ..e
        }
    }
}

/// The entry of a run that was just admitted.
pub open spec fn queued_entry(id: Seq<char>, memory: bool, now: u64) -> EntryView {
    with_event(
        EntryView {
            snapshot: SnapshotView {
                run_id: id,
                status: RunStatus::Queued,
                created_unix: now,
                finished_unix: None,
                iterations: 0,
                answer: None,
                error: None,
            },
            events: seq![],
            cancel: false,
        },
        DataView::Queued { memory },
        now,
    )
}

/// The entry of a run that begins.
pub open spec fn running_entry(e: EntryView, now: u64) -> EntryView {
    with_event(
        EntryView { snapshot: SnapshotView { status: RunStatus::Running, ..e.snapshot }, ..e },
        DataView::Running,
        now,
    )
}

/// The entry of a run behind a script turn.
pub open spec fn iterated_entry(e: EntryView, event: RunEventView, now: u64) -> EntryView {
    match event {
        RunEventView::Iteration { n, of, repl_preview } => with_event(
            EntryView { snapshot: SnapshotView { iterations: n, ..e.snapshot }, ..e },
            DataView::Iteration { n, of, repl_preview },
            now,
        ),
    }
}

/// The entry of a run whose end was asked for. One that has not begun ends at once.
pub open spec fn cancelled_entry(e: EntryView, now: u64) -> EntryView {
    EntryView {
        cancel: true,
        snapshot: if e.snapshot.status == RunStatus::Queued {
            SnapshotView { status: RunStatus::Cancelled, finished_unix: Some(now), ..e.snapshot }
        } else {
            e.snapshot
        },
        ..e
    }
}

/// How a run stands behind its end.
pub open spec fn ended_snapshot(
    s: SnapshotView,
    outcome: Result<Seq<char>, Seq<char>>,
    now: u64,
) -> SnapshotView {
    match outcome {
        Ok(answer) => SnapshotView {
            status: RunStatus::Done,
            finished_unix: Some(now),
            answer: Some(truncated(answer, ANSWER_PREVIEW_CAP as nat)),
            ..s
        },
        Err(e) => if holds(e, CANCELLED_MSG@) {
            SnapshotView { status: RunStatus::Cancelled, finished_unix: Some(now), ..s }
        } else {
            SnapshotView {
                status: RunStatus::Failed,
                finished_unix: Some(now),
                error: Some(truncated(e, ERROR_PREVIEW_CAP as nat)),
                ..s
            }
        },
    }
}

/// The entry of a run behind its end.
pub open spec fn ended_entry(e: EntryView, outcome: Result<Seq<char>, Seq<char>>, now: u64) -> EntryView {
    let snapshot = ended_snapshot(e.snapshot, outcome, now);
    with_event(EntryView { snapshot, ..e }, DataView::Ended(snapshot), now)
}

impl EntryView {
    /// The events are numbered from zero, there are no more than there may be, and the snapshot
    /// says what belongs to its status.
    pub open spec fn wf(self) -> bool {
        &&& self.events.len() <= MAX_EVENTS_PER_RUN
        &&& forall|i: int| 0 <= i < self.events.len() ==> (#[trigger] self.events[i]).seq == i
        &&& self.snapshot.finished_unix is Some <==> self.snapshot.status.is_terminal()
        &&& self.snapshot.answer is Some <==> self.snapshot.status == RunStatus::Done
        &&& self.snapshot.error is Some <==> self.snapshot.status == RunStatus::Failed
    }
}

impl RunEntry {
    /// The entry of a run that was just admitted.
    pub fn queued(id: &str, memory: bool, now: u64) -> (r: RunEntry)
        ensures
            r@ == queued_entry(id@, memory, now),
            r@.wf(),
    {
        let mut entry = RunEntry {
            snapshot: Snapshot {
                run_id: id.to_owned(),
                status: RunStatus::Queued,
                created_unix: now,
                finished_unix: None,
                iterations: 0,
                answer: None,
                error: None,
            },
            events: Vec::new(),
            cancel: false,
        };
        assert(entry@.events =~= seq![]);
        entry.push_event(EventData::Queued { memory }, now);
        entry
    }

    /// Notes an event, as long as there is room for it.
    pub fn push_event(&mut self, data: EventData, now: u64)
        ensures
            final(self)@ == with_event(old(self)@, data@, now),
            old(self)@.wf() ==> final(self)@.wf(),
    {
        if self.events.len() >= MAX_EVENTS_PER_RUN {
            return;
        }
        let seq = self.events.len() as u64;
        let record = EventRecord { seq, unix: now, data };
        let ghost was = self@;
        let ghost rv = record@;
        self.events.push(record);
        assert(self@.events =~= was.events.push(rv));
    }

    /// Whether the run has ended.
    pub fn terminal(&self) -> (r: bool)
        ensures
            r == self@.snapshot.status.is_terminal(),
    {
        self.snapshot.status.terminal()
    }

    /// The run begins.
    pub(crate) fn begin(&mut self, now: u64)
        requires
            old(self)@.wf(),
            old(self)@.snapshot.status == RunStatus::Queued,
        ensures
            final(self)@ == running_entry(old(self)@, now),
            final(self)@.wf(),
    {
        self.snapshot.status = RunStatus::Running;
        self.push_event(EventData::Running, now);
    }

    /// A script turn of the run is done.
    pub(crate) fn iteration(&mut self, event: RunEvent, now: u64)
        requires
            old(self)@.wf(),
        ensures
            final(self)@ == iterated_entry(old(self)@, event@, now),
            final(self)@.wf(),
    {
        match event {
            RunEvent::Iteration { n, of, repl_preview } => {
                self.snapshot.iterations = n;
                self.push_event(EventData::Iteration { n, of, repl_preview }, now);
            },
        }
    }

    /// The end of the run is asked for.
    pub(crate) fn request_cancel(&mut self, now: u64)
        requires
            old(self)@.wf(),
        ensures
            final(self)@ == cancelled_entry(old(self)@, now),
            final(self)@.wf(),
    {
        self.cancel = true;
        if self.snapshot.status == RunStatus::Queued {
            self.snapshot.status = RunStatus::Cancelled;
            self.snapshot.finished_unix = Some(now);
        }
    }

    /// The run ends.
    pub(crate) fn end(&mut self, outcome: Result<String, String>, now: u64)
        requires
            old(self)@.wf(),
            old(self)@.snapshot.status == RunStatus::Running,
        ensures
            final(self)@ == ended_entry(old(self)@, crate::client::result_view(outcome), now),
            final(self)@.wf(),
    {
        self.snapshot.finished_unix = Some(now);
        match outcome {
            Ok(answer) => {
                self.snapshot.status = RunStatus::Done;
                self.snapshot.answer = Some(truncate(answer.as_str(), ANSWER_PREVIEW_CAP));
            },
            Err(e) => {
                if contains(e.as_str(), CANCELLED_MSG) {
                    self.snapshot.status = RunStatus::Cancelled;
                } else {
                    self.snapshot.status = RunStatus::Failed;
                    self.snapshot.error = Some(truncate(e.as_str(), ERROR_PREVIEW_CAP));
                }
            },
        }
        let copy = self.snapshot.clone();
        self.push_event(EventData::Ended(copy), now);
    }
}

// ---------------------------------------------------------------------- ids

/// The name of a run: when it was made, and its number.
pub open spec fn id_text(unix: nat, nanos: nat, n: nat) -> Seq<char> {
    "run-"@ + decimal(unix) + "-"@ + padded(nanos % 1_000_000, 6) + "-"@ + decimal(n)
}

/// Names a run.
pub fn new_run_id(unix: u64, nanos: u32, n: u64) -> (r: String)
    ensures
        r@ == id_text(unix as nat, nanos as nat, n as nat),
{
    let mut r = "run-".to_owned();
    r.append(decimal_of(unix).as_str());
    r.append("-");
    r.append(padded_of((nanos % 1_000_000) as u64, 6).as_str());
    r.append("-");
    r.append(decimal_of(n).as_str());
    r
}

proof fn decimal_is_injective(a: nat, b: nat)
    requires
        decimal(a) == decimal(b),
    ensures
        a == b,
    decreases a,
{
    if a < 10 && b < 10 {
        assert(decimal(a)[0] == digit(a) && decimal(b)[0] == digit(b));
        assert(digit(a) as nat == '0' as nat + a);
        assert(digit(b) as nat == '0' as nat + b);
    } else if a >= 10 && b >= 10 {
        assert(decimal(a).drop_last() =~= decimal(a / 10));
        assert(decimal(b).drop_last() =~= decimal(b / 10));
        decimal_is_injective(a / 10, b / 10);
        assert(decimal(a).last() == digit(a % 10) && decimal(b).last() == digit(b % 10));
        assert(digit(a % 10) as nat == '0' as nat + a % 10);
        assert(digit(b % 10) as nat == '0' as nat + b % 10);
    } else if a < 10 {
        decimal_is_digits(b / 10);
        assert(decimal(b).len() >= 2);
    } else {
        decimal_is_digits(a / 10);
        assert(decimal(a).len() >= 2);
    }
}

/// Runs with different numbers have different names, whenever they were made.
pub proof fn run_ids_are_distinct(
    unix: nat,
    nanos: nat,
    n: nat,
    other_unix: nat,
    other_nanos: nat,
    other_n: nat,
)
    requires
        n != other_n,
    ensures
        id_text(unix, nanos, n) != id_text(other_unix, other_nanos, other_n),
{
    reveal_strlit("-");
    let a = id_text(unix, nanos, n);
    let b = id_text(other_unix, other_nanos, other_n);
    if a == b {
        decimal_is_digits(n);
        decimal_is_digits(other_n);
        let da = decimal(n);
        let db = decimal(other_n);
        let ka = a.len() - da.len() - 1;
        let kb = b.len() - db.len() - 1;
        assert(a[ka] == '-');
        assert(b[kb] == '-');
        if ka < kb {
            assert(a[kb] == da[kb - ka - 1]);
        } else if kb < ka {
            assert(b[ka] == db[ka - kb - 1]);
        } else {
            assert(da =~= a.skip(ka + 1));
            assert(db =~= b.skip(kb + 1));
            decimal_is_injective(n, other_n);
        }
    }
}

// --------------------------------------------------------------------- laws

/// A note of an event leaves all earlier events as they were, and never makes the events more
/// than they may be.
pub proof fn events_only_grow(e: EntryView, data: DataView, now: u64)
    requires
        e.wf(),
    ensures
        with_event(e, data, now).events.len() <= MAX_EVENTS_PER_RUN,
        with_event(e, data, now).events.take(e.events.len() as int) == e.events,
        with_event(e, data, now).wf(),
{
    assert(with_event(e, data, now).events.take(e.events.len() as int) =~= e.events);
}

/// A run that has ended stays as it ended, however often its end is asked for.
pub proof fn ended_run_cannot_be_cancelled(e: EntryView, now: u64)
    requires
        e.snapshot.status.is_terminal(),
    ensures
        cancelled_entry(e, now).snapshot == e.snapshot,
        cancelled_entry(e, now).events == e.events,
{
}

/// While there is room, an event is noted behind all others, with the next number, the time and
/// what it tells; nothing else of the run changes.
pub proof fn an_event_is_noted(e: EntryView, data: DataView, now: u64)
    requires
        e.events.len() < 1000,
    ensures
        ({
            let after = with_event(e, data, now);
            &&& after.events.len() == e.events.len() + 1
            &&& after.events.drop_last() == e.events
            &&& after.events.last().seq == e.events.len()
            &&& after.events.last().unix == now
            &&& after.events.last().data == data
            &&& after.snapshot == e.snapshot
            &&& after.cancel == e.cancel
        }),
{
    assert(with_event(e, data, now).events.drop_last() =~= e.events);
}

/// The end of a run is told in full: while there is room, the last event behind it tells exactly
/// the snapshot that the run has then, answer and error included.
pub proof fn the_end_is_told_in_full(e: EntryView, outcome: Result<Seq<char>, Seq<char>>, now: u64)
    requires
        e.events.len() < 1000,
    ensures
        ({
            let after = ended_entry(e, outcome, now);
            &&& after.events.len() == e.events.len() + 1
            &&& after.events.drop_last() == e.events
            &&& after.events.last().data == DataView::Ended(after.snapshot)
            &&& after.events.last().seq == e.events.len()
            &&& after.events.last().unix == now
            &&& kind_of(after.events.last().data) == after.snapshot.status.text()
            &&& after.cancel == e.cancel
        }),
{
    assert(ended_entry(e, outcome, now).events.drop_last() =~= e.events);
}

/// A run ends as its outcome says. An answer makes it done and is kept, in full where it is no
/// longer than a preview; an error that tells of a cancellation makes it cancelled; any other makes
/// it failed and is kept in the same way. The time of the end is noted and nothing else changes.
pub proof fn a_run_ends_as_its_outcome_says(e: EntryView, outcome: Result<Seq<char>, Seq<char>>, now: u64)
    requires
        e.snapshot.answer is None,
        e.snapshot.error is None,
    ensures
        ({
            let s = ended_entry(e, outcome, now).snapshot;
            &&& s.finished_unix == Some(now)
            &&& s.run_id == e.snapshot.run_id
            &&& s.created_unix == e.snapshot.created_unix
            &&& s.iterations == e.snapshot.iterations
            &&& s.status == RunStatus::Done <==> outcome is Ok
            &&& s.status == RunStatus::Cancelled <==> outcome is Err && holds(outcome->Err_0, "run cancelled"@)
            &&& s.status == RunStatus::Failed <==> outcome is Err && !holds(outcome->Err_0, "run cancelled"@)
            &&& outcome matches Ok(answer) ==> {
                &&& s.answer is Some
                &&& s.error is None
                &&& answer.len() <= 8000 ==> s.answer->0 == answer
                &&& answer.len() > 8000 ==> forall|k: int| 0 <= k < 8000 ==> s.answer->0[k] == answer[k]
            }
            &&& outcome matches Err(text) ==> {
                &&& s.answer is None
                &&& s.error is Some <==> !holds(text, "run cancelled"@)
                &&& s.error is Some && text.len() <= 2000 ==> s.error->0 == text
                &&& s.error is Some && text.len() > 2000 ==> forall|k: int|
                    0 <= k < 2000 ==> s.error->0[k] == text[k]
            }
        }),
{
    match outcome {
        Ok(answer) => {
            crate::text_laws::cutting_keeps_the_front(answer, 8000);
        },
        Err(text) => {
            crate::text_laws::cutting_keeps_the_front(text, 2000);
        },
    }
}

/// A run is admitted with nothing done, under its name and with the time, and the first event tells
/// whether it may use the memory.
pub proof fn an_admitted_run_is_new(id: Seq<char>, memory: bool, now: u64)
    ensures
        ({
            let e = queued_entry(id, memory, now);
            &&& e.snapshot.run_id == id
            &&& e.snapshot.status == RunStatus::Queued
            &&& e.snapshot.created_unix == now
            &&& e.snapshot.finished_unix is None
            &&& e.snapshot.iterations == 0
            &&& e.snapshot.answer is None
            &&& e.snapshot.error is None
            &&& !e.cancel
            &&& e.events == seq![EventView { seq: 0, unix: now, data: DataView::Queued { memory } }]
        }),
{
    assert(queued_entry(id, memory, now).events =~= seq![
        EventView { seq: 0, unix: now, data: DataView::Queued { memory } },
    ]);
}

/// A run that begins is running and otherwise as it was, and tells so.
pub proof fn a_beginning_is_told(e: EntryView, now: u64)
    requires
        e.events.len() < 1000,
    ensures
        ({
            let after = running_entry(e, now);
            &&& after.snapshot == SnapshotView { status: RunStatus::Running, ..e.snapshot }
            &&& after.cancel == e.cancel
            &&& after.events.drop_last() == e.events
            &&& after.events.last().data is Running
            &&& after.events.last().seq == e.events.len()
            &&& after.events.last().unix == now
        }),
{
    assert(running_entry(e, now).events.drop_last() =~= e.events);
}

/// A turn is counted and told as it was: its number, of how many, and what it showed.
pub proof fn a_turn_is_counted_and_told(e: EntryView, n: u32, of: u32, repl_preview: Seq<char>, now: u64)
    requires
        e.events.len() < 1000,
    ensures
        ({
            let after = iterated_entry(e, RunEventView::Iteration { n, of, repl_preview }, now);
            &&& after.snapshot == SnapshotView { iterations: n, ..e.snapshot }
            &&& after.cancel == e.cancel
            &&& after.events.drop_last() == e.events
            &&& after.events.last().data == (DataView::Iteration { n, of, repl_preview })
            &&& after.events.last().seq == e.events.len()
            &&& after.events.last().unix == now
        }),
{
    let event = RunEventView::Iteration { n, of, repl_preview };
    assert(iterated_entry(e, event, now).events.drop_last() =~= e.events);
}

/// Asking for the end of a run is noted in any case. One that waits ends at once, with the time of
/// the end; of any other, nothing else changes.
pub proof fn asking_for_the_end_is_noted(e: EntryView, now: u64)
    ensures
        cancelled_entry(e, now).cancel,
        cancelled_entry(e, now).events == e.events,
        e.snapshot.status == RunStatus::Queued ==> cancelled_entry(e, now).snapshot == (SnapshotView {
            status: RunStatus::Cancelled,
            finished_unix: Some(now),
            ..e.snapshot
        }),
        e.snapshot.status != RunStatus::Queued ==> cancelled_entry(e, now).snapshot == e.snapshot,
{
}

/// A run is named by the second it was made in, by what its clock gave below a millisecond, in six
/// digits, and by its number.
pub proof fn names_tell_time_and_number(unix: u64, nanos: u32, n: u64, r: String)
    requires
        call_ensures(new_run_id, (unix, nanos, n), r),
    ensures
        exists|digits: Seq<char>|
            r@ == #[trigger] ("run-"@ + decimal(unix as nat) + "-"@ + digits) + "-"@ + decimal(n as nat)
                && all_digits(digits) && digits.len() >= 6 && digits_value(digits) == nanos as nat % 1_000_000,
{
    let digits = padded(nanos as nat % 1_000_000, 6);
    filled_numbers_keep_their_value(nanos as nat % 1_000_000, 6);
    assert(r@ == ("run-"@ + decimal(unix as nat) + "-"@ + digits) + "-"@ + decimal(n as nat));
}

/// Each status has a word of its own.
pub proof fn each_status_has_its_word(a: RunStatus, b: RunStatus, ra: String, rb: String)
    requires
        call_ensures(RunStatus::name, (&a,), ra),
        call_ensures(RunStatus::name, (&b,), rb),
    ensures
        ra@ == rb@ <==> a == b,
        a == RunStatus::Queued <==> ra@ == "queued"@,
        a == RunStatus::Running <==> ra@ == "running"@,
        a == RunStatus::Done <==> ra@ == "done"@,
        a == RunStatus::Failed <==> ra@ == "failed"@,
        a == RunStatus::Cancelled <==> ra@ == "cancelled"@,
{
    reveal_strlit("queued");
    reveal_strlit("running");
    reveal_strlit("done");
    reveal_strlit("failed");
    reveal_strlit("cancelled");
    assert("queued"@[0] == 'q' && "running"@[0] == 'r' && "done"@[0] == 'd' && "failed"@[0] == 'f'
        && "cancelled"@[0] == 'c');
}

} // verus!
