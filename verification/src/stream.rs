//! Events on their way to a client: which ones are due, how each is framed, and how frames are
//! read in pieces.
use vstd::prelude::*;

use crate::runs::{events_view, kind_of, EntryView, EventRecord, EventView, RunEntry};
use crate::text::{decimal, decimal_of, min};

verus! {

// ------------------------------------------------------------ which are due

/// What a stream does next.
pub enum Poll {
    /// It sends events.
    Batch(Vec<EventRecord>),
    /// It waits for the run.
    Wait,
    /// It ends.
    End,
}

pub enum PollView {
    Batch(Seq<EventView>),
    Wait,
    End,
}

impl View for Poll {
    type V = PollView;

    open spec fn view(&self) -> PollView {
        match self {
            Poll::Batch(events) => PollView::Batch(events_view(events@)),
            Poll::Wait => PollView::Wait,
            Poll::End => PollView::End,
        }
    }
}

/// The events behind a sequence number; -1 stands in front of all.
pub open spec fn fresh_of(events: Seq<EventView>, cursor: i64) -> Seq<EventView> {
    if cursor < 0 {
        events
    } else if cursor + 1 >= events.len() {
        seq![]
    } else {
        events.skip(cursor + 1)
    }
}

/// The sequence number behind which a stream goes on, once it has sent what was due.
pub open spec fn next_cursor(events: Seq<EventView>, cursor: i64) -> i64 {
    if fresh_of(events, cursor).len() == 0 {
        cursor
    } else {
        events.last().seq as i64
    }
}

/// What a stream does that has sent all events up to a sequence number.
pub open spec fn poll_of(e: EntryView, cursor: i64) -> PollView {
    if fresh_of(e.events, cursor).len() > 0 {
        PollView::Batch(fresh_of(e.events, cursor))
    } else if e.snapshot.status.is_terminal() {
        PollView::End
    } else {
        PollView::Wait
    }
}

impl RunEntry {
    /// What a stream does next that has sent all events up to `cursor`.
    pub fn poll(&self, cursor: i64) -> (r: Poll)
        requires
            self@.wf(),
        ensures
            r@ == poll_of(self@, cursor),
    {
        let n = self.events.len();
        let from: usize = if cursor < 0 {
            0
        } else if cursor as u64 >= n as u64 {
            n
        } else {
            cursor as usize + 1
        };
        if from < n {
            let mut fresh: Vec<EventRecord> = Vec::new();
            for i in from..n
                invariant
                    n == self.events@.len(),
                    fresh@.len() == i - from,
                    forall|j: int| 0 <= j < fresh@.len() ==> (#[trigger] fresh@[j])@ == self.events@[from + j]@,
            {
                fresh.push(self.events[i].clone());
            }
            assert(events_view(fresh@) =~= fresh_of(self@.events, cursor));
            Poll::Batch(fresh)
        } else if self.terminal() {
            Poll::End
        } else {
            Poll::Wait
        }
    }
}

/// Moves on behind the events of a batch.
pub fn advance(cursor: i64, batch: &Vec<EventRecord>) -> (r: i64)
    requires
        batch@.len() > 0 ==> batch@.last().seq <= i64::MAX,
    ensures
        r == (if batch@.len() == 0 {
            cursor
        } else {
            batch@.last().seq as i64
        }),
{
    if batch.len() == 0 {
        cursor
    } else {
        batch[batch.len() - 1].seq as i64
    }
}

// --------------------------------------------------------------- how framed

/// An event as a server-sent event.
pub open spec fn frame_text(seq: u64, kind: Seq<char>, json: Seq<char>) -> Seq<char> {
    "id: "@ + decimal(seq as nat) + "\nevent: "@ + kind + "\ndata: "@ + json + "\n\n"@
}

/// Frames an event, with the JSON text of its record.
pub fn frame(event: &EventRecord, json: &str) -> (r: String)
    ensures
        r@ == frame_text(event@.seq, kind_of(event@.data), json@),
{
    let mut r = "id: ".to_owned();
    r.append(decimal_of(event.seq).as_str());
    r.append("\nevent: ");
    r.append(event.kind().as_str());
    r.append("\ndata: ");
    r.append(json);
    r.append("\n\n");
    r
}

// ---------------------------------------------------------- read in pieces

/// A chunk of bytes that is handed out in pieces.
pub struct ChunkBuffer {
    buf: Vec<u8>,
    pos: usize,
}

/// What is left of the chunk.
impl View for ChunkBuffer {
    type V = Seq<u8>;

    closed spec fn view(&self) -> Seq<u8> {
        if self.pos <= self.buf@.len() {
            self.buf@.skip(self.pos as int)
        } else {
            seq![]
        }
    }
}

impl ChunkBuffer {
    /// A buffer with nothing in it.
    pub fn new() -> (r: ChunkBuffer)
        ensures
            r@ == Seq::<u8>::empty(),
    {
        let r = ChunkBuffer { buf: Vec::new(), pos: 0 };
        assert(r@ =~= Seq::<u8>::empty());
        r
    }

    /// Whether the next chunk is due.
    pub fn needs_chunk(&self) -> (r: bool)
        ensures
            r == (self@.len() == 0),
    {
        self.pos >= self.buf.len()
    }

    /// Takes the next chunk.
    pub fn load(&mut self, chunk: Vec<u8>)
        requires
            old(self)@.len() == 0,
        ensures
            final(self)@ == chunk@,
    {
        let ghost bytes = chunk@;
        self.buf = chunk;
        self.pos = 0;
        assert(self@ =~= bytes);
    }

    /// Hands out as much as is there and as `out` holds, and says how much it was.
    pub fn read(&mut self, out: &mut [u8]) -> (n: usize)
        ensures
            n == min(old(self)@.len() as int, old(out)@.len() as int),
            final(self)@ == old(self)@.skip(n as int),
            final(out)@ == old(self)@.take(n as int) + old(out)@.skip(n as int),
    {
        let ghost bytes = self@;
        let ghost before = out@;
        let total = self.buf.len();
        let left: usize = if self.pos < total {
            total - self.pos
        } else {
            0
        };
        let n = if left <= out.len() {
            left
        } else {
            out.len()
        };
        let mut i: usize = 0;
        while i < n
            invariant
                i <= n,
                n <= bytes.len(),
                n <= before.len(),
                out@.len() == before.len(),
                total == self.buf@.len(),
                bytes == self@,
                bytes.len() > 0 ==> bytes == self.buf@.skip(self.pos as int) && self.pos <= self.buf@.len(),
                out@ == bytes.take(i as int) + before.skip(i as int),
            decreases n - i,
        {
            let b = self.buf[self.pos + i];
            assert(b == bytes[i as int]);
            out[i] = b;
            i = i + 1;
            assert(out@ =~= bytes.take(i as int) + before.skip(i as int));
        }
        assert(out@ =~= bytes.take(n as int) + before.skip(n as int));
        if n > 0 {
            self.pos = self.pos + n;
        }
        assert(self@ =~= bytes.skip(n as int));
        n
    }
}

// --------------------------------------------------------------------- laws

/// The events that are due are exactly those with a greater sequence number, in order.
pub proof fn fresh_are_those_behind(e: EntryView, cursor: i64, i: int)
    requires
        e.wf(),
        0 <= i < e.events.len(),
    ensures
        fresh_of(e.events, cursor).contains(e.events[i]) <==> e.events[i].seq > cursor,
        forall|j: int, k: int|
            0 <= j < k < fresh_of(e.events, cursor).len() ==> (#[trigger] fresh_of(e.events, cursor)[j]).seq
                < (#[trigger] fresh_of(e.events, cursor)[k]).seq,
{
    let fresh = fresh_of(e.events, cursor);
    let from: int = if cursor < 0 {
        0
    } else {
        cursor + 1
    };
    assert(forall|j: int| 0 <= j < fresh.len() ==> #[trigger] fresh[j] == e.events[from + j]);
    if e.events[i].seq > cursor {
        assert(fresh[i - from] == e.events[i]);
    } else if fresh.contains(e.events[i]) {
        let j = fresh.index_of(e.events[i]);
        assert(fresh[j] == e.events[from + j]);
    }
}

/// A run whose events only grow, as seen at each poll of a stream.
pub open spec fn growing(entries: Seq<EntryView>) -> bool {
    &&& forall|i: int| 0 <= i < entries.len() ==> (#[trigger] entries[i]).wf()
    &&& forall|i: int, j: int|
        0 <= i <= j < entries.len() ==> (#[trigger] entries[i]).events.is_prefix_of(
            (#[trigger] entries[j]).events,
        )
}

/// Where a stream stands behind its polls.
pub open spec fn cursor_after(entries: Seq<EntryView>, cursor: i64) -> i64
    decreases entries.len(),
{
    if entries.len() == 0 {
        cursor
    } else {
        next_cursor(entries.last().events, cursor_after(entries.drop_last(), cursor))
    }
}

/// All that a stream sends over its polls.
pub open spec fn sent(entries: Seq<EntryView>, cursor: i64) -> Seq<EventView>
    decreases entries.len(),
{
    if entries.len() == 0 {
        seq![]
    } else {
        sent(entries.drop_last(), cursor) + fresh_of(
            entries.last().events,
            cursor_after(entries.drop_last(), cursor),
        )
    }
}

/// However often a stream polls and however the run goes on meanwhile, it has sent each event
/// behind the number it began with exactly once and in order.
pub proof fn each_event_is_sent_once(entries: Seq<EntryView>, cursor: i64)
    requires
        growing(entries),
        entries.len() > 0,
    ensures
        sent(entries, cursor) == fresh_of(entries.last().events, cursor),
        cursor_after(entries, cursor) == next_cursor(entries.last().events, cursor),
        fresh_of(entries.last().events, cursor_after(entries, cursor)).len() == 0,
    decreases entries.len(),
{
    let last = entries.last().events;
    assert(entries[entries.len() - 1].wf());
    if entries.len() == 1 {
        assert(sent(entries.drop_last(), cursor) =~= seq![]);
        assert(sent(entries, cursor) =~= fresh_of(last, cursor));
    } else {
        let fore = entries.drop_last();
        assert forall|i: int, j: int| 0 <= i <= j < fore.len() implies (#[trigger] fore[i]).events.is_prefix_of(
            (#[trigger] fore[j]).events,
        ) by {
            assert(entries[i].events.is_prefix_of(entries[j].events));
        }
        assert forall|i: int| 0 <= i < fore.len() implies (#[trigger] fore[i]).wf() by {
            assert(entries[i].wf());
        }
        each_event_is_sent_once(fore, cursor);
        let middle = fore.last().events;
        assert(fore.last() == entries[entries.len() - 2]);
        assert(entries[entries.len() - 2].wf());
        assert(entries[entries.len() - 2].events.is_prefix_of(entries[entries.len() - 1].events));
        assert(middle =~= last.take(middle.len() as int));
        assert(sent(entries, cursor) =~= fresh_of(last, cursor));
    }
}

/// A stream ends if and only if the run has ended and all its events were sent.
pub proof fn a_stream_ends_with_its_run(e: EntryView, cursor: i64)
    ensures
        poll_of(e, cursor) is End <==> e.snapshot.status.is_terminal() && fresh_of(e.events, cursor).len() == 0,
        poll_of(e, cursor) is Wait ==> !e.snapshot.status.is_terminal(),
{
}

/// A reader of chunks: what it holds of one, and those still to come.
pub struct ReaderView {
    pub held: Seq<u8>,
    pub coming: Seq<Seq<u8>>,
}

/// All bytes that are still to be read.
pub open spec fn unread(v: ReaderView) -> Seq<u8> {
    v.held + v.coming.flatten()
}

/// A read of up to `size` bytes: a reader that holds none takes the next chunk first.
pub open spec fn read_once(v: ReaderView, size: nat) -> (ReaderView, Seq<u8>) {
    let loaded = if v.held.len() == 0 && v.coming.len() > 0 {
        ReaderView { held: v.coming[0], coming: v.coming.skip(1) }
    } else {
        v
    };
    let n = min(loaded.held.len() as int, size as int);
    (ReaderView { held: loaded.held.skip(n), ..loaded }, loaded.held.take(n))
}

/// Where a reader stands behind its reads, and all that it has read.
pub open spec fn read_all(v: ReaderView, sizes: Seq<nat>) -> (ReaderView, Seq<u8>)
    decreases sizes.len(),
{
    if sizes.len() == 0 {
        (v, seq![])
    } else {
        let before = read_all(v, sizes.drop_last());
        let step = read_once(before.0, sizes.last());
        (step.0, before.1 + step.1)
    }
}

/// Bytes come out as they went in: whatever the sizes of the reads, what was read and what is
/// still unread make up the chunks one behind the other.
pub proof fn bytes_come_out_as_they_went_in(v: ReaderView, sizes: Seq<nat>)
    ensures
        read_all(v, sizes).1 + unread(read_all(v, sizes).0) == unread(v),
    decreases sizes.len(),
{
    if sizes.len() == 0 {
        assert(seq![] + unread(v) =~= unread(v));
    } else {
        let before = read_all(v, sizes.drop_last());
        bytes_come_out_as_they_went_in(v, sizes.drop_last());
        let step = read_once(before.0, sizes.last());
        if before.0.held.len() == 0 && before.0.coming.len() > 0 {
            assert(before.0.coming.flatten() =~= before.0.coming[0] + before.0.coming.skip(1).flatten()) by {
                assert(before.0.coming.drop_first() =~= before.0.coming.skip(1));
            }
        }
        assert(step.1 + unread(step.0) =~= unread(before.0));
        assert((before.1 + step.1) + unread(step.0) =~= before.1 + (step.1 + unread(step.0)));
    }
}

/// A read that finds bytes and has room for some gives some: nothing is read only at the end.
pub proof fn nothing_is_read_only_at_the_end(v: ReaderView, size: nat)
    requires
        size > 0,
        forall|i: int| 0 <= i < v.coming.len() ==> (#[trigger] v.coming[i]).len() > 0,
    ensures
        read_once(v, size).1.len() == 0 <==> v.held.len() == 0 && v.coming.len() == 0,
{
}

/// A stream sends exactly what is due: all events with a greater number than the last it has sent,
/// each as it is and in their order. It ends where nothing is due and the run has ended, and waits
/// where nothing is due and it has not.
pub proof fn a_poll_gives_what_is_due(entry: RunEntry, cursor: i64, r: Poll)
    requires
        entry@.wf(),
        call_ensures(RunEntry::poll, (&entry, cursor), r),
    ensures
        ({
            let events = entry@.events;
            let from = if cursor < 0 {
                0
            } else {
                cursor + 1
            };
            &&& r is Batch <==> from < events.len()
            &&& r is End <==> from >= events.len() && entry.snapshot.status.is_terminal()
            &&& r matches Poll::Batch(batch) ==> {
                &&& batch@.len() == events.len() - from
                &&& forall|k: int| 0 <= k < batch@.len() ==> (#[trigger] batch@[k])@ == events[from + k]
                &&& forall|k: int| 0 <= k < batch@.len() ==> (#[trigger] batch@[k]).seq > cursor
            }
        }),
{
    let events = entry@.events;
    let from: int = if cursor < 0 {
        0
    } else {
        cursor + 1
    };
    if let Poll::Batch(batch) = r {
        let seen = events_view(batch@);
        assert(seen == fresh_of(events, cursor));
        assert(seen.len() == batch@.len());
        assert forall|k: int| 0 <= k < batch@.len() implies (#[trigger] batch@[k])@ == events[from + k] by {
            assert(seen[k] == batch@[k]@);
        }
        assert forall|k: int| 0 <= k < batch@.len() implies (#[trigger] batch@[k]).seq > cursor by {
            assert(batch@[k]@ == events[from + k]);
            assert(events[from + k].seq == from + k);
        }
    }
}

/// A frame holds the number of its event, the word for it and the data it is given, each on a line
/// of its own, and an empty line ends it.
pub proof fn a_frame_holds_its_event(event: EventRecord, json: &str, r: String, kind: String)
    requires
        call_ensures(frame, (&event, json), r),
        call_ensures(EventRecord::kind, (&event,), kind),
    ensures
        r@ == "id: "@ + decimal(event.seq as nat) + "\nevent: "@ + kind@ + "\ndata: "@ + json@ + "\n\n"@,
        event.data is Queued ==> kind@ == "queued"@,
        event.data is Running ==> kind@ == "running"@,
        event.data is Iteration ==> kind@ == "iteration"@,
        event.data matches crate::runs::EventData::Ended(s) ==> kind@ == s.status.text(),
{
}

} // verus!
