//! Memory that outlives a session: facts by key, and a bounded log of past sessions.
use vstd::prelude::*;

use crate::text::{holds, stands_at, truncate, truncated};
use crate::textmap::TextMap;

verus! {

/// Most characters of a question that the log keeps.
pub const QUERY_CAP: usize = 500;

/// Most characters of an answer that the log keeps.
pub const ANSWER_CAP: usize = 1000;

/// Most sessions that the log keeps.
pub const SESSIONS_KEPT: usize = 50;

/// A past session.
pub struct SessionRecord {
    pub query: String,
    pub answer: String,
}

/// What a past session holds.
pub struct SessionView {
    pub query: Seq<char>,
    pub answer: Seq<char>,
}

impl View for SessionRecord {
    type V = SessionView;

    open spec fn view(&self) -> SessionView {
        SessionView { query: self.query@, answer: self.answer@ }
    }
}

/// Durable facts, and a rolling log of past sessions.
pub struct Memory {
    pub facts: TextMap<String>,
    pub sessions: Vec<SessionRecord>,
}

/// What a memory holds.
pub struct MemoryView {
    pub facts: Map<Seq<char>, Seq<char>>,
    pub sessions: Seq<SessionView>,
}

impl View for Memory {
    type V = MemoryView;

    open spec fn view(&self) -> MemoryView {
        MemoryView {
            facts: self.facts@.map_values(|v: String| v@),
            sessions: self.sessions@.map_values(|s: SessionRecord| s@),
        }
    }
}

/// The last `n` items of a list.
pub open spec fn last_items<T>(s: Seq<T>, n: nat) -> Seq<T> {
    if s.len() <= n {
        s
    } else {
        s.skip(s.len() - n)
    }
}

/// The log behind a session: the session comes last, and the oldest ones go.
pub open spec fn logged(
    log: Seq<SessionView>,
    query: Seq<char>,
    answer: Seq<char>,
) -> Seq<SessionView> {
    last_items(
        log.push(
            SessionView {
                query: truncated(query, QUERY_CAP as nat),
                answer: truncated(answer, ANSWER_CAP as nat),
            },
        ),
        SESSIONS_KEPT as nat,
    )
}

// -------------------------------------------------------------------- digest

/// The lines of a digest that name facts.
pub open spec fn fact_lines(keys: Seq<Seq<char>>) -> Seq<char>
    decreases keys.len(),
{
    if keys.len() == 0 {
        seq![]
    } else {
        fact_lines(keys.drop_last()) + "  - "@ + keys.last() + "\n"@
    }
}

/// The line of a digest for a past session.
pub open spec fn session_line(s: SessionView) -> Seq<char> {
    "  - Q: "@ + truncated(s.query, 120) + " | A: "@ + truncated(s.answer, 200) + "\n"@
}

/// The lines of a digest for the last `n` sessions of a log, the latest first.
pub open spec fn session_lines(log: Seq<SessionView>, n: nat) -> Seq<char>
    decreases n,
{
    if n == 0 || log.len() < n {
        seq![]
    } else {
        session_lines(log, (n - 1) as nat) + session_line(log[log.len() - n])
    }
}

/// How many of the latest sessions a digest shows.
pub open spec fn sessions_shown(log: Seq<SessionView>) -> nat {
    if log.len() <= 5 {
        log.len()
    } else {
        5
    }
}

/// The digest of a memory before it is cut.
pub open spec fn digest_text(keys: Seq<Seq<char>>, log: Seq<SessionView>) -> Seq<char> {
    let facts = if keys.len() == 0 {
        seq![]
    } else {
        "Persistent memory facts (use recall(key) for values):\n"@ + fact_lines(keys)
    };
    let sessions = if log.len() == 0 {
        seq![]
    } else {
        "Recent sessions:\n"@ + session_lines(log, sessions_shown(log))
    };
    facts + sessions
}

fn digest_line(s: &SessionRecord) -> (r: String)
    ensures
        r@ == session_line(s@),
{
    let mut r = "  - Q: ".to_owned();
    r.append(truncate(s.query.as_str(), 120).as_str());
    r.append(" | A: ");
    r.append(truncate(s.answer.as_str(), 200).as_str());
    r.append("\n");
    r
}

impl Memory {
    pub open spec fn wf(&self) -> bool {
        self.facts.wf()
    }

    /// An empty memory.
    pub fn new() -> (r: Memory)
        ensures
            r.wf(),
            r@.facts == Map::<Seq<char>, Seq<char>>::empty(),
            r@.sessions == Seq::<SessionView>::empty(),
    {
        let r = Memory { facts: TextMap::new(), sessions: Vec::new() };
        assert(r@.facts =~= Map::<Seq<char>, Seq<char>>::empty());
        assert(r@.sessions =~= Seq::<SessionView>::empty());
        r
    }

    /// Keeps a fact.
    pub fn remember(&mut self, key: &str, value: &str)
        requires
            old(self).wf(),
        ensures
            final(self).wf(),
            final(self)@ == (MemoryView {
                facts: old(self)@.facts.insert(key@, value@),
                ..old(self)@
            }),
    {
        let ghost was = self@;
        self.facts.insert(key, value.to_owned());
        assert(self@.facts =~= was.facts.insert(key@, value@));
    }

    /// The value of a fact.
    pub fn recall(&self, key: &str) -> (r: Option<&String>)
        requires
            self.wf(),
        ensures
            match r {
                Some(v) => self@.facts.contains_key(key@) && v@ == self@.facts[key@],
                None => !self@.facts.contains_key(key@),
            },
    {
        self.facts.get(key)
    }

    /// Adds a session to the log and keeps the log bounded.
    pub fn record_session(&mut self, query: &str, answer: &str)
        requires
            old(self).wf(),
        ensures
            final(self).wf(),
            final(self)@ == (MemoryView {
                sessions: logged(old(self)@.sessions, query@, answer@),
                ..old(self)@
            }),
    {
        let record = SessionRecord {
            query: truncate(query, QUERY_CAP),
            answer: truncate(answer, ANSWER_CAP),
        };
        let ghost was = self@;
        let ghost full = was.sessions.push(record@);
        self.sessions.push(record);
        assert(self@.sessions =~= full);
        let ghost dropped: int = 0;
        while self.sessions.len() > SESSIONS_KEPT
            invariant
                0 <= dropped <= full.len(),
                self@.sessions == full.skip(dropped),
                self.facts == old(self).facts,
                dropped > 0 ==> self@.sessions.len() >= SESSIONS_KEPT,
            decreases self.sessions.len(),
        {
            let ghost log = self@.sessions;
            self.sessions.remove(0);
            proof {
                assert(self@.sessions =~= log.remove(0));
                assert(log.remove(0) =~= full.skip(dropped + 1));
                dropped = dropped + 1;
            }
        }
        proof {
            assert(full.skip(0) =~= full);
            assert(self@.sessions.len() == full.len() - dropped);
        }
    }

    /// A short digest for the root prompt.
    pub fn digest(&self, max_chars: usize) -> (r: String)
        requires
            self.wf(),
        ensures
            r@ == truncated(digest_text(self.facts.keys(), self@.sessions), max_chars as nat),
    {
        let mut out = String::new();
        let ghost keys = self.facts.keys();
        let ghost log = self@.sessions;
        if !self.facts.is_empty() {
            out.append("Persistent memory facts (use recall(key) for values):\n");
            let ghost head = out@;
            assert(keys.take(0) =~= seq![]);
            assert(out@ =~= head + fact_lines(keys.take(0)));
            let count = self.facts.len();
            for i in 0..count
                invariant
                    keys == self.facts.keys(),
                    count == keys.len(),
                    out@ == head + fact_lines(keys.take(i as int)),
            {
                out.append("  - ");
                out.append(self.facts.key_at(i).as_str());
                out.append("\n");
                proof {
                    assert(keys.take(i + 1).drop_last() =~= keys.take(i as int));
                    assert(out@ =~= head + fact_lines(keys.take(i + 1)));
                }
            }
            assert(keys.take(keys.len() as int) =~= keys);
            assert(out@ =~= "Persistent memory facts (use recall(key) for values):\n"@ + fact_lines(keys));
        }
        let ghost facts_part = out@;
        let total = self.sessions.len();
        if total > 0 {
            out.append("Recent sessions:\n");
            let ghost head = out@;
            let shown: usize = if total <= 5 { total } else { 5 };
            assert(out@ =~= head + session_lines(log, 0));
            for i in 0..shown
                invariant
                    log == self@.sessions,
                    total == log.len(),
                    shown <= total,
                    out@ == head + session_lines(log, i as nat),
            {
                let s = &self.sessions[total - 1 - i];
                proof {
                    assert(log[log.len() - (i + 1)] == s@);
                }
                let line = digest_line(s);
                out.append(line.as_str());
                assert(out@ =~= head + (session_lines(log, i as nat) + line@));
            }
            assert(out@ =~= facts_part + ("Recent sessions:\n"@ + session_lines(log, sessions_shown(log))));
        }
        assert(out@ =~= digest_text(keys, log));
        truncate(out.as_str(), max_chars)
    }
}

/// What was remembered under a key is recalled under it, until something else is remembered
/// there; other keys keep their facts.
pub proof fn remembered_is_recalled(
    m: MemoryView,
    key: Seq<char>,
    value: Seq<char>,
    other: Seq<char>,
)
    ensures
        m.facts.insert(key, value).contains_key(key),
        m.facts.insert(key, value)[key] == value,
        other != key ==> (m.facts.insert(key, value).contains_key(other) <==> m.facts.contains_key(
            other,
        )),
        other != key && m.facts.contains_key(other) ==> m.facts.insert(key, value)[other]
            == m.facts[other],
{
}

proof fn named_in_fact_lines(keys: Seq<Seq<char>>, i: int) -> (at: int)
    requires
        0 <= i < keys.len(),
    ensures
        stands_at(fact_lines(keys), keys[i], at),
    decreases keys.len(),
{
    let fore = fact_lines(keys.drop_last());
    let lines = fact_lines(keys);
    if i == keys.len() - 1 {
        let at = (fore + "  - "@).len() as int;
        assert(lines.subrange(at, at + keys[i].len()) =~= keys[i]);
        at
    } else {
        let at = named_in_fact_lines(keys.drop_last(), i);
        assert(lines.subrange(at, at + keys[i].len()) =~= fore.subrange(at, at + keys[i].len()));
        at
    }
}

/// What is remembered is surfaced: before it is cut, the digest names the key of every fact.
pub proof fn every_fact_is_surfaced(keys: Seq<Seq<char>>, log: Seq<SessionView>, i: int)
    requires
        0 <= i < keys.len(),
    ensures
        holds(digest_text(keys, log), keys[i]),
{
    let at = named_in_fact_lines(keys, i);
    let head = "Persistent memory facts (use recall(key) for values):\n"@;
    let text = digest_text(keys, log);
    let lines = fact_lines(keys);
    assert(text.subrange(head.len() + at, head.len() + at + keys[i].len()) =~= lines.subrange(
        at,
        at + keys[i].len(),
    ));
    assert(stands_at(text, keys[i], head.len() + at));
}

/// The log never holds more sessions than it keeps, its last one is the latest session, and the
/// sessions before it are the latest of those that were there, in their order.
pub proof fn log_is_bounded(log: Seq<SessionView>, query: Seq<char>, answer: Seq<char>)
    ensures
        1 <= logged(log, query, answer).len() <= SESSIONS_KEPT,
        logged(log, query, answer).last() == (SessionView {
            query: truncated(query, QUERY_CAP as nat),
            answer: truncated(answer, ANSWER_CAP as nat),
        }),
        logged(log, query, answer).drop_last() == last_items(log, (SESSIONS_KEPT - 1) as nat),
{
    assert(logged(log, query, answer).drop_last() =~= last_items(log, (SESSIONS_KEPT - 1) as nat));
}

/// The last items of a list are its end: as many as there are or as were asked for, each in its
/// place.
pub proof fn last_items_are_the_end<T>(s: Seq<T>, n: nat)
    ensures
        last_items(s, n).len() == (if s.len() <= n {
            s.len()
        } else {
            n
        }),
        forall|i: int|
            0 <= i < last_items(s, n).len() ==> #[trigger] last_items(s, n)[i] == s[s.len() - last_items(s, n).len()
                + i],
{
}

proof fn lines_of_sessions(log: Seq<SessionView>, n: nat, i: int)
    requires
        1 <= i <= n <= log.len(),
    ensures
        holds(session_lines(log, n), session_line(log[log.len() - i])),
    decreases n,
{
    let fore = session_lines(log, (n - 1) as nat);
    let last = session_line(log[log.len() - n]);
    if i == n {
        crate::text_laws::parts_are_found(fore, last, Seq::empty());
        assert(fore + last + Seq::<char>::empty() =~= session_lines(log, n));
    } else {
        lines_of_sessions(log, (n - 1) as nat, i);
        crate::text_laws::parts_of_parts_stand(Seq::empty(), fore, last, session_line(log[log.len() - i]));
        assert(Seq::<char>::empty() + fore + last =~= session_lines(log, n));
    }
}

/// The latest sessions are surfaced: before it is cut, the digest tells of each of the last five
/// sessions its question and its answer.
pub proof fn latest_sessions_are_surfaced(keys: Seq<Seq<char>>, log: Seq<SessionView>, i: int)
    requires
        1 <= i <= log.len(),
        i <= 5,
        log[log.len() - i].query.len() <= 120,
        log[log.len() - i].answer.len() <= 200,
    ensures
        holds(
            digest_text(keys, log),
            "  - Q: "@ + log[log.len() - i].query + " | A: "@ + log[log.len() - i].answer + "\n"@,
        ),
{
    let s = log[log.len() - i];
    let n = sessions_shown(log);
    lines_of_sessions(log, n, i);
    crate::text_laws::cutting_keeps_the_front(s.query, 120);
    crate::text_laws::cutting_keeps_the_front(s.answer, 200);
    let facts = if keys.len() == 0 {
        Seq::<char>::empty()
    } else {
        "Persistent memory facts (use recall(key) for values):\n"@ + fact_lines(keys)
    };
    let front = facts + "Recent sessions:\n"@;
    crate::text_laws::parts_of_parts_stand(front, session_lines(log, n), Seq::empty(), session_line(s));
    assert(front + session_lines(log, n) + Seq::<char>::empty() =~= digest_text(keys, log));
}

/// An empty memory has nothing to tell, and a digest is the whole of what there is to tell where it
/// is short.
pub proof fn a_digest_tells_all(memory: Memory, max_chars: usize, r: String)
    requires
        memory.wf(),
        call_ensures(Memory::digest, (&memory, max_chars), r),
    ensures
        memory.facts.keys().len() == 0 && memory.sessions@.len() == 0 ==> r@ == Seq::<char>::empty(),
        digest_text(memory.facts.keys(), memory@.sessions).len() <= max_chars ==> r@ == digest_text(
            memory.facts.keys(),
            memory@.sessions,
        ),
{
    crate::text_laws::cutting_keeps_the_front(
        digest_text(memory.facts.keys(), memory@.sessions),
        max_chars as nat,
    );
    assert(memory@.sessions.len() == memory.sessions@.len());
    assert(Seq::<char>::empty() + Seq::<char>::empty() =~= Seq::<char>::empty());
}

/// A fact is recalled as it is kept.
pub proof fn a_fact_is_recalled(memory: Memory, key: &str, r: Option<&String>)
    requires
        memory.wf(),
        call_ensures(Memory::recall, (&memory, key), r),
    ensures
        r is Some <==> memory@.facts.contains_key(key@),
        r matches Some(value) ==> value@ == memory@.facts[key@],
{
}

/// A digest shows the latest session first, and the keys in their order.
pub proof fn the_latest_comes_first(log: Seq<SessionView>, s: SessionView, n: nat, a: Seq<Seq<char>>, b: Seq<Seq<char>>)
    requires
        n <= log.len(),
    ensures
        session_lines(log.push(s), n + 1) == session_line(s) + session_lines(log, n),
        fact_lines(a + b) == fact_lines(a) + fact_lines(b),
    decreases n + b.len(),
{
    let more = log.push(s);
    if n == 0 {
        reveal_with_fuel(session_lines, 2);
        assert(session_lines(more, 1) =~= session_line(s) + session_lines(log, 0));
    } else {
        the_latest_comes_first(log, s, (n - 1) as nat, a, seq![]);
        assert(more[more.len() - (n + 1)] == log[log.len() - n]);
        assert(session_lines(more, n + 1) =~= session_line(s) + session_lines(log, n));
    }
    if b.len() == 0 {
        assert(a + b =~= a);
        assert(fact_lines(a) + fact_lines(b) =~= fact_lines(a));
    } else {
        the_latest_comes_first(log, s, 0, a, b.drop_last());
        assert((a + b).drop_last() =~= a + b.drop_last());
        assert(fact_lines(a + b) =~= fact_lines(a) + fact_lines(b));
    }
}

} // verus!
