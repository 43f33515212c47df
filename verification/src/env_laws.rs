//! What holds of every script: what it is given for what it asks.
use vstd::prelude::*;

use crate::client::{ChatRequest, LlmClient};
use crate::config::RlmConfig;
use crate::env::{
    context_entry, context_named, context_slice, contexts_view, llm, names_of, nested_reply, sub_reply, EvalState,
    SubCall, PEEK_CAP, SINGLE_SHOT_SLICE_CAP,
};
use crate::grep::{
    grep_hits, hit_line, hit_lines, hits_of, matches_of, regex_error, regex_matches, report, GREP_LINE_CAP,
};
use crate::memory::Memory;
use crate::text::{begins, decimal, holds, joined, line_starts, lines_of, min, slice_of, trimmed, truncated};
use crate::text_laws::{
    cutting_keeps_the_front, joined_texts_stand, lines_leave_nothing_out, parts_are_found, parts_of_parts_stand,
    slices_are_in_place,
};

verus! {

// ----------------------------------------------------------------- contexts

/// Whether the context at `i` is the first with a name.
pub open spec fn first_named(contexts: Seq<(String, String)>, name: Seq<char>, i: int) -> bool {
    &&& 0 <= i < contexts.len()
    &&& contexts[i].0@ == name
    &&& forall|j: int| 0 <= j < i ==> (#[trigger] contexts[j]).0@ != name
}

/// Whether no context has a name.
pub open spec fn none_named(contexts: Seq<(String, String)>, name: Seq<char>) -> bool {
    forall|j: int| 0 <= j < contexts.len() ==> (#[trigger] contexts[j]).0@ != name
}

proof fn named_by_place(contexts: Seq<(Seq<char>, Seq<char>)>, name: Seq<char>, i: int)
    requires
        0 <= i <= contexts.len(),
        i < contexts.len() ==> contexts[i].0 == name,
        forall|j: int| 0 <= j < i ==> (#[trigger] contexts[j]).0 != name,
    ensures
        context_named(contexts, name) == (if i < contexts.len() {
            Some(contexts[i].1)
        } else {
            None
        }),
    decreases contexts.len(),
{
    if i > 0 {
        assert(contexts[0].0 != name);
        assert forall|j: int| 0 <= j < i - 1 implies (#[trigger] contexts.skip(1)[j]).0 != name by {
            assert(contexts.skip(1)[j] == contexts[j + 1]);
        }
        if i < contexts.len() {
            assert(contexts.skip(1)[i - 1] == contexts[i]);
        }
        named_by_place(contexts.skip(1), name, i - 1);
    }
}

proof fn first_is_found(contexts: Seq<(String, String)>, name: Seq<char>, i: int)
    requires
        first_named(contexts, name, i),
    ensures
        context_named(contexts_view(contexts), name) == Some(contexts[i].1@),
{
    assert forall|j: int| 0 <= j < i implies (#[trigger] contexts_view(contexts)[j]).0 != name by {
        assert(contexts[j].0@ != name);
    }
    named_by_place(contexts_view(contexts), name, i);
}

proof fn none_is_found(contexts: Seq<(String, String)>, name: Seq<char>)
    requires
        none_named(contexts, name),
    ensures
        context_named(contexts_view(contexts), name) is None,
{
    assert forall|j: int| 0 <= j < contexts.len() implies (#[trigger] contexts_view(contexts)[j]).0 != name by {
        assert(contexts[j].0@ != name);
    }
    named_by_place(contexts_view(contexts), name, contexts.len() as int);
}

/// Where a slice of a text begins.
pub open spec fn slice_start(start: int) -> int {
    if start < 0 {
        0
    } else {
        start
    }
}

/// How many characters of a text a slice can have.
pub open spec fn slice_size(total: int, start: int, len: int) -> int {
    let left = total - slice_start(start);
    if len <= 0 || left <= 0 {
        0
    } else if len <= left {
        len
    } else {
        left
    }
}

proof fn slice_by_place(s: Seq<char>, start: int, len: int)
    ensures
        slice_of(s, start, len).len() == slice_size(s.len() as int, start, len),
        forall|k: int|
            0 <= k < slice_size(s.len() as int, start, len) ==> slice_of(s, start, len)[k] == s[slice_start(start) + k],
{
    slices_are_in_place(s, start, len);
}

/// A reading gives the characters of the first context of that name from `start` on, one for one:
/// as many as were asked for, as there are, and as one reading may have.
pub proof fn a_reading_is_of_its_context(
    state: EvalState,
    name: &str,
    start: i64,
    len: i64,
    r: String,
    i: int,
)
    requires
        call_ensures(EvalState::peek, (&state, name, start, len), r),
        first_named(state.contexts@, name@, i),
    ensures
        ({
            let content = state.contexts@[i].1@;
            let size = slice_size(content.len() as int, start as int, len as int);
            &&& r@.len() == (if size <= 16_000 {
                size
            } else {
                16_000
            })
            &&& forall|k: int| 0 <= k < r@.len() ==> r@[k] == content[slice_start(start as int) + k]
        }),
{
    first_is_found(state.contexts@, name@, i);
    slice_by_place(state.contexts@[i].1@, start as int, min(len as int, PEEK_CAP as int));
}

/// A slice of a context is the characters of the first context of that name from `start` on; where
/// no context has the name, what is said begins with the name that was asked for and shows the names
/// that there are.
pub proof fn a_slice_is_of_its_context(
    contexts: Vec<(String, String)>,
    name: &str,
    start: i64,
    len: i64,
    r: Result<String, String>,
    i: int,
)
    requires
        call_ensures(context_slice, (&contexts, name, start, len), r),
    ensures
        first_named(contexts@, name@, i) ==> {
            let content = contexts@[i].1@;
            &&& r is Ok
            &&& r->Ok_0@.len() == slice_size(content.len() as int, start as int, len as int)
            &&& forall|k: int| 0 <= k < r->Ok_0@.len() ==> r->Ok_0@[k] == content[slice_start(start as int) + k]
        },
        none_named(contexts@, name@) ==> {
            &&& r is Err
            &&& begins(r->Err_0@, "[error] no context named '"@ + name@ + "'. Available: ["@)
            &&& forall|j: int|
                0 <= j < contexts@.len() ==> holds(
                    r->Err_0@,
                    #[trigger] crate::env::debug_text(contexts@[j].0@),
                )
        },
{
    if first_named(contexts@, name@, i) {
        first_is_found(contexts@, name@, i);
        slice_by_place(contexts@[i].1@, start as int, len as int);
    }
    if none_named(contexts@, name@) {
        none_is_found(contexts@, name@);
        missing_is_told(contexts@, name@, r->Err_0@);
    }
}

proof fn missing_is_told(contexts: Seq<(String, String)>, name: Seq<char>, e: Seq<char>)
    requires
        e == crate::env::no_context(
            name,
            names_of(contexts_view(contexts)).map_values(|n: Seq<char>| crate::env::debug_text(n)),
        ),
    ensures
        begins(e, "[error] no context named '"@ + name + "'. Available: ["@),
        forall|j: int|
            0 <= j < contexts.len() ==> holds(e, #[trigger] crate::env::debug_text(contexts[j].0@)),
{
    let quoted = names_of(contexts_view(contexts)).map_values(|n: Seq<char>| crate::env::debug_text(n));
    let head = "[error] no context named '"@ + name + "'. Available: ["@;
    assert(e =~= head + joined(quoted, ", "@) + "]"@);
    assert(e.take(head.len() as int) =~= head);
    assert forall|j: int| 0 <= j < contexts.len() implies holds(
        e,
        #[trigger] crate::env::debug_text(contexts[j].0@),
    ) by {
        assert(quoted[j] == crate::env::debug_text(contexts[j].0@));
        joined_texts_stand(quoted, ", "@, j);
        parts_of_parts_stand(head, joined(quoted, ", "@), "]"@, quoted[j]);
    }
}

/// The size of a context is the number of its characters, and -1 stands for no context.
pub proof fn a_size_is_of_its_context(state: EvalState, name: &str, r: i64, i: int)
    requires
        call_ensures(EvalState::ctx_len, (&state, name), r),
    ensures
        first_named(state.contexts@, name@, i) && state.contexts@[i].1@.len() <= i64::MAX ==> r
            == state.contexts@[i].1@.len(),
        none_named(state.contexts@, name@) ==> r == -1,
{
    if first_named(state.contexts@, name@, i) {
        first_is_found(state.contexts@, name@, i);
    }
    if none_named(state.contexts@, name@) {
        none_is_found(state.contexts@, name@);
    }
}

/// The listing shows every context with its name and its size.
pub proof fn every_context_is_listed(state: EvalState, r: String, i: int)
    requires
        call_ensures(EvalState::ctx_list, (&state,), r),
        0 <= i < state.contexts@.len(),
    ensures
        holds(r@, state.contexts@[i].0@ + " ("@ + decimal(state.contexts@[i].1@.len()) + " chars)"@),
{
    let contexts = contexts_view(state.contexts@);
    let entries = contexts.map_values(|c: (Seq<char>, Seq<char>)| context_entry(c));
    assert(entries[i] == context_entry(contexts[i]));
    joined_texts_stand(entries, "\n"@, i);
}

// ---------------------------------------------------------------- sub-calls

/// The beginning of what a grounded chat is told, in front of the excerpt.
pub open spec fn grounding(name: Seq<char>) -> Seq<char> {
    "Answer the user's question using ONLY the following excerpt from '"@ + name
        + "'. If the answer is not in the excerpt, say so.\n--- EXCERPT ---\n"@
}

/// A sub-call over a slice is over exactly the characters that were asked for. A slice with none is
/// an error. One above the threshold, within the depth, gets a loop of its own with the whole slice
/// as its one context. Any other is one chat with the server for sub-calls, which is told the slice
/// between the marks, as far as an excerpt may be long, and asked the question itself.
pub proof fn a_sub_call_is_grounded_on_its_slice(
    state: EvalState,
    cfg: RlmConfig,
    sub: LlmClient,
    depth: u32,
    prompt: &str,
    name: &str,
    start: i64,
    len: i64,
    r: SubCall,
    i: int,
)
    requires
        call_ensures(EvalState::llm_on, (&state, &cfg, &sub, depth, prompt, name, start, len), r),
        first_named(state.contexts@, name@, i),
    ensures
        ({
            let content = state.contexts@[i].1@;
            let size = slice_size(content.len() as int, start as int, len as int);
            let from = slice_start(start as int);
            let nested = depth + 1 < cfg.max_depth && size > cfg.recurse_threshold;
            &&& r is Answer <==> size == 0
            &&& r is Nested <==> size > 0 && nested
            &&& r matches SubCall::Answer(e) ==> e@ == "[error] empty slice"@
            &&& r matches SubCall::Nested { contexts, depth: deeper } ==> {
                &&& deeper == depth + 1
                &&& contexts@.len() == 1
                &&& contexts@[0].0@ == "excerpt"@
                &&& contexts@[0].1@.len() == size
                &&& forall|k: int| 0 <= k < size ==> contexts@[0].1@[k] == content[from + k]
            }
            &&& r matches SubCall::Single(request) ==> {
                let told = request.messages@[0].content@;
                let head = grounding(name@);
                &&& request.messages@.len() == 2
                &&& request.messages@[0].role@ == "system"@
                &&& request.messages@[1].role@ == "user"@
                &&& request.messages@[1].content@ == prompt@
                &&& request.max_tokens == cfg.sub_max_tokens
                &&& request.enable_thinking == sub.thinking
                &&& request.url@ == sub.base_url@ + "/v1/chat/completions"@
                &&& begins(told, head)
                &&& told.len() >= head.len() + (if size <= 80_000 {
                    size
                } else {
                    80_000
                })
                &&& forall|k: int|
                    0 <= k < size && k < 80_000 ==> #[trigger] told[head.len() + k] == content[from + k]
                &&& size <= 80_000 ==> told.skip(head.len() + size) == "\n--- END EXCERPT ---"@
            }
        }),
{
    let content = state.contexts@[i].1@;
    let size = slice_size(content.len() as int, start as int, len as int);
    let slice = slice_of(content, start as int, len as int);
    first_is_found(state.contexts@, name@, i);
    slice_by_place(content, start as int, len as int);
    cutting_keeps_the_front(slice, SINGLE_SHOT_SLICE_CAP as nat);
    match r {
        SubCall::Answer(e) => {},
        SubCall::Nested { contexts, depth: deeper } => {
            assert(contexts_view(contexts@) == seq![("excerpt"@, slice)]);
            assert(contexts_view(contexts@).len() == contexts@.len());
            assert(contexts_view(contexts@)[0] == (contexts@[0].0@, contexts@[0].1@));
        },
        SubCall::Single(request) => {
            let told = request.messages@[0].content@;
            let head = grounding(name@);
            let excerpt = truncated(slice, SINGLE_SHOT_SLICE_CAP as nat);
            let seen = request@.messages;
            assert(seen == crate::env::excerpt_chat(prompt@, name@, slice));
            assert(seen.len() == request.messages@.len());
            assert(seen[0] == request.messages@[0]@ && seen[1] == request.messages@[1]@);
            assert(told =~= head + excerpt + "\n--- END EXCERPT ---"@);
            assert(told.take(head.len() as int) =~= head);
            assert forall|k: int| 0 <= k < size && k < 80_000 implies #[trigger] told[head.len() + k] == content[
                slice_start(start as int) + k] by {
                assert(told[head.len() + k] == excerpt[k]);
                assert(excerpt[k] == slice[k]);
            }
            if size <= 80_000 {
                assert(told.skip(head.len() + size) =~= "\n--- END EXCERPT ---"@);
            }
        },
    }
}

/// A sub-call over a context that is not there is answered by saying so, and asks no model.
pub proof fn a_sub_call_needs_its_context(
    state: EvalState,
    cfg: RlmConfig,
    sub: LlmClient,
    depth: u32,
    prompt: &str,
    name: &str,
    start: i64,
    len: i64,
    r: SubCall,
)
    requires
        call_ensures(EvalState::llm_on, (&state, &cfg, &sub, depth, prompt, name, start, len), r),
        none_named(state.contexts@, name@),
    ensures
        r matches SubCall::Answer(e) && begins(e@, "[error] no context named '"@ + name@ + "'. Available: ["@),
{
    none_is_found(state.contexts@, name@);
    missing_is_told(state.contexts@, name@, r->Answer_0@);
}

/// A plain sub-call asks the server for sub-calls the question itself, and attaches no context.
pub proof fn a_plain_sub_call_asks_the_question(
    cfg: RlmConfig,
    sub: LlmClient,
    prompt: &str,
    r: ChatRequest,
)
    requires
        call_ensures(llm, (&cfg, &sub, prompt), r),
    ensures
        r.messages@.len() == 2,
        r.messages@[0].role@ == "system"@,
        r.messages@[0].content@ == "You are a capable assistant. Answer concisely and directly."@,
        r.messages@[1].role@ == "user"@,
        r.messages@[1].content@ == prompt@,
        r.max_tokens == cfg.sub_max_tokens,
        r.enable_thinking == sub.thinking,
        r.url@ == sub.base_url@ + "/v1/chat/completions"@,
{
    let seen = r@.messages;
    assert(seen == crate::env::plain_chat(prompt@));
    assert(seen.len() == r.messages@.len());
    assert(seen[0] == r.messages@[0]@ && seen[1] == r.messages@[1]@);
}

/// A script is given the answer of a sub-call as it came, and what went wrong in full.
pub proof fn sub_answers_are_handed_on(reply: Result<String, String>, single: String, nested: String)
    requires
        call_ensures(sub_reply, (reply,), single),
        call_ensures(nested_reply, (reply,), nested),
    ensures
        reply matches Ok(s) ==> single@ == s@ && nested@ == s@,
        reply matches Err(e) ==> single@ == "[error] sub-call failed: "@ + e@,
        reply matches Err(e) ==> nested@ == "[error] recursive call failed: "@ + e@,
{
}

/// A script that may use the memory reads under a key what is kept there, and is told where nothing
/// is; it reads every key that there is.
pub proof fn facts_are_read_by_key(state: EvalState, memory: Memory, key: &str, r: String, keys: String, i: int)
    requires
        state.allow_memory,
        memory.wf(),
        call_ensures(EvalState::recall, (&state, &memory, key), r),
        call_ensures(EvalState::memory_keys, (&state, &memory), keys),
    ensures
        memory@.facts.contains_key(key@) ==> r@ == memory@.facts[key@],
        !memory@.facts.contains_key(key@) ==> r@ == "[error] no memory for key '"@ + key@ + "'"@,
        0 <= i < memory.facts.keys().len() ==> holds(keys@, memory.facts.keys()[i]),
{
    if 0 <= i < memory.facts.keys().len() {
        joined_texts_stand(memory.facts.keys(), "\n"@, i);
    }
}

// ---------------------------------------------------------------- searching

/// How many of the first `k` lines match.
pub open spec fn matching(matched: Seq<bool>, k: nat) -> nat
    decreases k,
{
    if k == 0 {
        0
    } else {
        matching(matched, (k - 1) as nat) + (if matched[k - 1] {
            1nat
        } else {
            0
        })
    }
}

proof fn every_match_is_a_hit(
    lines: Seq<Seq<char>>,
    starts: Seq<nat>,
    matched: Seq<bool>,
    k: nat,
)
    requires
        k <= lines.len(),
    ensures
        hits_of(lines, starts, matched, k).len() == matching(matched, k),
        forall|j: int|
            0 <= j < k && matched[j] ==> hits_of(lines, starts, matched, k)[matching(matched, j as nat) as int] == (
                #[trigger] starts[j],
                #[trigger] lines[j],
            ) && matching(matched, j as nat) < matching(matched, k),
    decreases k,
{
    if k > 0 {
        every_match_is_a_hit(lines, starts, matched, (k - 1) as nat);
    }
}

proof fn starts_ascend(s: Seq<char>, a: int, b: int)
    requires
        0 <= a < b < lines_of(s).len(),
    ensures
        line_starts(s)[a] < line_starts(s)[b],
    decreases b - a,
{
    lines_leave_nothing_out(s);
    assert(crate::text_laws::line_ends_well(s, b - 1));
    let from = (line_starts(s)[b - 1] + lines_of(s)[b - 1].len()) as int;
    let end = s.subrange(from, line_starts(s)[b] as int);
    assert(end == seq!['\n'] || end == seq!['\r', '\n']);
    assert(end.len() >= 1);
    if a < b - 1 {
        starts_ascend(s, a, b - 1);
    }
}

proof fn more_lines_more_matches(matched: Seq<bool>, a: nat, b: nat)
    requires
        a <= b,
    ensures
        matching(matched, a) <= matching(matched, b),
    decreases b,
{
    if a < b {
        more_lines_more_matches(matched, a, (b - 1) as nat);
    }
}

/// A search leaves no line out: every line of a content that the pattern matches is a hit, with its
/// start and its text. There are as many hits as lines that match, and each hit stands behind the
/// hits of all lines before it.
pub proof fn a_search_is_complete(content: Seq<char>, pattern: Seq<char>)
    ensures
        grep_hits(content, pattern).len() == matching(
            Seq::new(lines_of(content).len(), |j: int| regex_matches(pattern, lines_of(content)[j])),
            lines_of(content).len(),
        ),
        forall|j: int|
            0 <= j < lines_of(content).len() && regex_matches(pattern, #[trigger] lines_of(content)[j])
                ==> grep_hits(content, pattern).contains((line_starts(content)[j], lines_of(content)[j])),
        forall|g: int, h: int|
            0 <= g < h < grep_hits(content, pattern).len() ==> (#[trigger] grep_hits(content, pattern)[g]).0
                < (#[trigger] grep_hits(content, pattern)[h]).0,
{
    let lines = lines_of(content);
    let starts = line_starts(content);
    let matched = matches_of(lines, pattern);
    let n = lines.len();
    assert(matched =~= Seq::new(n, |j: int| regex_matches(pattern, lines[j])));
    every_match_is_a_hit(lines, starts, matched, n);
    assert forall|j: int| 0 <= j < n && regex_matches(pattern, #[trigger] lines[j]) implies grep_hits(
        content,
        pattern,
    ).contains((starts[j], lines[j])) by {
        assert(matched[j]);
        assert(starts[j] == starts[j]);
        assert(grep_hits(content, pattern)[matching(matched, j as nat) as int] == (starts[j], lines[j]));
    }
    assert forall|g: int, h: int| 0 <= g < h < grep_hits(content, pattern).len() implies (#[trigger] grep_hits(
        content,
        pattern,
    )[g]).0 < (#[trigger] grep_hits(content, pattern)[h]).0 by {
        let a = line_of_hit(matched, n, g);
        let b = line_of_hit(matched, n, h);
        assert(starts[a] == starts[a] && lines[a] == lines[a]);
        assert(starts[b] == starts[b] && lines[b] == lines[b]);
        if b <= a {
            more_lines_more_matches(matched, b as nat, a as nat);
        }
        starts_ascend(content, a, b);
    }
}

proof fn line_of_hit(matched: Seq<bool>, k: nat, h: int) -> (j: int)
    requires
        0 <= h < matching(matched, k),
    ensures
        0 <= j < k,
        matched[j],
        matching(matched, j as nat) == h,
    decreases k,
{
    if h < matching(matched, (k - 1) as nat) {
        line_of_hit(matched, (k - 1) as nat, h)
    } else {
        k - 1
    }
}

proof fn shown_hits_stand(hits: Seq<(nat, Seq<char>)>, n: nat, h: int)
    requires
        0 <= h < n <= hits.len(),
    ensures
        holds(hit_lines(hits, n), hit_line(hits[h])),
    decreases n,
{
    let fore = hit_lines(hits, (n - 1) as nat);
    let last = hit_line(hits[n - 1]);
    if h == n - 1 {
        parts_are_found(fore, last, Seq::empty());
        assert(fore + last + Seq::<char>::empty() =~= hit_lines(hits, n));
    } else {
        shown_hits_stand(hits, (n - 1) as nat, h);
        parts_of_parts_stand(Seq::empty(), fore, last, hit_line(hits[h]));
        assert(Seq::<char>::empty() + fore + last =~= hit_lines(hits, n));
    }
}

/// A report says how many more hits there are where not all are shown, and says so where there are
/// none.
pub proof fn a_report_counts_the_rest(hits: Seq<(nat, Seq<char>)>)
    ensures
        hits.len() == 0 ==> report(hits) == "(no matches)"@,
        hits.len() > 80 ==> holds(
            report(hits),
            "...("@ + decimal((hits.len() - 80) as nat) + " more matches not shown)\n"@,
        ),
{
    if hits.len() > 80 {
        let rest = (hits.len() - 80) as nat;
        let shown = hit_lines(hits, 80);
        the_rest_stands(shown, rest, report(hits));
    }
}

proof fn the_rest_stands(shown: Seq<char>, rest: nat, whole: Seq<char>)
    requires
        whole == shown + "...("@ + decimal(rest) + " more matches not shown)\n"@,
    ensures
        holds(whole, "...("@ + decimal(rest) + " more matches not shown)\n"@),
{
    let more = "...("@ + decimal(rest) + " more matches not shown)\n"@;
    assert(whole =~= shown + more + Seq::<char>::empty());
    parts_are_found(shown, more, Seq::empty());
}

/// Each of the first hits stands in the report.
pub proof fn a_hit_stands_in_its_report(hits: Seq<(nat, Seq<char>)>, h: int)
    requires
        0 <= h < hits.len(),
        h < 80,
    ensures
        holds(report(hits), hit_line(hits[h])),
{
    if hits.len() <= 80 {
        shown_hits_stand(hits, hits.len(), h);
    } else {
        let shown = hit_lines(hits, 80);
        let more = "...("@ + decimal((hits.len() - 80) as nat) + " more matches not shown)\n"@;
        shown_hits_stand(hits, 80, h);
        parts_of_parts_stand(Seq::empty(), shown, more, hit_line(hits[h]));
        assert(Seq::<char>::empty() + shown + more =~= report(hits));
    }
}

/// A hit shows its offset behind an at sign, and behind it the line without the white space around
/// it, as far as a line is shown.
pub proof fn a_hit_shows_its_line(hit: (nat, Seq<char>))
    ensures
        trimmed(hit.1).len() <= 240 ==> holds(
            hit_line(hit),
            "@"@ + decimal(hit.0) + ": "@ + trimmed(hit.1) + "\n"@,
        ),
        trimmed(hit.1).len() > 240 ==> holds(
            hit_line(hit),
            "@"@ + decimal(hit.0) + ": "@ + trimmed(hit.1).take(240),
        ),
{
    let line = trimmed(hit.1);
    cutting_keeps_the_front(line, GREP_LINE_CAP as nat);
    let front = "@"@ + decimal(hit.0) + ": "@;
    if line.len() <= 240 {
        let wanted = front + line + "\n"@;
        parts_are_found(Seq::empty(), wanted, Seq::empty());
        assert(Seq::<char>::empty() + wanted + Seq::<char>::empty() =~= hit_line(hit));
    } else {
        let wanted = front + line.take(240);
        let cut = truncated(line, GREP_LINE_CAP as nat);
        assert(cut =~= line.take(240) + cut.skip(240));
        parts_are_found(Seq::empty(), wanted, cut.skip(240) + "\n"@);
        assert(Seq::<char>::empty() + wanted + (cut.skip(240) + "\n"@) =~= hit_line(hit));
    }
}

/// A search of a context is a search of the first context of that name; a pattern that does not
/// compile and a context that is not there are told, and nothing is searched.
pub proof fn a_search_is_of_its_context(state: EvalState, name: &str, pattern: &str, r: String, i: int)
    requires
        call_ensures(EvalState::grep, (&state, name, pattern), r),
    ensures
        regex_error(pattern@) matches Some(e) ==> r@ == "[error] bad regex: "@ + e,
        regex_error(pattern@) is None && none_named(state.contexts@, name@) ==> r@
            == "[error] no context named '"@ + name@ + "'"@,
        regex_error(pattern@) is None && first_named(state.contexts@, name@, i) ==> r@ == report(
            grep_hits(state.contexts@[i].1@, pattern@),
        ),
{
    if first_named(state.contexts@, name@, i) {
        first_is_found(state.contexts@, name@, i);
    }
    if none_named(state.contexts@, name@) {
        none_is_found(state.contexts@, name@);
    }
}

} // verus!
