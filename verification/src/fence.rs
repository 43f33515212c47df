//! The script in a model's message: the first fenced code block.
//!
//! A block opens with three backticks, a language tag or none, blanks and a line end. It closes
//! at the next three backticks, wherever they stand.
use vstd::prelude::*;

use crate::text::{chars_of, holds, opt_view, stands_at};

verus! {

/// Three backticks behind the first `i` characters.
pub open spec fn is_fence(s: Seq<char>, i: int) -> bool {
    0 <= i && i + 3 <= s.len() && s[i] == '`' && s[i + 1] == '`' && s[i + 2] == '`'
}

/// The first place at or behind `j` that holds no blank.
pub open spec fn blanks_end(s: Seq<char>, j: int) -> int
    decreases s.len() - j,
{
    if 0 <= j < s.len() && (s[j] == ' ' || s[j] == '\t') {
        blanks_end(s, j + 1)
    } else {
        j
    }
}

/// Where the next line begins, if nothing but blanks and a line end stand behind `j`.
pub open spec fn next_line(s: Seq<char>, j: int) -> Option<int> {
    let k = blanks_end(s, j);
    if 0 <= k < s.len() && s[k] == '\n' {
        Some(k + 1)
    } else if 0 <= k && k + 1 < s.len() && s[k] == '\r' && s[k + 1] == '\n' {
        Some(k + 2)
    } else {
        None
    }
}

/// Where the next line begins, if a tag stands at `j` and then nothing but blanks and a line end.
pub open spec fn tagged(s: Seq<char>, tag: Seq<char>, j: int) -> Option<int> {
    if stands_at(s, tag, j) {
        next_line(s, j + tag.len())
    } else {
        None
    }
}

/// Where the script begins, if a block opens at the fence at `i`.
pub open spec fn script_start(s: Seq<char>, i: int) -> Option<int> {
    if tagged(s, "rhai"@, i + 3) is Some {
        tagged(s, "rhai"@, i + 3)
    } else if tagged(s, "rust"@, i + 3) is Some {
        tagged(s, "rust"@, i + 3)
    } else if tagged(s, "js"@, i + 3) is Some {
        tagged(s, "js"@, i + 3)
    } else if tagged(s, "javascript"@, i + 3) is Some {
        tagged(s, "javascript"@, i + 3)
    } else {
        next_line(s, i + 3)
    }
}

/// The first fence at or behind `from`.
pub open spec fn fence_from(s: Seq<char>, from: int) -> Option<int>
    decreases s.len() - from,
{
    if from + 3 > s.len() {
        None
    } else if is_fence(s, from) {
        Some(from)
    } else {
        fence_from(s, from + 1)
    }
}

/// The script of the block that opens at `i`, if one does.
pub open spec fn block_at(s: Seq<char>, i: int) -> Option<Seq<char>> {
    if is_fence(s, i) {
        match script_start(s, i) {
            Some(h) => match fence_from(s, h) {
                Some(k) => Some(s.subrange(h, k)),
                None => None,
            },
            None => None,
        }
    } else {
        None
    }
}

/// The script of the first block that opens at or behind `i`.
pub open spec fn code_from(s: Seq<char>, i: int) -> Option<Seq<char>>
    decreases s.len() - i,
{
    if i + 3 > s.len() {
        None
    } else if block_at(s, i) is Some {
        block_at(s, i)
    } else {
        code_from(s, i + 1)
    }
}

/// The script of the first fenced block of a message.
pub open spec fn code_block(s: Seq<char>) -> Option<Seq<char>> {
    code_from(s, 0)
}

fn fence_at(cs: &Vec<char>, i: usize) -> (r: bool)
    requires
        i <= cs@.len(),
    ensures
        r == is_fence(cs@, i as int),
{
    cs.len() - i >= 3 && cs[i] == '`' && cs[i + 1] == '`' && cs[i + 2] == '`'
}

fn next_line_of(cs: &Vec<char>, j: usize) -> (r: Option<usize>)
    requires
        j <= cs@.len(),
    ensures
        match r {
            Some(h) => next_line(cs@, j as int) == Some(h as int) && j <= h <= cs@.len(),
            None => next_line(cs@, j as int) is None,
        },
{
    let mut k: usize = j;
    while k < cs.len() && (cs[k] == ' ' || cs[k] == '\t')
        invariant
            j <= k <= cs@.len(),
            blanks_end(cs@, j as int) == blanks_end(cs@, k as int),
        decreases cs@.len() - k,
    {
        k = k + 1;
    }
    if k < cs.len() && cs[k] == '\n' {
        Some(k + 1)
    } else if cs.len() - k >= 2 && cs[k] == '\r' && cs[k + 1] == '\n' {
        Some(k + 2)
    } else {
        None
    }
}

fn tagged_at(cs: &Vec<char>, tag: &str, j: usize) -> (r: Option<usize>)
    requires
        j <= cs@.len(),
    ensures
        match r {
            Some(h) => tagged(cs@, tag@, j as int) == Some(h as int) && j <= h <= cs@.len(),
            None => tagged(cs@, tag@, j as int) is None,
        },
{
    let ts = chars_of(tag);
    let n = cs.len();
    if crate::text::stands(cs, &ts, j) {
        assert(j + ts@.len() <= n);
        next_line_of(cs, j + ts.len())
    } else {
        None
    }
}

fn script_start_of(cs: &Vec<char>, i: usize) -> (r: Option<usize>)
    requires
        is_fence(cs@, i as int),
    ensures
        match r {
            Some(h) => script_start(cs@, i as int) == Some(h as int) && i <= h <= cs@.len(),
            None => script_start(cs@, i as int) is None,
        },
{
    let n = cs.len();
    assert(i + 3 <= n);
    if let Some(h) = tagged_at(cs, "rhai", i + 3) {
        return Some(h);
    }
    if let Some(h) = tagged_at(cs, "rust", i + 3) {
        return Some(h);
    }
    if let Some(h) = tagged_at(cs, "js", i + 3) {
        return Some(h);
    }
    if let Some(h) = tagged_at(cs, "javascript", i + 3) {
        return Some(h);
    }
    next_line_of(cs, i + 3)
}

fn fence_behind(cs: &Vec<char>, from: usize) -> (r: Option<usize>)
    requires
        from <= cs@.len(),
    ensures
        match r {
            Some(k) => fence_from(cs@, from as int) == Some(k as int) && from <= k <= cs@.len(),
            None => fence_from(cs@, from as int) is None,
        },
{
    let mut k: usize = from;
    while cs.len() - k >= 3
        invariant
            from <= k <= cs@.len(),
            fence_from(cs@, from as int) == fence_from(cs@, k as int),
        decreases cs@.len() - k,
    {
        if fence_at(cs, k) {
            return Some(k);
        }
        k = k + 1;
    }
    None
}

/// Takes the script out of a message.
pub fn extract_code(response: &str) -> (r: Option<String>)
    ensures
        opt_view(r) == code_block(response@),
{
    let cs = chars_of(response);
    let mut i: usize = 0;
    while cs.len() - i >= 3
        invariant
            cs@ == response@,
            i <= cs@.len(),
            code_block(response@) == code_from(cs@, i as int),
        decreases cs@.len() - i,
    {
        if fence_at(&cs, i) {
            if let Some(h) = script_start_of(&cs, i) {
                if let Some(k) = fence_behind(&cs, h) {
                    return Some(response.substring_char(h, k).to_owned());
                }
            }
        }
        i = i + 1;
    }
    None
}

proof fn fence_from_is_first(s: Seq<char>, from: int)
    requires
        0 <= from,
    ensures
        fence_from(s, from) matches Some(k) ==> from <= k && is_fence(s, k) && forall|j: int|
            from <= j < k ==> !is_fence(s, j),
        fence_from(s, from) is None ==> forall|j: int| from <= j ==> !is_fence(s, j),
    decreases s.len() - from,
{
    if from + 3 <= s.len() && !is_fence(s, from) {
        fence_from_is_first(s, from + 1);
    }
}

proof fn blanks_end_bounds(s: Seq<char>, j: int)
    ensures
        blanks_end(s, j) >= j,
    decreases s.len() - j,
{
    if 0 <= j < s.len() && (s[j] == ' ' || s[j] == '\t') {
        blanks_end_bounds(s, j + 1);
    }
}

proof fn script_start_bounds(s: Seq<char>, i: int)
    requires
        0 <= i,
    ensures
        script_start(s, i) matches Some(h) ==> i + 3 < h,
{
    blanks_end_bounds(s, i + 3);
    blanks_end_bounds(s, i + 3 + "rhai"@.len());
    blanks_end_bounds(s, i + 3 + "rust"@.len());
    blanks_end_bounds(s, i + 3 + "js"@.len());
    blanks_end_bounds(s, i + 3 + "javascript"@.len());
}

proof fn code_from_is_a_block(s: Seq<char>, i: int)
    requires
        0 <= i,
        code_from(s, i) is Some,
    ensures
        exists|j: int| i <= j && #[trigger] block_at(s, j) == code_from(s, i),
    decreases s.len() - i,
{
    if block_at(s, i) is None {
        code_from_is_a_block(s, i + 1);
    }
}

/// A script stands between two fences of the message, and holds no fence itself.
pub proof fn script_is_between_fences(s: Seq<char>)
    requires
        code_block(s) is Some,
    ensures
        exists|i: int, h: int, k: int|
            #![trigger s.subrange(h, k), is_fence(s, i)]
            is_fence(s, i) && i + 3 < h <= k && is_fence(s, k) && code_block(s) == Some(s.subrange(h, k)),
        !holds(code_block(s)->0, "```"@),
{
    code_from_is_a_block(s, 0);
    let i = choose|j: int| 0 <= j && #[trigger] block_at(s, j) == code_from(s, 0);
    let h = script_start(s, i)->0;
    script_start_bounds(s, i);
    fence_from_is_first(s, h);
    let k = fence_from(s, h)->0;
    assert(code_block(s) == Some(s.subrange(h, k)));
    let code = s.subrange(h, k);
    assert(is_fence(s, i));
    reveal_strlit("```");
    assert forall|p: int| !stands_at(code, "```"@, p) by {
        if stands_at(code, "```"@, p) {
            let part = code.subrange(p, p + 3);
            assert(part[0] == '`' && part[1] == '`' && part[2] == '`');
            assert(is_fence(s, h + p));
        }
    }
}

// -------------------------------------------------------------- found blocks

proof fn blanks_end_at(s: Seq<char>, j: int, k: int)
    requires
        0 <= j <= k < s.len(),
        forall|i: int| j <= i < k ==> s[i] == ' ' || s[i] == '\t',
        s[k] != ' ' && s[k] != '\t',
    ensures
        blanks_end(s, j) == k,
    decreases k - j,
{
    if j < k {
        blanks_end_at(s, j + 1, k);
    }
}

proof fn no_tag_without_letters(s: Seq<char>, tag: Seq<char>, j: int)
    requires
        0 <= j < s.len(),
        tag.len() > 0,
        tag[0] != s[j],
    ensures
        tagged(s, tag, j) is None,
{
    if stands_at(s, tag, j) {
        assert(s.subrange(j, j + tag.len())[0] == s[j]);
    }
}

proof fn nothing_before(s: Seq<char>, i: int, j: int)
    requires
        0 <= i <= j,
        j + 3 <= s.len(),
        forall|k: int| i <= k < j ==> !is_fence(s, k),
    ensures
        code_from(s, i) == code_from(s, j),
    decreases j - i,
{
    if i < j {
        nothing_before(s, i + 1, j);
    }
}

proof fn next_fence(s: Seq<char>, from: int, k: int)
    requires
        0 <= from <= k,
        is_fence(s, k),
        forall|j: int| from <= j < k ==> !is_fence(s, j),
    ensures
        fence_from(s, from) == Some(k),
    decreases k - from,
{
    if from < k {
        next_fence(s, from + 1, k);
    }
}

/// A message with a block in it: what stands before it, a fence with blanks and a line feed behind
/// it, the script, a fence, and what stands behind.
pub open spec fn with_block(
    before: Seq<char>,
    tag: Seq<char>,
    blanks: Seq<char>,
    code: Seq<char>,
    after: Seq<char>,
) -> Seq<char> {
    before + "```"@ + tag + blanks + "\n"@ + code + "```"@ + after
}

/// Whether no backtick stands in a text.
pub open spec fn no_backtick(s: Seq<char>) -> bool {
    forall|i: int| 0 <= i < s.len() ==> #[trigger] s[i] != '`'
}

proof fn block_is_laid_out(
    before: Seq<char>,
    tag: Seq<char>,
    blanks: Seq<char>,
    code: Seq<char>,
    after: Seq<char>,
)
    ensures
        ({
            let s = with_block(before, tag, blanks, code, after);
            let i = before.len() as int;
            let t = i + 3;
            let b = t + tag.len();
            let h = b + blanks.len() + 1;
            let k = h + code.len();
            &&& s.len() == k + 3 + after.len()
            &&& forall|j: int| 0 <= j < before.len() ==> s[j] == before[j]
            &&& s[i] == '`' && s[i + 1] == '`' && s[i + 2] == '`'
            &&& s.subrange(t, b) == tag
            &&& forall|j: int| b <= j < h - 1 ==> s[j] == blanks[j - b]
            &&& s[h - 1] == '\n'
            &&& s.subrange(h, k) == code
            &&& s[k] == '`' && s[k + 1] == '`' && s[k + 2] == '`'
        }),
{
    reveal_strlit("```");
    reveal_strlit("\n");
    let s = with_block(before, tag, blanks, code, after);
    let i = before.len() as int;
    let t = i + 3;
    let b = t + tag.len();
    let h = b + blanks.len() + 1;
    let k = h + code.len();
    assert(s.subrange(t, b) =~= tag);
    assert(s.subrange(h, k) =~= code);
}

/// The script of a block is found: where no backtick stands before the block or in the script, the
/// script of a message with a block is exactly what stands between the line feed and the next
/// fence, whatever else the message holds, with each tag and with none, and with blanks behind it.
pub proof fn a_block_is_found(
    before: Seq<char>,
    tag: Seq<char>,
    blanks: Seq<char>,
    code: Seq<char>,
    after: Seq<char>,
)
    requires
        no_backtick(before),
        no_backtick(code),
        forall|i: int| 0 <= i < blanks.len() ==> #[trigger] blanks[i] == ' ' || blanks[i] == '\t',
        tag == "rhai"@ || tag == "rust"@ || tag == "js"@ || tag == "javascript"@ || tag == Seq::<char>::empty(),
    ensures
        code_block(with_block(before, tag, blanks, code, after)) == Some(code),
{
    let s = with_block(before, tag, blanks, code, after);
    let i = before.len() as int;
    let t = i + 3;
    let b = t + tag.len();
    let h = b + blanks.len() + 1;
    let k = h + code.len();
    block_is_laid_out(before, tag, blanks, code, after);
    assert forall|j: int| 0 <= j < i implies !is_fence(s, j) by {
        assert(s[j] == before[j]);
    }
    nothing_before(s, 0, i);
    blanks_end_at(s, b, h - 1);
    assert(next_line(s, b) == Some(h));
    starts_behind_its_tag(s, tag, i, h);
    assert forall|j: int| h <= j < k implies !is_fence(s, j) by {
        assert(s.subrange(h, k)[j - h] == s[j]);
        assert(code[j - h] != '`');
    }
    next_fence(s, h, k);
    assert(block_at(s, i) == Some(code));
}

proof fn starts_behind_its_tag(s: Seq<char>, tag: Seq<char>, i: int, h: int)
    requires
        0 <= i,
        i + 3 + tag.len() < s.len(),
        s.subrange(i + 3, i + 3 + tag.len()) == tag,
        next_line(s, i + 3 + tag.len()) == Some(h),
        tag == "rhai"@ || tag == "rust"@ || tag == "js"@ || tag == "javascript"@ || tag == Seq::<char>::empty(),
        tag.len() == 0 ==> s[i + 3] == ' ' || s[i + 3] == '\t' || s[i + 3] == '\n' || s[i + 3] == '\r',
    ensures
        script_start(s, i) == Some(h),
{
    reveal_strlit("rhai");
    reveal_strlit("rust");
    reveal_strlit("js");
    reveal_strlit("javascript");
    let t = i + 3;
    if tag.len() == 0 {
        no_tag_without_letters(s, "rhai"@, t);
        no_tag_without_letters(s, "rust"@, t);
        no_tag_without_letters(s, "js"@, t);
        no_tag_without_letters(s, "javascript"@, t);
    } else {
        assert(stands_at(s, tag, t));
        let seen = s.subrange(t, t + tag.len());
        assert(seen[0] == s[t] && seen[1] == s[t + 1]);
        assert(tag[0] == seen[0] && tag[1] == seen[1]);
        assert("rhai"@[1] == 'h' && "rust"@[1] == 'u' && "js"@[1] == 's' && "javascript"@[1] == 'a');
        if stands_at(s, "rhai"@, t) {
            assert(s.subrange(t, t + 4)[0] == s[t] && s.subrange(t, t + 4)[1] == s[t + 1]);
        }
        if stands_at(s, "rust"@, t) {
            assert(s.subrange(t, t + 4)[0] == s[t] && s.subrange(t, t + 4)[1] == s[t + 1]);
        }
        if stands_at(s, "js"@, t) {
            assert(s.subrange(t, t + 2)[0] == s[t] && s.subrange(t, t + 2)[1] == s[t + 1]);
        }
    }
}

proof fn no_fence_no_code(s: Seq<char>, i: int)
    requires
        0 <= i,
        forall|j: int| 0 <= j ==> !is_fence(s, j),
    ensures
        code_from(s, i) is None,
    decreases s.len() - i,
{
    if i + 3 <= s.len() {
        no_fence_no_code(s, i + 1);
    }
}

/// A message without three backticks in a row holds no script.
pub proof fn plain_text_holds_no_script(s: Seq<char>)
    requires
        !holds(s, "```"@),
    ensures
        code_block(s) is None,
{
    reveal_strlit("```");
    assert forall|j: int| 0 <= j implies !is_fence(s, j) by {
        if is_fence(s, j) {
            assert(s.subrange(j, j + 3) =~= "```"@);
            assert(stands_at(s, "```"@, j));
        }
    }
    no_fence_no_code(s, 0);
}

/// What is taken out of a message is its script.
pub proof fn a_script_is_taken_as_written(response: &str, r: Option<String>)
    requires
        call_ensures(extract_code, (response,), r),
    ensures
        r is Some <==> code_block(response@) is Some,
        r matches Some(code) ==> code@ == code_block(response@)->0,
{
}

proof fn a_return_ends_the_line(s: Seq<char>, b: int, h: int)
    requires
        0 <= b <= h - 2,
        h <= s.len(),
        forall|j: int| b <= j < h - 2 ==> s[j] == ' ' || s[j] == '\t',
        s[h - 2] == '\r',
        s[h - 1] == '\n',
    ensures
        next_line(s, b) == Some(h),
{
    blanks_end_at(s, b, h - 2);
}

/// A carriage return in front of the line feed changes nothing: the script is the same.
pub proof fn a_block_with_returns_is_found(
    before: Seq<char>,
    tag: Seq<char>,
    blanks: Seq<char>,
    code: Seq<char>,
    after: Seq<char>,
)
    requires
        no_backtick(before),
        no_backtick(code),
        forall|i: int| 0 <= i < blanks.len() ==> #[trigger] blanks[i] == ' ' || blanks[i] == '\t',
        tag == "rhai"@ || tag == "rust"@ || tag == "js"@ || tag == "javascript"@ || tag == Seq::<char>::empty(),
    ensures
        code_block(with_block(before, tag, blanks + seq!['\r'], code, after)) == Some(code),
{
    let ends = blanks + seq!['\r'];
    let s = with_block(before, tag, ends, code, after);
    let i = before.len() as int;
    let t = i + 3;
    let b = t + tag.len();
    let h = b + ends.len() + 1;
    let k = h + code.len();
    block_is_laid_out(before, tag, ends, code, after);
    assert forall|j: int| 0 <= j < i implies !is_fence(s, j) by {
        assert(s[j] == before[j]);
    }
    nothing_before(s, 0, i);
    assert(next_line(s, b) == Some(h)) by {
        assert forall|j: int| b <= j < h - 2 implies s[j] == ' ' || s[j] == '\t' by {
            assert(s[j] == ends[j - b]);
            assert(ends[j - b] == blanks[j - b]);
        }
        assert(s[h - 2] == ends[h - 2 - b]);
        a_return_ends_the_line(s, b, h);
    }
    assert(s[b] == ends[0]);
    assert(blanks.len() > 0 ==> ends[0] == blanks[0]);
    starts_behind_its_tag(s, tag, i, h);
    assert forall|j: int| h <= j < k implies !is_fence(s, j) by {
        assert(s.subrange(h, k)[j - h] == s[j]);
        assert(code[j - h] != '`');
    }
    next_fence(s, h, k);
    assert(block_at(s, i) == Some(code));
}

} // verus!
