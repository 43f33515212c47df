//! What holds of every text that is cut, split, joined, searched or read as a number.
use vstd::prelude::*;

use crate::text::{
    all_digits, begins, behind, cut_note, decimal, decimal_is_digits, digit, digit_value, digits_value, holds,
    is_digit, is_space, joined, line_starts, lines_of, padded, place_of, place_of_bounds, scan_digits,
    signed_decimal, signed_of_text, slice_of, split_at_char, stands_at, starts_and_lines_pair, trimmed,
    trimmed_end, trimmed_start, truncated, unsigned_of_text, without_return, NumberError,
};

verus! {

// ------------------------------------------------------------------ numbers

/// The value of decimal digits, read from the front behind a value.
spec fn read_on(s: Seq<char>, acc: nat) -> nat
    decreases s.len(),
{
    if s.len() == 0 {
        acc
    } else {
        read_on(s.skip(1), acc * 10 + digit_value(s[0]))
    }
}

proof fn reading_on_from_behind(s: Seq<char>, acc: nat)
    requires
        s.len() > 0,
    ensures
        read_on(s, acc) == read_on(s.drop_last(), acc) * 10 + digit_value(s.last()),
    decreases s.len(),
{
    if s.len() == 1 {
        assert(s.skip(1) =~= seq![]);
        assert(s.drop_last() =~= seq![]);
        reveal_with_fuel(read_on, 2);
    } else {
        reading_on_from_behind(s.skip(1), acc * 10 + digit_value(s[0]));
        assert(s.skip(1).drop_last() =~= s.drop_last().skip(1));
        assert(s.skip(1).last() == s.last());
        assert(s.drop_last()[0] == s[0]);
    }
}

proof fn reading_on_is_the_value(s: Seq<char>)
    ensures
        read_on(s, 0) == digits_value(s),
    decreases s.len(),
{
    if s.len() > 0 {
        reading_on_from_behind(s, 0);
        reading_on_is_the_value(s.drop_last());
    }
}

proof fn reading_on_grows(s: Seq<char>, acc: nat)
    ensures
        read_on(s, acc) >= acc,
    decreases s.len(),
{
    if s.len() > 0 {
        reading_on_grows(s.skip(1), acc * 10 + digit_value(s[0]));
    }
}

proof fn scanning_reads_on(s: Seq<char>, acc: nat, max: nat)
    requires
        acc <= max,
    ensures
        all_digits(s) && read_on(s, acc) <= max ==> scan_digits(s, acc, max) == Ok::<nat, NumberError>(
            read_on(s, acc),
        ),
        all_digits(s) && read_on(s, acc) > max ==> scan_digits(s, acc, max) == Err::<nat, NumberError>(
            NumberError::TooLarge,
        ),
        !all_digits(s) ==> scan_digits(s, acc, max) is Err,
    decreases s.len(),
{
    if s.len() > 0 {
        let next = acc * 10 + digit_value(s[0]);
        reading_on_grows(s.skip(1), next);
        if all_digits(s) {
            assert forall|i: int| 0 <= i < s.skip(1).len() implies is_digit(#[trigger] s.skip(1)[i]) by {
                assert(is_digit(s[i + 1]));
            }
        } else if is_digit(s[0]) {
            let i = choose|i: int| 0 <= i < s.len() && !is_digit(#[trigger] s[i]);
            assert(!is_digit(s.skip(1)[i - 1]));
        }
        if is_digit(s[0]) && next <= max {
            scanning_reads_on(s.skip(1), next, max);
        }
    }
}

proof fn digit_reads_back(d: nat)
    requires
        d < 10,
    ensures
        is_digit(digit(d)),
        digit_value(digit(d)) == d,
{
    assert(digit(d) as nat == '0' as nat + d);
}

proof fn decimal_has_its_value(n: nat)
    ensures
        digits_value(decimal(n)) == n,
        all_digits(decimal(n)),
        n > 0 ==> decimal(n)[0] != '0',
    decreases n,
{
    decimal_is_digits(n);
    if n < 10 {
        digit_reads_back(n);
        reveal_with_fuel(digits_value, 2);
        assert(decimal(n).drop_last() =~= seq![]);
        assert(decimal(n).last() == digit(n));
    } else {
        decimal_has_its_value(n / 10);
        decimal_is_digits(n / 10);
        digit_reads_back(n % 10);
        assert(decimal(n).drop_last() =~= decimal(n / 10));
        assert(decimal(n).last() == digit(n % 10));
        assert(decimal(n)[0] == decimal(n / 10)[0]);
    }
}

/// A number that is written can be read: its digits have its value, with no zero in front, and
/// reading them gives the number wherever it fits.
pub proof fn written_numbers_read_back(n: nat, max: nat)
    ensures
        digits_value(decimal(n)) == n,
        n > 0 ==> decimal(n)[0] != '0',
        n <= max ==> unsigned_of_text(decimal(n), max) == Ok::<nat, NumberError>(n),
        n > max ==> unsigned_of_text(decimal(n), max) == Err::<nat, NumberError>(NumberError::TooLarge),
{
    decimal_has_its_value(n);
    decimal_is_digits(n);
    reading_on_is_the_value(decimal(n));
    scanning_reads_on(decimal(n), 0, max);
}

/// Different numbers are written differently.
pub proof fn numbers_are_told_apart(a: nat, b: nat)
    requires
        decimal(a) == decimal(b),
    ensures
        a == b,
{
    decimal_has_its_value(a);
    decimal_has_its_value(b);
}

/// A text is read as a number if and only if it is made of digits, behind a plus sign or not, whose
/// value fits, and what is read is that value.
pub proof fn numbers_are_digits(s: Seq<char>, max: nat)
    ensures
        ({
            let digits = if s.len() > 1 && s[0] == '+' {
                s.skip(1)
            } else {
                s
            };
            let sound = s.len() > 0 && all_digits(digits);
            &&& unsigned_of_text(s, max) is Ok <==> sound && digits_value(digits) <= max
            &&& unsigned_of_text(s, max) matches Ok(n) ==> n == digits_value(digits)
            &&& unsigned_of_text(s, max) == Err::<nat, NumberError>(NumberError::Empty) <==> s.len() == 0
            &&& sound && digits_value(digits) > max ==> unsigned_of_text(s, max) == Err::<nat, NumberError>(
                NumberError::TooLarge,
            )
        }),
{
    let digits = if s.len() > 1 && s[0] == '+' {
        s.skip(1)
    } else {
        s
    };
    reading_on_is_the_value(digits);
    scanning_reads_on(digits, 0, max);
    scan_is_never_empty(digits, 0, max);
    if s.len() == 1 && (s[0] == '+' || s[0] == '-') {
        assert(!is_digit(s[0]));
    }
}

proof fn scan_is_never_empty(s: Seq<char>, acc: nat, max: nat)
    ensures
        scan_digits(s, acc, max) != Err::<nat, NumberError>(NumberError::Empty),
    decreases s.len(),
{
    if s.len() > 0 && is_digit(s[0]) && acc * 10 + digit_value(s[0]) <= max {
        scan_is_never_empty(s.skip(1), acc * 10 + digit_value(s[0]), max);
    }
}

/// A signed number that is written can be read.
pub proof fn written_signed_numbers_read_back(n: int)
    requires
        i64::MIN <= n <= i64::MAX,
    ensures
        signed_of_text(signed_decimal(n)) == Some(n as i64),
{
    let magnitude = if n < 0 {
        (-n) as nat
    } else {
        n as nat
    };
    decimal_has_its_value(magnitude);
    decimal_is_digits(magnitude);
    let digits = decimal(magnitude);
    if n < 0 {
        assert(signed_decimal(n).skip(1) =~= digits);
        assert(signed_decimal(n)[0] == '-');
    } else {
        assert(signed_decimal(n) =~= digits);
        assert('0' <= digits[0] <= '9');
    }
}

proof fn zeros_in_front_count_nothing(k: nat, digits: Seq<char>)
    ensures
        digits_value(Seq::new(k, |i: int| '0') + digits) == digits_value(digits),
    decreases k + digits.len(),
{
    let zeros = Seq::new(k, |i: int| '0');
    let all = zeros + digits;
    if digits.len() > 0 {
        assert(all.drop_last() =~= zeros + digits.drop_last());
        zeros_in_front_count_nothing(k, digits.drop_last());
    } else if k > 0 {
        let fewer = Seq::new((k - 1) as nat, |i: int| '0');
        assert(all.drop_last() =~= fewer + digits);
        zeros_in_front_count_nothing((k - 1) as nat, digits);
        assert(all.last() == '0');
    } else {
        assert(all =~= digits);
    }
}

/// A number that is filled up keeps its value and has the width that was asked for, or its own
/// where that is more.
pub proof fn filled_numbers_keep_their_value(n: nat, width: nat)
    ensures
        digits_value(padded(n, width)) == n,
        all_digits(padded(n, width)),
        padded(n, width).len() >= width,
        padded(n, width).len() == width || padded(n, width) == decimal(n),
{
    decimal_has_its_value(n);
    decimal_is_digits(n);
    if decimal(n).len() < width {
        zeros_in_front_count_nothing((width - decimal(n).len()) as nat, decimal(n));
    }
}

// ------------------------------------------------------------------ cutting

/// A text that is short enough is kept as it is. Of a longer one the first characters are kept, all
/// of them and in their places, and the note behind them tells how many were kept and how many
/// there were.
pub proof fn cutting_keeps_the_front(s: Seq<char>, max_chars: nat)
    ensures
        s.len() <= max_chars ==> truncated(s, max_chars) == s,
        s.len() > max_chars ==> {
            &&& truncated(s, max_chars).len() > max_chars
            &&& forall|k: int| 0 <= k < max_chars ==> truncated(s, max_chars)[k] == s[k]
            &&& truncated(s, max_chars).skip(max_chars as int) == "\n...[truncated "@ + decimal(max_chars)
                + " of "@ + decimal(s.len()) + " chars]"@
        },
{
    if s.len() > max_chars {
        decimal_is_digits(max_chars);
        assert(truncated(s, max_chars).skip(max_chars as int) =~= cut_note(max_chars, s.len()));
    }
}

/// A slice holds the characters of the text from its start on, one for one, as many as were asked
/// for and as there are.
pub proof fn slices_are_in_place(s: Seq<char>, start: int, len: int)
    ensures
        ({
            let from = if start < 0 {
                0
            } else {
                start
            };
            &&& forall|k: int| 0 <= k < slice_of(s, start, len).len() ==> slice_of(s, start, len)[k] == s[from + k]
            &&& slice_of(s, start, len).len() <= s.len()
            &&& len >= 0 ==> slice_of(s, start, len).len() <= len
            &&& len <= 0 || from >= s.len() ==> slice_of(s, start, len).len() == 0
            &&& len >= 0 && from <= s.len() && len <= s.len() - from ==> slice_of(s, start, len).len() == len
            &&& len >= 0 && from <= s.len() && len > s.len() - from ==> slice_of(s, start, len).len() == s.len() - from
        }),
{
}

// ----------------------------------------------------------------- trimming

proof fn start_is_trimmed(s: Seq<char>) -> (a: int)
    ensures
        0 <= a <= s.len(),
        trimmed_start(s) == s.skip(a),
        forall|i: int| 0 <= i < a ==> is_space(s[i]),
        a < s.len() ==> !is_space(s[a]),
    decreases s.len(),
{
    if s.len() > 0 && is_space(s[0]) {
        let a = start_is_trimmed(s.skip(1));
        assert(s.skip(1).skip(a) =~= s.skip(a + 1));
        assert forall|i: int| 0 <= i < a + 1 implies is_space(s[i]) by {
            if i > 0 {
                assert(s.skip(1)[i - 1] == s[i]);
            }
        }
        if a + 1 < s.len() {
            assert(s.skip(1)[a] == s[a + 1]);
        }
        a + 1
    } else {
        assert(s.skip(0) =~= s);
        0
    }
}

proof fn end_is_trimmed(s: Seq<char>) -> (b: int)
    ensures
        0 <= b <= s.len(),
        trimmed_end(s) == s.take(b),
        forall|i: int| b <= i < s.len() ==> is_space(s[i]),
        b > 0 ==> !is_space(s[b - 1]),
    decreases s.len(),
{
    if s.len() > 0 && is_space(s.last()) {
        let b = end_is_trimmed(s.drop_last());
        assert(s.drop_last().take(b) =~= s.take(b));
        assert forall|i: int| b <= i < s.len() implies is_space(s[i]) by {
            if i < s.len() - 1 {
                assert(s.drop_last()[i] == s[i]);
            }
        }
        b
    } else {
        assert(s.take(s.len() as int) =~= s);
        s.len() as int
    }
}

/// Trimming takes white space off both ends and nothing else: what is left is one stretch of the
/// text, with no white space at either end, and all around it was white space.
pub proof fn trimming_takes_the_ends_only(s: Seq<char>)
    ensures
        exists|a: int, b: int|
            0 <= a <= b <= s.len() && trimmed(s) == #[trigger] s.subrange(a, b) && (forall|i: int|
                0 <= i < a || b <= i < s.len() ==> is_space(s[i])),
        trimmed(s).len() > 0 ==> !is_space(trimmed(s)[0]) && !is_space(trimmed(s).last()),
        trimmed(s).len() == 0 <==> forall|i: int| 0 <= i < s.len() ==> is_space(#[trigger] s[i]),
{
    let a = start_is_trimmed(s);
    let t = s.skip(a);
    let b = end_is_trimmed(t);
    assert(t.take(b) =~= s.subrange(a, a + b));
    assert forall|i: int| 0 <= i < a || a + b <= i < s.len() implies is_space(s[i]) by {
        if i >= a + b {
            assert(t[i - a] == s[i]);
        }
    }
    if b > 0 {
        assert(trimmed(s)[0] == t[0] && t[0] == s[a]);
        assert(trimmed(s).last() == t[b - 1]);
        assert(!is_space(s[a]));
    }
}

// ------------------------------------------------------- joining, splitting

/// Texts that are joined stand one behind the other with one separator between two: joining two
/// lists one behind the other is joining their joins.
pub proof fn joins_join(a: Seq<Seq<char>>, b: Seq<Seq<char>>, x: Seq<char>, sep: Seq<char>)
    ensures
        joined(Seq::<Seq<char>>::empty(), sep) == Seq::<char>::empty(),
        joined(seq![x], sep) == x,
        a.len() > 0 && b.len() > 0 ==> joined(a + b, sep) == joined(a, sep) + sep + joined(b, sep),
    decreases b.len(),
{
    if a.len() > 0 && b.len() > 0 {
        assert((a + b).drop_last() =~= a + b.drop_last());
        assert((a + b).last() == b.last());
        if b.len() == 1 {
            assert(a + b.drop_last() =~= a);
            assert(b[0] == b.last());
        } else {
            joins_join(a, b.drop_last(), x, sep);
            assert(joined(a + b, sep) =~= joined(a, sep) + sep + (joined(b.drop_last(), sep) + sep + b.last()));
        }
    }
}

/// Each text of a join stands in it.
pub proof fn joined_texts_stand(pieces: Seq<Seq<char>>, sep: Seq<char>, i: int)
    requires
        0 <= i < pieces.len(),
    ensures
        holds(joined(pieces, sep), pieces[i]),
    decreases pieces.len(),
{
    let whole = joined(pieces, sep);
    if i == pieces.len() - 1 {
        let at = whole.len() - pieces[i].len();
        assert(whole.subrange(at, whole.len() as int) =~= pieces[i]);
        assert(stands_at(whole, pieces[i], at));
    } else {
        let fore = joined(pieces.drop_last(), sep);
        joined_texts_stand(pieces.drop_last(), sep, i);
        let at = choose|at: int| stands_at(fore, pieces[i], at);
        assert(whole.subrange(at, at + pieces[i].len()) =~= fore.subrange(at, at + pieces[i].len()));
        assert(stands_at(whole, pieces[i], at));
    }
}

/// Splitting and joining undo each other: the pieces of a text joined by the separator are the
/// text, none of them holds the separator, and there are as many as separators and one more.
pub proof fn splitting_undoes_joining(s: Seq<char>, c: char)
    ensures
        joined(split_at_char(s, c), seq![c]) == s,
        split_at_char(s, c).len() >= 1,
        forall|i: int| 0 <= i < split_at_char(s, c).len() ==> !(#[trigger] split_at_char(s, c)[i]).contains(c),
    decreases s.len(),
{
    place_of_bounds(s, c);
    let k = place_of(s, c) as int;
    let pieces = split_at_char(s, c);
    if k < s.len() {
        let head = s.take(k);
        let rest = s.skip(k + 1);
        let tail = split_at_char(rest, c);
        splitting_undoes_joining(rest, c);
        joins_join(seq![head], tail, head, seq![c]);
        assert(head + seq![c] + rest =~= s);
        assert forall|i: int| 0 <= i < pieces.len() implies !(#[trigger] pieces[i]).contains(c) by {
            if i > 0 {
                assert(pieces[i] == tail[i - 1]);
            }
        }
    } else {
        joins_join(seq![], seq![], s, seq![c]);
        assert(pieces =~= seq![s]);
        assert(!s.contains(c));
    }
}

/// What was joined by a separator that stands in none of the texts is split into them again.
pub proof fn joining_undoes_splitting(pieces: Seq<Seq<char>>, c: char)
    requires
        pieces.len() > 0,
        forall|i: int| 0 <= i < pieces.len() ==> !(#[trigger] pieces[i]).contains(c),
    ensures
        split_at_char(joined(pieces, seq![c]), c) == pieces,
    decreases pieces.len(),
{
    let s = joined(pieces, seq![c]);
    place_of_bounds(s, c);
    if pieces.len() == 1 {
        assert(s == pieces[0]);
        if place_of(s, c) < s.len() {
            assert(s.contains(c));
        }
        assert(split_at_char(s, c) =~= pieces);
    } else {
        let head = pieces[0];
        let tail = pieces.skip(1);
        assert(seq![head] + tail =~= pieces);
        joins_join(seq![head], tail, head, seq![c]);
        let rest = joined(tail, seq![c]);
        assert(s =~= head + seq![c] + rest);
        let k = head.len() as int;
        assert forall|i: int| 0 <= i < k implies s[i] != c by {
            assert(s[i] == head[i]);
            if head[i] == c {
                assert(head.contains(c));
            }
        }
        assert(s[k] == c);
        crate::text::place_of_unique(s, c, k);
        assert(s.take(k) =~= head);
        assert(s.skip(k + 1) =~= rest);
        assert forall|i: int| 0 <= i < tail.len() implies !(#[trigger] tail[i]).contains(c) by {
            assert(tail[i] == pieces[i + 1]);
        }
        joining_undoes_splitting(tail, c);
    }
}

// -------------------------------------------------------------------- lines

/// The lines of a text leave nothing of it out but line ends: the first begins where the text does,
/// each next one begins right behind the line end of the one before it, and behind the last one
/// nothing stands but a line end. No line holds a line feed.
pub proof fn lines_leave_nothing_out(s: Seq<char>)
    ensures
        ({
            let lines = lines_of(s);
            let starts = line_starts(s);
            &&& lines.len() == starts.len()
            &&& lines.len() == 0 <==> s.len() == 0
            &&& s.len() > 0 ==> starts[0] == 0
            &&& forall|j: int| 0 <= j < lines.len() ==> !(#[trigger] lines[j]).contains('\n')
            &&& forall|j: int| 0 <= j < lines.len() ==> #[trigger] line_ends_well(s, j)
        }),
    decreases s.len(),
{
    starts_and_lines_pair(s);
    place_of_bounds(s, '\n');
    let k = place_of(s, '\n') as int;
    let lines = lines_of(s);
    let starts = line_starts(s);
    if s.len() == 0 {
    } else if k >= s.len() {
        assert(lines =~= seq![s]);
        assert forall|j: int| 0 <= j < lines.len() implies #[trigger] line_ends_well(s, j) by {
            assert(s.skip(s.len() as int) =~= Seq::<char>::empty());
        }
    } else {
        let rest = s.skip(k + 1);
        let head = without_return(s.take(k));
        lines_leave_nothing_out(rest);
        starts_and_lines_pair(rest);
        assert(forall|j: int| 1 <= j < lines.len() ==> #[trigger] lines[j] == lines_of(rest)[j - 1]);
        assert(forall|j: int| 1 <= j < lines.len() ==> #[trigger] starts[j] == line_starts(rest)[j - 1] + k + 1);
        assert(lines[0] == head && starts[0] == 0);
        assert forall|j: int| 0 <= j < lines.len() implies !(#[trigger] lines[j]).contains('\n') by {
            if j == 0 {
                assert(forall|i: int| 0 <= i < head.len() ==> head[i] == s[i]);
            }
        }
        assert forall|j: int| 0 <= j < lines.len() implies #[trigger] line_ends_well(s, j) by {
            if j == 0 {
                let next = if lines.len() > 1 {
                    starts[1] as int
                } else {
                    s.len() as int
                };
                assert(next == k + 1) by {
                    if lines.len() > 1 {
                        assert(line_starts(rest)[0] == 0);
                    } else {
                        assert(rest.len() == 0);
                    }
                }
                let end = s.subrange(head.len() as int, k + 1);
                if head.len() == k {
                    assert(end =~= seq!['\n']);
                } else {
                    assert(s.take(k).last() == '\r');
                    assert(end =~= seq!['\r', '\n']);
                }
            } else {
                assert(line_ends_well(rest, j - 1));
                let a = line_starts(rest)[j - 1] + lines_of(rest)[j - 1].len();
                let b = if j < lines_of(rest).len() {
                    line_starts(rest)[j] as int
                } else {
                    rest.len() as int
                };
                assert(s.subrange(a + k + 1, b + k + 1) =~= rest.subrange(a as int, b));
            }
        }
    }
}

/// Whether nothing but a line end stands between line `j` of a text and the next one, or the end of
/// the text, where the line end may be missing.
pub open spec fn line_ends_well(s: Seq<char>, j: int) -> bool {
    let lines = lines_of(s);
    let starts = line_starts(s);
    let from = starts[j] + lines[j].len();
    let to = if j + 1 < lines.len() {
        starts[j + 1] as int
    } else {
        s.len() as int
    };
    &&& from <= to <= s.len()
    &&& s.subrange(from as int, to) == seq!['\n'] || s.subrange(from as int, to) == seq!['\r', '\n'] || (j + 1
        == lines.len() && s.subrange(from as int, to) == Seq::<char>::empty())
}

// ---------------------------------------------------------------- searching

/// What is put into a text is found in it, wherever it stands; and what is found stands there.
pub proof fn parts_are_found(front: Seq<char>, part: Seq<char>, back: Seq<char>)
    ensures
        holds(front + part + back, part),
        begins(part + back, part),
        behind(part + back, part) == Some(back),
{
    let s = front + part + back;
    assert(s.subrange(front.len() as int, (front.len() + part.len()) as int) =~= part);
    assert(stands_at(s, part, front.len() as int));
    assert((part + back).take(part.len() as int) =~= part);
    assert((part + back).skip(part.len() as int) =~= back);
}

/// A part that is found stands in the text, and what stands behind a beginning makes up the text
/// with it.
pub proof fn found_parts_are_there(s: Seq<char>, part: Seq<char>)
    ensures
        holds(s, part) ==> exists|i: int|
            0 <= i && i + part.len() <= s.len() && #[trigger] s.subrange(i, i + part.len()) == part,
        behind(s, part) matches Some(rest) ==> s == part + rest,
        behind(s, part) is Some <==> begins(s, part),
        begins(s, part) ==> s.len() >= part.len() && forall|k: int| 0 <= k < part.len() ==> s[k] == part[k],
{
    if holds(s, part) {
        let i = choose|i: int| stands_at(s, part, i);
        assert(s.subrange(i, i + part.len()) == part);
    }
    if begins(s, part) {
        assert(s =~= part + s.skip(part.len() as int));
        assert forall|k: int| 0 <= k < part.len() implies s[k] == part[k] by {
            assert(s.take(part.len() as int)[k] == s[k]);
        }
    }
}

/// A text that stands in a part of another stands in the other.
pub proof fn parts_of_parts_stand(front: Seq<char>, middle: Seq<char>, back: Seq<char>, part: Seq<char>)
    requires
        holds(middle, part),
    ensures
        holds(front + middle + back, part),
{
    let i = choose|i: int| stands_at(middle, part, i);
    let s = front + middle + back;
    let at = front.len() + i;
    assert(s.subrange(at, at + part.len()) =~= middle.subrange(i, i + part.len()));
    assert(stands_at(s, part, at));
}

// --------------------------------------------------------------- line ends

/// A line ends in front of a line feed, and in front of a carriage return before one: what stands
/// there is the line, and the lines of the rest follow it.
pub proof fn line_ends_are_no_part_of_lines(line: Seq<char>, rest: Seq<char>)
    requires
        !line.contains('\n'),
    ensures
        lines_of(line + "\r\n"@ + rest) == seq![line] + lines_of(rest),
        line.len() == 0 || line.last() != '\r' ==> lines_of(line + "\n"@ + rest) == seq![line] + lines_of(rest),
        line.len() > 0 ==> lines_of(line) == seq![line],
{
    reveal_strlit("\r\n");
    reveal_strlit("\n");
    let n = line.len() as int;
    assert(forall|i: int| 0 <= i < n ==> line[i] != '\n') by {
        assert forall|i: int| 0 <= i < n implies line[i] != '\n' by {
            assert(line.contains(line[i]));
        }
    }
    let long = line + "\r\n"@ + rest;
    crate::text::place_of_unique(long, '\n', n + 1);
    assert(long.take(n + 1).last() == '\r');
    assert(long.take(n + 1).drop_last() =~= line);
    assert(long.skip(n + 2) =~= rest);
    let short = line + "\n"@ + rest;
    crate::text::place_of_unique(short, '\n', n);
    assert(short.take(n) =~= line);
    assert(short.skip(n + 1) =~= rest);
    place_of_bounds(line, '\n');
}

/// A plus sign in front of a number changes nothing.
pub proof fn a_plus_sign_changes_nothing(n: nat)
    requires
        n <= i64::MAX,
    ensures
        signed_of_text("+"@ + decimal(n)) == Some(n as i64),
        signed_of_text("-"@ + decimal(n)) == Some(-(n as int) as i64),
        signed_of_text(decimal(n)) == Some(n as i64),
{
    reveal_strlit("+");
    reveal_strlit("-");
    decimal_has_its_value(n);
    decimal_is_digits(n);
    assert(("+"@ + decimal(n)).skip(1) =~= decimal(n));
    assert(("-"@ + decimal(n)).skip(1) =~= decimal(n));
}

/// Space is what has the Unicode property White_Space, by code point, and nothing else.
pub proof fn space_is_white_space(c: char)
    ensures
        is_space(c) <==> ({
            let code = c as u32;
            ||| 9 <= code <= 13
            ||| code == 32 || code == 133 || code == 160 || code == 5760
            ||| 8192 <= code <= 8202
            ||| code == 8232 || code == 8233 || code == 8239 || code == 8287 || code == 12288
        }),
{
}

} // verus!
