//! Text as sequences of characters: counting, cutting, trimming, splitting and numbers.
use vstd::prelude::*;

verus! {

/// `String::push`: the character goes behind what the string holds.
pub assume_specification[ String::push ](s: &mut String, c: char)
    ensures
        final(s)@ == old(s)@.push(c),
;

/// `str` equality: two strings are equal when they hold the same characters.
pub assume_specification[ <str as PartialEq>::eq ](a: &str, b: &str) -> (r: bool)
    ensures
        r == (a@ == b@),
;

/// What each string of a list holds.
pub open spec fn views(list: Seq<String>) -> Seq<Seq<char>> {
    list.map_values(|s: String| s@)
}

/// What a list of pairs of strings holds.
pub open spec fn pairs_view(list: Seq<(String, String)>) -> Seq<(Seq<char>, Seq<char>)> {
    list.map_values(|p: (String, String)| (p.0@, p.1@))
}

/// What an optional string holds.
pub open spec fn opt_view(s: Option<String>) -> Option<Seq<char>> {
    match s {
        Some(t) => Some(t@),
        None => None,
    }
}

pub open spec fn min(a: int, b: int) -> int {
    if a <= b {
        a
    } else {
        b
    }
}

/// The characters of a string, one by one.
pub fn chars_of(s: &str) -> (r: Vec<char>)
    ensures
        r@ == s@,
{
    let mut out: Vec<char> = Vec::new();
    for c in it: s.chars()
        invariant
            out@ == it.seq().take(it.index()),
    {
        out.push(c);
        assert(it.seq().take(it.index() + 1) =~= it.seq().take(it.index() as int).push(c));
    }
    assert(out@ =~= s@);
    out
}

/// A copy of a list of strings.
pub fn copy_strings(list: &Vec<String>) -> (r: Vec<String>)
    ensures
        views(r@) == views(list@),
{
    let mut out: Vec<String> = Vec::new();
    for i in 0..list.len()
        invariant
            views(out@) == views(list@).take(i as int),
    {
        let ghost before = views(out@);
        out.push(list[i].clone());
        assert(views(out@) =~= before.push(list@[i as int]@));
        assert(views(out@) =~= views(list@).take(i + 1));
    }
    assert(views(list@).take(list.len() as int) =~= views(list@));
    out
}

/// A copy of an optional string.
pub fn copy_opt(s: &Option<String>) -> (r: Option<String>)
    ensures
        opt_view(r) == opt_view(*s),
{
    match s {
        Some(t) => Some(t.clone()),
        None => None,
    }
}

// ------------------------------------------------------------------- numbers

/// The character that writes a digit.
pub open spec fn digit(d: nat) -> char {
    ('0' as nat + d) as char
}

/// A number in decimal, without leading zeros.
pub open spec fn decimal(n: nat) -> Seq<char>
    decreases n,
{
    if n < 10 {
        seq![digit(n)]
    } else {
        decimal(n / 10).push(digit(n % 10))
    }
}

/// A number in decimal is made of digits, and of at least one.
pub proof fn decimal_is_digits(n: nat)
    ensures
        decimal(n).len() >= 1,
        forall|i: int| 0 <= i < decimal(n).len() ==> '0' <= #[trigger] decimal(n)[i] <= '9',
    decreases n,
{
    if n >= 10 {
        decimal_is_digits(n / 10);
    }
}

fn digit_char(d: u64) -> (c: char)
    requires
        d < 10,
    ensures
        c == digit(d as nat),
{
    match d {
        0 => '0',
        1 => '1',
        2 => '2',
        3 => '3',
        4 => '4',
        5 => '5',
        6 => '6',
        7 => '7',
        8 => '8',
        _ => '9',
    }
}

/// Writes a number in decimal.
pub fn decimal_of(n: u64) -> (r: String)
    ensures
        r@ == decimal(n as nat),
    decreases n,
{
    if n < 10 {
        let mut s = String::new();
        s.push(digit_char(n));
        assert(s@ =~= decimal(n as nat));
        s
    } else {
        let mut s = decimal_of(n / 10);
        s.push(digit_char(n % 10));
        s
    }
}

/// A signed number in decimal, with a minus sign where it is negative.
pub open spec fn signed_decimal(n: int) -> Seq<char> {
    if n < 0 {
        seq!['-'] + decimal((-n) as nat)
    } else {
        decimal(n as nat)
    }
}

/// Writes a signed number in decimal.
pub fn signed_decimal_of(n: i32) -> (r: String)
    ensures
        r@ == signed_decimal(n as int),
{
    if n < 0 {
        let magnitude: i64 = -(n as i64);
        let digits = decimal_of(magnitude as u64);
        let mut s = String::new();
        s.push('-');
        s.append(digits.as_str());
        assert(s@ =~= signed_decimal(n as int));
        s
    } else {
        decimal_of(n as u64)
    }
}

/// A number in decimal, filled up with zeros in front to at least `width` characters.
pub open spec fn padded(n: nat, width: nat) -> Seq<char> {
    let digits = decimal(n);
    if digits.len() >= width {
        digits
    } else {
        Seq::new((width - digits.len()) as nat, |i: int| '0') + digits
    }
}

/// Writes a number in decimal with at least `width` characters.
pub fn padded_of(n: u64, width: usize) -> (r: String)
    ensures
        r@ == padded(n as nat, width as nat),
{
    let digits = decimal_of(n);
    let have = digits.as_str().unicode_len();
    if have >= width {
        digits
    } else {
        let mut s = String::new();
        let missing: usize = width - have;
        for i in 0..missing
            invariant
                s@ == Seq::new(i as nat, |k: int| '0'),
        {
            s.push('0');
            assert(s@ =~= Seq::new((i + 1) as nat, |k: int| '0'));
        }
        s.append(digits.as_str());
        assert(s@ =~= padded(n as nat, width as nat));
        s
    }
}

pub open spec fn is_digit(c: char) -> bool {
    '0' <= c <= '9'
}

pub open spec fn digit_value(c: char) -> nat {
    (c as int - '0' as int) as nat
}

fn digit_value_of(c: char) -> (r: Option<u64>)
    ensures
        r is Some == is_digit(c),
        r matches Some(v) ==> v == digit_value(c) && v < 10,
{
    if '0' <= c && c <= '9' {
        Some(c as u64 - '0' as u64)
    } else {
        None
    }
}

/// Why a text is no number.
#[derive(Clone, Copy, PartialEq, Eq, Structural, Debug)]
pub enum NumberError {
    Empty,
    InvalidDigit,
    TooLarge,
}

impl NumberError {
    pub open spec fn text(self) -> Seq<char> {
        match self {
            NumberError::Empty => "cannot parse integer from empty string"@,
            NumberError::InvalidDigit => "invalid digit found in string"@,
            NumberError::TooLarge => "number too large to fit in target type"@,
        }
    }

    /// The error in words.
    pub fn message(&self) -> (r: String)
        ensures
            r@ == self.text(),
    {
        match self {
            NumberError::Empty => "cannot parse integer from empty string".to_owned(),
            NumberError::InvalidDigit => "invalid digit found in string".to_owned(),
            NumberError::TooLarge => "number too large to fit in target type".to_owned(),
        }
    }
}

/// Reads decimal digits behind the value `acc`, up to the first character that is no digit or
/// takes the value above `max`.
pub open spec fn scan_digits(s: Seq<char>, acc: nat, max: nat) -> Result<nat, NumberError>
    decreases s.len(),
{
    if s.len() == 0 {
        Ok(acc)
    } else if !is_digit(s[0]) {
        Err(NumberError::InvalidDigit)
    } else if acc * 10 + digit_value(s[0]) > max {
        Err(NumberError::TooLarge)
    } else {
        scan_digits(s.skip(1), acc * 10 + digit_value(s[0]), max)
    }
}

/// The number that a text writes: decimal digits behind an optional plus sign.
pub open spec fn unsigned_of_text(s: Seq<char>, max: nat) -> Result<nat, NumberError> {
    if s.len() == 0 {
        Err(NumberError::Empty)
    } else if s.len() == 1 && (s[0] == '+' || s[0] == '-') {
        Err(NumberError::InvalidDigit)
    } else if s[0] == '+' {
        scan_digits(s.skip(1), 0, max)
    } else {
        scan_digits(s, 0, max)
    }
}

fn scan_from(cs: &Vec<char>, start: usize, max: u64) -> (r: Result<u64, NumberError>)
    requires
        start <= cs@.len(),
        max <= 0xffff_ffff_ffff,
    ensures
        match r {
            Ok(v) => scan_digits(cs@.skip(start as int), 0, max as nat) == Ok::<nat, NumberError>(v as nat)
                && v <= max,
            Err(e) => scan_digits(cs@.skip(start as int), 0, max as nat) == Err::<nat, NumberError>(e),
        },
{
    let mut acc: u64 = 0;
    let mut i: usize = start;
    while i < cs.len()
        invariant
            start <= i <= cs@.len(),
            acc <= max,
            max <= 0xffff_ffff_ffff,
            scan_digits(cs@.skip(start as int), 0, max as nat) == scan_digits(
                cs@.skip(i as int),
                acc as nat,
                max as nat,
            ),
        decreases cs@.len() - i,
    {
        let c = cs[i];
        assert(cs@.skip(i as int)[0] == c);
        assert(cs@.skip(i as int).skip(1) =~= cs@.skip(i + 1));
        match digit_value_of(c) {
            None => {
                return Err(NumberError::InvalidDigit);
            },
            Some(d) => {
                let next: u64 = acc * 10 + d;
                if next > max {
                    return Err(NumberError::TooLarge);
                }
                acc = next;
            },
        }
        i = i + 1;
    }
    assert(cs@.skip(i as int).len() == 0);
    Ok(acc)
}

fn parse_unsigned(s: &str, max: u64) -> (r: Result<u64, NumberError>)
    requires
        max <= 0xffff_ffff_ffff,
    ensures
        match r {
            Ok(v) => unsigned_of_text(s@, max as nat) == Ok::<nat, NumberError>(v as nat) && v <= max,
            Err(e) => unsigned_of_text(s@, max as nat) == Err::<nat, NumberError>(e),
        },
{
    let cs = chars_of(s);
    assert(cs@.skip(0) =~= cs@);
    if cs.len() == 0 {
        Err(NumberError::Empty)
    } else if cs.len() == 1 && (cs[0] == '+' || cs[0] == '-') {
        Err(NumberError::InvalidDigit)
    } else if cs[0] == '+' {
        scan_from(&cs, 1, max)
    } else {
        scan_from(&cs, 0, max)
    }
}

/// Reads a 16-bit number.
pub fn parse_u16(s: &str) -> (r: Result<u16, NumberError>)
    ensures
        match r {
            Ok(v) => unsigned_of_text(s@, u16::MAX as nat) == Ok::<nat, NumberError>(v as nat),
            Err(e) => unsigned_of_text(s@, u16::MAX as nat) == Err::<nat, NumberError>(e),
        },
{
    match parse_unsigned(s, u16::MAX as u64) {
        Ok(v) => Ok(v as u16),
        Err(e) => Err(e),
    }
}

/// Reads a 32-bit number.
pub fn parse_u32(s: &str) -> (r: Result<u32, NumberError>)
    ensures
        match r {
            Ok(v) => unsigned_of_text(s@, u32::MAX as nat) == Ok::<nat, NumberError>(v as nat),
            Err(e) => unsigned_of_text(s@, u32::MAX as nat) == Err::<nat, NumberError>(e),
        },
{
    match parse_unsigned(s, u32::MAX as u64) {
        Ok(v) => Ok(v as u32),
        Err(e) => Err(e),
    }
}

/// The value of a run of decimal digits.
pub open spec fn digits_value(s: Seq<char>) -> nat
    decreases s.len(),
{
    if s.len() == 0 {
        0
    } else {
        digits_value(s.drop_last()) * 10 + digit_value(s.last())
    }
}

pub open spec fn all_digits(s: Seq<char>) -> bool {
    forall|i: int| 0 <= i < s.len() ==> is_digit(#[trigger] s[i])
}

/// The signed 64-bit number that a text writes, if it writes one: digits behind an optional sign.
pub open spec fn signed_of_text(s: Seq<char>) -> Option<i64> {
    let signed = s.len() > 0 && (s[0] == '-' || s[0] == '+');
    let digits = if signed { s.skip(1) } else { s };
    let value = if s.len() > 0 && s[0] == '-' {
        -(digits_value(digits) as int)
    } else {
        digits_value(digits) as int
    };
    if digits.len() == 0 || !all_digits(digits) || !(i64::MIN <= value <= i64::MAX) {
        None
    } else {
        Some(value as i64)
    }
}

/// Reads a signed 64-bit number.
pub fn parse_i64(s: &str) -> (r: Option<i64>)
    ensures
        r == signed_of_text(s@),
{
    let cs = chars_of(s);
    let negative = cs.len() > 0 && cs[0] == '-';
    let start: usize = if cs.len() > 0 && (cs[0] == '-' || cs[0] == '+') { 1 } else { 0 };
    let ghost digits = cs@.skip(start as int);
    assert(start == 0 ==> digits =~= s@);
    if start == cs.len() {
        return None;
    }
    let mut acc: u64 = 0;
    let mut over = false;
    let mut i: usize = start;
    while i < cs.len()
        invariant
            start <= i <= cs@.len(),
            cs@ == s@,
            digits == cs@.skip(start as int),
            digits == (if s@.len() > 0 && (s@[0] == '-' || s@[0] == '+') {
                s@.skip(1)
            } else {
                s@
            }),
            all_digits(digits.take(i - start)),
            !over ==> acc == digits_value(digits.take(i - start)),
            over ==> digits_value(digits.take(i - start)) > 0x8000_0000_0000_0000,
            acc <= 0x8000_0000_0000_0000,
        decreases cs@.len() - i,
    {
        let c = cs[i];
        assert(digits.take(i + 1 - start).drop_last() =~= digits.take(i - start));
        assert(digits.take(i + 1 - start).last() == c);
        match digit_value_of(c) {
            None => {
                assert(digits[i - start] == c);
                assert(!all_digits(digits));
                return None;
            },
            Some(d) => {
                assert(all_digits(digits.take(i + 1 - start)));
                if !over {
                    let next: u128 = acc as u128 * 10 + d as u128;
                    if next > 0x8000_0000_0000_0000 {
                        over = true;
                    } else {
                        acc = next as u64;
                    }
                }
            },
        }
        i = i + 1;
    }
    assert(digits.take(i - start) =~= digits);
    if over {
        return None;
    }
    if negative {
        let value: i128 = -(acc as i128);
        Some(value as i64)
    } else if acc <= 0x7fff_ffff_ffff_ffff {
        Some(acc as i64)
    } else {
        None
    }
}

// ------------------------------------------------------------------- cutting

/// The note behind a text that was cut.
pub open spec fn cut_note(max_chars: nat, total: nat) -> Seq<char> {
    "\n...[truncated "@ + decimal(max_chars) + " of "@ + decimal(total) + " chars]"@
}

/// A text as far as `max_chars` characters, with a note behind it where something was cut.
pub open spec fn truncated(s: Seq<char>, max_chars: nat) -> Seq<char> {
    if s.len() <= max_chars {
        s
    } else {
        s.take(max_chars as int) + cut_note(max_chars, s.len())
    }
}

/// Cuts a text behind `max_chars` characters and notes what was cut.
pub fn truncate(s: &str, max_chars: usize) -> (r: String)
    ensures
        r@ == truncated(s@, max_chars as nat),
{
    let total = s.unicode_len();
    if total <= max_chars {
        return s.to_owned();
    }
    let mut out = s.substring_char(0, max_chars).to_owned();
    out.append("\n...[truncated ");
    out.append(decimal_of(max_chars as u64).as_str());
    out.append(" of ");
    out.append(decimal_of(total as u64).as_str());
    out.append(" chars]");
    assert(out@ =~= truncated(s@, max_chars as nat));
    out
}

spec fn power_of_ten(k: nat) -> nat
    decreases k,
{
    if k == 0 {
        1
    } else {
        10 * power_of_ten((k - 1) as nat)
    }
}

proof fn decimal_length(n: nat, k: nat)
    requires
        k >= 1,
        n < power_of_ten(k),
    ensures
        decimal(n).len() <= k,
    decreases k,
{
    if n >= 10 {
        reveal_with_fuel(power_of_ten, 2);
        assert(n / 10 < power_of_ten((k - 1) as nat));
        decimal_length(n / 10, (k - 1) as nat);
    }
}

/// A text that was cut keeps its first characters and no more than those, besides a note of at
/// most 66 characters.
pub proof fn a_cut_text_is_bounded(s: Seq<char>, max_chars: nat)
    requires
        s.len() <= u64::MAX,
    ensures
        truncated(s, max_chars).len() <= max_chars + 66,
        s.len() > max_chars ==> truncated(s, max_chars).take(max_chars as int) == s.take(max_chars as int),
{
    if s.len() > max_chars {
        assert(u64::MAX < power_of_ten(20)) by {
            reveal_with_fuel(power_of_ten, 21);
        }
        decimal_length(max_chars, 20);
        decimal_length(s.len(), 20);
        reveal_strlit("\n...[truncated ");
        reveal_strlit(" of ");
        reveal_strlit(" chars]");
        assert(truncated(s, max_chars).take(max_chars as int) =~= s.take(max_chars as int));
    }
}

/// What is left of a text behind `start` characters, as far as `len` characters.
pub open spec fn slice_of(s: Seq<char>, start: int, len: int) -> Seq<char> {
    let from = if start <= 0 { 0 } else { min(start, s.len() as int) };
    let count = if len <= 0 { 0 } else { min(len, s.len() - from) };
    s.subrange(from, from + count)
}

/// Reads `len` characters behind the first `start` of a text, as far as it has them.
pub fn char_slice(s: &str, start: i64, len: i64) -> (r: String)
    ensures
        r@ == slice_of(s@, start as int, len as int),
{
    let total = s.unicode_len();
    let from: usize = if start <= 0 {
        0
    } else if start as u64 >= total as u64 {
        total
    } else {
        start as usize
    };
    let left: usize = total - from;
    let count: usize = if len <= 0 {
        0
    } else if len as u64 >= left as u64 {
        left
    } else {
        len as usize
    };
    s.substring_char(from, from + count).to_owned()
}

// ------------------------------------------------------------------ trimming

/// The characters with the Unicode property White_Space.
pub open spec fn is_space(c: char) -> bool {
    ||| '\u{9}' <= c <= '\u{d}'
    ||| c == ' '
    ||| c == '\u{85}'
    ||| c == '\u{a0}'
    ||| c == '\u{1680}'
    ||| '\u{2000}' <= c <= '\u{200a}'
    ||| c == '\u{2028}'
    ||| c == '\u{2029}'
    ||| c == '\u{202f}'
    ||| c == '\u{205f}'
    ||| c == '\u{3000}'
}

fn space(c: char) -> (r: bool)
    ensures
        r == is_space(c),
{
    ('\u{9}' <= c && c <= '\u{d}') || c == ' ' || c == '\u{85}' || c == '\u{a0}' || c == '\u{1680}'
        || ('\u{2000}' <= c && c <= '\u{200a}') || c == '\u{2028}' || c == '\u{2029}' || c
        == '\u{202f}' || c == '\u{205f}' || c == '\u{3000}'
}

/// A text without the white space at its front.
pub open spec fn trimmed_start(s: Seq<char>) -> Seq<char>
    decreases s.len(),
{
    if s.len() > 0 && is_space(s[0]) {
        trimmed_start(s.skip(1))
    } else {
        s
    }
}

/// A text without the white space at its end.
pub open spec fn trimmed_end(s: Seq<char>) -> Seq<char>
    decreases s.len(),
{
    if s.len() > 0 && is_space(s.last()) {
        trimmed_end(s.drop_last())
    } else {
        s
    }
}

/// A text without the white space around it.
pub open spec fn trimmed(s: Seq<char>) -> Seq<char> {
    trimmed_end(trimmed_start(s))
}

/// Takes off the white space around a text.
pub fn trim(s: &str) -> (r: String)
    ensures
        r@ == trimmed(s@),
{
    let cs = chars_of(s);
    let mut from: usize = 0;
    assert(cs@.skip(0) =~= cs@);
    while from < cs.len() && space(cs[from])
        invariant
            from <= cs@.len(),
            cs@ == s@,
            trimmed_start(s@) == trimmed_start(cs@.skip(from as int)),
        decreases cs@.len() - from,
    {
        assert(cs@.skip(from as int).skip(1) =~= cs@.skip(from + 1));
        from = from + 1;
    }
    let mut to: usize = cs.len();
    assert(trimmed_start(s@) == cs@.skip(from as int));
    assert(cs@.subrange(from as int, to as int) =~= cs@.skip(from as int));
    while from < to && space(cs[to - 1])
        invariant
            from <= to <= cs@.len(),
            cs@ == s@,
            trimmed(s@) == trimmed_end(cs@.subrange(from as int, to as int)),
        decreases to,
    {
        assert(cs@.subrange(from as int, to as int).drop_last() =~= cs@.subrange(
            from as int,
            to - 1,
        ));
        to = to - 1;
    }
    s.substring_char(from, to).to_owned()
}

// ----------------------------------------------------------------- splitting

/// The place of the first `c` in a text, or its length where there is none.
pub open spec fn place_of(s: Seq<char>, c: char) -> nat
    decreases s.len(),
{
    if s.len() == 0 || s[0] == c {
        0
    } else {
        1 + place_of(s.skip(1), c)
    }
}

pub proof fn place_of_bounds(s: Seq<char>, c: char)
    ensures
        place_of(s, c) <= s.len(),
        place_of(s, c) < s.len() ==> s[place_of(s, c) as int] == c,
        forall|i: int| 0 <= i < place_of(s, c) ==> s[i] != c,
    decreases s.len(),
{
    if s.len() != 0 && s[0] != c {
        place_of_bounds(s.skip(1), c);
        let k = place_of(s.skip(1), c);
        assert forall|i: int| 0 <= i < place_of(s, c) implies s[i] != c by {
            if i > 0 {
                assert(s.skip(1)[i - 1] == s[i]);
            }
        }
    }
}

/// The first place with `c` is the one that no earlier place with `c` precedes.
pub proof fn place_of_unique(s: Seq<char>, c: char, k: int)
    requires
        0 <= k <= s.len(),
        k < s.len() ==> s[k] == c,
        forall|i: int| 0 <= i < k ==> s[i] != c,
    ensures
        place_of(s, c) == k,
{
    place_of_bounds(s, c);
    let p = place_of(s, c) as int;
    if p < k {
        assert(s[p] != c);
    }
}

/// The pieces of a text between the separators `c`; there is always at least one.
pub open spec fn split_at_char(s: Seq<char>, c: char) -> Seq<Seq<char>>
    decreases s.len(),
{
    let k = place_of(s, c) as int;
    if k >= s.len() {
        seq![s]
    } else {
        seq![s.take(k)] + split_at_char(s.skip(k + 1), c)
    }
}

/// Splits a text at every `c`.
pub fn split_char(s: &str, c: char) -> (r: Vec<String>)
    ensures
        views(r@) == split_at_char(s@, c),
        r@.len() >= 1,
{
    let cs = chars_of(s);
    let mut out: Vec<String> = Vec::new();
    let mut start: usize = 0;
    let mut i: usize = 0;
    assert(s@.skip(0) =~= s@);
    assert(views(out@) + split_at_char(s@.skip(0), c) =~= split_at_char(s@, c));
    while i < cs.len()
        invariant
            cs@ == s@,
            start <= i <= cs@.len(),
            views(out@) + split_at_char(s@.skip(start as int), c) == split_at_char(s@, c),
            forall|k: int| start <= k < i ==> s@[k] != c,
        decreases cs@.len() - i,
    {
        if cs[i] == c {
            let ghost rest = s@.skip(start as int);
            proof {
                place_of_unique(rest, c, i - start);
                assert(rest.take(i - start) =~= s@.subrange(start as int, i as int));
                assert(rest.skip(i - start + 1) =~= s@.skip(i + 1));
            }
            let ghost before = views(out@);
            out.push(s.substring_char(start, i).to_owned());
            proof {
                assert(views(out@) =~= before.push(s@.subrange(start as int, i as int)));
                assert(views(out@) + split_at_char(s@.skip(i + 1), c) =~= before + (seq![
                    s@.subrange(start as int, i as int),
                ] + split_at_char(s@.skip(i + 1), c)));
            }
            start = i + 1;
        }
        i = i + 1;
    }
    let ghost rest = s@.skip(start as int);
    proof {
        place_of_unique(rest, c, i - start);
        assert(rest =~= s@.subrange(start as int, i as int));
    }
    let ghost before = views(out@);
    out.push(s.substring_char(start, cs.len()).to_owned());
    assert(views(out@) =~= before + seq![rest]);
    out
}

/// A line without the carriage return at its end.
pub open spec fn without_return(line: Seq<char>) -> Seq<char> {
    if line.len() > 0 && line.last() == '\r' {
        line.drop_last()
    } else {
        line
    }
}

/// The lines of a text. A line ends at a line feed, with or without a carriage return in front
/// of it; the last one may go without.
pub open spec fn lines_of(s: Seq<char>) -> Seq<Seq<char>>
    decreases s.len(),
{
    let k = place_of(s, '\n') as int;
    if s.len() == 0 {
        seq![]
    } else if k >= s.len() {
        seq![s]
    } else {
        seq![without_return(s.take(k))] + lines_of(s.skip(k + 1))
    }
}

/// Splits a text into lines.
pub fn lines(s: &str) -> (r: Vec<String>)
    ensures
        views(r@) == lines_of(s@),
{
    let cs = chars_of(s);
    let mut out: Vec<String> = Vec::new();
    let mut start: usize = 0;
    let mut i: usize = 0;
    assert(s@.skip(0) =~= s@);
    assert(views(out@) + lines_of(s@.skip(0)) =~= lines_of(s@));
    while i < cs.len()
        invariant
            cs@ == s@,
            start <= i <= cs@.len(),
            views(out@) + lines_of(s@.skip(start as int)) == lines_of(s@),
            forall|k: int| start <= k < i ==> s@[k] != '\n',
        decreases cs@.len() - i,
    {
        if cs[i] == '\n' {
            let end: usize = if start < i && cs[i - 1] == '\r' { i - 1 } else { i };
            let ghost rest = s@.skip(start as int);
            proof {
                place_of_unique(rest, '\n', i - start);
                assert(rest.take(i - start) =~= s@.subrange(start as int, i as int));
                assert(without_return(rest.take(i - start)) =~= s@.subrange(start as int, end as int));
                assert(rest.skip(i - start + 1) =~= s@.skip(i + 1));
            }
            let ghost before = views(out@);
            out.push(s.substring_char(start, end).to_owned());
            proof {
                assert(views(out@) =~= before.push(s@.subrange(start as int, end as int)));
                assert(views(out@) + lines_of(s@.skip(i + 1)) =~= before + (seq![
                    s@.subrange(start as int, end as int),
                ] + lines_of(s@.skip(i + 1))));
            }
            start = i + 1;
        }
        i = i + 1;
    }
    let ghost rest = s@.skip(start as int);
    proof {
        place_of_unique(rest, '\n', i - start);
        assert(rest =~= s@.subrange(start as int, i as int));
    }
    if start < cs.len() {
        let ghost before = views(out@);
        out.push(s.substring_char(start, cs.len()).to_owned());
        assert(views(out@) =~= before + seq![rest]);
    } else {
        assert(views(out@) + lines_of(rest) =~= views(out@));
    }
    out
}

/// Numbers, each moved on by `d`.
pub open spec fn moved_on(list: Seq<nat>, d: nat) -> Seq<nat> {
    list.map_values(|n: nat| n + d)
}

/// How many characters stand in front of each line of a text.
pub open spec fn line_starts(s: Seq<char>) -> Seq<nat>
    decreases s.len(),
{
    let k = place_of(s, '\n') as int;
    if s.len() == 0 {
        seq![]
    } else if k >= s.len() {
        seq![0nat]
    } else {
        seq![0nat] + moved_on(line_starts(s.skip(k + 1)), (k + 1) as nat)
    }
}

/// What a list of numbers holds.
pub open spec fn nats(list: Seq<usize>) -> Seq<nat> {
    list.map_values(|n: usize| n as nat)
}

/// Finds where the lines of a text begin.
pub fn starts_of_lines(s: &str) -> (r: Vec<usize>)
    ensures
        nats(r@) == line_starts(s@),
{
    let cs = chars_of(s);
    let mut out: Vec<usize> = Vec::new();
    let mut start: usize = 0;
    let mut i: usize = 0;
    assert(s@.skip(0) =~= s@);
    assert(nats(out@) + moved_on(line_starts(s@.skip(0)), 0) =~= line_starts(s@));
    while i < cs.len()
        invariant
            cs@ == s@,
            start <= i <= cs@.len(),
            nats(out@) + moved_on(line_starts(s@.skip(start as int)), start as nat) == line_starts(s@),
            forall|k: int| start <= k < i ==> s@[k] != '\n',
        decreases cs@.len() - i,
    {
        if cs[i] == '\n' {
            let ghost rest = s@.skip(start as int);
            let ghost before = nats(out@);
            out.push(start);
            proof {
                place_of_unique(rest, '\n', i - start);
                assert(rest.skip(i - start + 1) =~= s@.skip(i + 1));
                let tail = line_starts(s@.skip(i + 1));
                assert(moved_on(line_starts(rest), start as nat) =~= seq![start as nat] + moved_on(
                    tail,
                    (i + 1) as nat,
                ));
                assert(nats(out@) =~= before.push(start as nat));
                assert(nats(out@) + moved_on(tail, (i + 1) as nat) =~= before + (seq![start as nat]
                    + moved_on(tail, (i + 1) as nat)));
            }
            start = i + 1;
        }
        i = i + 1;
    }
    let ghost rest = s@.skip(start as int);
    proof {
        place_of_unique(rest, '\n', i - start);
    }
    if start < cs.len() {
        let ghost before = nats(out@);
        out.push(start);
        assert(moved_on(line_starts(rest), start as nat) =~= seq![start as nat]);
        assert(nats(out@) =~= before + seq![start as nat]);
    } else {
        assert(nats(out@) + moved_on(line_starts(rest), start as nat) =~= nats(out@));
    }
    out
}

/// Each line of a text stands at its start: as many characters read from there are the line.
pub proof fn lines_stand_at_their_starts(s: Seq<char>, j: int)
    requires
        0 <= j < lines_of(s).len(),
    ensures
        line_starts(s).len() == lines_of(s).len(),
        line_starts(s)[j] + lines_of(s)[j].len() <= s.len(),
        s.subrange(line_starts(s)[j] as int, (line_starts(s)[j] + lines_of(s)[j].len()) as int) == lines_of(
            s,
        )[j],
    decreases s.len(),
{
    starts_and_lines_pair(s);
    place_of_bounds(s, '\n');
    let k = place_of(s, '\n') as int;
    if k >= s.len() {
        assert(s.subrange(0, s.len() as int) =~= s);
    } else {
        let head = without_return(s.take(k));
        let rest = s.skip(k + 1);
        starts_and_lines_pair(rest);
        if j == 0 {
            assert(lines_of(s)[0] == head && line_starts(s)[0] == 0);
            assert(s.subrange(0, head.len() as int) =~= head);
        } else {
            lines_stand_at_their_starts(rest, j - 1);
            let line = lines_of(rest)[j - 1];
            let at = line_starts(rest)[j - 1] as int;
            assert(lines_of(s)[j] == line);
            assert(line_starts(s)[j] == at + k + 1);
            assert(s.subrange(at + k + 1, at + k + 1 + line.len()) =~= rest.subrange(at, at + line.len()));
        }
    }
}

/// There is a start for each line.
pub proof fn starts_and_lines_pair(s: Seq<char>)
    ensures
        line_starts(s).len() == lines_of(s).len(),
    decreases s.len(),
{
    let k = place_of(s, '\n') as int;
    if s.len() > 0 && k < s.len() {
        starts_and_lines_pair(s.skip(k + 1));
    }
}

// ------------------------------------------------------------------- joining

/// The pieces one after the other, with `sep` between them.
pub open spec fn joined(pieces: Seq<Seq<char>>, sep: Seq<char>) -> Seq<char>
    decreases pieces.len(),
{
    if pieces.len() == 0 {
        seq![]
    } else if pieces.len() == 1 {
        pieces[0]
    } else {
        joined(pieces.drop_last(), sep) + sep + pieces.last()
    }
}

/// Joins texts with `sep` between them.
pub fn join(pieces: &Vec<String>, sep: &str) -> (r: String)
    ensures
        r@ == joined(views(pieces@), sep@),
{
    let mut out = String::new();
    let ghost all = views(pieces@);
    assert(all.take(0) =~= seq![]);
    for i in 0..pieces.len()
        invariant
            all == views(pieces@),
            out@ == joined(all.take(i as int), sep@),
    {
        proof {
            assert(all.take(i + 1).drop_last() =~= all.take(i as int));
            assert(all.take(i + 1).last() == pieces@[i as int]@);
        }
        if i > 0 {
            out.append(sep);
        }
        out.append(pieces[i].as_str());
        if i == 0 {
            assert(out@ =~= joined(all.take(1), sep@));
        }
    }
    assert(all.take(pieces@.len() as int) =~= all);
    out
}

// ----------------------------------------------------------------- searching

/// Whether `part` stands somewhere in a text.
pub open spec fn holds(s: Seq<char>, part: Seq<char>) -> bool {
    exists|i: int| #[trigger] stands_at(s, part, i)
}

/// Whether `part` stands in a text behind the first `i` characters.
pub open spec fn stands_at(s: Seq<char>, part: Seq<char>, i: int) -> bool {
    0 <= i && i + part.len() <= s.len() && s.subrange(i, i + part.len()) == part
}

pub(crate) fn stands(cs: &Vec<char>, part: &Vec<char>, i: usize) -> (r: bool)
    requires
        i <= cs@.len(),
    ensures
        r == stands_at(cs@, part@, i as int),
{
    let total = cs.len();
    if part.len() > total - i {
        return false;
    }
    for k in 0..part.len()
        invariant
            total == cs@.len(),
            i + part@.len() <= total,
            forall|j: int| 0 <= j < k ==> cs@[i + j] == part@[j],
    {
        if cs[i + k] != part[k] {
            assert(cs@.subrange(i as int, i + part@.len())[k as int] != part@[k as int]);
            return false;
        }
    }
    assert(cs@.subrange(i as int, i + part@.len()) =~= part@);
    true
}

/// Whether `part` stands somewhere in `s`.
pub fn contains(s: &str, part: &str) -> (r: bool)
    ensures
        r == holds(s@, part@),
{
    let cs = chars_of(s);
    let ps = chars_of(part);
    let mut i: usize = 0;
    loop
        invariant
            cs@ == s@,
            ps@ == part@,
            i <= cs@.len(),
            forall|j: int| 0 <= j < i ==> !stands_at(s@, part@, j),
        decreases cs@.len() - i,
    {
        if stands(&cs, &ps, i) {
            return true;
        }
        if i == cs.len() {
            assert forall|j: int| !stands_at(s@, part@, j) by {}
            return false;
        }
        i = i + 1;
    }
}

/// Whether a text begins with `part`.
pub open spec fn begins(s: Seq<char>, part: Seq<char>) -> bool {
    s.len() >= part.len() && s.take(part.len() as int) == part
}

/// Whether `s` begins with `part`.
pub fn starts_with(s: &str, part: &str) -> (r: bool)
    ensures
        r == begins(s@, part@),
{
    let cs = chars_of(s);
    let ps = chars_of(part);
    let r = stands(&cs, &ps, 0);
    if ps.len() <= cs.len() {
        assert(s@.subrange(0, part@.len() as int) =~= s@.take(part@.len() as int));
    }
    r
}

/// What a text holds behind the beginning `part`, if it begins so.
pub open spec fn behind(s: Seq<char>, part: Seq<char>) -> Option<Seq<char>> {
    if begins(s, part) {
        Some(s.skip(part.len() as int))
    } else {
        None
    }
}

/// Takes `part` off the beginning of `s`.
pub fn strip_prefix(s: &str, part: &str) -> (r: Option<String>)
    ensures
        opt_view(r) == behind(s@, part@),
{
    if starts_with(s, part) {
        let from = part.unicode_len();
        let to = s.unicode_len();
        assert(s@.subrange(from as int, to as int) =~= s@.skip(from as int));
        Some(s.substring_char(from, to).to_owned())
    } else {
        None
    }
}

} // verus!
