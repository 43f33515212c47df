//! Searching the lines of a context with a regular expression.
use vstd::prelude::*;

use crate::text::{
    decimal, decimal_of, line_starts, lines, lines_of, lines_stand_at_their_starts, nats, slice_of,
    starts_and_lines_pair, starts_of_lines, trim, trimmed, truncate, truncated, views,
};

verus! {

/// Most hits that a report shows.
pub const GREP_MAX_MATCHES: usize = 80;

/// Most characters of a line that a report shows.
pub const GREP_LINE_CAP: usize = 240;

// -------------------------------------------------------- regular expressions

/// A compiled regular expression of the `regex` crate.
#[verifier::external_type_specification]
#[verifier::external_body]
pub struct ExRegex(regex::Regex);

/// What `regex::Regex::new` says against a pattern; nothing where it compiles the pattern.
pub uninterp spec fn regex_error(pattern: Seq<char>) -> Option<Seq<char>>;

/// A pattern that `regex::Regex::new` compiles to an expression that matches as this one does: of
/// one that `regex::Regex::new` made, the pattern it was made from.
pub uninterp spec fn regex_pattern(re: regex::Regex) -> Seq<char>;

/// Whether a pattern matches somewhere in a text, as `regex::Regex::is_match` decides it.
pub uninterp spec fn regex_matches(pattern: Seq<char>, text: Seq<char>) -> bool;

/// `regex::Regex::new`: compiles a pattern. Where it refuses the pattern, the result is the error
/// in words. Both depend on the pattern alone.
#[verifier::external_body]
fn regex_new(pattern: &str) -> (r: Result<regex::Regex, String>)
    ensures
        match r {
            Ok(re) => regex_error(pattern@) is None && regex_pattern(re) == pattern@,
            Err(e) => regex_error(pattern@) == Some(e@),
        },
{
    regex::Regex::new(pattern).map_err(|e| e.to_string())
}

/// `regex::Regex::is_match`: whether the expression matches somewhere in a text. It depends on
/// what the expression was compiled from and on the text alone.
#[verifier::external_body]
fn regex_is_match(re: &regex::Regex, text: &str) -> (r: bool)
    ensures
        r == regex_matches(regex_pattern(*re), text@),
{
    re.is_match(text)
}

// -------------------------------------------------------------------- reports

/// The starts and the texts of the lines that matched, among the first `k`.
pub open spec fn hits_of(
    lines: Seq<Seq<char>>,
    starts: Seq<nat>,
    matched: Seq<bool>,
    k: nat,
) -> Seq<(nat, Seq<char>)>
    decreases k,
{
    if k == 0 || k > lines.len() {
        seq![]
    } else {
        let front = hits_of(lines, starts, matched, (k - 1) as nat);
        if matched[k - 1] {
            front.push((starts[k - 1], lines[k - 1]))
        } else {
            front
        }
    }
}

/// How a report shows a hit.
pub open spec fn hit_line(hit: (nat, Seq<char>)) -> Seq<char> {
    "@"@ + decimal(hit.0) + ": "@ + truncated(trimmed(hit.1), GREP_LINE_CAP as nat) + "\n"@
}

/// How a report shows its first `n` hits.
pub open spec fn hit_lines(hits: Seq<(nat, Seq<char>)>, n: nat) -> Seq<char>
    decreases n,
{
    if n == 0 || n > hits.len() {
        seq![]
    } else {
        hit_lines(hits, (n - 1) as nat) + hit_line(hits[n - 1])
    }
}

/// The report on the hits of a search: the first of them, and how many more there are.
pub open spec fn report(hits: Seq<(nat, Seq<char>)>) -> Seq<char> {
    if hits.len() == 0 {
        "(no matches)"@
    } else if hits.len() <= GREP_MAX_MATCHES {
        hit_lines(hits, hits.len())
    } else {
        hit_lines(hits, GREP_MAX_MATCHES as nat) + "...("@ + decimal(
            (hits.len() - GREP_MAX_MATCHES) as nat,
        ) + " more matches not shown)\n"@
    }
}

proof fn hit_lines_prefix(a: Seq<(nat, Seq<char>)>, b: Seq<(nat, Seq<char>)>, n: nat)
    requires
        n <= a.len(),
        n <= b.len(),
        a.take(n as int) == b.take(n as int),
    ensures
        hit_lines(a, n) == hit_lines(b, n),
    decreases n,
{
    if n > 0 {
        assert(a.take(n - 1) =~= a.take(n as int).take(n - 1));
        assert(b.take(n - 1) =~= b.take(n as int).take(n - 1));
        hit_lines_prefix(a, b, (n - 1) as nat);
        assert(a.take(n as int)[n - 1] == b.take(n as int)[n - 1]);
    }
}

/// Reports the lines that matched, each with its start.
pub fn grep_report(lines: &Vec<String>, starts: &Vec<usize>, matched: &Vec<bool>) -> (r: String)
    requires
        starts@.len() == lines@.len(),
        matched@.len() == lines@.len(),
    ensures
        r@ == report(hits_of(views(lines@), nats(starts@), matched@, lines@.len())),
{
    let ghost all = views(lines@);
    let ghost at = nats(starts@);
    let mut out = String::new();
    let mut hits: usize = 0;
    let total = lines.len();
    let ghost found = hits_of(all, at, matched@, 0);
    for i in 0..total
        invariant
            total == lines@.len(),
            all == views(lines@),
            at == nats(starts@),
            starts@.len() == total,
            matched@.len() == total,
            found == hits_of(all, at, matched@, i as nat),
            hits == found.len(),
            hits <= i,
            out@ == hit_lines(
                found,
                if hits <= GREP_MAX_MATCHES {
                    hits as nat
                } else {
                    GREP_MAX_MATCHES as nat
                },
            ),
    {
        let line = lines[i].as_str();
        assert(all[i as int] == line@);
        assert(at[i as int] == starts@[i as int] as nat);
        let ghost front = found;
        proof {
            found = hits_of(all, at, matched@, (i + 1) as nat);
        }
        if matched[i] {
            hits = hits + 1;
            proof {
                assert(found == front.push((at[i as int], line@)));
                let n = if front.len() <= GREP_MAX_MATCHES {
                    front.len()
                } else {
                    GREP_MAX_MATCHES as nat
                };
                assert(front.take(n as int) =~= found.take(n as int));
                hit_lines_prefix(front, found, n);
            }
            if hits <= GREP_MAX_MATCHES {
                let ghost so_far = out@;
                out.append("@");
                out.append(decimal_of(starts[i] as u64).as_str());
                out.append(": ");
                out.append(truncate(trim(line).as_str(), GREP_LINE_CAP).as_str());
                out.append("\n");
                assert(out@ =~= so_far + hit_line((at[i as int], line@)));
            }
        }
    }
    if hits == 0 {
        "(no matches)".to_owned()
    } else {
        if hits > GREP_MAX_MATCHES {
            out.append("...(");
            out.append(decimal_of((hits - GREP_MAX_MATCHES) as u64).as_str());
            out.append(" more matches not shown)\n");
        }
        out
    }
}

/// Whether the regular expression matches each line.
pub open spec fn matches_of(lines: Seq<Seq<char>>, pattern: Seq<char>) -> Seq<bool> {
    lines.map_values(|line: Seq<char>| regex_matches(pattern, line))
}

/// The lines of a content that a pattern matches, each with the characters in front of it.
pub open spec fn grep_hits(content: Seq<char>, pattern: Seq<char>) -> Seq<(nat, Seq<char>)> {
    hits_of(
        lines_of(content),
        line_starts(content),
        matches_of(lines_of(content), pattern),
        lines_of(content).len(),
    )
}

/// What a search of a content answers, if there is one. A pattern that does not compile is
/// answered before the content is looked for.
pub open spec fn grep_answer(
    name: Seq<char>,
    content: Option<Seq<char>>,
    pattern: Seq<char>,
) -> Seq<char> {
    match (regex_error(pattern), content) {
        (Some(e), _) => "[error] bad regex: "@ + e,
        (None, None) => "[error] no context named '"@ + name + "'"@,
        (None, Some(c)) => report(grep_hits(c, pattern)),
    }
}

/// Searches the lines of a content.
pub fn grep_content(name: &str, content: Option<&str>, pattern: &str) -> (r: String)
    ensures
        r@ == grep_answer(
            name@,
            match content {
                Some(c) => Some(c@),
                None => None,
            },
            pattern@,
        ),
{
    let re = match regex_new(pattern) {
        Ok(re) => re,
        Err(e) => {
            let mut out = "[error] bad regex: ".to_owned();
            out.append(e.as_str());
            return out;
        },
    };
    match content {
        None => {
            let mut out = "[error] no context named '".to_owned();
            out.append(name);
            out.append("'");
            out
        },
        Some(c) => {
            let all = lines(c);
            let starts = starts_of_lines(c);
            let mut matched: Vec<bool> = Vec::new();
            for i in 0..all.len()
                invariant
                    regex_pattern(re) == pattern@,
                    matched@.len() == i,
                    forall|j: int|
                        0 <= j < i ==> #[trigger] matched@[j] == regex_matches(pattern@, all@[j]@),
            {
                matched.push(regex_is_match(&re, all[i].as_str()));
            }
            proof {
                starts_and_lines_pair(c@);
                assert(matched@ =~= matches_of(lines_of(c@), pattern@)) by {
                    assert forall|j: int| 0 <= j < matched@.len() implies matched@[j] == #[trigger] matches_of(
                        lines_of(c@),
                        pattern@,
                    )[j] by {
                        assert(views(all@)[j] == all@[j]@);
                    }
                }
            }
            grep_report(&all, &starts, &matched)
        },
    }
}

// ----------------------------------------------------------------------- laws

proof fn hits_are_lines(lines: Seq<Seq<char>>, starts: Seq<nat>, matched: Seq<bool>, k: nat, h: int)
    requires
        k <= lines.len(),
        0 <= h < hits_of(lines, starts, matched, k).len(),
    ensures
        exists|j: int|
            #![trigger lines[j]]
            0 <= j < k && matched[j] && hits_of(lines, starts, matched, k)[h] == (starts[j], lines[j]),
    decreases k,
{
    if k > 0 {
        let front = hits_of(lines, starts, matched, (k - 1) as nat);
        if h < front.len() {
            hits_are_lines(lines, starts, matched, (k - 1) as nat, h);
        } else {
            assert(lines[k - 1] == lines[k - 1]);
        }
    }
}

/// Reading a context at the offset of a hit gives the line of the hit, however the lines of the
/// context end.
pub proof fn hits_can_be_read_back(content: Seq<char>, pattern: Seq<char>, h: int)
    requires
        0 <= h < grep_hits(content, pattern).len(),
    ensures
        ({
            let hit = grep_hits(content, pattern)[h];
            slice_of(content, hit.0 as int, hit.1.len() as int) == hit.1
        }),
{
    let all = lines_of(content);
    let starts = line_starts(content);
    let matched = matches_of(all, pattern);
    hits_are_lines(all, starts, matched, all.len(), h);
    let j = choose|j: int|
        #![trigger all[j]]
        0 <= j < all.len() && matched[j] && hits_of(all, starts, matched, all.len())[h] == (starts[j], all[j]);
    lines_stand_at_their_starts(content, j);
}

/// Every hit is a line of the content that the pattern matches.
pub proof fn hits_match(content: Seq<char>, pattern: Seq<char>, h: int)
    requires
        0 <= h < grep_hits(content, pattern).len(),
    ensures
        lines_of(content).contains(grep_hits(content, pattern)[h].1),
        regex_matches(pattern, grep_hits(content, pattern)[h].1),
{
    let all = lines_of(content);
    let matched = matches_of(all, pattern);
    hits_are_lines(all, line_starts(content), matched, all.len(), h);
}

} // verus!
