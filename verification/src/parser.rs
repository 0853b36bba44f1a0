//! Parser for the control tool's diagnostic output.
//!
//! The tool reports list attributes as free-form text. An entry is recognized
//! line by line: a `[TOO]` tag, then — later on the same line — an index in
//! square brackets followed by a colon, whitespace, a decimal number, more
//! whitespace and an opening parenthesis. Only the decimal number is
//! captured. Matches do not overlap, several may sit on one line, and their
//! source order is kept; duplicates are kept as well.

use vstd::prelude::*;
use vstd::string::*;

use crate::numeric::is_decimal_digit;

verus! {

/// Whitespace accepted between the pieces of an entry.
pub open spec fn is_pattern_space(c: char) -> bool {
    c == ' ' || c == '\t' || c == '\n' || c == '\r' || c == '\u{b}' || c == '\u{c}'
}

/// The diagnostic tag `[TOO]` starts at position `i`.
pub open spec fn tag_at(s: Seq<char>, i: int) -> bool {
    &&& 0 <= i
    &&& i + 5 <= s.len()
    &&& s[i] == '['
    &&& s[i + 1] == 'T'
    &&& s[i + 2] == 'O'
    &&& s[i + 3] == 'O'
    &&& s[i + 4] == ']'
}

/// End of the run of decimal digits starting at `i`.
pub open spec fn digit_run_end(s: Seq<char>, i: int) -> int
    decreases s.len() - i,
    when 0 <= i <= s.len()
{
    if i < s.len() && is_decimal_digit(s[i]) {
        digit_run_end(s, i + 1)
    } else {
        i
    }
}

/// End of the run of pattern whitespace starting at `i`.
pub open spec fn space_run_end(s: Seq<char>, i: int) -> int
    decreases s.len() - i,
    when 0 <= i <= s.len()
{
    if i < s.len() && is_pattern_space(s[i]) {
        space_run_end(s, i + 1)
    } else {
        i
    }
}

/// The part of an entry after the tag, starting at `j`: an index in square
/// brackets, a colon, whitespace, the captured digits, whitespace, and an
/// opening parenthesis. Yields the captured digits and the position just
/// after the parenthesis.
pub open spec fn tail_match(s: Seq<char>, j: int) -> Option<(Seq<char>, int)> {
    if !(0 <= j && j < s.len() && s[j] == '[') {
        None
    } else {
        let a = digit_run_end(s, j + 1);
        if !(a > j + 1 && a + 1 < s.len() && s[a] == ']' && s[a + 1] == ':') {
            None
        } else {
            let b = space_run_end(s, a + 2);
            if !(b > a + 2) {
                None
            } else {
                let c = digit_run_end(s, b);
                if !(c > b) {
                    None
                } else {
                    let d = space_run_end(s, c);
                    if !(d > c && d < s.len() && s[d] == '(') {
                        None
                    } else {
                        Some((s.subrange(b, c), d + 1))
                    }
                }
            }
        }
    }
}

/// First position at or after `pos` where the tag starts.
pub open spec fn next_tag(s: Seq<char>, pos: int) -> Option<int>
    decreases s.len() - pos,
    when 0 <= pos
{
    if pos + 5 > s.len() {
        None
    } else if tag_at(s, pos) {
        Some(pos)
    } else {
        next_tag(s, pos + 1)
    }
}

/// First position at or after `j` where the tail of an entry matches; the
/// gap between a tag and its tail is as short as possible.
pub open spec fn next_tail(s: Seq<char>, j: int) -> Option<int>
    decreases s.len() - j,
    when 0 <= j
{
    if j >= s.len() {
        None
    } else if tail_match(s, j) is Some {
        Some(j)
    } else {
        next_tail(s, j + 1)
    }
}

pub proof fn lemma_run_end_bounds(s: Seq<char>, i: int)
    requires
        0 <= i <= s.len(),
    ensures
        i <= digit_run_end(s, i) <= s.len(),
        i <= space_run_end(s, i) <= s.len(),
    decreases s.len() - i,
{
    if i < s.len() {
        lemma_run_end_bounds(s, i + 1);
    }
}

pub proof fn lemma_tail_match_bounds(s: Seq<char>, j: int)
    requires
        0 <= j,
    ensures
        tail_match(s, j) matches Some(p) ==> j + 1 < p.1 <= s.len(),
{
    if 0 <= j && j < s.len() && s[j] == '[' {
        lemma_run_end_bounds(s, j + 1);
        let a = digit_run_end(s, j + 1);
        if a > j + 1 && a + 1 < s.len() && s[a] == ']' && s[a + 1] == ':' {
            lemma_run_end_bounds(s, a + 2);
            let b = space_run_end(s, a + 2);
            if b > a + 2 {
                lemma_run_end_bounds(s, b);
                let c = digit_run_end(s, b);
                if c > b {
                    lemma_run_end_bounds(s, c);
                }
            }
        }
    }
}

pub proof fn lemma_next_tag_bounds(s: Seq<char>, pos: int)
    requires
        0 <= pos,
    ensures
        next_tag(s, pos) matches Some(i) ==> pos <= i && tag_at(s, i),
    decreases s.len() - pos,
{
    if pos + 5 <= s.len() && !tag_at(s, pos) {
        lemma_next_tag_bounds(s, pos + 1);
    }
}

pub proof fn lemma_next_tail_bounds(s: Seq<char>, j: int)
    requires
        0 <= j,
    ensures
        next_tail(s, j) matches Some(jj) ==> j <= jj && tail_match(s, jj) is Some,
    decreases s.len() - j,
{
    if j < s.len() && tail_match(s, j) is None {
        lemma_next_tail_bounds(s, j + 1);
    }
}

/// Captures of one line, scanning from `pos`: the first entry starts at the
/// first tag position, its tail is the nearest one after that tag, and
/// scanning resumes just past the entry.
pub open spec fn line_captures_from(s: Seq<char>, pos: int) -> Seq<Seq<char>>
    decreases s.len() - pos,
    when 0 <= pos
    via line_captures_from_decreases
{
    match next_tag(s, pos) {
        None => Seq::empty(),
        Some(i) => match next_tail(s, i + 5) {
            None => Seq::empty(),
            Some(j) => match tail_match(s, j) {
                None => Seq::empty(),
                Some(p) => seq![p.0] + line_captures_from(s, p.1),
            },
        },
    }
}

#[via_fn]
proof fn line_captures_from_decreases(s: Seq<char>, pos: int) {
    if 0 <= pos {
        lemma_next_tag_bounds(s, pos);
        if let Some(i) = next_tag(s, pos) {
            lemma_next_tail_bounds(s, i + 5);
            if let Some(j) = next_tail(s, i + 5) {
                lemma_tail_match_bounds(s, j);
            }
        }
    }
}

/// First newline at or after `pos`.
pub open spec fn next_newline(t: Seq<char>, pos: int) -> Option<int>
    decreases t.len() - pos,
    when 0 <= pos
{
    if pos >= t.len() {
        None
    } else if t[pos] == '\n' {
        Some(pos)
    } else {
        next_newline(t, pos + 1)
    }
}

pub proof fn lemma_next_newline_bounds(t: Seq<char>, pos: int)
    requires
        0 <= pos,
    ensures
        next_newline(t, pos) matches Some(m) ==> pos <= m < t.len() && t[m] == '\n',
    decreases t.len() - pos,
{
    if pos < t.len() && t[pos] != '\n' {
        lemma_next_newline_bounds(t, pos + 1);
    }
}

/// A carriage return just before a newline belongs to the line ending, not
/// to the line.
pub open spec fn strip_return(line: Seq<char>) -> Seq<char> {
    if line.len() > 0 && line.last() == '\r' {
        line.drop_last()
    } else {
        line
    }
}

/// Captures of the whole text from `pos` on: the text is processed line by
/// line, split at newlines, and entries never span lines.
pub open spec fn captures_from(t: Seq<char>, pos: int) -> Seq<Seq<char>>
    decreases t.len() - pos,
    when 0 <= pos <= t.len()
    via captures_from_decreases
{
    match next_newline(t, pos) {
        None => line_captures_from(t.subrange(pos, t.len() as int), 0),
        Some(m) => line_captures_from(strip_return(t.subrange(pos, m)), 0) + captures_from(
            t,
            m + 1,
        ),
    }
}

#[via_fn]
proof fn captures_from_decreases(t: Seq<char>, pos: int) {
    if 0 <= pos {
        lemma_next_newline_bounds(t, pos);
    }
}

/// The ordered captures of the whole diagnostic text.
pub open spec fn captures(t: Seq<char>) -> Seq<Seq<char>> {
    captures_from(t, 0)
}

fn scan_digit_run(s: &str, n: usize, start: usize) -> (r: usize)
    requires
        n == s@.len(),
        start <= n,
    ensures
        r as int == digit_run_end(s@, start as int),
        start <= r <= n,
{
    let mut i: usize = start;
    let mut go = true;
    while go
        invariant
            n == s@.len(),
            start <= i <= n,
            digit_run_end(s@, start as int) == if go {
                digit_run_end(s@, i as int)
            } else {
                i as int
            },
        decreases n - i + if go {
            1int
        } else {
            0int
        },
    {
        if i < n {
            let c = s.get_char(i);
            let v = c as u32;
            if 48 <= v && v <= 57 {
                proof {
                    assert(digit_run_end(s@, i as int) == digit_run_end(s@, i + 1));
                }
                i += 1;
            } else {
                go = false;
            }
        } else {
            go = false;
        }
    }
    i
}

fn is_space_char(c: char) -> (r: bool)
    ensures
        r == is_pattern_space(c),
{
    c == ' ' || c == '\t' || c == '\n' || c == '\r' || c == '\u{b}' || c == '\u{c}'
}

fn scan_space_run(s: &str, n: usize, start: usize) -> (r: usize)
    requires
        n == s@.len(),
        start <= n,
    ensures
        r as int == space_run_end(s@, start as int),
        start <= r <= n,
{
    let mut i: usize = start;
    let mut go = true;
    while go
        invariant
            n == s@.len(),
            start <= i <= n,
            space_run_end(s@, start as int) == if go {
                space_run_end(s@, i as int)
            } else {
                i as int
            },
        decreases n - i + if go {
            1int
        } else {
            0int
        },
    {
        if i < n {
            let c = s.get_char(i);
            if is_space_char(c) {
                proof {
                    assert(space_run_end(s@, i as int) == space_run_end(s@, i + 1));
                }
                i += 1;
            } else {
                go = false;
            }
        } else {
            go = false;
        }
    }
    i
}

fn match_tail(s: &str, n: usize, j: usize) -> (r: Option<(String, usize)>)
    requires
        n == s@.len(),
        j < n,
    ensures
        r is Some <==> tail_match(s@, j as int) is Some,
        r matches Some(p) ==> (tail_match(s@, j as int) matches Some(q) && p.0@ == q.0 && p.1
            as int == q.1),
{
    if s.get_char(j) != '[' {
        return None;
    }
    let a = scan_digit_run(s, n, j + 1);
    if !(a > j + 1) {
        return None;
    }
    if a >= n {
        return None;
    }
    if !(a + 1 < n) {
        return None;
    }
    if s.get_char(a) != ']' {
        return None;
    }
    if s.get_char(a + 1) != ':' {
        return None;
    }
    let b = scan_space_run(s, n, a + 2);
    if !(b > a + 2) {
        return None;
    }
    let c = scan_digit_run(s, n, b);
    if !(c > b) {
        return None;
    }
    let d = scan_space_run(s, n, c);
    if !(d > c) {
        return None;
    }
    if !(d < n) {
        return None;
    }
    if s.get_char(d) != '(' {
        return None;
    }
    let cap = s.substring_char(b, c);
    Some((String::from_str(cap), d + 1))
}

fn find_tag(s: &str, n: usize, start: usize) -> (r: Option<usize>)
    requires
        n == s@.len(),
        start <= n,
    ensures
        r is None ==> next_tag(s@, start as int) is None,
        r matches Some(i) ==> next_tag(s@, start as int) == Some(i as int) && start <= i && i + 5
            <= n,
{
    let mut i: usize = start;
    loop
        invariant
            n == s@.len(),
            start <= i <= n,
            next_tag(s@, start as int) == next_tag(s@, i as int),
        decreases n - i,
    {
        if n - i >= 5 {
            if s.get_char(i) == '[' && s.get_char(i + 1) == 'T' && s.get_char(i + 2) == 'O'
                && s.get_char(i + 3) == 'O' && s.get_char(i + 4) == ']' {
                proof {
                    assert(tag_at(s@, i as int));
                }
                return Some(i);
            }
            proof {
                assert(!tag_at(s@, i as int));
                assert(next_tag(s@, i as int) == next_tag(s@, i + 1));
            }
            i += 1;
        } else {
            proof {
                assert(next_tag(s@, i as int) is None);
            }
            return None;
        }
    }
}

fn find_tail(s: &str, n: usize, start: usize) -> (r: Option<(String, usize)>)
    requires
        n == s@.len(),
        start <= n,
    ensures
        r is None ==> next_tail(s@, start as int) is None,
        r matches Some(p) ==> (next_tail(s@, start as int) matches Some(j) && (start <= j && (
        tail_match(s@, j) matches Some(q) && (p.0@ == q.0 && p.1 as int == q.1)))),
{
    let mut jj: usize = start;
    loop
        invariant
            n == s@.len(),
            start <= jj <= n,
            next_tail(s@, start as int) == next_tail(s@, jj as int),
        decreases n - jj,
    {
        if jj < n {
            match match_tail(s, n, jj) {
                Some(p) => {
                    proof {
                        assert(next_tail(s@, jj as int) == Some(jj as int));
                    }
                    return Some(p);
                },
                None => {
                    proof {
                        assert(next_tail(s@, jj as int) == next_tail(s@, jj + 1));
                    }
                    jj += 1;
                },
            }
        } else {
            proof {
                assert(next_tail(s@, jj as int) is None);
            }
            return None;
        }
    }
}

/// Scans one line for entries, in source order.
fn scan_line(s: &str) -> (r: Vec<String>)
    ensures
        r.deep_view() == line_captures_from(s@, 0),
{
    let n = s.unicode_len();
    let mut out: Vec<String> = Vec::new();
    let mut pos: usize = 0;
    loop
        invariant
            n == s@.len(),
            0 <= pos <= n,
            line_captures_from(s@, 0) == out.deep_view() + line_captures_from(s@, pos as int),
        decreases n - pos,
    {
        match find_tag(s, n, pos) {
            None => {
                proof {
                    assert(line_captures_from(s@, pos as int) =~= Seq::<Seq<char>>::empty());
                    assert(line_captures_from(s@, 0) =~= out.deep_view());
                }
                return out;
            },
            Some(i) => {
                match find_tail(s, n, i + 5) {
                    None => {
                        proof {
                            assert(line_captures_from(s@, pos as int) =~= Seq::<
                                Seq<char>,
                            >::empty());
                            assert(line_captures_from(s@, 0) =~= out.deep_view());
                        }
                        return out;
                    },
                    Some(p) => {
                        let (cap, end) = p;
                        proof {
                            if let Some(j) = next_tail(s@, i + 5) {
                                lemma_tail_match_bounds(s@, j);
                            }
                            assert(line_captures_from(s@, pos as int) == seq![cap@]
                                + line_captures_from(s@, end as int));
                        }
                        let ghost old_view = out.deep_view();
                        out.push(cap);
                        proof {
                            assert(out.deep_view() =~= old_view.push(cap@));
                            assert(old_view.push(cap@) + line_captures_from(s@, end as int)
                                =~= old_view + (seq![cap@] + line_captures_from(
                                s@,
                                end as int,
                            )));
                            assert(line_captures_from(s@, 0) == out.deep_view()
                                + line_captures_from(s@, end as int));
                        }
                        pos = end;
                    },
                }
            },
        }
    }
}

fn find_newline(s: &str, n: usize, start: usize) -> (r: Option<usize>)
    requires
        n == s@.len(),
        start <= n,
    ensures
        r is None ==> next_newline(s@, start as int) is None,
        r matches Some(m) ==> next_newline(s@, start as int) == Some(m as int) && start <= m < n,
{
    let mut i: usize = start;
    loop
        invariant
            n == s@.len(),
            start <= i <= n,
            next_newline(s@, start as int) == next_newline(s@, i as int),
        decreases n - i,
    {
        if i < n {
            if s.get_char(i) == '\n' {
                proof {
                    assert(next_newline(s@, i as int) == Some(i as int));
                }
                return Some(i);
            }
            proof {
                assert(next_newline(s@, i as int) == next_newline(s@, i + 1));
            }
            i += 1;
        } else {
            proof {
                assert(next_newline(s@, i as int) is None);
            }
            return None;
        }
    }
}

/// Extracts every captured decimal number of the diagnostic text, as digit
/// strings, in source order and with duplicates kept.
pub fn extract_ids(text: &str) -> (r: Vec<String>)
    ensures
        r.deep_view() == captures(text@),
{
    let n = text.unicode_len();
    let mut out: Vec<String> = Vec::new();
    let mut pos: usize = 0;
    loop
        invariant
            n == text@.len(),
            0 <= pos <= n,
            captures(text@) == out.deep_view() + captures_from(text@, pos as int),
        decreases n - pos,
    {
        match find_newline(text, n, pos) {
            None => {
                let line = text.substring_char(pos, n);
                let mut chunk = scan_line(line);
                proof {
                    assert(captures_from(text@, pos as int) == line_captures_from(
                        text@.subrange(pos as int, n as int),
                        0,
                    ));
                }
                let ghost old_view = out.deep_view();
                out.append(&mut chunk);
                proof {
                    assert(out.deep_view() =~= old_view + line_captures_from(line@, 0));
                    assert(out.deep_view() =~= captures(text@));
                }
                return out;
            },
            Some(m) => {
                let mut line_end: usize = m;
                if m > pos && text.get_char(m - 1) == '\r' {
                    line_end = m - 1;
                }
                let line = text.substring_char(pos, line_end);
                proof {
                    let sub = text@.subrange(pos as int, m as int);
                    if m > pos {
                        assert(sub.last() == text@[m - 1]);
                    }
                    assert(line@ =~= strip_return(sub));
                }
                let mut chunk = scan_line(line);
                let ghost old_view = out.deep_view();
                out.append(&mut chunk);
                proof {
                    assert(out.deep_view() =~= old_view + line_captures_from(line@, 0));
                    assert(captures_from(text@, pos as int) == line_captures_from(line@, 0)
                        + captures_from(text@, m + 1));
                    assert(captures(text@) == out.deep_view() + captures_from(text@, m + 1));
                }
                pos = m + 1;
            },
        }
    }
}

} // verus!
