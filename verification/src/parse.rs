//! The trace output parser: a fixed-grammar reading of one line of reverse
//! trace output into a structured record, and the splitting of whole trace
//! output into lines.
//!
//! A line is structured as
//! `<revision> <new-line-number> <free text> <orig-line-number>)<content>`:
//! a revision token (a non-space run at the start), a "new" line number
//! token (the next non-space run), and an "orig" line number (the digits
//! between the last space and the first closing parenthesis that precedes
//! the content).

use vstd::prelude::*;
use vstd::string::*;

use crate::errors::ParseError;
use crate::scan::all_digits;
use crate::scan::find_char_from;
use crate::scan::first_at;
use crate::scan::is_digit_char;
use crate::scan::last_space_before;
use crate::scan::lemma_first_at;
use crate::scan::parse_i32_range;
use crate::scan::parse_i32_spec;
use crate::scan::rfind_space_before;

verus! {

/// One row of a trace: where a present-day line came from.
#[derive(Debug, PartialEq)]
pub struct GitBlameResult {
    pub revision: String,
    pub orig_line_number: i32,
    pub new_line_number: i32,
}

/// End of the revision token: the first space of the line.
pub open spec fn rev_end(s: Seq<char>) -> int {
    first_at(s, 0, ' ')
}

/// End of the "new" line number token: the next space after the revision.
pub open spec fn newtok_end(s: Seq<char>) -> int {
    first_at(s, rev_end(s) + 1, ' ')
}

/// The closing parenthesis that separates the record from the line content.
pub open spec fn close_paren_at(s: Seq<char>) -> int {
    first_at(s, newtok_end(s) + 1, ')')
}

/// The last space before the closing parenthesis; the "orig" line number
/// sits between this space and the parenthesis.
pub open spec fn orig_start(s: Seq<char>) -> int {
    last_space_before(s, close_paren_at(s))
}

/// Whether a raw line has the expected shape: a non-empty revision token, a
/// non-empty second token, a closing parenthesis, at least one character
/// between the second token and the last space before that parenthesis, and
/// a non-empty digit run between that space and the parenthesis.
pub open spec fn line_shape_ok(s: Seq<char>) -> bool {
    let i1 = rev_end(s);
    let i2 = newtok_end(s);
    let j = close_paren_at(s);
    let p = orig_start(s);
    &&& 1 <= i1 < s.len()
    &&& i1 + 2 <= i2 < s.len()
    &&& j < s.len()
    &&& i2 + 2 <= p
    &&& p + 2 <= j
    &&& all_digits(s.subrange(p + 1, j))
}

/// The revision token of a well-shaped line.
pub open spec fn rev_token(s: Seq<char>) -> Seq<char> {
    s.subrange(0, rev_end(s))
}

/// The "new" line number token of a well-shaped line.
pub open spec fn new_token(s: Seq<char>) -> Seq<char> {
    s.subrange(rev_end(s) + 1, newtok_end(s))
}

/// The "orig" line number digits of a well-shaped line.
pub open spec fn orig_token(s: Seq<char>) -> Seq<char> {
    s.subrange(orig_start(s) + 1, close_paren_at(s))
}

/// What one raw line parses to: the revision token, the "new" line number
/// and the "orig" line number, or nothing when the shape is wrong or a
/// number does not fit an `i32`.
pub open spec fn parse_line_spec(s: Seq<char>) -> Option<(Seq<char>, i32, i32)> {
    if !line_shape_ok(s) {
        None
    } else {
        match (parse_i32_spec(new_token(s)), parse_i32_spec(orig_token(s))) {
            (Some(nl), Some(ol)) => Some((rev_token(s), nl, ol)),
            _ => None,
        }
    }
}

/// `rec` is exactly what `l` parses to.
pub open spec fn record_matches(rec: GitBlameResult, l: Seq<char>) -> bool {
    match parse_line_spec(l) {
        Some(t) => rec.revision@ == t.0 && rec.new_line_number == t.1 && rec.orig_line_number
            == t.2,
        None => false,
    }
}

impl GitBlameResult {
    /// Parse one raw trace line. Returns the structured record exactly when
    /// the line matches the fixed grammar and both numbers fit an `i32`;
    /// otherwise surfaces the offending line.
    pub fn new_from_line(line: &str) -> (r: Result<GitBlameResult, ParseError>)
        ensures
            match r {
                Ok(res) => record_matches(res, line@),
                Err(e) => parse_line_spec(line@) is None && e.line@ == line@,
            },
    {
        let n = line.unicode_len();
        let i1 = find_char_from(line, 0, ' ');
        proof {
            lemma_first_at(line@, 0, ' ');
        }
        if i1 < 1 || i1 >= n {
            return Err(ParseError { line: line.to_owned() });
        }
        let i2 = find_char_from(line, i1 + 1, ' ');
        proof {
            lemma_first_at(line@, i1 as int + 1, ' ');
        }
        if i2 >= n || i2 - i1 < 2 {
            return Err(ParseError { line: line.to_owned() });
        }
        let j = find_char_from(line, i2 + 1, ')');
        proof {
            lemma_first_at(line@, i2 as int + 1, ')');
        }
        if j >= n {
            return Err(ParseError { line: line.to_owned() });
        }
        let p = match rfind_space_before(line, j) {
            Some(p) => p,
            None => {
                return Err(ParseError { line: line.to_owned() });
            },
        };
        proof {
            crate::scan::lemma_last_space_before(line@, j as int);
        }
        if p <= i2 || p - i2 < 2 || j - p < 2 {
            return Err(ParseError { line: line.to_owned() });
        }
        let ghost digits = line@.subrange(p + 1, j as int);
        let mut k = p + 1;
        while k < j
            invariant
                n == line@.len(),
                i1 == rev_end(line@),
                i2 == newtok_end(line@),
                j == close_paren_at(line@),
                p == orig_start(line@),
                1 <= i1 < n,
                i1 + 2 <= i2 < n,
                j < n,
                i2 + 2 <= p,
                p + 1 <= k <= j <= line@.len(),
                p + 2 <= j,
                digits == line@.subrange(p + 1, j as int),
                forall|t: int| p + 1 <= t < k ==> is_digit_char(#[trigger] line@[t]),
            decreases j - k,
        {
            let u = line.get_char(k) as u32;
            if u < 48 || u > 57 {
                proof {
                    assert(digits[k - (p + 1)] == line@[k as int]);
                    assert(!all_digits(digits));
                }
                return Err(ParseError { line: line.to_owned() });
            }
            k = k + 1;
        }
        proof {
            assert forall|q: int| 0 <= q < digits.len() implies is_digit_char(
                #[trigger] digits[q],
            ) by {
                assert(digits[q] == line@[p + 1 + q]);
            }
            assert(line_shape_ok(line@));
        }
        let new_line_number = match parse_i32_range(line, i1 + 1, i2) {
            Some(v) => v,
            None => {
                return Err(ParseError { line: line.to_owned() });
            },
        };
        let orig_line_number = match parse_i32_range(line, p + 1, j) {
            Some(v) => v,
            None => {
                return Err(ParseError { line: line.to_owned() });
            },
        };
        let revision = line.substring_char(0, i1).to_owned();
        Ok(GitBlameResult { revision, orig_line_number, new_line_number })
    }
}

/// A line with its trailing carriage return removed, as happens at a
/// carriage-return-line-feed line ending.
pub open spec fn strip_cr(l: Seq<char>) -> Seq<char> {
    if l.len() > 0 && l[l.len() - 1] == '\r' {
        l.drop_last()
    } else {
        l
    }
}

/// The lines of `s` from position `pos` on: split at each line feed, with a
/// carriage return before a line feed removed, and no empty final line when
/// the text ends with a line feed.
pub open spec fn lines_from(s: Seq<char>, pos: int) -> Seq<Seq<char>>
    decreases s.len() - pos,
    via lines_from_decreases
{
    if pos < 0 || pos >= s.len() {
        Seq::empty()
    } else {
        let j = first_at(s, pos, '\n');
        if j >= s.len() {
            seq![s.subrange(pos, s.len() as int)]
        } else {
            seq![strip_cr(s.subrange(pos, j))] + lines_from(s, j + 1)
        }
    }
}

#[via_fn]
proof fn lines_from_decreases(s: Seq<char>, pos: int) {
    if 0 <= pos < s.len() {
        lemma_first_at(s, pos, '\n');
    }
}

/// The lines of a whole trace output.
pub open spec fn blame_lines(s: Seq<char>) -> Seq<Seq<char>> {
    lines_from(s, 0)
}

/// Parse a whole trace output, line by line, in order. Succeeds exactly
/// when every line parses; otherwise surfaces the first offending line.
/// Partial traces are not recoverable.
#[verifier::rlimit(60)]
pub fn parse_blame_output(text: &str) -> (r: Result<Vec<GitBlameResult>, ParseError>)
    ensures
        match r {
            Ok(v) => {
                &&& v@.len() == blame_lines(text@).len()
                &&& forall|i: int|
                    0 <= i < v@.len() ==> record_matches(
                        #[trigger] v@[i],
                        blame_lines(text@)[i],
                    )
            },
            Err(e) => exists|i: int|
                {
                    &&& 0 <= i < blame_lines(text@).len()
                    &&& parse_line_spec(#[trigger] blame_lines(text@)[i]) is None
                    &&& e.line@ == blame_lines(text@)[i]
                    &&& forall|j: int|
                        0 <= j < i ==> parse_line_spec(blame_lines(text@)[j]) is Some
                },
        },
{
    let ghost ls = blame_lines(text@);
    let n = text.unicode_len();
    let mut out: Vec<GitBlameResult> = Vec::new();
    let mut pos: usize = 0;
    proof {
        assert(ls.skip(0) =~= ls);
    }
    while pos < n
        invariant
            pos <= n,
            n == text@.len(),
            ls == blame_lines(text@),
            out@.len() <= ls.len(),
            lines_from(text@, pos as int) == ls.skip(out@.len() as int),
            forall|i: int| 0 <= i < out@.len() ==> record_matches(#[trigger] out@[i], ls[i]),
        decreases n - pos,
    {
        let ghost k = out@.len() as int;
        let j = find_char_from(text, pos, '\n');
        proof {
            lemma_first_at(text@, pos as int, '\n');
        }
        let (seg_end, next_pos): (usize, usize) = if j >= n {
            (n, n)
        } else if j > pos && text.get_char(j - 1) == '\r' {
            (j - 1, j + 1)
        } else {
            (j, j + 1)
        };
        let ghost seg = text@.subrange(pos as int, seg_end as int);
        proof {
            if j >= n {
                assert(lines_from(text@, next_pos as int) =~= Seq::<Seq<char>>::empty());
                assert(lines_from(text@, pos as int) =~= seq![seg] + lines_from(
                    text@,
                    next_pos as int,
                ));
            } else {
                let raw = text@.subrange(pos as int, j as int);
                if j > pos && text@[j as int - 1] == '\r' {
                    assert(raw[raw.len() - 1] == text@[j as int - 1]);
                    assert(strip_cr(raw) =~= seg);
                } else {
                    assert(strip_cr(raw) =~= seg);
                }
                assert(lines_from(text@, pos as int) == seq![strip_cr(raw)] + lines_from(
                    text@,
                    j as int + 1,
                ));
                assert(lines_from(text@, pos as int) =~= seq![seg] + lines_from(
                    text@,
                    next_pos as int,
                ));
            }
            assert(ls.skip(k) =~= seq![seg] + lines_from(text@, next_pos as int));
            assert(ls[k] == ls.skip(k)[0]);
            assert(ls[k] == seg);
            assert forall|i: int| 0 <= i < lines_from(text@, next_pos as int).len() implies
                lines_from(text@, next_pos as int)[i] == ls.skip(k + 1)[i] by {
                assert(ls.skip(k + 1)[i] == ls[k + 1 + i]);
                assert(ls.skip(k)[1 + i] == ls[k + 1 + i]);
                assert((seq![seg] + lines_from(text@, next_pos as int))[1 + i] == lines_from(
                    text@,
                    next_pos as int,
                )[i]);
            }
            assert(lines_from(text@, next_pos as int) =~= ls.skip(k + 1));
        }
        let seg_str = text.substring_char(pos, seg_end);
        match GitBlameResult::new_from_line(seg_str) {
            Ok(rec) => {
                out.push(rec);
            },
            Err(e) => {
                proof {
                    assert(parse_line_spec(ls[k]) is None);
                    assert forall|j2: int| 0 <= j2 < k implies parse_line_spec(
                        blame_lines(text@)[j2],
                    ) is Some by {
                        assert(record_matches(out@[j2], ls[j2]));
                    }
                    assert({
                        &&& 0 <= k < blame_lines(text@).len()
                        &&& parse_line_spec(blame_lines(text@)[k]) is None
                        &&& e.line@ == blame_lines(text@)[k]
                        &&& forall|j2: int|
                            0 <= j2 < k ==> parse_line_spec(blame_lines(text@)[j2]) is Some
                    });
                }
                return Err(e);
            },
        }
        pos = next_pos;
    }
    proof {
        assert(lines_from(text@, pos as int) =~= Seq::<Seq<char>>::empty());
        assert(ls.skip(out@.len() as int).len() == 0);
    }
    Ok(out)
}

} // verus!
