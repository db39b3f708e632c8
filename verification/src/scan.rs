//! Character scanning and integer parsing primitives used by the trace
//! output parser.

use vstd::prelude::*;
use vstd::string::*;

verus! {

/// The smallest index `i` with `from <= i < s.len()` and `s[i] == c`, or
/// `s.len()` when no such index exists.
pub open spec fn first_at(s: Seq<char>, from: int, c: char) -> int
    decreases s.len() - from,
{
    if from < 0 || from >= s.len() {
        s.len() as int
    } else if s[from] == c {
        from
    } else {
        first_at(s, from + 1, c)
    }
}

/// `first_at` really is the first occurrence at or after `from`.
pub proof fn lemma_first_at(s: Seq<char>, from: int, c: char)
    requires
        0 <= from <= s.len(),
    ensures
        from <= first_at(s, from, c) <= s.len(),
        first_at(s, from, c) < s.len() ==> s[first_at(s, from, c)] == c,
        forall|k: int| from <= k < first_at(s, from, c) ==> s[k] != c,
    decreases s.len() - from,
{
    if from < s.len() && s[from] != c {
        lemma_first_at(s, from + 1, c);
    }
}

/// The largest index `p < end` with `s[p] == ' '`, or `-1` when no space
/// occurs before `end`.
pub open spec fn last_space_before(s: Seq<char>, end: int) -> int
    decreases end,
{
    if end <= 0 || end > s.len() {
        -1
    } else if s[end - 1] == ' ' {
        end - 1
    } else {
        last_space_before(s, end - 1)
    }
}

/// `last_space_before` really is the last space strictly before `end`.
pub proof fn lemma_last_space_before(s: Seq<char>, end: int)
    requires
        0 <= end <= s.len(),
    ensures
        -1 <= last_space_before(s, end) < end,
        last_space_before(s, end) >= 0 ==> s[last_space_before(s, end)] == ' ',
        forall|k: int| last_space_before(s, end) < k < end ==> s[k] != ' ',
    decreases end,
{
    if end > 0 && s[end - 1] != ' ' {
        lemma_last_space_before(s, end - 1);
    }
}

/// Scan `s` from index `from` for the first occurrence of `c`.
pub fn find_char_from(s: &str, from: usize, c: char) -> (r: usize)
    requires
        from <= s@.len(),
    ensures
        r == first_at(s@, from as int, c),
{
    let n = s.unicode_len();
    let mut i = from;
    while i < n
        invariant
            from <= i <= n,
            n == s@.len(),
            first_at(s@, from as int, c) == first_at(s@, i as int, c),
        decreases n - i,
    {
        if s.get_char(i) == c {
            return i;
        }
        i = i + 1;
    }
    n
}

/// Scan backward from `end` for the last space before it.
pub fn rfind_space_before(s: &str, end: usize) -> (r: Option<usize>)
    requires
        end <= s@.len(),
    ensures
        match r {
            Some(p) => p == last_space_before(s@, end as int),
            None => last_space_before(s@, end as int) == -1,
        },
{
    let mut i = end;
    while i > 0
        invariant
            i <= end <= s@.len(),
            last_space_before(s@, end as int) == last_space_before(s@, i as int),
        decreases i,
    {
        if s.get_char(i - 1) == ' ' {
            return Some(i - 1);
        }
        i = i - 1;
    }
    None
}

/// The ten decimal digit characters.
pub open spec fn is_digit_char(c: char) -> bool {
    48 <= c as int && c as int <= 57
}

/// The numeric value of one digit character.
pub open spec fn digit_val(c: char) -> int {
    c as int - 48
}

/// Every character of `s` is a decimal digit.
pub open spec fn all_digits(s: Seq<char>) -> bool {
    forall|i: int| 0 <= i < s.len() ==> is_digit_char(#[trigger] s[i])
}

/// The value of a digit string read in base ten.
pub open spec fn digits_val(s: Seq<char>) -> int
    decreases s.len(),
{
    if s.len() == 0 {
        0
    } else {
        digits_val(s.drop_last()) * 10 + digit_val(s.last())
    }
}

/// A digit string's value is never negative.
pub proof fn lemma_digits_val_nonneg(s: Seq<char>)
    requires
        all_digits(s),
    ensures
        digits_val(s) >= 0,
    decreases s.len(),
{
    if s.len() > 0 {
        assert(all_digits(s.drop_last()));
        lemma_digits_val_nonneg(s.drop_last());
    }
}

/// Extending a digit string never shrinks its value.
pub proof fn lemma_digits_val_prefix(s: Seq<char>, k: int)
    requires
        all_digits(s),
        0 <= k <= s.len(),
    ensures
        digits_val(s.subrange(0, k)) <= digits_val(s),
    decreases s.len() - k,
{
    if k < s.len() {
        lemma_digits_val_prefix(s, k + 1);
        let a = s.subrange(0, k);
        let b = s.subrange(0, k + 1);
        assert(b.drop_last() =~= a);
        assert(all_digits(a));
        lemma_digits_val_nonneg(a);
        assert(digits_val(b) == digits_val(a) * 10 + digit_val(b.last()));
    } else {
        assert(s.subrange(0, k) =~= s);
    }
}

/// Whether a numeric string carries a leading minus sign.
pub open spec fn i32_str_negative(s: Seq<char>) -> bool {
    s.len() > 0 && s[0] == '-'
}

/// The magnitude part of a numeric string: everything after an optional sign.
pub open spec fn i32_str_mag(s: Seq<char>) -> Seq<char> {
    if s.len() > 0 && (s[0] == '+' || s[0] == '-') {
        s.subrange(1, s.len() as int)
    } else {
        s
    }
}

/// What `str::parse::<i32>` accepts: an optional sign, then at least one
/// digit, with the value in range for `i32`.
pub open spec fn parse_i32_spec(s: Seq<char>) -> Option<i32> {
    let negative = i32_str_negative(s);
    let mag = i32_str_mag(s);
    if mag.len() == 0 || !all_digits(mag) {
        None
    } else if negative {
        if digits_val(mag) <= 2147483648 {
            Some((-digits_val(mag)) as i32)
        } else {
            None
        }
    } else {
        if digits_val(mag) <= 2147483647 {
            Some(digits_val(mag) as i32)
        } else {
            None
        }
    }
}

/// Parse `s[from..to]` as an `i32`, exactly as `str::parse::<i32>` would.
pub fn parse_i32_range(s: &str, from: usize, to: usize) -> (r: Option<i32>)
    requires
        from <= to <= s@.len(),
    ensures
        r == parse_i32_spec(s@.subrange(from as int, to as int)),
{
    let ghost whole = s@.subrange(from as int, to as int);
    if from == to {
        return None;
    }
    let c0 = s.get_char(from);
    let negative = c0 == '-';
    let start = if c0 == '-' || c0 == '+' {
        from + 1
    } else {
        from
    };
    let ghost mag = s@.subrange(start as int, to as int);
    proof {
        if start != from {
            assert(mag =~= whole.subrange(1, whole.len() as int));
        }
        assert(mag == i32_str_mag(whole));
    }
    if start == to {
        return None;
    }
    let mut acc: u64 = 0;
    let mut i = start;
    while i < to
        invariant
            from <= start <= i <= to <= s@.len(),
            whole == s@.subrange(from as int, to as int),
            mag == s@.subrange(start as int, to as int),
            mag == i32_str_mag(whole),
            negative == i32_str_negative(whole),
            mag.len() == to - start,
            mag.len() > 0,
            acc <= 2147483648,
            acc == digits_val(mag.subrange(0, (i - start) as int)),
            all_digits(mag.subrange(0, (i - start) as int)),
        decreases to - i,
    {
        let c = s.get_char(i);
        let u = c as u32;
        let ghost done = mag.subrange(0, (i - start) as int);
        let ghost next = mag.subrange(0, (i - start) as int + 1);
        proof {
            assert(next.drop_last() =~= done);
            assert(next.last() == mag[i - start]);
            assert(mag[i - start] == s@[i as int]);
        }
        if u < 48 || u > 57 {
            proof {
                assert(!is_digit_char(mag[i - start]));
                assert(!all_digits(mag));
            }
            return None;
        }
        let d = (u - 48) as u64;
        let acc2: u64 = acc * 10 + d;
        proof {
            assert(all_digits(next));
            assert(digits_val(next) == digits_val(done) * 10 + digit_val(next.last()));
            assert(acc2 == digits_val(next));
        }
        if acc2 > 2147483648 {
            proof {
                if all_digits(mag) {
                    lemma_digits_val_prefix(mag, (i - start) as int + 1);
                    assert(digits_val(mag) >= digits_val(next));
                }
            }
            return None;
        }
        acc = acc2;
        i = i + 1;
    }
    proof {
        assert(mag.subrange(0, (i - start) as int) =~= mag);
    }
    if negative {
        let v: i64 = -(acc as i64);
        Some(v as i32)
    } else {
        if acc > 2147483647 {
            None
        } else {
            Some(acc as i32)
        }
    }
}

} // verus!
