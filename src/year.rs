use crate::text::{trim_of, trim_text};
use vstd::prelude::*;

verus! {

/// An ASCII decimal digit.
pub open spec fn is_digit(c: char) -> bool {
    '0' <= c && c <= '9'
}

pub open spec fn digit_value(c: char) -> int {
    c as int - '0' as int
}

pub open spec fn all_digits(s: Seq<char>) -> bool {
    forall|i: int| 0 <= i < s.len() ==> #[trigger] is_digit(s[i])
}

/// The number that a string of decimal digits denotes, most significant first.
pub open spec fn digits_value(s: Seq<char>) -> int
    decreases s.len(),
{
    if s.len() == 0 {
        0
    } else {
        10 * digits_value(s.drop_last()) + digit_value(s.last())
    }
}

/// The integer that `s` writes in decimal: an optional `+` or `-` followed by
/// at least one digit, and nothing else.
pub open spec fn decimal_value(s: Seq<char>) -> Option<int> {
    if s.len() > 0 && (s[0] == '+' || s[0] == '-') {
        let d = s.subrange(1, s.len() as int);
        if d.len() > 0 && all_digits(d) {
            Some(if s[0] == '-' { -digits_value(d) } else { digits_value(d) })
        } else {
            None
        }
    } else if s.len() > 0 && all_digits(s) {
        Some(digits_value(s))
    } else {
        None
    }
}

/// The year that the text `s` gives: its decimal value where that fits in an
/// `i32`. Any such value is accepted, however far from the present.
pub open spec fn year_of_text(s: Seq<char>) -> Option<i32> {
    match decimal_value(s) {
        Some(v) => if i32::MIN <= v <= i32::MAX {
            Some(v as i32)
        } else {
            None
        },
        None => None,
    }
}

proof fn lemma_digits_value_nonneg(s: Seq<char>)
    requires
        all_digits(s),
    ensures
        digits_value(s) >= 0,
    decreases s.len(),
{
    if s.len() > 0 {
        assert(is_digit(s[s.len() - 1]));
        lemma_digits_value_nonneg(s.drop_last());
    }
}

/// Reads `t` as a decimal `i32`, exactly as the whole text stands (no
/// whitespace is skipped).
pub fn parse_year_text(t: &str) -> (r: Option<i32>)
    ensures
        r == year_of_text(t@),
{
    let n = t.unicode_len();
    if n == 0 {
        return None;
    }
    let first = t.get_char(0);
    let start: usize = if first == '+' || first == '-' { 1 } else { 0 };
    if start == n {
        return None;
    }
    let ghost d = t@.subrange(start as int, n as int);
    let mut i: usize = start;
    let mut acc: i64 = 0;
    let mut too_big = false;
    while i < n
        invariant
            start <= i <= n,
            n == t@.len(),
            start < n,
            first == t@[0],
            start == 1 <==> (first == '+' || first == '-'),
            start <= 1,
            d == t@.subrange(start as int, n as int),
            all_digits(t@.subrange(start as int, i as int)),
            0 <= acc <= 2147483648,
            !too_big ==> acc == digits_value(t@.subrange(start as int, i as int)),
            too_big ==> digits_value(t@.subrange(start as int, i as int)) > 2147483648,
        decreases n - i,
    {
        let c = t.get_char(i);
        let ghost prev = t@.subrange(start as int, i as int);
        let ghost next = t@.subrange(start as int, i + 1);
        if !('0' <= c && c <= '9') {
            assert(d[i - start] == c);
            assert(!is_digit(d[i - start]));
            assert(!all_digits(d));
            if start == 0 {
                assert(d =~= t@);
            } else {
                assert(d =~= t@.subrange(1, t@.len() as int));
            }
            return None;
        }
        assert(next.drop_last() =~= prev);
        assert(next.last() == c);
        assert(all_digits(next)) by {
            assert forall|k: int| 0 <= k < next.len() implies #[trigger] is_digit(next[k]) by {
                if k < prev.len() {
                    assert(next[k] == prev[k]);
                }
            }
        }
        proof {
            lemma_digits_value_nonneg(prev);
        }
        if !too_big {
            let v = acc * 10 + (c as u32 - '0' as u32) as i64;
            if v > 2147483648 {
                too_big = true;
            } else {
                acc = v;
            }
        }
        i = i + 1;
    }
    assert(t@.subrange(start as int, n as int) =~= d);
    if start == 0 {
        assert(d =~= t@);
    }
    if too_big {
        None
    } else if first == '-' {
        Some((-acc) as i32)
    } else if acc <= 2147483647 {
        Some(acc as i32)
    } else {
        None
    }
}

/// The decision taken on one line typed at the year prompt: `Some(y)` goes
/// on with birth year `y`, `None` reports an invalid year and asks again.
/// Surrounding white space, the line break included, is ignored.
pub fn parse_year_line(line: &str) -> (r: Option<i32>)
    ensures
        r == year_of_text(trim_of(line@)),
{
    parse_year_text(trim_text(line))
}

/// Whether the `k`-th typed line is accepted at the year prompt.
pub open spec fn line_accepted(lines: Seq<String>, k: int) -> bool {
    year_of_text(trim_of(lines[k]@)) is Some
}

/// Runs the year prompt over the lines typed in turn. Returns the year read
/// and how many lines were rejected before it: the year comes from the first
/// line that reads as one, and every line before it was rejected. Where no
/// line reads as a year, all of them were rejected and the prompt is still
/// waiting (`None`).
pub fn resolve_year(lines: &Vec<String>) -> (r: (Option<i32>, usize))
    ensures
        r.1 <= lines@.len(),
        forall|k: int| 0 <= k < r.1 ==> !#[trigger] line_accepted(lines@, k),
        r.0 is Some <==> r.1 < lines@.len(),
        r.1 < lines@.len() ==> r.0 == year_of_text(trim_of(lines@[r.1 as int]@)),
{
    let mut i: usize = 0;
    while i < lines.len()
        invariant
            i <= lines@.len(),
            forall|k: int| 0 <= k < i ==> !#[trigger] line_accepted(lines@, k),
        decreases lines@.len() - i,
    {
        let found = parse_year_line(lines[i].as_str());
        if found.is_some() {
            return (found, i);
        }
        assert(!line_accepted(lines@, i as int));
        i = i + 1;
    }
    (None, i)
}

} // verus!
