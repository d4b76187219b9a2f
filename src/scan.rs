//! Character-level scanning of sensor and tool output.

use vstd::prelude::*;
use vstd::string::StrSliceExecFns;

verus! {

/// A decimal digit `0`..`9`.
pub open spec fn is_digit(c: char) -> bool {
    '0' <= c && c <= '9'
}

/// The value of a decimal digit.
pub open spec fn digit_value(c: char) -> int {
    (c as u32) - ('0' as u32)
}

/// A Unicode `White_Space` character.
pub open spec fn is_space(c: char) -> bool {
    let u = c as u32;
    (0x09 <= u && u <= 0x0D) || u == 0x20 || u == 0x85 || u == 0xA0 || u == 0x1680
        || (0x2000 <= u && u <= 0x200A) || u == 0x2028 || u == 0x2029 || u == 0x202F
        || u == 0x205F || u == 0x3000
}

/// The index just past the run of white space that starts at `i`.
pub open spec fn space_end(s: Seq<char>, i: int) -> int
    decreases s.len() - i,
{
    if 0 <= i < s.len() && is_space(s[i]) {
        space_end(s, i + 1)
    } else {
        i
    }
}

/// The index just past the run of digits that starts at `i`.
pub open spec fn digits_end(s: Seq<char>, i: int) -> int
    decreases s.len() - i,
{
    if 0 <= i < s.len() && is_digit(s[i]) {
        digits_end(s, i + 1)
    } else {
        i
    }
}

/// The number that a sequence of decimal digits spells.
pub open spec fn digits_value(s: Seq<char>) -> int
    decreases s.len(),
{
    if s.len() == 0 {
        0
    } else {
        10 * digits_value(s.drop_last()) + digit_value(s.last())
    }
}

/// Whether `p` occurs in `s` at index `i`.
pub open spec fn occurs_at(s: Seq<char>, i: int, p: Seq<char>) -> bool {
    0 <= i && i + p.len() <= s.len() && s.subrange(i, i + p.len()) == p
}

pub proof fn lemma_space_end_bounds(s: Seq<char>, i: int)
    requires
        0 <= i <= s.len(),
    ensures
        i <= space_end(s, i) <= s.len(),
        space_end(s, i) < s.len() ==> !is_space(s[space_end(s, i)]),
    decreases s.len() - i,
{
    if i < s.len() && is_space(s[i]) {
        lemma_space_end_bounds(s, i + 1);
    }
}

pub proof fn lemma_digits_end_bounds(s: Seq<char>, i: int)
    requires
        0 <= i <= s.len(),
    ensures
        i <= digits_end(s, i) <= s.len(),
        forall|k: int| i <= k < digits_end(s, i) ==> is_digit(#[trigger] s[k]),
    decreases s.len() - i,
{
    if i < s.len() && is_digit(s[i]) {
        lemma_digits_end_bounds(s, i + 1);
    }
}

/// A prefix of a digit sequence spells no larger a number than the whole.
pub proof fn lemma_digits_value_prefix(s: Seq<char>, k: int)
    requires
        0 <= k <= s.len(),
        forall|j: int| 0 <= j < s.len() ==> is_digit(#[trigger] s[j]),
    ensures
        0 <= digits_value(s.subrange(0, k)) <= digits_value(s),
    decreases s.len(),
{
    if s.len() > 0 {
        let t = s.drop_last();
        if k == s.len() {
            assert(s.subrange(0, k) =~= s);
            lemma_digits_value_prefix(t, t.len() as int);
            assert(t.subrange(0, t.len() as int) =~= t);
        } else {
            lemma_digits_value_prefix(t, k);
            assert(t.subrange(0, k) =~= s.subrange(0, k));
            lemma_digits_value_prefix(t, t.len() as int);
            assert(t.subrange(0, t.len() as int) =~= t);
        }
    } else {
        assert(s.subrange(0, k) =~= s);
    }
}

/// The characters of `s`, one by one.
pub fn chars_of(s: &str) -> (r: Vec<char>)
    ensures
        r@ == s@,
{
    let n = s.unicode_len();
    let mut r: Vec<char> = Vec::new();
    let mut i: usize = 0;
    while i < n
        invariant
            n == s@.len(),
            i <= n,
            r@ == s@.subrange(0, i as int),
        decreases n - i,
    {
        r.push(s.get_char(i));
        i = i + 1;
    }
    assert(r@ =~= s@);
    r
}

pub fn is_space_char(c: char) -> (r: bool)
    ensures
        r == is_space(c),
{
    let u = c as u32;
    (0x09 <= u && u <= 0x0D) || u == 0x20 || u == 0x85 || u == 0xA0 || u == 0x1680
        || (0x2000 <= u && u <= 0x200A) || u == 0x2028 || u == 0x2029 || u == 0x202F
        || u == 0x205F || u == 0x3000
}

/// Skips the white space that starts at `i`.
pub fn skip_spaces(s: &Vec<char>, i: usize) -> (r: usize)
    requires
        i <= s@.len(),
    ensures
        r == space_end(s@, i as int),
        i <= r <= s@.len(),
{
    let mut j = i;
    proof {
        lemma_space_end_bounds(s@, i as int);
    }
    while j < s.len() && is_space_char(s[j])
        invariant
            i <= j <= s@.len(),
            space_end(s@, j as int) == space_end(s@, i as int),
        decreases s@.len() - j,
    {
        j = j + 1;
    }
    j
}

/// Skips the digits that start at `i`.
pub fn skip_digits(s: &Vec<char>, i: usize) -> (r: usize)
    requires
        i <= s@.len(),
    ensures
        r == digits_end(s@, i as int),
        i <= r <= s@.len(),
{
    let mut j = i;
    while j < s.len() && '0' <= s[j] && s[j] <= '9'
        invariant
            i <= j <= s@.len(),
            digits_end(s@, j as int) == digits_end(s@, i as int),
        decreases s@.len() - j,
    {
        j = j + 1;
    }
    j
}

/// The number spelled by the digits `s[from..to]`, or `None` where it does not fit in `i32`.
pub fn parse_digits(s: &Vec<char>, from: usize, to: usize) -> (r: Option<i32>)
    requires
        from <= to <= s@.len(),
        forall|k: int| from <= k < to ==> is_digit(#[trigger] s@[k]),
    ensures
        match r {
            Some(v) => v as int == digits_value(s@.subrange(from as int, to as int)) && v >= 0,
            None => digits_value(s@.subrange(from as int, to as int)) > i32::MAX,
        },
{
    let ghost whole = s@.subrange(from as int, to as int);
    let mut v: i32 = 0;
    let mut k = from;
    while k < to
        invariant
            from <= k <= to <= s@.len(),
            whole == s@.subrange(from as int, to as int),
            forall|j: int| from <= j < to ==> is_digit(#[trigger] s@[j]),
            v as int == digits_value(s@.subrange(from as int, k as int)),
            0 <= v,
        decreases to - k,
    {
        let ghost before = s@.subrange(from as int, k as int);
        let ghost after = s@.subrange(from as int, k + 1);
        assert(after.drop_last() =~= before);
        assert(after.last() == s@[k as int]);
        assert(is_digit(s@[k as int]));
        let d: i32 = (s[k] as u32 - '0' as u32) as i32;
        if v > (i32::MAX - d) / 10 {
            proof {
                assert(digits_value(after) > i32::MAX);
                assert forall|j: int| 0 <= j < whole.len() implies is_digit(#[trigger] whole[j]) by {
                    assert(whole[j] == s@[from + j]);
                }
                lemma_digits_value_prefix(whole, k + 1 - from);
                assert(whole.subrange(0, k + 1 - from) =~= after);
            }
            return None;
        }
        v = 10 * v + d;
        k = k + 1;
    }
    Some(v)
}

/// Whether the characters of `p` stand in `s` from index `i` on.
pub fn occurs_at_exec(s: &Vec<char>, i: usize, p: &Vec<char>) -> (r: bool)
    requires
        i <= s@.len(),
    ensures
        r == occurs_at(s@, i as int, p@),
{
    if p.len() > s.len() - i {
        return false;
    }
    let mut k: usize = 0;
    while k < p.len()
        invariant
            i + p@.len() <= s@.len(),
            s@.len() <= usize::MAX,
            k <= p@.len(),
            forall|j: int| 0 <= j < k ==> s@[i + j] == p@[j],
        decreases p@.len() - k,
    {
        if s[i + k] != p[k] {
            assert(s@.subrange(i as int, i + p@.len())[k as int] != p@[k as int]);
            return false;
        }
        k = k + 1;
    }
    assert(s@.subrange(i as int, i + p@.len()) =~= p@);
    true
}

} // verus!
