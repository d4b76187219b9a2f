//! Wireless link quality.
//!
//! The quality is a percentage held in hundredths of a percent, so that it
//! keeps exactly the two decimals it is rounded to: `5571` is 55.71 %.

use vstd::prelude::*;
use crate::clock::now_millis;
use crate::error::SampleError;
use crate::fixed::{lemma_round_div_bound, round_div, round_div_i128};
use crate::scan::{
    chars_of, digits_end, digits_value, lemma_digits_end_bounds,
    occurs_at, occurs_at_exec, parse_digits, skip_digits, skip_spaces, space_end,
};

verus! {

/// One sample of the wireless link.
#[derive(Clone, Copy, Debug, PartialEq, Eq, Structural)]
pub struct Signal {
    /// Milliseconds since the Unix epoch, UTC.
    pub timestamp: i64,
    /// Hundredths of a percent.
    pub quality: i64,
}

impl Signal {
    /// A sample taken now.
    pub fn new(level: i64) -> (r: Self)
        ensures
            r.quality == level,
    {
        Signal { timestamp: now_millis(), quality: level }
    }
}

/// The label that precedes the link quality in the tool's output.
pub open spec fn quality_marker() -> Seq<char> {
    seq!['L', 'i', 'n', 'k', ' ', 'Q', 'u', 'a', 'l', 'i', 't', 'y', '=']
}

fn quality_marker_exec() -> (r: Vec<char>)
    ensures
        r@ == quality_marker(),
{
    let mut r: Vec<char> = Vec::new();
    r.push('L');
    r.push('i');
    r.push('n');
    r.push('k');
    r.push(' ');
    r.push('Q');
    r.push('u');
    r.push('a');
    r.push('l');
    r.push('i');
    r.push('t');
    r.push('y');
    r.push('=');
    assert(r@ =~= quality_marker());
    r
}

/// Where the numerator's digits start, for a label at `i`.
pub open spec fn numer_start(s: Seq<char>, i: int) -> int {
    space_end(s, i + 13)
}

pub open spec fn numer_end(s: Seq<char>, i: int) -> int {
    digits_end(s, numer_start(s, i))
}

/// Where the `/` stands, for a label at `i`.
pub open spec fn slash_pos(s: Seq<char>, i: int) -> int {
    space_end(s, numer_end(s, i))
}

pub open spec fn denom_start(s: Seq<char>, i: int) -> int {
    space_end(s, slash_pos(s, i) + 1)
}

pub open spec fn denom_end(s: Seq<char>, i: int) -> int {
    digits_end(s, denom_start(s, i))
}

/// A quality reading starts at `i`: the label, then digits, `/` and digits,
/// with optional white space around the numbers.
pub open spec fn quality_at(s: Seq<char>, i: int) -> bool {
    &&& occurs_at(s, i, quality_marker())
    &&& numer_end(s, i) > numer_start(s, i)
    &&& slash_pos(s, i) < s.len()
    &&& s[slash_pos(s, i)] == '/'
    &&& denom_end(s, i) > denom_start(s, i)
}

/// The first index at or after `i` where a quality reading starts.
pub open spec fn first_quality_from(s: Seq<char>, i: int) -> Option<int>
    decreases s.len() - i,
{
    if i < 0 || i >= s.len() {
        None
    } else if quality_at(s, i) {
        Some(i)
    } else {
        first_quality_from(s, i + 1)
    }
}

/// The link quality, in hundredths of a percent, that the tool's output
/// gives: the first `Link Quality=<num>/<denom>`, as `num / denom * 100`
/// rounded to two decimals.
pub open spec fn quality_of(s: Seq<char>) -> Result<int, SampleError> {
    match first_quality_from(s, 0) {
        None => Err(SampleError::Format),
        Some(i) => {
            let num = digits_value(s.subrange(numer_start(s, i), numer_end(s, i)));
            let denom = digits_value(s.subrange(denom_start(s, i), denom_end(s, i)));
            if num > i32::MAX || denom > i32::MAX {
                Err(SampleError::OutOfRange)
            } else if denom == 0 {
                Err(SampleError::NotFinite)
            } else {
                Ok(round_div(num * 10000, denom))
            }
        },
    }
}

/// Reads the link quality out of the wireless tool's output.
pub fn parse_quality(text: &str) -> (r: Result<i64, SampleError>)
    ensures
        match r {
            Ok(q) => quality_of(text@) == Ok::<int, SampleError>(q as int),
            Err(e) => quality_of(text@) == Err::<int, SampleError>(e),
        },
        r is Ok ==> r->Ok_0 >= 0,
{
    let s = chars_of(text);
    let marker = quality_marker_exec();
    let n = s.len();
    let mut i: usize = 0;
    while i < n
        invariant
            n == s@.len(),
            s@ == text@,
            marker@ == quality_marker(),
            i <= n,
            first_quality_from(s@, 0) == first_quality_from(s@, i as int),
        decreases n - i,
    {
        if occurs_at_exec(&s, i, &marker) {
            let ns = skip_spaces(&s, i + 13);
            let ne = skip_digits(&s, ns);
            let sl = skip_spaces(&s, ne);
            if ne > ns && sl < n && s[sl] == '/' {
                let ds = skip_spaces(&s, sl + 1);
                let de = skip_digits(&s, ds);
                if de > ds {
                    proof {
                        lemma_digits_end_bounds(s@, ns as int);
                        lemma_digits_end_bounds(s@, ds as int);
                        assert(quality_at(s@, i as int));
                        assert(first_quality_from(s@, i as int) == Some(i as int));
                    }
                    let num = parse_digits(&s, ns, ne);
                    let denom = parse_digits(&s, ds, de);
                    return match (num, denom) {
                        (Some(num), Some(denom)) => {
                            if denom == 0 {
                                Err(SampleError::NotFinite)
                            } else {
                                let scaled: i128 = num as i128 * 10000;
                                proof {
                                    assert(-(scaled * denom) <= scaled <= scaled * denom)
                                        by (nonlinear_arith)
                                        requires scaled >= 0, denom >= 1;
                                    lemma_round_div_bound(scaled as int, denom as int, scaled as int);
                                }
                                let q = round_div_i128(scaled, denom as i128);
                                Ok(q as i64)
                            }
                        },
                        _ => Err(SampleError::OutOfRange),
                    };
                }
            }
        }
        i = i + 1;
    }
    Err(SampleError::Format)
}

/// Turns the wireless tool's output into a sample.
pub fn read(tool_output: &str) -> (r: Result<Signal, SampleError>)
    ensures
        match r {
            Ok(v) => quality_of(tool_output@) == Ok::<int, SampleError>(v.quality as int),
            Err(e) => quality_of(tool_output@) == Err::<int, SampleError>(e),
        },
{
    match parse_quality(tool_output) {
        Ok(q) => Ok(Signal::new(q)),
        Err(e) => Err(e),
    }
}

} // verus!
