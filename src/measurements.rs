//! Temperature and dissolved-solids readings.
//!
//! Temperatures are held in tenths of a degree Celsius and TDS values in
//! tenths of a ppm, so that both keep exactly the one decimal they are
//! rounded to.

use vstd::prelude::*;
use crate::clock::now_millis;
use crate::error::SampleError;
use crate::fixed::{lemma_round_div_bound, round_div, round_div_i128};
use vstd::arithmetic::div_mod::lemma_div_is_ordered;
use crate::scan::{
    chars_of, digits_end, digits_value, is_digit, lemma_digits_end_bounds,
    occurs_at, parse_digits, skip_digits, skip_spaces, space_end,
};

verus! {

/// The highest temperature a sensor text can give, in tenths of a degree:
/// a reading of `i32::MAX` millidegrees, rounded.
pub const MAX_TEMPERATURE: i32 = 21474836;

/// One sample of the tank sensors.
#[derive(Clone, Copy, Debug, PartialEq, Eq, Structural)]
pub struct Measurements {
    /// Milliseconds since the Unix epoch, UTC.
    pub timestamp: i64,
    /// Tenths of a degree Celsius.
    pub temperature: i32,
    /// Tenths of a ppm.
    pub tds: i64,
}

impl Measurements {
    /// A sample taken now.
    pub fn new(temperature: i32, tds: i64) -> (r: Self)
        ensures
            r.temperature == temperature,
            r.tds == tds,
    {
        Measurements { timestamp: now_millis(), temperature, tds }
    }
}

/// The marker `t=` that precedes the reading in the sensor text.
pub open spec fn reading_marker() -> Seq<char> {
    seq!['t', '=']
}

/// A reading starts at `i`: the marker, optional white space, then a digit.
pub open spec fn reading_at(s: Seq<char>, i: int) -> bool {
    occurs_at(s, i, reading_marker()) && space_end(s, i + 2) < s.len() && is_digit(
        s[space_end(s, i + 2)],
    )
}

/// The first index at or after `i` where a reading starts.
pub open spec fn first_reading_from(s: Seq<char>, i: int) -> Option<int>
    decreases s.len() - i,
{
    if i < 0 || i >= s.len() {
        None
    } else if reading_at(s, i) {
        Some(i)
    } else {
        first_reading_from(s, i + 1)
    }
}

/// The digits of the reading that starts at `i`.
pub open spec fn reading_digits(s: Seq<char>, i: int) -> Seq<char> {
    let j = space_end(s, i + 2);
    s.subrange(j, digits_end(s, j))
}

/// The temperature, in tenths of a degree, that a sensor text gives: the
/// first `t=<digits>` read as millidegrees and rounded to one decimal.
pub open spec fn temperature_of(s: Seq<char>) -> Result<int, SampleError> {
    match first_reading_from(s, 0) {
        None => Err(SampleError::Format),
        Some(i) => {
            let millis = digits_value(reading_digits(s, i));
            if millis > i32::MAX {
                Err(SampleError::OutOfRange)
            } else {
                Ok(round_div(millis, 100))
            }
        },
    }
}

/// Reads the temperature out of the one-wire sensor's text.
pub fn parse_temperature(text: &str) -> (r: Result<i32, SampleError>)
    ensures
        match r {
            Ok(t) => temperature_of(text@) == Ok::<int, SampleError>(t as int),
            Err(e) => temperature_of(text@) == Err::<int, SampleError>(e),
        },
        r is Ok ==> 0 <= r->Ok_0 <= MAX_TEMPERATURE,
{
    let s = chars_of(text);
    let n = s.len();
    let mut i: usize = 0;
    while i < n
        invariant
            n == s@.len(),
            s@ == text@,
            i <= n,
            first_reading_from(s@, 0) == first_reading_from(s@, i as int),
        decreases n - i,
    {
        if i + 1 < n && s[i] == 't' && s[i + 1] == '=' {
            assert(occurs_at(s@, i as int, reading_marker())) by {
                assert(s@.subrange(i as int, i + 2) =~= reading_marker());
            }
            let j = skip_spaces(&s, i + 2);
            if j < n && '0' <= s[j] && s[j] <= '9' {
                let e = skip_digits(&s, j);
                proof {
                    lemma_digits_end_bounds(s@, j as int);
                    assert(reading_at(s@, i as int));
                    assert(first_reading_from(s@, i as int) == Some(i as int));
                }
                return match parse_digits(&s, j, e) {
                    None => Err(SampleError::OutOfRange),
                    Some(millis) => {
                        let t: i64 = (2 * (millis as i64) + 100) / 200;
                        assert(0 <= t <= MAX_TEMPERATURE) by {
                            lemma_div_is_ordered(2 * millis + 100, 4294967394, 200);
                            lemma_div_is_ordered(0, 2 * millis + 100, 200);
                        }
                        Ok(t as i32)
                    },
                };
            }
        } else {
            assert(!occurs_at(s@, i as int, reading_marker())) by {
                if i + 2 <= n {
                    assert(s@.subrange(i as int, i + 2)[0] == s@[i as int]);
                    assert(s@.subrange(i as int, i + 2)[1] == s@[i + 1]);
                }
            }
        }
        i = i + 1;
    }
    Err(SampleError::Format)
}

/// What one sampling cycle yields from the sensor text and the converter code
/// (`None` where the converter transaction failed): the temperature and the
/// TDS, compensated for that temperature, in tenths.
pub open spec fn sample_of(s: Seq<char>, code: Option<i16>) -> Result<(int, int), SampleError> {
    match temperature_of(s) {
        Err(e) => Err(e),
        Ok(t) => match code {
            None => Err(SampleError::Adc),
            Some(c) => Ok((t, tds_of(c as int, t))),
        },
    }
}

/// Turns one cycle's raw readings into a sample: the sensor's text and the
/// converter's code, `None` where its transaction failed.
pub fn read(sensor_text: &str, code: Option<i16>) -> (r: Result<Measurements, SampleError>)
    ensures
        match r {
            Ok(m) => sample_of(sensor_text@, code) == Ok::<(int, int), SampleError>(
                (m.temperature as int, m.tds as int),
            ),
            Err(e) => sample_of(sensor_text@, code) == Err::<(int, int), SampleError>(e),
        },
{
    let temperature = match parse_temperature(sensor_text) {
        Ok(t) => t,
        Err(e) => {
            return Err(e);
        },
    };
    match code {
        None => Err(SampleError::Adc),
        Some(c) => Ok(Measurements::new(temperature, tds_from_raw(c, temperature))),
    }
}

/// The compensated probe voltage is `tds_numer_base(code) / tds_denom_base(temperature)`
/// volts: the code reads `code * 4.096 / 32767` V over the converter's range, and
/// the compensation coefficient `1 + 0.02 * (T - 25)` is `(t + 250) / 500` for a
/// temperature of `t` tenths of a degree.
pub open spec fn tds_numer_base(code: int) -> int {
    2048 * code
}

pub open spec fn tds_denom_base(temperature: int) -> int {
    32767 * (temperature + 250)
}

/// The TDS, in tenths of a ppm, for a converter code and a temperature in
/// tenths of a degree: `0.5 * (133.42 v^3 - 255.86 v^2 + 857.39 v)` for the
/// compensated voltage `v = n / d`, rounded to one decimal.
pub open spec fn tds_of(code: int, temperature: int) -> int {
    let n = tds_numer_base(code);
    let d = tds_denom_base(temperature);
    round_div(
        13342 * (n * n * n) - 25586 * (n * n * d) + 85739 * (n * (d * d)),
        20 * (d * d * d),
    )
}

proof fn lemma_mul_bound(x: int, y: int, bx: int, by: int)
    requires
        -bx <= x <= bx,
        -by <= y <= by,
    ensures
        -(bx * by) <= x * y <= bx * by,
{
    assert(-(bx * by) <= x * y <= bx * by) by (nonlinear_arith)
        requires -bx <= x <= bx, -by <= y <= by;
}

/// Converts a converter code to a TDS value, compensated for the temperature.
pub fn tds_from_raw(code: i16, temperature: i32) -> (r: i64)
    requires
        0 <= temperature <= MAX_TEMPERATURE,
    ensures
        r == tds_of(code as int, temperature as int),
{
    let n: i128 = 2048 * (code as i128);
    let d: i128 = 32767 * (temperature as i128 + 250);
    proof {
        let ni = n as int;
        let di = d as int;
        assert(8191750 <= di <= 703674497018);
        assert(-9 * di <= ni <= 9 * di);
        lemma_mul_bound(ni, ni, 9 * di, 9 * di);
        assert((9 * di) * (9 * di) == 81 * (di * di)) by (nonlinear_arith);
        lemma_mul_bound(di, di, 703674497018, 703674497018);
        lemma_mul_bound(ni * ni, ni, 81 * (di * di), 9 * di);
        assert((81 * (di * di)) * (9 * di) == 729 * (di * di * di)) by (nonlinear_arith);
        lemma_mul_bound(ni * ni, di, 81 * (di * di), di);
        assert((81 * (di * di)) * di == 81 * (di * di * di)) by (nonlinear_arith);
        lemma_mul_bound(ni, di * di, 9 * di, di * di);
        assert((9 * di) * (di * di) == 9 * (di * di * di)) by (nonlinear_arith);
        lemma_mul_bound(di * di, di, 703674497018int * 703674497018int, 703674497018int);
        assert(0 < di * di * di) by (nonlinear_arith) requires di > 0;
        lemma_mul_bound(ni, ni, 67108864, 67108864);
        lemma_mul_bound(ni * ni, ni, 67108864int * 67108864int, 67108864);
        lemma_mul_bound(ni * ni, di, 67108864int * 67108864int, 703674497018);
        lemma_mul_bound(ni, di * di, 67108864, 703674497018int * 703674497018int);
    }
    let n2: i128 = n * n;
    let d2: i128 = d * d;
    let n3: i128 = n2 * n;
    let n2d: i128 = n2 * d;
    let nd2: i128 = n * d2;
    let d3: i128 = d2 * d;
    let num: i128 = 13342 * n3 - 25586 * n2d + 85739 * nd2;
    let den: i128 = 20 * d3;
    proof {
        let c = d3 as int;
        assert(-(630000 * den) <= num <= 630000 * den);
        lemma_round_div_bound(num as int, den as int, 630000);
    }
    let r = round_div_i128(num, den);
    r as i64
}

proof fn lemma_first_reading(s: Seq<char>, i: int, j: int)
    requires
        0 <= i <= j < s.len(),
        reading_at(s, j),
        forall|k: int| i <= k < j ==> !reading_at(s, k),
    ensures
        first_reading_from(s, i) == Some(j),
    decreases j - i,
{
    if i < j {
        lemma_first_reading(s, i + 1, j);
    }
}

proof fn lemma_digits_end_at(s: Seq<char>, k: int, e: int)
    requires
        0 <= k <= e <= s.len(),
        forall|m: int| k <= m < e ==> is_digit(#[trigger] s[m]),
        e == s.len() || !is_digit(s[e]),
    ensures
        digits_end(s, k) == e,
    decreases e - k,
{
    if k < e {
        lemma_digits_end_at(s, k + 1, e);
    }
}

/// A text in which the first reading is `t=` directly followed by a run of
/// digits gives that run read as millidegrees, rounded to one decimal.
pub proof fn law_temperature_reading(before: Seq<char>, digits: Seq<char>, after: Seq<char>)
    requires
        digits.len() > 0,
        forall|k: int| 0 <= k < digits.len() ==> is_digit(#[trigger] digits[k]),
        after.len() == 0 || !is_digit(after[0]),
        forall|k: int|
            0 <= k < before.len() ==> !reading_at(before + reading_marker() + digits + after, k),
        digits_value(digits) <= i32::MAX,
    ensures
        temperature_of(before + reading_marker() + digits + after) == Ok::<int, SampleError>(
            round_div(digits_value(digits), 100),
        ),
{
    let s = before + reading_marker() + digits + after;
    let i = before.len() as int;
    let j = i + 2;
    let e = j + digits.len();
    assert(s.subrange(i, i + 2) =~= reading_marker());
    assert(s[j] == digits[0]);
    assert(space_end(s, j) == j);
    assert(reading_at(s, i));
    lemma_first_reading(s, 0, i);
    assert forall|m: int| j <= m < e implies is_digit(#[trigger] s[m]) by {
        assert(s[m] == digits[m - j]);
    }
    if e < s.len() {
        assert(s[e] == after[0]);
    }
    lemma_digits_end_at(s, j, e);
    assert(reading_digits(s, i) =~= digits);
}

/// A zero converter code reads as zero volts, and so as a TDS of zero, at
/// every temperature.
pub proof fn law_tds_zero_code(temperature: int)
    requires
        0 <= temperature <= MAX_TEMPERATURE,
    ensures
        tds_of(0, temperature) == 0,
{
    let d = tds_denom_base(temperature);
    assert(tds_numer_base(0) == 0);
    assert(0 < d * d * d) by (nonlinear_arith) requires d > 0;
    let den = 20 * (d * d * d);
    assert(den / (2 * den) == 0) by (nonlinear_arith) requires den > 0;
}

} // verus!
