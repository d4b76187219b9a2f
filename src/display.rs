//! The status panel: what to paint on the 128x64 display each second.
//!
//! The panel is a fixed list of paint operations: the local date and time,
//! the signal bars, the temperature and the TDS, each value drawn twice one
//! pixel apart for a bolder stroke. Whoever owns the display runs the list
//! into its off-screen buffer and flushes it once.

use vstd::prelude::*;
use crate::clock::{local_now, LocalTime};
use crate::measurements::Measurements;
use crate::signal::Signal;

verus! {

/// The two text sizes of the panel.
#[derive(Clone, Copy, Debug, PartialEq, Eq, Structural)]
pub enum Font {
    Small,
    Large,
}

/// One paint operation; coordinates are pixels from the top left corner,
/// and a text's position is its top left corner.
#[derive(Clone, Debug)]
pub enum Paint {
    Text { text: String, x: i32, y: i32, font: Font },
    Line { x0: i32, y0: i32, x1: i32, y1: i32 },
}

/// A paint operation as a value.
pub enum PaintSpec {
    Text { text: Seq<char>, x: i32, y: i32, font: Font },
    Line { x0: i32, y0: i32, x1: i32, y1: i32 },
}

impl View for Paint {
    type V = PaintSpec;

    open spec fn view(&self) -> PaintSpec {
        match self {
            Paint::Text { text, x, y, font } => PaintSpec::Text { text: text@, x: *x, y: *y, font: *font },
            Paint::Line { x0, y0, x1, y1 } => PaintSpec::Line { x0: *x0, y0: *y0, x1: *x1, y1: *y1 },
        }
    }
}

/// Relies on `String::push`: appends one character.
#[verifier::external_body]
fn push_char(s: &mut String, c: char)
    ensures
        final(s)@ == old(s)@.push(c),
{
    s.push(c);
}

/// The character of a decimal digit.
pub open spec fn digit_char(d: int) -> char {
    ((d + 48) as u8) as char
}

/// The decimal digits of `n`, without leading zeros.
pub open spec fn decimal(n: nat) -> Seq<char>
    decreases n,
{
    if n < 10 {
        seq![digit_char(n as int)]
    } else {
        decimal(n / 10).push(digit_char((n % 10) as int))
    }
}

pub open spec fn sign(v: int) -> Seq<char> {
    if v < 0 {
        seq!['-']
    } else {
        Seq::empty()
    }
}

pub open spec fn abs(v: int) -> nat {
    if v < 0 {
        (-v) as nat
    } else {
        v as nat
    }
}

/// A value held in tenths, written with one decimal.
pub open spec fn tenths_text(v: int) -> Seq<char> {
    sign(v) + decimal(abs(v) / 10) + seq!['.', digit_char((abs(v) % 10) as int)]
}

/// `t` tenths rounded to a whole number, halves to the even neighbour.
pub open spec fn round_tenths_even(t: nat) -> nat {
    let q = t / 10;
    let r = t % 10;
    if r > 5 || (r == 5 && q % 2 == 1) {
        q + 1
    } else {
        q
    }
}

/// A value held in tenths, written as a whole number.
pub open spec fn whole_text(v: int) -> Seq<char> {
    sign(v) + decimal(round_tenths_even(abs(v)))
}

/// Width of the right-justified value fields, in characters.
pub const FIELD_WIDTH: usize = 7;

/// `s` right-justified in a field of `FIELD_WIDTH` characters.
pub open spec fn pad_left(s: Seq<char>) -> Seq<char> {
    if s.len() < FIELD_WIDTH {
        Seq::new((FIELD_WIDTH - s.len()) as nat, |i: int| ' ') + s
    } else {
        s
    }
}

pub open spec fn two_digits(n: int) -> Seq<char> {
    seq![digit_char(n / 10), digit_char(n % 10)]
}

/// The date and time line, `MM·DD HH:MM`.
pub open spec fn clock_line(c: LocalTime) -> Seq<char> {
    two_digits(c.month as int) + seq!['\u{b7}'] + two_digits(c.day as int) + seq![' ']
        + two_digits(c.hour as int) + seq![':'] + two_digits(c.minute as int)
}

/// The temperature field: one decimal, or `-.-` with no sample.
pub open spec fn temperature_field(m: Option<Measurements>) -> Seq<char> {
    match m {
        Some(m) => pad_left(tenths_text(m.temperature as int)),
        None => pad_left(seq!['-', '.', '-']),
    }
}

/// The TDS field: a whole number, or `-` with no sample.
pub open spec fn tds_field(m: Option<Measurements>) -> Seq<char> {
    match m {
        Some(m) => pad_left(whole_text(m.tds as int)),
        None => pad_left(seq!['-']),
    }
}

/// The number of signal bars for a quality in hundredths of a percent: one
/// bar for each of 20 %, 40 %, 60 % and 80 % that it reaches.
pub open spec fn level_of(quality: int) -> int {
    if quality < 2000 {
        0
    } else if quality < 4000 {
        1
    } else if quality < 6000 {
        2
    } else if quality < 8000 {
        3
    } else {
        4
    }
}

/// The bars of the signal indicator: bar `k` is a vertical line from
/// `(109 + 2k, 10 - 2k)` down to row 11, each one taller than the last.
pub open spec fn bars(signal: Option<Signal>) -> Seq<PaintSpec> {
    match signal {
        None => Seq::empty(),
        Some(s) => Seq::new(
            level_of(s.quality as int) as nat,
            |k: int|
                PaintSpec::Line {
                    x0: (109 + 2 * k) as i32,
                    y0: (10 - 2 * k) as i32,
                    x1: (109 + 2 * k) as i32,
                    y1: 11,
                },
        ),
    }
}

pub open spec fn text_op(text: Seq<char>, x: i32, y: i32, font: Font) -> PaintSpec {
    PaintSpec::Text { text, x, y, font }
}

/// The whole panel.
pub open spec fn layout(c: LocalTime, signal: Option<Signal>, m: Option<Measurements>) -> Seq<
    PaintSpec,
> {
    seq![text_op(clock_line(c), 10, 0, Font::Small)] + bars(signal) + seq![
        text_op(temperature_field(m), 0, 16, Font::Large),
        text_op(temperature_field(m), 1, 16, Font::Large),
        text_op(seq!['\u{b0}', 'C'], 89, 23, Font::Small),
        text_op(tds_field(m), 0, 40, Font::Large),
        text_op(tds_field(m), 1, 40, Font::Large),
        text_op(seq!['p', 'p', 'm'], 90, 47, Font::Small),
    ]
}

/// The signal indicator shows no bar below 20 %, one from 20 %, two from
/// 40 %, three from 60 % and four from 80 % up; it draws one line per bar.
pub proof fn law_signal_bands(signal: Signal)
    ensures
        signal.quality < 2000 ==> level_of(signal.quality as int) == 0,
        2000 <= signal.quality < 4000 ==> level_of(signal.quality as int) == 1,
        4000 <= signal.quality < 6000 ==> level_of(signal.quality as int) == 2,
        6000 <= signal.quality < 8000 ==> level_of(signal.quality as int) == 3,
        8000 <= signal.quality ==> level_of(signal.quality as int) == 4,
        bars(Some(signal)).len() == level_of(signal.quality as int),
{
}

pub fn digit_char_exec(d: u8) -> (r: char)
    requires
        d < 10,
    ensures
        r == digit_char(d as int),
{
    (d + 48) as char
}

fn push_decimal(out: &mut Vec<char>, n: u64)
    ensures
        final(out)@ == old(out)@ + decimal(n as nat),
    decreases n,
{
    if n >= 10 {
        push_decimal(out, n / 10);
    }
    out.push(digit_char_exec((n % 10) as u8));
    assert(final(out)@ =~= old(out)@ + decimal(n as nat));
}

fn push_sign(out: &mut Vec<char>, negative: bool)
    ensures
        final(out)@ == old(out)@ + (if negative { seq!['-'] } else { Seq::<char>::empty() }),
{
    if negative {
        out.push('-');
    }
    assert(final(out)@ =~= old(out)@ + (if negative { seq!['-'] } else { Seq::<char>::empty() }));
}

/// `body` right-justified in a field of `FIELD_WIDTH` characters.
fn field(body: &Vec<char>) -> (r: String)
    ensures
        r@ == pad_left(body@),
{
    let mut r = String::new();
    let mut k: usize = body.len();
    while k < FIELD_WIDTH
        invariant
            body@.len() <= k <= FIELD_WIDTH || (k == body@.len() && k >= FIELD_WIDTH),
            r@ == Seq::new((k - body@.len()) as nat, |i: int| ' '),
        decreases FIELD_WIDTH - k,
    {
        push_char(&mut r, ' ');
        k = k + 1;
        assert(r@ =~= Seq::new((k - body@.len()) as nat, |i: int| ' '));
    }
    let ghost pad = r@;
    let mut j: usize = 0;
    while j < body.len()
        invariant
            j <= body@.len(),
            r@ == pad + body@.subrange(0, j as int),
        decreases body@.len() - j,
    {
        push_char(&mut r, body[j]);
        j = j + 1;
        assert(r@ =~= pad + body@.subrange(0, j as int));
    }
    assert(r@ =~= pad_left(body@));
    r
}

/// The number of signal bars for a quality in hundredths of a percent.
pub fn signal_level(quality: i64) -> (r: u8)
    ensures
        r as int == level_of(quality as int),
{
    if quality < 2000 {
        0
    } else if quality < 4000 {
        1
    } else if quality < 6000 {
        2
    } else if quality < 8000 {
        3
    } else {
        4
    }
}

/// The date and time line of the panel.
pub fn clock_text(c: &LocalTime) -> (r: String)
    requires
        c.wf(),
    ensures
        r@ == clock_line(*c),
{
    let mut r = String::new();
    push_char(&mut r, digit_char_exec(c.month / 10));
    push_char(&mut r, digit_char_exec(c.month % 10));
    push_char(&mut r, '\u{b7}');
    push_char(&mut r, digit_char_exec(c.day / 10));
    push_char(&mut r, digit_char_exec(c.day % 10));
    push_char(&mut r, ' ');
    push_char(&mut r, digit_char_exec(c.hour / 10));
    push_char(&mut r, digit_char_exec(c.hour % 10));
    push_char(&mut r, ':');
    push_char(&mut r, digit_char_exec(c.minute / 10));
    push_char(&mut r, digit_char_exec(c.minute % 10));
    assert(r@ =~= clock_line(*c));
    r
}

/// The temperature field of the panel.
pub fn temperature_text(m: Option<Measurements>) -> (r: String)
    ensures
        r@ == temperature_field(m),
{
    let mut body: Vec<char> = Vec::new();
    match m {
        Some(m) => {
            let t = m.temperature as i64;
            let a: u64 = if t < 0 { (-t) as u64 } else { t as u64 };
            push_sign(&mut body, t < 0);
            push_decimal(&mut body, a / 10);
            body.push('.');
            body.push(digit_char_exec((a % 10) as u8));
            assert(body@ =~= tenths_text(m.temperature as int));
        },
        None => {
            body.push('-');
            body.push('.');
            body.push('-');
            assert(body@ =~= seq!['-', '.', '-']);
        },
    }
    field(&body)
}

/// The TDS field of the panel.
pub fn tds_text(m: Option<Measurements>) -> (r: String)
    ensures
        r@ == tds_field(m),
{
    let mut body: Vec<char> = Vec::new();
    match m {
        Some(m) => {
            let t = m.tds as i128;
            let a: u64 = if t < 0 { (-t) as u64 } else { t as u64 };
            let q = a / 10;
            let rem = a % 10;
            let w = if rem > 5 || (rem == 5 && q % 2 == 1) { q + 1 } else { q };
            push_sign(&mut body, t < 0);
            push_decimal(&mut body, w);
            assert(body@ =~= whole_text(m.tds as int));
        },
        None => {
            body.push('-');
            assert(body@ =~= seq!['-']);
        },
    }
    field(&body)
}

fn text_paint(text: String, x: i32, y: i32, font: Font) -> (r: Paint)
    ensures
        r@ == text_op(text@, x, y, font),
{
    Paint::Text { text, x, y, font }
}

/// The paint operations of the panel for a given time and given snapshots.
pub fn compose(clock: &LocalTime, signal: Option<Signal>, measurements: Option<Measurements>) -> (r:
    Vec<Paint>)
    requires
        clock.wf(),
    ensures
        r@.map_values(|p: Paint| p@) == layout(*clock, signal, measurements),
{
    let mut r: Vec<Paint> = Vec::new();
    r.push(text_paint(clock_text(clock), 10, 0, Font::Small));
    let ghost head = r@.map_values(|p: Paint| p@);
    assert(head =~= seq![text_op(clock_line(*clock), 10, 0, Font::Small)]);
    if let Some(s) = signal {
        let level = signal_level(s.quality);
        let mut i: u8 = 0;
        while i < level
            invariant
                i <= level <= 4,
                level as int == level_of(s.quality as int),
                bars(signal).len() == level,
                r@.map_values(|p: Paint| p@) =~= head + bars(signal).subrange(0, i as int),
            decreases level - i,
        {
            let x: i32 = 109 + 2 * (i as i32);
            let line = Paint::Line { x0: x, y0: 10 - 2 * (i as i32), x1: x, y1: 11 };
            assert(line@ == bars(signal)[i as int]);
            let ghost prev = r@.map_values(|p: Paint| p@);
            r.push(line);
            assert(r@.map_values(|p: Paint| p@) =~= prev.push(line@));
            i = i + 1;
            assert(r@.map_values(|p: Paint| p@) =~= head + bars(signal).subrange(0, i as int));
        }
        assert(bars(signal).subrange(0, i as int) =~= bars(signal));
    } else {
        assert(bars(signal) =~= Seq::<PaintSpec>::empty());
    }
    let ghost before = r@.map_values(|p: Paint| p@);
    assert(before =~= head + bars(signal));
    let temperature = temperature_text(measurements);
    let tds = tds_text(measurements);
    let mut celsius = String::new();
    push_char(&mut celsius, '\u{b0}');
    push_char(&mut celsius, 'C');
    let mut ppm = String::new();
    push_char(&mut ppm, 'p');
    push_char(&mut ppm, 'p');
    push_char(&mut ppm, 'm');
    assert(celsius@ =~= seq!['\u{b0}', 'C']);
    assert(ppm@ =~= seq!['p', 'p', 'm']);
    r.push(text_paint(temperature.clone(), 0, 16, Font::Large));
    r.push(text_paint(temperature, 1, 16, Font::Large));
    r.push(text_paint(celsius, 89, 23, Font::Small));
    r.push(text_paint(tds.clone(), 0, 40, Font::Large));
    r.push(text_paint(tds, 1, 40, Font::Large));
    r.push(text_paint(ppm, 90, 47, Font::Small));
    assert(r@.map_values(|p: Paint| p@) =~= layout(*clock, signal, measurements));
    r
}

/// The paint operations of the panel now, for the latest snapshots.
pub fn draw(signal: Option<Signal>, measurements: Option<Measurements>) -> (r: Vec<Paint>)
    ensures
        exists|c: LocalTime| c.wf() && r@.map_values(|p: Paint| p@) == layout(c, signal, measurements),
{
    let clock = local_now();
    compose(&clock, signal, measurements)
}

} // verus!
