use cobitis::clock::LocalTime;
use cobitis::display::{
    clock_text, compose, draw, signal_level, tds_text, temperature_text, Font, Paint,
};
use cobitis::measurements::Measurements;
use cobitis::signal::Signal;

fn m(t: i32, tds: i64) -> Measurements {
    Measurements { timestamp: 0, temperature: t, tds }
}

#[test]
fn signal_level_bands() {
    assert_eq!(signal_level(0), 0);
    assert_eq!(signal_level(1999), 0);
    assert_eq!(signal_level(2000), 1);
    assert_eq!(signal_level(3999), 1);
    assert_eq!(signal_level(4000), 2);
    assert_eq!(signal_level(5999), 2);
    assert_eq!(signal_level(6000), 3);
    assert_eq!(signal_level(7999), 3);
    assert_eq!(signal_level(8000), 4);
    assert_eq!(signal_level(10000), 4);
}

#[test]
fn clock_line_format() {
    let c = LocalTime { month: 3, day: 7, hour: 9, minute: 5 };
    assert_eq!(clock_text(&c), "03\u{b7}07 09:05");
    let c = LocalTime { month: 12, day: 31, hour: 23, minute: 59 };
    assert_eq!(clock_text(&c), "12\u{b7}31 23:59");
}

#[test]
fn temperature_field_text() {
    assert_eq!(temperature_text(Some(m(236, 0))), "   23.6");
    assert_eq!(temperature_text(Some(m(5, 0))), "    0.5");
    assert_eq!(temperature_text(Some(m(-52, 0))), "   -5.2");
    assert_eq!(temperature_text(Some(m(123456789, 0))), "12345678.9");
    assert_eq!(temperature_text(None), "    -.-");
}

#[test]
fn tds_field_text() {
    assert_eq!(tds_text(Some(m(0, 4816))), "    482");
    assert_eq!(tds_text(Some(m(0, 125))), "     12");
    assert_eq!(tds_text(Some(m(0, 135))), "     14");
    assert_eq!(tds_text(Some(m(0, 0))), "      0");
    assert_eq!(tds_text(Some(m(0, -304))), "    -30");
    assert_eq!(tds_text(None), "      -");
}

#[test]
fn layout_with_samples() {
    let c = LocalTime { month: 1, day: 2, hour: 3, minute: 4 };
    let ops = compose(&c, Some(Signal { timestamp: 0, quality: 5571 }), Some(m(236, 4816)));
    assert_eq!(ops.len(), 9);
    match &ops[0] {
        Paint::Text { text, x, y, font } => {
            assert_eq!(text, "01\u{b7}02 03:04");
            assert_eq!((*x, *y, *font), (10, 0, Font::Small));
        }
        _ => panic!("expected the clock line"),
    }
    match (&ops[1], &ops[2]) {
        (Paint::Line { x0: 109, y0: 10, x1: 109, y1: 11 }, Paint::Line { x0: 111, y0: 8, x1: 111, y1: 11 }) => {}
        _ => panic!("expected two bars"),
    }
    match (&ops[3], &ops[4]) {
        (Paint::Text { text: a, x: 0, y: 16, .. }, Paint::Text { text: b, x: 1, y: 16, .. }) => {
            assert_eq!(a, "   23.6");
            assert_eq!(b, "   23.6");
        }
        _ => panic!("expected the doubled temperature"),
    }
    match &ops[5] {
        Paint::Text { text, x: 89, y: 23, font: Font::Small } => assert_eq!(text, "\u{b0}C"),
        _ => panic!("expected the unit"),
    }
    match &ops[8] {
        Paint::Text { text, x: 90, y: 47, font: Font::Small } => assert_eq!(text, "ppm"),
        _ => panic!("expected the unit"),
    }
}

#[test]
fn layout_without_samples() {
    let c = LocalTime { month: 1, day: 2, hour: 3, minute: 4 };
    let ops = compose(&c, None, None);
    assert_eq!(ops.len(), 7);
    match &ops[5] {
        Paint::Text { text, x: 1, y: 40, font: Font::Large } => assert_eq!(text, "      -"),
        _ => panic!("expected the tds placeholder"),
    }
}

#[test]
fn layout_full_signal_has_four_bars() {
    let c = LocalTime { month: 1, day: 2, hour: 3, minute: 4 };
    let ops = compose(&c, Some(Signal { timestamp: 0, quality: 10000 }), None);
    assert_eq!(ops.len(), 11);
    match &ops[4] {
        Paint::Line { x0: 115, y0: 4, x1: 115, y1: 11 } => {}
        _ => panic!("expected the fourth bar"),
    }
}

#[test]
fn draw_uses_the_clock() {
    let ops = draw(None, None);
    assert_eq!(ops.len(), 7);
    match &ops[0] {
        Paint::Text { text, .. } => {
            assert_eq!(text.chars().count(), 11);
            assert_eq!(text.chars().nth(2), Some('\u{b7}'));
        }
        _ => panic!("expected the clock line"),
    }
}
