use cobitis::error::SampleError;
use cobitis::measurements::{parse_temperature, read, tds_from_raw, Measurements, MAX_TEMPERATURE};
use cobitis::signal::{self, parse_quality};

#[test]
fn temperature_from_bare_reading() {
    assert_eq!(parse_temperature("t=23562"), Ok(236));
}

#[test]
fn temperature_from_sensor_file() {
    let text = "72 01 4b 46 7f ff 0e 10 57 : crc=57 YES\n72 01 4b 46 7f ff 0e 10 57 t=23125\n";
    assert_eq!(parse_temperature(text), Ok(231));
}

#[test]
fn temperature_rounds_halves_up() {
    assert_eq!(parse_temperature("t=23550"), Ok(236));
    assert_eq!(parse_temperature("t=23549"), Ok(235));
    assert_eq!(parse_temperature("t=0"), Ok(0));
}

#[test]
fn temperature_allows_space_after_marker() {
    assert_eq!(parse_temperature("t=  100"), Ok(1));
}

#[test]
fn temperature_takes_first_reading() {
    assert_eq!(parse_temperature("t=x t=1000 t=2000"), Ok(10));
}

#[test]
fn temperature_without_reading_is_format_error() {
    assert_eq!(parse_temperature(""), Err(SampleError::Format));
    assert_eq!(parse_temperature("crc=57 YES"), Err(SampleError::Format));
    assert_eq!(parse_temperature("t="), Err(SampleError::Format));
    assert_eq!(parse_temperature("t=-100"), Err(SampleError::Format));
}

#[test]
fn temperature_too_large_is_out_of_range() {
    assert_eq!(parse_temperature("t=2147483648"), Err(SampleError::OutOfRange));
    assert_eq!(parse_temperature("t=2147483647"), Ok(MAX_TEMPERATURE));
}

#[test]
fn tds_of_zero_code_is_zero() {
    for t in [0, 1, 250, 236, 1000, MAX_TEMPERATURE] {
        assert_eq!(tds_from_raw(0, t), 0);
    }
}

#[test]
fn tds_exact_values() {
    assert_eq!(tds_from_raw(8000, 250), 3675);
    assert_eq!(tds_from_raw(10000, 236), 4816);
    assert_eq!(tds_from_raw(-500, 200), -304);
    assert_eq!(tds_from_raw(32767, 0), 316008);
    assert_eq!(tds_from_raw(-32768, 0), -487753);
}

#[test]
fn tds_falls_with_temperature() {
    assert!(tds_from_raw(10000, 300) < tds_from_raw(10000, 200));
}

#[test]
fn measurements_read_combines_both() {
    let m = read("t=25000", Some(8000)).unwrap();
    assert_eq!(m.temperature, 250);
    assert_eq!(m.tds, 3675);
    assert!(m.timestamp > 0);
}

#[test]
fn measurements_read_errors() {
    assert_eq!(read("t=25000", None), Err(SampleError::Adc));
    assert_eq!(read("garbage", Some(8000)), Err(SampleError::Format));
    assert_eq!(read("garbage", None), Err(SampleError::Format));
}

#[test]
fn measurements_new_keeps_values() {
    let m = Measurements::new(236, 4816);
    assert_eq!((m.temperature, m.tds), (236, 4816));
    assert!(m.timestamp > 1_600_000_000_000);
}

#[test]
fn quality_example() {
    assert_eq!(parse_quality("Link Quality=39/70"), Ok(5571));
}

#[test]
fn quality_from_tool_output() {
    let text = "wlan0     IEEE 802.11  ESSID:\"tank\"\n          Link Quality=70/70  Signal level=-39 dBm\n";
    assert_eq!(parse_quality(text), Ok(10000));
}

#[test]
fn quality_allows_spaces() {
    assert_eq!(parse_quality("Link Quality= 39 / 70"), Ok(5571));
}

#[test]
fn quality_rounds_to_hundredths() {
    assert_eq!(parse_quality("Link Quality=1/3"), Ok(3333));
    assert_eq!(parse_quality("Link Quality=2/3"), Ok(6667));
    assert_eq!(parse_quality("Link Quality=0/70"), Ok(0));
}

#[test]
fn quality_zero_denominator_is_not_finite() {
    assert_eq!(parse_quality("Link Quality=1/0"), Err(SampleError::NotFinite));
}

#[test]
fn quality_errors() {
    assert_eq!(parse_quality("Link Quality=39"), Err(SampleError::Format));
    assert_eq!(parse_quality("link quality=39/70"), Err(SampleError::Format));
    assert_eq!(parse_quality("Link Quality=/70"), Err(SampleError::Format));
    assert_eq!(parse_quality("Link Quality=3000000000/70"), Err(SampleError::OutOfRange));
}

#[test]
fn signal_read_carries_quality() {
    let s = signal::read("Link Quality=39/70").unwrap();
    assert_eq!(s.quality, 5571);
    assert!(s.timestamp > 0);
    assert_eq!(signal::read("nothing").map(|s| s.quality), Err(SampleError::Format));
}
