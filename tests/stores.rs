use cobitis::api::{get_measurements, get_signal, Reply};
use cobitis::error::SampleError;
use cobitis::measurements::Measurements;
use cobitis::signal::Signal;
use cobitis::store::SnapshotStore;

fn sample(t: i32, tds: i64) -> Measurements {
    Measurements { timestamp: 1_700_000_000_000, temperature: t, tds }
}

#[test]
fn store_reads_last_publish() {
    let mut s: SnapshotStore<Measurements> = SnapshotStore::new();
    assert_eq!(s.read(), None);
    s.publish(sample(236, 4816));
    assert_eq!(s.read(), Some(sample(236, 4816)));
    s.publish(sample(240, 5000));
    assert_eq!(s.read(), Some(sample(240, 5000)));
}

#[test]
fn failure_leaves_snapshot_unchanged() {
    let mut s: SnapshotStore<Measurements> = SnapshotStore::new();
    assert!(s.record(Ok(sample(236, 4816))));
    assert!(!s.record(Err(SampleError::Adc)));
    assert_eq!(s.read(), Some(sample(236, 4816)));
    assert!(!s.record(Err(SampleError::Format)));
    assert_eq!(s.read(), Some(sample(236, 4816)));
}

#[test]
fn failure_before_first_sample_stays_empty() {
    let mut s: SnapshotStore<Signal> = SnapshotStore::new();
    assert!(!s.record(Err(SampleError::NotFinite)));
    assert_eq!(s.read(), None);
}

#[test]
fn measurements_query_no_content_then_ok() {
    let mut s: SnapshotStore<Measurements> = SnapshotStore::new();
    let r = get_measurements(&s);
    assert_eq!(r, Reply::NoContent);
    assert_eq!(r.status(), 204);
    s.publish(sample(236, 4816));
    let r = get_measurements(&s);
    assert_eq!(r, Reply::Found(sample(236, 4816)));
    assert_eq!(r.status(), 200);
}

#[test]
fn signal_query_no_content_then_ok() {
    let mut s: SnapshotStore<Signal> = SnapshotStore::new();
    assert_eq!(get_signal(&s).status(), 204);
    let v = Signal { timestamp: 5, quality: 5571 };
    s.record(Ok(v));
    assert_eq!(get_signal(&s), Reply::Found(v));
    assert_eq!(get_signal(&s).status(), 200);
}
