use alloy_studio::history::{HistoryBuffer, PacketRecord};

fn record(ts: i64, value: f64) -> PacketRecord {
    PacketRecord { timestamp_ms: ts, value_bits: value.to_bits() }
}

fn value(r: &PacketRecord) -> f64 {
    f64::from_bits(r.value_bits)
}

#[test]
fn insert_and_get() {
    let mut buf = HistoryBuffer::new(10);
    buf.insert("speed", record(1000, 1.5));
    buf.insert("speed", record(2000, 2.5));

    let records = buf.get("speed");
    assert_eq!(records.len(), 2);
    assert!((value(&records[0]) - 1.5).abs() < 1e-9);
    assert!((value(&records[1]) - 2.5).abs() < 1e-9);
}

#[test]
fn respects_capacity() {
    let mut buf = HistoryBuffer::new(3);
    for i in 0..5 {
        buf.insert("key", record(i as i64, i as f64));
    }
    let records = buf.get("key");
    assert_eq!(records.len(), 3);
    assert!((value(&records[0]) - 2.0).abs() < 1e-9);
    assert!((value(&records[1]) - 3.0).abs() < 1e-9);
    assert!((value(&records[2]) - 4.0).abs() < 1e-9);
}

#[test]
fn get_missing_key_returns_empty() {
    let buf = HistoryBuffer::new(10);
    assert!(buf.get("nonexistent").is_empty());
}

#[test]
fn keys_returns_all_inserted_keys() {
    let mut buf = HistoryBuffer::new(10);
    buf.insert("alpha", record(0, 1.0));
    buf.insert("beta", record(0, 2.0));
    let mut keys = buf.keys();
    keys.sort();
    assert_eq!(keys, vec!["alpha", "beta"]);
}

#[test]
fn len_counts_all_records() {
    let mut buf = HistoryBuffer::new(10);
    buf.insert("a", record(0, 1.0));
    buf.insert("a", record(1, 2.0));
    buf.insert("b", record(2, 3.0));
    assert_eq!(buf.len(), 3);
}

#[test]
fn clear_empties_buffer() {
    let mut buf = HistoryBuffer::new(10);
    buf.insert("x", record(0, 0.0));
    assert_eq!(buf.len(), 1);
    buf.clear();
    assert_eq!(buf.len(), 0);
    assert!(buf.is_empty());
}

#[test]
fn multiple_keys_independent() {
    let mut buf = HistoryBuffer::new(5);
    buf.insert("motor_left", record(1, 100.0));
    buf.insert("motor_right", record(2, 200.0));

    assert_eq!(buf.get("motor_left").len(), 1);
    assert_eq!(buf.get("motor_right").len(), 1);
    assert!((value(&buf.get("motor_left")[0]) - 100.0).abs() < 1e-9);
    assert!((value(&buf.get("motor_right")[0]) - 200.0).abs() < 1e-9);
}

#[test]
fn zero_capacity_keeps_nothing() {
    let mut buf = HistoryBuffer::new(0);
    buf.insert("k", record(1, 1.0));
    buf.insert("k", record(2, 2.0));
    assert!(buf.get("k").is_empty());
    assert!(buf.keys().is_empty());
}
