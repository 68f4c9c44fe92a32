use alloy_studio::telemetry_frame::{PacketCodec, TelemetryError, MAX_PACKET_BYTES};
use bytes::{BufMut, BytesMut};

const BATTERY: &[u8] = br#"{"timestamp_ms":1,"type":"battery","volts":11.0}"#;
const GYRO: &[u8] = br#"{"timestamp_ms":2,"type":"gyro","heading_deg":90.0}"#;

#[test]
fn partial_data_returns_none() {
    let mut codec = PacketCodec;
    let mut buf = BytesMut::new();
    codec.encode(BATTERY, &mut buf).unwrap();
    let partial = buf.split_to(buf.len() - 3);
    let mut partial = partial;
    let result = codec.decode(&mut partial);
    assert!(result.unwrap().is_none());
}

#[test]
fn rejects_oversized_packet() {
    let mut codec = PacketCodec;
    let mut buf = BytesMut::new();
    buf.put_u32(MAX_PACKET_BYTES + 1);
    buf.put_slice(&vec![0u8; 100]);
    let result = codec.decode(&mut buf);
    assert!(matches!(result, Err(TelemetryError::InvalidLength(_))));
}

#[test]
fn multiple_packets_in_buffer() {
    let mut codec = PacketCodec;
    let mut buf = BytesMut::new();
    codec.encode(BATTERY, &mut buf).unwrap();
    codec.encode(GYRO, &mut buf).unwrap();
    let p1 = codec.decode(&mut buf).unwrap().unwrap();
    let p2 = codec.decode(&mut buf).unwrap().unwrap();
    assert_eq!(p1, BATTERY);
    assert_eq!(p2, GYRO);
    assert!(buf.is_empty());
}

#[test]
fn frame_header_is_big_endian_length() {
    let mut codec = PacketCodec;
    let mut buf = BytesMut::new();
    codec.encode(&[7u8; 258], &mut buf).unwrap();
    assert_eq!(&buf[..4], &[0, 0, 1, 2]);
    assert_eq!(buf.len(), 262);
}

#[test]
fn short_header_leaves_buffer_untouched() {
    let mut codec = PacketCodec;
    let mut buf = BytesMut::from(&[0u8, 0, 1][..]);
    assert_eq!(codec.decode(&mut buf).unwrap(), None);
    assert_eq!(&buf[..], &[0u8, 0, 1]);
}

#[test]
fn oversized_length_is_reported_exactly() {
    let mut codec = PacketCodec;
    let mut buf = BytesMut::new();
    buf.put_u32(70000);
    assert_eq!(codec.decode(&mut buf), Err(TelemetryError::InvalidLength(70000)));
    assert_eq!(buf.len(), 4);
}

fn roundtrip(payload: &[u8]) -> serde_json::Value {
    let mut codec = PacketCodec;
    let mut buf = BytesMut::new();
    codec.encode(payload, &mut buf).expect("encode failed");
    let decoded = codec.decode(&mut buf).expect("decode error").expect("no packet");
    assert_eq!(decoded, payload);
    serde_json::from_slice(&decoded).expect("packet is JSON")
}

fn number(v: &serde_json::Value, key: &str) -> f64 {
    v.get(key).and_then(|x| x.as_f64()).expect("numeric field")
}

#[test]
fn encode_decode_key_value() {
    let payload = format!(r#"{{"timestamp_ms":1,"type":"key_value","key":"speed","value":{}}}"#, 1.23);
    let decoded = roundtrip(payload.as_bytes());
    assert_eq!(decoded.get("type").and_then(|t| t.as_str()), Some("key_value"));
    assert_eq!(decoded.get("key").and_then(|t| t.as_str()), Some("speed"));
    assert!((number(&decoded, "value") - 1.23).abs() < 1e-9);
}

#[test]
fn encode_decode_battery() {
    let payload = format!(r#"{{"timestamp_ms":1,"type":"battery","volts":{}}}"#, 12.6);
    let decoded = roundtrip(payload.as_bytes());
    assert_eq!(decoded.get("type").and_then(|t| t.as_str()), Some("battery"));
    assert!((number(&decoded, "volts") - 12.6).abs() < 1e-9);
}

#[test]
fn encode_decode_imu() {
    let payload = format!(
        r#"{{"timestamp_ms":1,"type":"imu","roll":{:?},"pitch":{:?},"yaw":{:?}}}"#,
        1.0f64, 2.0f64, 3.0f64
    );
    let decoded = roundtrip(payload.as_bytes());
    assert_eq!(decoded.get("type").and_then(|t| t.as_str()), Some("imu"));
    assert!((number(&decoded, "roll") - 1.0).abs() < 1e-9);
    assert!((number(&decoded, "pitch") - 2.0).abs() < 1e-9);
    assert!((number(&decoded, "yaw") - 3.0).abs() < 1e-9);
}

#[test]
fn encode_decode_encoder() {
    let payload = format!(
        r#"{{"timestamp_ms":1,"type":"encoder_tick","name":"left_motor","ticks":{},"velocity_tps":{:?}}}"#,
        12345, 500.0f64
    );
    let decoded = roundtrip(payload.as_bytes());
    assert_eq!(decoded.get("name").and_then(|t| t.as_str()), Some("left_motor"));
    assert_eq!(decoded.get("ticks").and_then(|t| t.as_i64()), Some(12345));
    assert!((number(&decoded, "velocity_tps") - 500.0).abs() < 1e-9);
}

#[test]
fn encode_decode_ping() {
    let payload = format!(r#"{{"timestamp_ms":1,"type":"ping","seq":{}}}"#, 42);
    let decoded = roundtrip(payload.as_bytes());
    assert_eq!(decoded.get("type").and_then(|t| t.as_str()), Some("ping"));
    assert_eq!(decoded.get("seq").and_then(|t| t.as_u64()), Some(42));
}
