use alloy_studio::telemetry_record::{series, Sample, TelemetryRecorder};

fn value(r: &alloy_studio::history::PacketRecord) -> f64 {
    f64::from_bits(r.value_bits)
}

#[test]
fn publish_key_value_stored_in_history() {
    let mut rec = TelemetryRecorder::new();
    rec.record(1, &Sample::KeyValue { key: "speed".into(), value_bits: 42.0f64.to_bits() });
    let records = rec.get("speed");
    assert_eq!(records.len(), 1);
    assert!((value(&records[0]) - 42.0).abs() < 1e-9);
}

#[test]
fn publish_battery_stored_in_history() {
    let mut rec = TelemetryRecorder::new();
    rec.record(1, &Sample::Battery { volts_bits: 12.6f64.to_bits() });
    let records = rec.get("battery_volts");
    assert_eq!(records.len(), 1);
    assert!((value(&records[0]) - 12.6).abs() < 1e-9);
}

#[test]
fn publish_gyro_stored_in_history() {
    let mut rec = TelemetryRecorder::new();
    rec.record(1, &Sample::Gyro { heading_bits: 180.0f64.to_bits() });
    let records = rec.get("gyro_heading");
    assert_eq!(records.len(), 1);
    assert!((value(&records[0]) - 180.0).abs() < 1e-9);
}

#[test]
fn publish_encoder_stored_in_history() {
    let mut rec = TelemetryRecorder::new();
    rec.record(
        1,
        &Sample::EncoderTick {
            name: "left_motor".into(),
            ticks_bits: (9999i64 as f64).to_bits(),
            velocity_bits: 750.0f64.to_bits(),
        },
    );
    let ticks = rec.get("encoder_left_motor_ticks");
    let vel = rec.get("encoder_left_motor_velocity");
    assert_eq!(ticks.len(), 1);
    assert!((value(&ticks[0]) - 9999.0).abs() < 1e-9);
    assert!((value(&vel[0]) - 750.0).abs() < 1e-9);
}

#[test]
fn publish_imu_stored_in_history() {
    let mut rec = TelemetryRecorder::new();
    rec.record(
        1,
        &Sample::Imu { roll_bits: 10.0f64.to_bits(), pitch_bits: 20.0f64.to_bits(), yaw_bits: 30.0f64.to_bits() },
    );
    assert!((value(&rec.get("imu_roll")[0]) - 10.0).abs() < 1e-9);
    assert!((value(&rec.get("imu_pitch")[0]) - 20.0).abs() < 1e-9);
    assert!((value(&rec.get("imu_yaw")[0]) - 30.0).abs() < 1e-9);
}

#[test]
fn packets_are_counted_and_text_is_not_kept() {
    let mut rec = TelemetryRecorder::new();
    rec.record(5, &Sample::Other);
    rec.record(6, &Sample::Battery { volts_bits: 1 });
    rec.record(7, &Sample::Battery { volts_bits: 2 });
    assert_eq!(rec.packet_count(), 3);
    let b = rec.get("battery_volts");
    assert_eq!(b.iter().map(|r| (r.timestamp_ms, r.value_bits)).collect::<Vec<_>>(), vec![(6, 1), (7, 2)]);
    assert!(series(&Sample::Other).is_empty());
    let keys: Vec<String> = series(&Sample::EncoderTick { name: "x".into(), ticks_bits: 0, velocity_bits: 0 })
        .into_iter()
        .map(|(k, _)| k)
        .collect();
    assert_eq!(keys, vec!["encoder_x_ticks", "encoder_x_velocity"]);
}

#[test]
fn packet_count_increments() {
    let mut rec = TelemetryRecorder::new();
    assert_eq!(rec.packet_count(), 0);
    rec.record(1, &Sample::Battery { volts_bits: 12.0f64.to_bits() });
    rec.record(2, &Sample::Gyro { heading_bits: 45.0f64.to_bits() });
    assert_eq!(rec.packet_count(), 2);
}

#[test]
fn ping_not_stored_in_history() {
    let mut rec = TelemetryRecorder::new();
    rec.record(1, &Sample::Other);
    assert!(rec.history().is_empty());
    assert_eq!(rec.packet_count(), 1);
}
