//! Which history series a telemetry packet feeds, and the recorder that keeps
//! them. Numbers travel as the bit patterns of their IEEE-754 doubles.
use vstd::prelude::*;
use crate::history::{history_after, HistoryBuffer, PacketRecord, DEFAULT_HISTORY_CAPACITY};
use crate::text::{owned, push_str};

verus! {

/// The numeric content of a telemetry packet, its numbers as double bits.
#[derive(Debug, Clone, PartialEq, Eq)]
pub enum Sample {
    KeyValue { key: String, value_bits: u64 },
    Battery { volts_bits: u64 },
    Gyro { heading_bits: u64 },
    /// `ticks_bits` is the tick count converted to a double.
    EncoderTick { name: String, ticks_bits: u64, velocity_bits: u64 },
    Imu { roll_bits: u64, pitch_bits: u64, yaw_bits: u64 },
    /// A packet with no number to keep (text, status, ping, pong).
    Other,
}

/// The history series a sample feeds, in order, with the value for each:
/// a key-value under its key; the battery as `battery_volts`; the gyro as
/// `gyro_heading`; an encoder as `encoder_{name}_ticks` and
/// `encoder_{name}_velocity`; the IMU as `imu_roll`, `imu_pitch`, `imu_yaw`.
pub open spec fn series_of(s: Sample) -> Seq<(Seq<char>, u64)> {
    match s {
        Sample::KeyValue { key, value_bits } => seq![(key@, value_bits)],
        Sample::Battery { volts_bits } => seq![("battery_volts"@, volts_bits)],
        Sample::Gyro { heading_bits } => seq![("gyro_heading"@, heading_bits)],
        Sample::EncoderTick { name, ticks_bits, velocity_bits } => seq![
            ("encoder_"@ + name@ + "_ticks"@, ticks_bits),
            ("encoder_"@ + name@ + "_velocity"@, velocity_bits),
        ],
        Sample::Imu { roll_bits, pitch_bits, yaw_bits } => seq![
            ("imu_roll"@, roll_bits),
            ("imu_pitch"@, pitch_bits),
            ("imu_yaw"@, yaw_bits),
        ],
        Sample::Other => Seq::<(Seq<char>, u64)>::empty(),
    }
}

fn encoder_key(name: &str, suffix: &str) -> (k: String)
    ensures
        k@ == "encoder_"@ + name@ + suffix@,
{
    let mut k = owned("encoder_");
    push_str(&mut k, name);
    push_str(&mut k, suffix);
    k
}

/// The history series a sample feeds.
pub fn series(s: &Sample) -> (r: Vec<(String, u64)>)
    ensures
        r@.map_values(|e: (String, u64)| (e.0@, e.1)) == series_of(*s),
{
    let r = match s {
        Sample::KeyValue { key, value_bits } => vec![(owned(key.as_str()), *value_bits)],
        Sample::Battery { volts_bits } => vec![(owned("battery_volts"), *volts_bits)],
        Sample::Gyro { heading_bits } => vec![(owned("gyro_heading"), *heading_bits)],
        Sample::EncoderTick { name, ticks_bits, velocity_bits } => vec![
            (encoder_key(name.as_str(), "_ticks"), *ticks_bits),
            (encoder_key(name.as_str(), "_velocity"), *velocity_bits),
        ],
        Sample::Imu { roll_bits, pitch_bits, yaw_bits } => vec![
            (owned("imu_roll"), *roll_bits),
            (owned("imu_pitch"), *pitch_bits),
            (owned("imu_yaw"), *yaw_bits),
        ],
        Sample::Other => Vec::new(),
    };
    assert(r@.map_values(|e: (String, u64)| (e.0@, e.1)) =~= series_of(*s));
    r
}

/// The history after recording the series `es`, in order, at time `ts`.
pub open spec fn record_all(
    m: Map<Seq<char>, Seq<PacketRecord>>,
    cap: nat,
    ts: i64,
    es: Seq<(Seq<char>, u64)>,
) -> Map<Seq<char>, Seq<PacketRecord>>
    decreases es.len(),
{
    if es.len() == 0 {
        m
    } else {
        let k = es[0].0;
        let rec = PacketRecord { timestamp_ms: ts, value_bits: es[0].1 };
        record_all(
            history_after(m, k, cap, rec),
            cap,
            ts,
            es.drop_first(),
        )
    }
}

/// Keeps the history of a telemetry stream and counts its packets.
pub struct TelemetryRecorder {
    history: HistoryBuffer,
    packet_count: u64,
}

impl TelemetryRecorder {
    /// The history, by series.
    pub closed spec fn series_history(&self) -> Map<Seq<char>, Seq<PacketRecord>> {
        self.history@.0
    }

    /// The number of records kept per series.
    pub closed spec fn capacity(&self) -> nat {
        self.history@.1
    }

    /// The packets recorded so far (counted modulo 2^64).
    pub closed spec fn count(&self) -> u64 {
        self.packet_count
    }

    pub closed spec fn wf(&self) -> bool {
        self.history.wf()
    }

    /// The history buffer the recorder keeps.
    pub fn history(&self) -> (r: &HistoryBuffer)
        ensures
            r@.0 == self.series_history(),
            r@.1 == self.capacity(),
            self.wf() ==> r.wf(),
    {
        &self.history
    }

    /// A recorder with an empty history keeping the default number of records.
    pub fn new() -> (r: Self)
        ensures
            r.wf(),
            r.series_history() == Map::<Seq<char>, Seq<PacketRecord>>::empty(),
            r.capacity() == DEFAULT_HISTORY_CAPACITY,
            r.count() == 0,
    {
        TelemetryRecorder { history: HistoryBuffer::new(DEFAULT_HISTORY_CAPACITY), packet_count: 0 }
    }

    /// Record one packet received at `timestamp_ms`: each series it feeds gets a
    /// record, and the packet is counted.
    pub fn record(&mut self, timestamp_ms: i64, sample: &Sample)
        requires
            old(self).wf(),
        ensures
            final(self).wf(),
            final(self).capacity() == old(self).capacity(),
            final(self).series_history() == record_all(
                old(self).series_history(),
                old(self).capacity(),
                timestamp_ms,
                series_of(*sample),
            ),
            final(self).count() == (if old(self).count() == u64::MAX {
                0
            } else {
                old(self).count() + 1
            }),
    {
        let es = series(sample);
        let ghost all = series_of(*sample);
        let ghost goal = record_all(self.history@.0, self.history@.1, timestamp_ms, all);
        let mut i: usize = 0;
        assert(all.skip(0) =~= all);
        while i < es.len()
            invariant
                i <= es@.len(),
                all == es@.map_values(|e: (String, u64)| (e.0@, e.1)),
                self.history.wf(),
                self.history@.1 == old(self).history@.1,
                self.packet_count == old(self).packet_count,
                record_all(self.history@.0, self.history@.1, timestamp_ms, all.skip(i as int)) == goal,
            decreases es@.len() - i,
        {
            proof {
                assert(all.skip(i as int)[0] == (es@[i as int].0@, es@[i as int].1));
                assert(all.skip(i as int).drop_first() =~= all.skip(i + 1));
            }
            self.history.insert(es[i].0.as_str(), PacketRecord { timestamp_ms, value_bits: es[i].1 });
            i += 1;
        }
        assert(all.skip(i as int) =~= Seq::<(Seq<char>, u64)>::empty());
        self.packet_count = self.packet_count.wrapping_add(1);
    }

    /// Total packets recorded since the recorder was created.
    pub fn packet_count(&self) -> (r: u64)
        ensures
            r == self.count(),
    {
        self.packet_count
    }

    /// The records of one series, oldest first.
    pub fn get(&self, key: &str) -> (r: Vec<PacketRecord>)
        ensures
            r@ == if self.series_history().dom().contains(key@) {
                self.series_history()[key@]
            } else {
                seq![]
            },
    {
        self.history.get(key)
    }
}

} // verus!
