use telemetry_hub::reading::{ClientReadings, SensorData, TimedSensorData, WINDOW_LEN};
use telemetry_hub::ring::RingBuffer;

fn reading(n: u64) -> TimedSensorData {
    TimedSensorData { sensor_id: 7, sensor_value: (n as u32) * 3, sensor_time: 1000 + n }
}

fn held(ring: &RingBuffer) -> Vec<TimedSensorData> {
    (0..ring.len()).map(|i| ring.get(i).unwrap()).collect()
}

#[test]
fn new_ring_is_empty() {
    let ring = RingBuffer::new();
    assert_eq!(ring.len(), 0);
    assert!(!ring.is_full());
    assert_eq!(ring.get(0), None);
}

#[test]
fn push_appends_below_capacity() {
    let mut ring = RingBuffer::new();
    for n in 0..5 {
        assert_eq!(ring.push(reading(n)), None);
    }
    assert_eq!(ring.len(), 5);
    assert_eq!(held(&ring), (0..5).map(reading).collect::<Vec<_>>());
    assert_eq!(ring.get(5), None);
}

#[test]
fn push_past_capacity_evicts_oldest() {
    let mut ring = RingBuffer::new();
    for n in 0..8 {
        assert_eq!(ring.push(reading(n)), None);
    }
    assert!(ring.is_full());
    assert_eq!(ring.push(reading(8)), Some(reading(0)));
    assert_eq!(ring.push(reading(9)), Some(reading(1)));
    assert_eq!(ring.len(), WINDOW_LEN);
    assert_eq!(held(&ring), (2..10).map(reading).collect::<Vec<_>>());
}

#[test]
fn ring_holds_last_eight_after_many_pushes() {
    for total in [8u64, 9, 15, 16, 17, 100] {
        let mut ring = RingBuffer::new();
        for n in 0..total {
            ring.push(reading(n));
        }
        assert_eq!(held(&ring), (total - 8..total).map(reading).collect::<Vec<_>>());
    }
}

#[test]
fn nine_readings_leave_second_to_ninth() {
    let mut ring = RingBuffer::new();
    for n in 1..=9 {
        ring.push(reading(n));
    }
    let mut out = ClientReadings::default();
    ring.snapshot_into(&mut out);
    let expected: Vec<TimedSensorData> = (2..=9).map(reading).collect();
    assert_eq!(out.readings.to_vec(), expected);
    assert!(!out.readings.contains(&reading(1)));
}

#[test]
fn snapshot_pads_with_blank_readings() {
    let mut ring = RingBuffer::new();
    for n in 0..3 {
        ring.push(reading(n));
    }
    let mut out = ClientReadings::default();
    ring.snapshot_into(&mut out);
    let blank = TimedSensorData { sensor_id: 0, sensor_value: 0, sensor_time: 0 };
    assert_eq!(out.readings[0], reading(0));
    assert_eq!(out.readings[1], reading(1));
    assert_eq!(out.readings[2], reading(2));
    for slot in 3..8 {
        assert_eq!(out.readings[slot], blank);
    }
}

#[test]
fn snapshot_of_full_ring_has_no_padding() {
    let mut ring = RingBuffer::new();
    for n in 1..=8 {
        ring.push(reading(n));
    }
    let mut out = ClientReadings::default();
    ring.snapshot_into(&mut out);
    let blank = TimedSensorData::default();
    for slot in 0..8 {
        assert_eq!(out.readings[slot], reading(slot as u64 + 1));
        assert_ne!(out.readings[slot], blank);
    }
}

#[test]
fn snapshot_overwrites_stale_output() {
    let mut full = RingBuffer::new();
    for n in 0..8 {
        full.push(reading(n));
    }
    let mut out = ClientReadings::default();
    full.snapshot_into(&mut out);
    let mut short = RingBuffer::new();
    short.push(reading(40));
    short.snapshot_into(&mut out);
    assert_eq!(out.readings[0], reading(40));
    for slot in 1..8 {
        assert_eq!(out.readings[slot], TimedSensorData::default());
    }
}

#[test]
fn default_reading_is_all_zero() {
    let blank = TimedSensorData::default();
    assert_eq!(blank.sensor_id, 0);
    assert_eq!(f32::from_bits(blank.sensor_value), 0.0);
    assert_eq!(blank.sensor_time, 0);
    assert_eq!(ClientReadings::default().readings, [blank; 8]);
}

#[test]
fn stamp_keeps_record_and_adds_time() {
    let data = SensorData { sensor_id: 20, sensor_value: 3.25f32.to_bits() };
    let stamped = TimedSensorData::stamp(data, 123_456);
    assert_eq!(stamped.sensor_id, 20);
    assert_eq!(f32::from_bits(stamped.sensor_value), 3.25);
    assert_eq!(stamped.sensor_time, 123_456);
}
