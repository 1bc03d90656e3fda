//! The values that flow through the hub.

use vstd::prelude::*;

verus! {

/// Number of readings kept per station, and so the length of every exported window.
pub const WINDOW_LEN: usize = 8;

/// One record as a station sends it: the tag it declares for itself and the
/// measured value. The value is carried as the bit pattern of an IEEE-754
/// binary32 number, so that it can be stored and compared exactly.
#[derive(Clone, Copy, Debug, PartialEq, Eq, Structural)]
pub struct SensorData {
    pub sensor_id: u8,
    pub sensor_value: u32,
}

/// A record together with the time at which the hub decoded it, in
/// milliseconds on the hub's monotonic clock.
#[derive(Clone, Copy, Debug, PartialEq, Eq, Structural)]
pub struct TimedSensorData {
    pub sensor_id: u8,
    pub sensor_value: u32,
    pub sensor_time: u64,
}

impl TimedSensorData {
    /// The reading that fills every slot no station has written yet:
    /// tag 0, value +0.0, time 0.
    pub open spec fn blank() -> TimedSensorData {
        TimedSensorData { sensor_id: 0, sensor_value: 0, sensor_time: 0 }
    }

    /// What `stamp` builds.
    pub open spec fn stamped(data: SensorData, now: u64) -> TimedSensorData {
        TimedSensorData {
            sensor_id: data.sensor_id,
            sensor_value: data.sensor_value,
            sensor_time: now,
        }
    }

    /// Attaches the arrival time to a decoded record.
    pub fn stamp(data: SensorData, now: u64) -> (reading: TimedSensorData)
        ensures
            reading == Self::stamped(data, now),
    {
        TimedSensorData {
            sensor_id: data.sensor_id,
            sensor_value: data.sensor_value,
            sensor_time: now,
        }
    }
}

impl Default for TimedSensorData {
    fn default() -> (reading: TimedSensorData)
        ensures
            reading == TimedSensorData::blank(),
    {
        TimedSensorData { sensor_id: 0, sensor_value: 0, sensor_time: 0 }
    }
}

/// The exported window of one station: always `WINDOW_LEN` slots, oldest
/// reading first, blank slots after the last reading.
#[derive(Clone, Copy, Debug, PartialEq, Eq)]
pub struct ClientReadings {
    pub readings: [TimedSensorData; WINDOW_LEN],
}

impl View for ClientReadings {
    type V = Seq<TimedSensorData>;

    open spec fn view(&self) -> Seq<TimedSensorData> {
        self.readings@
    }
}

impl Default for ClientReadings {
    fn default() -> (window: ClientReadings)
        ensures
            window@ == Seq::new(WINDOW_LEN as nat, |i: int| TimedSensorData::blank()),
    {
        let window = ClientReadings { readings: [TimedSensorData::default(); WINDOW_LEN] };
        assert(window@ =~= Seq::new(WINDOW_LEN as nat, |i: int| TimedSensorData::blank()));
        window
    }
}

} // verus!
