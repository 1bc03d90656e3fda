//! Core of a telemetry hub: a bounded pool of connection slots, a closed
//! roster of stations, a delimiter-framed record stream, one sliding window
//! of recent readings per station, and the snapshot served to a monitor.

pub mod dashboard;
pub mod framing;
pub mod pool;
pub mod reading;
pub mod registry;
pub mod response;
pub mod ring;
pub mod station;
pub mod store;
