use telemetry_hub::pool::SlotPool;
use telemetry_hub::reading::{SensorData, TimedSensorData};
use telemetry_hub::registry::{Registry, StationId};
use telemetry_hub::station::{CloseReason, HandlerAction, HandlerState, Ingest, StationHandler};
use telemetry_hub::store::Aggregator;

/// A handler on a roster of four, for the station at `place` or for a stranger.
fn accepted(slot: usize, place: Option<usize>) -> StationHandler {
    let registry = Registry::new(vec![100, 101, 102, 103]).unwrap();
    StationHandler::accept(slot, &registry, Some(place.map_or(999, |p| 100 + p as u32)))
}

fn data(id: u8, value: f32) -> SensorData {
    SensorData { sensor_id: id, sensor_value: value.to_bits() }
}

#[test]
fn accepted_handler_asks_to_read() {
    let handler = accepted(3, Some(1));
    assert_eq!(handler.state(), HandlerState::Accepted);
    assert_eq!(handler.slot(), 3);
    assert_eq!(handler.station(), Some(StationId { index: 1 }));
    assert_eq!(handler.close_reason(), None);
    assert_eq!(handler.next_action(), HandlerAction::Read);
}

#[test]
fn bytes_move_handler_to_reading() {
    let mut handler = accepted(0, None);
    assert!(handler.on_data(b"{\"sensor").is_empty());
    assert_eq!(handler.state(), HandlerState::Reading);
    assert_eq!(handler.next_action(), HandlerAction::Read);
    let records = handler.on_data(b"_id\":1}\r\n\r\n");
    assert_eq!(records, vec![b"{\"sensor_id\":1}".to_vec()]);
    assert_eq!(handler.state(), HandlerState::Reading);
}

#[test]
fn empty_read_is_end_of_stream() {
    let mut handler = accepted(0, None);
    handler.on_data(b"abc");
    assert!(handler.on_data(b"").is_empty());
    assert_eq!(handler.state(), HandlerState::Closing);
    assert_eq!(handler.close_reason(), Some(CloseReason::EndOfStream));
    assert_eq!(handler.next_action(), HandlerAction::Close);
}

#[test]
fn end_of_stream_right_after_accept_closes() {
    let mut handler = accepted(0, None);
    assert!(handler.on_data(b"").is_empty());
    assert_eq!(handler.state(), HandlerState::Closing);
    assert_eq!(handler.close_reason(), Some(CloseReason::EndOfStream));
}

#[test]
fn failure_and_timeout_close_the_handler() {
    for reason in [CloseReason::TransportError, CloseReason::IdleTimeout] {
        let mut handler = accepted(0, None);
        handler.on_data(b"x");
        handler.on_failure(reason);
        assert_eq!(handler.state(), HandlerState::Closing);
        assert_eq!(handler.close_reason(), Some(reason));
        assert_eq!(handler.next_action(), HandlerAction::Close);
    }
}

#[test]
fn closing_handler_takes_no_more_bytes() {
    let mut handler = accepted(0, None);
    handler.on_failure(CloseReason::IdleTimeout);
    assert!(handler.on_data(b"late\r\n\r\n").is_empty());
    assert_eq!(handler.state(), HandlerState::Closing);
    handler.on_failure(CloseReason::TransportError);
    assert_eq!(handler.close_reason(), Some(CloseReason::IdleTimeout));
}

#[test]
fn release_returns_the_slot_once() {
    let mut pool = SlotPool::new(2);
    let first = pool.acquire().unwrap();
    let second = pool.acquire().unwrap();
    let mut handler = accepted(first, None);
    handler.on_data(b"");
    assert!(handler.release(&mut pool));
    assert_eq!(handler.state(), HandlerState::Released);
    assert_eq!(handler.next_action(), HandlerAction::Stop);
    assert_eq!(pool.in_use(), 1);
    assert!(pool.is_in_use(second));
    let reused = pool.acquire().unwrap();
    assert_eq!(reused, first);
    assert!(!handler.release(&mut pool));
    assert!(pool.is_in_use(reused));
    assert_eq!(pool.in_use(), 2);
}

#[test]
fn released_handler_ignores_every_event() {
    let mut pool = SlotPool::new(1);
    let slot = pool.acquire().unwrap();
    let mut handler = accepted(slot, Some(0));
    handler.on_failure(CloseReason::TransportError);
    handler.release(&mut pool);
    assert!(handler.on_data(b"a\r\n\r\n").is_empty());
    handler.on_failure(CloseReason::IdleTimeout);
    assert_eq!(handler.state(), HandlerState::Released);
    assert_eq!(handler.close_reason(), Some(CloseReason::TransportError));
    let mut store = Aggregator::new(1);
    assert_eq!(handler.ingest(&mut store, Some(data(1, 1.0)), 5), Ingest::NotReading);
    assert_eq!(store.held(StationId { index: 0 }), Some(0));
}

#[test]
fn release_while_reading_still_frees_the_slot() {
    let mut pool = SlotPool::new(1);
    let slot = pool.acquire().unwrap();
    let mut handler = accepted(slot, None);
    handler.on_data(b"abc");
    assert!(handler.release(&mut pool));
    assert_eq!(handler.state(), HandlerState::Released);
    assert_eq!(pool.in_use(), 0);
}

#[test]
fn ingest_stores_decoded_record_of_known_station() {
    let mut store = Aggregator::new(2);
    let mut handler = accepted(0, Some(1));
    handler.on_data(b"x");
    assert_eq!(handler.ingest(&mut store, Some(data(20, 4.5)), 777), Ingest::Stored);
    let window = store.window(StationId { index: 1 }).unwrap();
    assert_eq!(
        window.readings[0],
        TimedSensorData { sensor_id: 20, sensor_value: 4.5f32.to_bits(), sensor_time: 777 }
    );
    assert_eq!(store.held(StationId { index: 0 }), Some(0));
    assert_eq!(handler.state(), HandlerState::Reading);
}

#[test]
fn ingest_drops_malformed_record_and_keeps_reading() {
    let mut store = Aggregator::new(1);
    let mut handler = accepted(0, Some(0));
    handler.on_data(b"x");
    assert_eq!(handler.ingest(&mut store, None, 1), Ingest::Malformed);
    assert_eq!(store.held(StationId { index: 0 }), Some(0));
    assert_eq!(handler.state(), HandlerState::Reading);
    assert_eq!(handler.next_action(), HandlerAction::Read);
}

#[test]
fn ingest_drops_readings_of_unknown_peer() {
    let mut store = Aggregator::new(2);
    let mut handler = accepted(0, None);
    handler.on_data(b"x");
    assert_eq!(handler.ingest(&mut store, Some(data(1, 1.0)), 1), Ingest::Unobserved);
    assert_eq!(handler.ingest(&mut store, None, 1), Ingest::Malformed);
    assert_eq!(store.snapshot(), Aggregator::new(2).snapshot());
    assert_eq!(handler.state(), HandlerState::Reading);
}

#[test]
fn ingest_before_any_bytes_is_not_reading() {
    let mut store = Aggregator::new(1);
    let handler = accepted(0, Some(0));
    assert_eq!(handler.ingest(&mut store, Some(data(1, 1.0)), 1), Ingest::NotReading);
    assert_eq!(store.held(StationId { index: 0 }), Some(0));
}

#[test]
fn accept_classifies_the_peer_once() {
    let registry = Registry::new(vec![0xC0A8_020A, 0xC0A8_020F]).unwrap();
    let known = StationHandler::accept(1, &registry, Some(0xC0A8_020F));
    assert_eq!(known.station(), Some(StationId { index: 1 }));
    assert_eq!(known.slot(), 1);
    let stranger = StationHandler::accept(0, &registry, Some(0xC0A8_0210));
    assert_eq!(stranger.station(), None);
    let nameless = StationHandler::accept(0, &registry, None);
    assert_eq!(nameless.station(), None);
    assert_eq!(nameless.state(), HandlerState::Accepted);
}
