use telemetry_hub::dashboard::{DashboardAction, DashboardHandler, DashboardState};
use telemetry_hub::reading::TimedSensorData;
use telemetry_hub::registry::StationId;
use telemetry_hub::store::Aggregator;

fn connected() -> DashboardHandler {
    let mut handler = DashboardHandler::new();
    handler.on_accept(true);
    handler
}

#[test]
fn new_handler_asks_for_a_connection() {
    let handler = DashboardHandler::new();
    assert_eq!(handler.state(), DashboardState::WaitingForRequest);
    assert!(!handler.is_connected());
    assert_eq!(handler.next_action(), DashboardAction::Accept);
}

#[test]
fn failed_accept_keeps_asking() {
    let mut handler = DashboardHandler::new();
    handler.on_accept(false);
    assert!(!handler.is_connected());
    assert_eq!(handler.next_action(), DashboardAction::Accept);
    handler.on_accept(true);
    assert!(handler.is_connected());
    assert_eq!(handler.next_action(), DashboardAction::Read);
}

#[test]
fn request_runs_the_whole_cycle() {
    let store = Aggregator::new(2);
    let mut handler = connected();
    assert!(handler.on_data(b"GET / HTTP/1.1\r\nHost: hub\r\n\r\n"));
    assert_eq!(handler.state(), DashboardState::BuildingSnapshot);
    assert_eq!(handler.next_action(), DashboardAction::Build);
    let snapshot = handler.build(&store).unwrap();
    assert_eq!(snapshot, store.snapshot());
    assert_eq!(handler.state(), DashboardState::WritingResponse);
    assert_eq!(handler.next_action(), DashboardAction::Write);
    handler.on_written(true);
    assert_eq!(handler.state(), DashboardState::Idle);
    assert_eq!(handler.next_action(), DashboardAction::Delay);
    handler.on_delay_elapsed();
    assert_eq!(handler.state(), DashboardState::WaitingForRequest);
    assert!(handler.is_connected());
    assert_eq!(handler.next_action(), DashboardAction::Read);
}

#[test]
fn connection_serves_a_second_request() {
    let store = Aggregator::new(1);
    let mut handler = connected();
    for _ in 0..2 {
        assert!(handler.on_data(b"again\r\n\r\n"));
        assert!(handler.build(&store).is_some());
        handler.on_written(true);
        handler.on_delay_elapsed();
        assert!(handler.is_connected());
    }
}

#[test]
fn request_split_across_two_reads() {
    let mut split = connected();
    assert!(!split.on_data(b"GET /\r\n"));
    assert_eq!(split.state(), DashboardState::ReadingRequest);
    assert_eq!(split.next_action(), DashboardAction::Read);
    assert!(split.on_data(b"\r\n"));
    assert_eq!(split.state(), DashboardState::BuildingSnapshot);
    let mut whole = connected();
    assert!(whole.on_data(b"GET /\r\n\r\n"));
    assert_eq!(whole.state(), split.state());
}

#[test]
fn request_split_at_every_byte() {
    let request: &[u8] = b"GET /data HTTP/1.0\r\n\r\n";
    for cut in 1..request.len() {
        let mut handler = connected();
        assert!(!handler.on_data(&request[..cut]));
        assert_eq!(handler.state(), DashboardState::ReadingRequest);
        assert!(handler.on_data(&request[cut..]));
        assert_eq!(handler.state(), DashboardState::BuildingSnapshot);
    }
}

#[test]
fn build_outside_its_state_gives_nothing() {
    let store = Aggregator::new(1);
    let mut handler = connected();
    assert!(handler.build(&store).is_none());
    assert_eq!(handler.state(), DashboardState::WaitingForRequest);
    handler.on_data(b"half");
    assert!(handler.build(&store).is_none());
    assert_eq!(handler.state(), DashboardState::ReadingRequest);
}

#[test]
fn write_failure_ends_the_cycle_not_the_handler() {
    let store = Aggregator::new(1);
    let mut handler = connected();
    handler.on_data(b"\r\n\r\n");
    handler.build(&store);
    handler.on_written(false);
    assert_eq!(handler.state(), DashboardState::WaitingForRequest);
    assert!(!handler.is_connected());
    assert_eq!(handler.next_action(), DashboardAction::Accept);
    handler.on_accept(true);
    assert!(handler.on_data(b"next\r\n\r\n"));
}

#[test]
fn end_of_stream_and_read_failure_drop_the_connection() {
    let mut handler = connected();
    handler.on_data(b"GET");
    assert!(!handler.on_data(b""));
    assert!(!handler.is_connected());
    assert_eq!(handler.state(), DashboardState::WaitingForRequest);
    handler.on_accept(true);
    assert!(!handler.on_data(b"\r\n\r\n".split_at(1).1));
    handler.on_read_failure();
    assert!(!handler.is_connected());
    assert_eq!(handler.next_action(), DashboardAction::Accept);
    handler.on_accept(true);
    assert!(!handler.on_data(b"\r"));
    assert!(handler.on_data(b"\n\r\n"));
}

#[test]
fn events_out_of_turn_change_nothing() {
    let mut handler = DashboardHandler::new();
    assert!(!handler.on_data(b"early\r\n\r\n"));
    handler.on_written(true);
    handler.on_delay_elapsed();
    handler.on_read_failure();
    assert_eq!(handler.state(), DashboardState::WaitingForRequest);
    assert!(!handler.is_connected());
    let mut busy = connected();
    busy.on_data(b"\r\n\r\n");
    busy.on_accept(true);
    busy.on_delay_elapsed();
    busy.on_read_failure();
    assert!(!busy.on_data(b"more\r\n\r\n"));
    assert_eq!(busy.state(), DashboardState::BuildingSnapshot);
    assert!(busy.is_connected());
}

#[test]
fn snapshot_shows_what_was_ingested_before_the_request() {
    let mut store = Aggregator::new(2);
    let reading = TimedSensorData { sensor_id: 9, sensor_value: 1.0f32.to_bits(), sensor_time: 4 };
    store.ingest(Some(StationId { index: 1 }), reading);
    let mut handler = connected();
    handler.on_data(b"\r\n\r\n");
    let snapshot = handler.build(&store).unwrap();
    assert_eq!(snapshot.stations.len(), 2);
    assert_eq!(snapshot.stations[1].readings[0], reading);
    assert_eq!(snapshot.stations[0].readings[0], TimedSensorData::default());
}
