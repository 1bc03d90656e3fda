use telemetry_hub::response::{Response, ResponseError, RESPONSE_CAPACITY, RESPONSE_HEAD};

#[test]
fn response_is_head_then_body() {
    let response = Response::build("{\"client1\":{}}").unwrap();
    assert_eq!(
        response.as_bytes(),
        b"HTTP/1.0 200 OK\r\nContent-Type: application/json\r\n\r\n{\"client1\":{}}"
    );
    assert_eq!(response.len(), 51 + 14);
}

#[test]
fn head_is_status_line_content_type_and_blank_line() {
    assert_eq!(RESPONSE_HEAD.len(), 51);
    let lines: Vec<&str> = RESPONSE_HEAD.split("\r\n").collect();
    assert_eq!(lines, vec!["HTTP/1.0 200 OK", "Content-Type: application/json", "", ""]);
}

#[test]
fn empty_body_gives_the_head_alone() {
    let response = Response::build("").unwrap();
    assert_eq!(response.as_bytes(), RESPONSE_HEAD.as_bytes());
    assert_eq!(response.len(), 51);
}

#[test]
fn body_that_just_fits_is_accepted() {
    let body = "x".repeat(RESPONSE_CAPACITY - 51);
    let response = Response::build(&body).unwrap();
    assert_eq!(response.len(), RESPONSE_CAPACITY);
    assert_eq!(&response.as_bytes()[51..], body.as_bytes());
}

#[test]
fn body_that_is_one_byte_too_long_is_refused() {
    let body = "x".repeat(RESPONSE_CAPACITY - 50);
    assert_eq!(Response::build(&body).err(), Some(ResponseError::TooLong));
}

#[test]
fn capacity_counts_bytes_not_characters() {
    let body = "\u{e9}".repeat((RESPONSE_CAPACITY - 51) / 2 + 1);
    assert!(body.chars().count() < RESPONSE_CAPACITY - 51);
    assert_eq!(Response::build(&body).err(), Some(ResponseError::TooLong));
    let fits = "\u{e9}".repeat((RESPONSE_CAPACITY - 51) / 2);
    let response = Response::build(&fits).unwrap();
    assert_eq!(&response.as_bytes()[51..], fits.as_bytes());
}
