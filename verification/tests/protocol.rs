//! The control protocol and its lines.

use pasteport::protocol::{default_limit, Response};
use pasteport::server::{
    admits, after_bind, encode_line, encoding_failure, refusal_line, take_line, unparsed, BindStep,
    Bound, LineStep, MAX_REQUEST_BYTES,
};

#[test]
fn error_helper_marks_errors() {
    assert!(Response::error("x").is_error());
    assert!(!Response::Done.is_error());
}

#[test]
fn the_default_page_size() {
    assert_eq!(default_limit(), 50);
}

#[test]
fn blank_lines_are_ignored() {
    assert!(matches!(take_line(Vec::new()), LineStep::Skip));
    assert!(matches!(take_line(b"\r".to_vec()), LineStep::Skip));
    let LineStep::Parse(body) = take_line(b"{\"op\":\"ping\"}\r".to_vec()) else {
        panic!("expected a request")
    };
    assert_eq!(body, b"{\"op\":\"ping\"}");
    let LineStep::Parse(body) = take_line(b"\r\r".to_vec()) else {
        panic!("only one carriage return is stripped")
    };
    assert_eq!(body, b"\r");
}

#[test]
fn overlong_requests_are_refused() {
    let LineStep::HangUp(reply) = take_line(vec![b'x'; MAX_REQUEST_BYTES + 1]) else {
        panic!("expected a refusal")
    };
    assert_eq!(reply, Response::error("request too large"));
    assert!(matches!(
        take_line(vec![b'x'; MAX_REQUEST_BYTES]),
        LineStep::Parse(_)
    ));
}

#[test]
fn malformed_input_gets_an_error_not_a_dropped_connection() {
    assert_eq!(
        unparsed("expected value"),
        Response::error("could not parse request: expected value")
    );
}

#[test]
fn messages_are_framed_one_per_line() {
    let both = format!("{}{}", encode_line("{\"a\":1}"), encode_line("{}"));
    let lines: Vec<&str> = both.split('\n').collect();
    assert_eq!(lines, vec!["{\"a\":1}", "{}", ""]);
    assert_eq!(
        encoding_failure("oops"),
        "{\"result\":\"error\",\"message\":\"oops\"}\n"
    );
    assert!(refusal_line().contains("too many connections"));
}

#[test]
fn a_stale_socket_is_replaced() {
    assert_eq!(
        after_bind(Bound::Taken { answered: false }),
        BindStep::Replace
    );
    assert_eq!(after_bind(Bound::Listening), BindStep::Serve);
    assert_eq!(after_bind(Bound::Failed), BindStep::GiveUp);
}

#[test]
fn a_live_socket_is_not_stolen() {
    assert_eq!(after_bind(Bound::Taken { answered: true }), BindStep::Yield);
}

#[test]
fn connections_are_capped() {
    assert!(admits(0));
    assert!(admits(63));
    assert!(!admits(64));
}
