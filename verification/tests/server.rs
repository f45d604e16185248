use desktop_exporter::aggregator::{aggregate, Exporter, Fragments};
use desktop_exporter::server::{
    http_response, listen_address, ServerEvent, ServerState, DEFAULT_PORT,
};

#[test]
fn default_address_is_loopback_port_7878() {
    assert_eq!(DEFAULT_PORT, 7878);
    assert_eq!(listen_address(DEFAULT_PORT), "127.0.0.1:7878");
    assert_eq!(listen_address(0), "127.0.0.1:0");
    assert_eq!(listen_address(u32::MAX), "127.0.0.1:4294967295");
}

#[test]
fn response_frames_the_body_with_its_length() {
    assert_eq!(
        http_response("x_metric 42\n"),
        "HTTP/1.1 200 OK\r\nContent-Type: text/plain; version=0.0.4;\r\nContent-Length: 12\r\n\r\nx_metric 42\n"
    );
}

#[test]
fn response_to_an_empty_body_has_length_zero() {
    assert_eq!(
        http_response(""),
        "HTTP/1.1 200 OK\r\nContent-Type: text/plain; version=0.0.4;\r\nContent-Length: 0\r\n\r\n"
    );
}

#[test]
fn content_length_counts_bytes() {
    let reply = http_response("t 21 \u{b0}C\n");
    assert!(reply.contains("Content-Length: 9\r\n\r\n"));
    assert!(reply.ends_with("t 21 \u{b0}C\n"));
}

#[test]
fn one_stubbed_collector_end_to_end() {
    let mut fragments = Fragments::new();
    fragments.set(Exporter::Hddtemp, "x_metric 42\n".to_string());
    let body = aggregate(&vec![Exporter::Hddtemp], &fragments);
    assert_eq!(body, "x_metric 42\n");
    let reply = http_response(&body);
    let (head, sent) = reply.split_once("\r\n\r\n").unwrap();
    assert_eq!(sent, "x_metric 42\n");
    assert!(head.starts_with("HTTP/1.1 200 OK\r\n"));
    let length = head.lines().find_map(|l| l.strip_prefix("Content-Length: ")).unwrap();
    assert_eq!(length, "12");
    assert_eq!(length.parse::<usize>().unwrap(), sent.len());
}

#[test]
fn listening_loop_takes_up_a_connection() {
    let s = ServerState::Listening;
    assert_eq!(s.step(ServerEvent::Connection, false), ServerState::Handling);
    assert_eq!(s.step(ServerEvent::AcceptError, false), ServerState::Listening);
    assert_eq!(s.step(ServerEvent::Handled, false), ServerState::Listening);
    assert_eq!(s.step(ServerEvent::ConnectionFailed, false), ServerState::Listening);
}

#[test]
fn handling_returns_to_listening_whatever_happened() {
    let s = ServerState::Handling;
    assert_eq!(s.step(ServerEvent::Handled, false), ServerState::Listening);
    assert_eq!(s.step(ServerEvent::ConnectionFailed, false), ServerState::Listening);
    assert_eq!(s.step(ServerEvent::ConnectionFailed, true), ServerState::Listening);
    assert_eq!(s.step(ServerEvent::Handled, true), ServerState::Listening);
}

#[test]
fn shutdown_ends_the_listening_loop_before_the_woken_connection() {
    let s = ServerState::Listening;
    assert_eq!(s.step(ServerEvent::Connection, true), ServerState::Terminated);
    assert_eq!(s.step(ServerEvent::AcceptError, true), ServerState::Terminated);
}

#[test]
fn terminated_loop_stays_terminated() {
    let s = ServerState::Terminated;
    assert_eq!(s.step(ServerEvent::Connection, false), ServerState::Terminated);
    assert_eq!(s.step(ServerEvent::Connection, true), ServerState::Terminated);
    assert_eq!(s.step(ServerEvent::Handled, false), ServerState::Terminated);
}

#[test]
fn a_run_with_shutdown_during_handling_ends_at_the_next_accept() {
    let mut s = ServerState::Listening;
    s = s.step(ServerEvent::Connection, false);
    assert_eq!(s, ServerState::Handling);
    s = s.step(ServerEvent::Handled, true);
    assert_eq!(s, ServerState::Listening);
    s = s.step(ServerEvent::Connection, true);
    assert_eq!(s, ServerState::Terminated);
}
