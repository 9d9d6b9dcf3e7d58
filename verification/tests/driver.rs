use sse_client::driver::{
    Directive, DriverEvent, Header, Phase, RequestPlan, Step, StreamDriver, CONNECT_TIMEOUT_SECS,
    IDLE_READ_TIMEOUT_SECS, KEEPALIVE_SECS,
};
use sse_client::event::SseEvent;
use sse_client::registry::{disconnect, ClientState};
use sse_client::status::HttpStatus;

fn message(raw: &str) -> SseEvent {
    SseEvent::Message { raw: raw.to_string() }
}

fn disconnected(reason: &str) -> SseEvent {
    SseEvent::Disconnected { reason: reason.to_string() }
}

fn error(text: &str) -> SseEvent {
    SseEvent::Error { message: text.to_string() }
}

fn chunk(text: &str) -> DriverEvent {
    DriverEvent::Chunk { bytes: text.as_bytes().to_vec() }
}

fn responded(code: u16) -> DriverEvent {
    DriverEvent::Responded { status: HttpStatus::new(code).unwrap() }
}

fn begun(registry: &mut ClientState) -> StreamDriver {
    let mut driver = StreamDriver::new();
    let plan = driver.begin(registry, "http://localhost/events".to_string(), None);
    assert!(plan.is_some());
    driver
}

fn streaming(registry: &mut ClientState) -> StreamDriver {
    let mut driver = begun(registry);
    let step = driver.step(responded(200));
    assert_eq!(step.emit, vec![SseEvent::Connected]);
    assert_eq!(step.next, Directive::CheckLiveness);
    driver
}

fn read(driver: &mut StreamDriver, registry: &ClientState, event: DriverEvent) -> Step {
    let checked = driver.poll(registry);
    assert_eq!(checked.emit, Vec::<SseEvent>::new());
    assert_eq!(checked.next, Directive::AwaitChunk);
    driver.step(event)
}

#[test]
fn new_driver_is_idle() {
    let driver = StreamDriver::new();
    assert_eq!(driver.phase(), Phase::Idle);
    assert_eq!(driver.conn_id(), 0);
    assert_eq!(driver.directive(), Directive::Begin);
}

#[test]
fn idle_driver_ignores_what_is_reported() {
    let mut driver = StreamDriver::new();
    for event in [responded(200), chunk("data: x\n\n"), DriverEvent::StreamEnded, DriverEvent::IdleTimeout] {
        let step = driver.step(event);
        assert_eq!(step.emit, Vec::<SseEvent>::new());
        assert_eq!(step.next, Directive::Begin);
    }
    assert_eq!(driver.phase(), Phase::Idle);
}

#[test]
fn timeouts_are_fixed() {
    assert_eq!(CONNECT_TIMEOUT_SECS, 15);
    assert_eq!(KEEPALIVE_SECS, 30);
    assert_eq!(IDLE_READ_TIMEOUT_SECS, 90);
}

#[test]
fn begin_registers_an_identity_and_plans_the_request() {
    let mut registry = ClientState::new();
    let mut driver = StreamDriver::new();
    let plan = driver.begin(&mut registry, "https://example.test/stream".to_string(), None);
    assert_eq!(
        plan,
        Some(RequestPlan {
            url: "https://example.test/stream".to_string(),
            connect_timeout_secs: 15,
            keepalive_secs: 30,
            response_timeout_secs: None,
            headers: Vec::new(),
        })
    );
    assert_eq!(driver.phase(), Phase::Requesting);
    assert_eq!(driver.conn_id(), 1);
    assert_eq!(driver.directive(), Directive::Send);
    assert!(registry.is_current(1));
    assert_eq!(registry.last_issued(), 1);
}

#[test]
fn credential_is_attached_verbatim_as_authorization() {
    let mut registry = ClientState::new();
    let mut driver = StreamDriver::new();
    let plan = driver
        .begin(&mut registry, "http://h/".to_string(), Some("Bearer  abc:def ".to_string()))
        .unwrap();
    assert_eq!(
        plan.headers,
        vec![Header { name: "Authorization".to_string(), value: "Bearer  abc:def ".to_string() }]
    );
    assert_eq!(plan.response_timeout_secs, None);
}

#[test]
fn begin_on_a_driver_that_has_begun_does_nothing() {
    let mut registry = ClientState::new();
    let mut driver = begun(&mut registry);
    assert_eq!(driver.begin(&mut registry, "http://other/".to_string(), None), None);
    assert_eq!(driver.conn_id(), 1);
    assert_eq!(driver.phase(), Phase::Requesting);
    assert_eq!(registry.last_issued(), 1);
}

#[test]
fn client_failure_returns_the_error_without_an_event() {
    let mut registry = ClientState::new();
    let mut driver = begun(&mut registry);
    let step = driver.step(DriverEvent::ClientFailed { detail: "no tls backend".to_string() });
    assert_eq!(step.emit, Vec::<SseEvent>::new());
    assert_eq!(
        step.next,
        Directive::Finish(Err("Failed to create HTTP client: no tls backend".to_string()))
    );
    assert_eq!(driver.phase(), Phase::Terminated);
}

#[test]
fn send_failure_is_reported_and_returned() {
    let mut registry = ClientState::new();
    let mut driver = begun(&mut registry);
    let step = driver.step(DriverEvent::SendFailed { detail: "connection refused".to_string() });
    assert_eq!(step.emit, vec![error("SSE connection failed: connection refused")]);
    assert_eq!(
        step.next,
        Directive::Finish(Err("SSE connection failed: connection refused".to_string()))
    );
    assert_eq!(driver.phase(), Phase::Terminated);
}

#[test]
fn status_without_success_is_reported_and_returned() {
    let mut registry = ClientState::new();
    let mut driver = begun(&mut registry);
    let step = driver.step(responded(404));
    assert_eq!(step.emit, vec![error("SSE server returned 404 Not Found")]);
    assert_eq!(step.next, Directive::Finish(Err("SSE server returned 404 Not Found".to_string())));
    assert_eq!(driver.phase(), Phase::Terminated);
}

#[test]
fn redirect_and_informational_statuses_are_failures() {
    for (code, shown) in [(101u16, "101 Switching Protocols"), (302, "302 Found"), (500, "500 Internal Server Error")] {
        let mut registry = ClientState::new();
        let mut driver = begun(&mut registry);
        let step = driver.step(responded(code));
        assert_eq!(step.emit, vec![error(&format!("SSE server returned {}", shown))]);
        assert_eq!(driver.phase(), Phase::Terminated);
    }
}

#[test]
fn success_status_connects() {
    let mut registry = ClientState::new();
    for code in [200u16, 204, 299] {
        let mut driver = begun(&mut registry);
        let step = driver.step(responded(code));
        assert_eq!(step.emit, vec![SseEvent::Connected]);
        assert_eq!(step.next, Directive::CheckLiveness);
        assert_eq!(driver.phase(), Phase::Streaming);
    }
}

#[test]
fn requesting_driver_ignores_what_belongs_to_the_read_loop() {
    let mut registry = ClientState::new();
    let mut driver = begun(&mut registry);
    for event in [
        DriverEvent::Liveness { current: false },
        chunk("data: x\n\n"),
        DriverEvent::ReadFailed { detail: "x".to_string() },
        DriverEvent::StreamEnded,
        DriverEvent::IdleTimeout,
    ] {
        let step = driver.step(event);
        assert_eq!(step.emit, Vec::<SseEvent>::new());
        assert_eq!(step.next, Directive::Send);
    }
    assert_eq!(driver.phase(), Phase::Requesting);
}

#[test]
fn chunk_yields_the_messages_it_completes() {
    let mut registry = ClientState::new();
    let mut driver = streaming(&mut registry);
    let step = read(&mut driver, &registry, chunk("data: one\n\ndata: two\r\ndata: more\r\n\r\ndata: thr"));
    assert_eq!(step.emit, vec![message("one"), message("two\nmore")]);
    assert_eq!(step.next, Directive::CheckLiveness);
    let step = read(&mut driver, &registry, chunk("ee\n"));
    assert_eq!(step.emit, Vec::<SseEvent>::new());
    let step = read(&mut driver, &registry, chunk("\n"));
    assert_eq!(step.emit, vec![message("three")]);
}

#[test]
fn chunk_bytes_are_decoded_permissively() {
    let mut registry = ClientState::new();
    let mut driver = streaming(&mut registry);
    let bytes = vec![b'd', b'a', b't', b'a', b':', b' ', 0xe2, 0x82, 0xac, 0xff, b'\n', b'\n'];
    let step = read(&mut driver, &registry, DriverEvent::Chunk { bytes });
    assert_eq!(step.emit, vec![message("\u{20ac}\u{fffd}")]);
}

#[test]
fn on_text_takes_text_as_step_takes_bytes() {
    let mut registry = ClientState::new();
    let mut driver = streaming(&mut registry);
    let ignored = driver.on_text("data: early\n\n");
    assert_eq!(ignored.emit, Vec::<SseEvent>::new());
    assert_eq!(ignored.next, Directive::CheckLiveness);
    driver.poll(&registry);
    let step = driver.on_text("data: late\n\n");
    assert_eq!(step.emit, vec![message("late")]);
    assert_eq!(step.next, Directive::CheckLiveness);
}

#[test]
fn chunk_counts_only_after_a_liveness_check() {
    let mut registry = ClientState::new();
    let mut driver = streaming(&mut registry);
    let step = driver.step(chunk("data: x\n\n"));
    assert_eq!(step.emit, Vec::<SseEvent>::new());
    assert_eq!(step.next, Directive::CheckLiveness);
    let step = read(&mut driver, &registry, chunk("data: y\n\n"));
    assert_eq!(step.emit, vec![message("y")]);
    let step = driver.step(chunk("data: z\n\n"));
    assert_eq!(step.emit, Vec::<SseEvent>::new());
}

#[test]
fn pending_payload_is_flushed_when_the_stream_ends() {
    let mut registry = ClientState::new();
    let mut driver = streaming(&mut registry);
    let step = read(&mut driver, &registry, chunk("data: pending\n"));
    assert_eq!(step.emit, Vec::<SseEvent>::new());
    let step = read(&mut driver, &registry, DriverEvent::StreamEnded);
    assert_eq!(step.emit, vec![message("pending"), disconnected("Stream ended")]);
    assert_eq!(step.next, Directive::Finish(Ok(())));
    assert_eq!(driver.phase(), Phase::Terminated);
}

#[test]
fn stream_end_with_nothing_pending_only_disconnects() {
    let mut registry = ClientState::new();
    let mut driver = streaming(&mut registry);
    read(&mut driver, &registry, chunk("data: done\n\n"));
    let step = read(&mut driver, &registry, DriverEvent::StreamEnded);
    assert_eq!(step.emit, vec![disconnected("Stream ended")]);
    assert_eq!(step.next, Directive::Finish(Ok(())));
}

#[test]
fn unterminated_line_is_not_a_message_at_stream_end() {
    let mut registry = ClientState::new();
    let mut driver = streaming(&mut registry);
    read(&mut driver, &registry, chunk("data: half a line"));
    let step = read(&mut driver, &registry, DriverEvent::StreamEnded);
    assert_eq!(step.emit, vec![disconnected("Stream ended")]);
}

#[test]
fn empty_stream_connects_and_disconnects() {
    let mut registry = ClientState::new();
    let mut driver = streaming(&mut registry);
    let step = read(&mut driver, &registry, DriverEvent::StreamEnded);
    assert_eq!(step.emit, vec![disconnected("Stream ended")]);
    assert_eq!(step.next, Directive::Finish(Ok(())));
}

#[test]
fn disconnect_is_observed_at_the_next_liveness_check() {
    let mut registry = ClientState::new();
    let mut driver = streaming(&mut registry);
    read(&mut driver, &registry, chunk("data: before\n\ndata: pend\n"));
    assert_eq!(disconnect(&mut registry), Ok(()));
    let step = driver.poll(&registry);
    assert_eq!(step.emit, vec![disconnected("Disconnected by client")]);
    assert_eq!(step.next, Directive::Finish(Ok(())));
    assert_eq!(driver.phase(), Phase::Terminated);
    for event in [chunk("data: after\n\n"), chunk("\n"), DriverEvent::StreamEnded, DriverEvent::IdleTimeout] {
        let step = driver.step(event);
        assert_eq!(step.emit, Vec::<SseEvent>::new());
        assert_eq!(step.next, Directive::Finish(Ok(())));
    }
    assert_eq!(driver.poll(&registry).emit, Vec::<SseEvent>::new());
}

#[test]
fn chunk_awaited_during_disconnect_is_still_delivered_once() {
    let mut registry = ClientState::new();
    let mut driver = streaming(&mut registry);
    assert_eq!(driver.poll(&registry).next, Directive::AwaitChunk);
    disconnect(&mut registry).unwrap();
    let step = driver.step(chunk("data: in flight\n\n"));
    assert_eq!(step.emit, vec![message("in flight")]);
    assert_eq!(step.next, Directive::CheckLiveness);
    let step = driver.poll(&registry);
    assert_eq!(step.emit, vec![disconnected("Disconnected by client")]);
}

#[test]
fn connection_after_a_cancellation_is_independent() {
    let mut registry = ClientState::new();
    let mut first = streaming(&mut registry);
    read(&mut first, &registry, chunk("data: left in the first\n"));
    disconnect(&mut registry).unwrap();
    assert_eq!(first.poll(&registry).emit, vec![disconnected("Disconnected by client")]);

    let mut second = streaming(&mut registry);
    assert_eq!(second.conn_id(), 2);
    assert!(registry.is_current(2));
    let step = read(&mut second, &registry, chunk("data: fresh\n\n"));
    assert_eq!(step.emit, vec![message("fresh")]);
    let step = read(&mut second, &registry, DriverEvent::StreamEnded);
    assert_eq!(step.emit, vec![disconnected("Stream ended")]);
}

#[test]
fn new_connection_supersedes_the_one_before() {
    let mut registry = ClientState::new();
    let mut first = streaming(&mut registry);
    let mut second = streaming(&mut registry);
    assert_eq!((first.conn_id(), second.conn_id()), (1, 2));
    let step = first.poll(&registry);
    assert_eq!(step.emit, vec![disconnected("Disconnected by client")]);
    assert_eq!(step.next, Directive::Finish(Ok(())));
    let step = read(&mut second, &registry, chunk("data: mine\n\n"));
    assert_eq!(step.emit, vec![message("mine")]);
}

#[test]
fn many_connections_get_increasing_identities() {
    let mut registry = ClientState::new();
    let mut last = 0;
    for expected in 1..=20u64 {
        let driver = begun(&mut registry);
        assert_eq!(driver.conn_id(), expected);
        assert!(driver.conn_id() > last);
        assert!(registry.is_current(driver.conn_id()));
        assert!(!registry.is_current(last));
        last = driver.conn_id();
    }
}

#[test]
fn idle_timeout_gives_one_error_that_names_the_duration() {
    let mut registry = ClientState::new();
    let mut driver = streaming(&mut registry);
    read(&mut driver, &registry, chunk("data: heartbeat\n\n"));
    let step = read(&mut driver, &registry, DriverEvent::IdleTimeout);
    assert_eq!(step.emit, vec![error("SSE read timeout (90s without data)")]);
    assert_eq!(
        step.next,
        Directive::Finish(Err("SSE read timeout (90s without data)".to_string()))
    );
    assert_eq!(driver.phase(), Phase::Terminated);
    for event in [DriverEvent::IdleTimeout, chunk("data: late\n\n"), DriverEvent::StreamEnded] {
        let step = driver.step(event);
        assert_eq!(step.emit, Vec::<SseEvent>::new());
        assert_eq!(
            step.next,
            Directive::Finish(Err("SSE read timeout (90s without data)".to_string()))
        );
    }
    assert_eq!(driver.poll(&registry).emit, Vec::<SseEvent>::new());
}

#[test]
fn read_failure_is_reported_and_returned() {
    let mut registry = ClientState::new();
    let mut driver = streaming(&mut registry);
    let step = read(&mut driver, &registry, DriverEvent::ReadFailed { detail: "reset by peer".to_string() });
    assert_eq!(step.emit, vec![error("SSE stream error: reset by peer")]);
    assert_eq!(step.next, Directive::Finish(Err("SSE stream error: reset by peer".to_string())));
}

#[test]
fn pending_payload_is_abandoned_on_failure_and_timeout() {
    let mut registry = ClientState::new();
    let mut failed = streaming(&mut registry);
    read(&mut failed, &registry, chunk("data: never sent\n"));
    let step = read(&mut failed, &registry, DriverEvent::ReadFailed { detail: "eof".to_string() });
    assert_eq!(step.emit, vec![error("SSE stream error: eof")]);

    let mut silent = streaming(&mut registry);
    read(&mut silent, &registry, chunk("data: never sent\n"));
    let step = read(&mut silent, &registry, DriverEvent::IdleTimeout);
    assert_eq!(step.emit, vec![error("SSE read timeout (90s without data)")]);
}

#[test]
fn pending_payload_is_abandoned_on_cancellation() {
    let mut registry = ClientState::new();
    let mut driver = streaming(&mut registry);
    read(&mut driver, &registry, chunk("data: never sent\n"));
    registry.invalidate();
    assert_eq!(driver.poll(&registry).emit, vec![disconnected("Disconnected by client")]);
}

#[test]
fn liveness_report_while_a_chunk_is_awaited_is_ignored() {
    let mut registry = ClientState::new();
    let mut driver = streaming(&mut registry);
    driver.poll(&registry);
    let step = driver.step(DriverEvent::Liveness { current: false });
    assert_eq!(step.emit, Vec::<SseEvent>::new());
    assert_eq!(step.next, Directive::AwaitChunk);
    assert_eq!(driver.phase(), Phase::Streaming);
}

#[test]
fn handshake_report_while_streaming_is_ignored() {
    let mut registry = ClientState::new();
    let mut driver = streaming(&mut registry);
    for event in [responded(200), responded(500), DriverEvent::SendFailed { detail: "x".to_string() }] {
        let step = driver.step(event);
        assert_eq!(step.emit, Vec::<SseEvent>::new());
        assert_eq!(step.next, Directive::CheckLiveness);
    }
}

#[test]
fn events_of_a_whole_session_come_in_order() {
    let mut registry = ClientState::new();
    let mut driver = StreamDriver::new();
    driver.begin(&mut registry, "http://h/sse".to_string(), Some("token".to_string()));
    let mut delivered = Vec::new();
    let mut step = driver.step(responded(200));
    let mut script = vec![
        chunk(": welcome\n\nda"),
        chunk("ta: {\"id\":1}\n\n"),
        chunk("event: tick\ndata: a\ndata: b\n\n"),
        chunk("data: tail\n"),
        DriverEvent::StreamEnded,
    ]
    .into_iter();
    let result = loop {
        delivered.append(&mut step.emit);
        step = match step.next {
            Directive::Finish(result) => break result,
            Directive::CheckLiveness => driver.poll(&registry),
            Directive::AwaitChunk => driver.step(script.next().unwrap()),
            Directive::Begin | Directive::Send => panic!("the connection has begun"),
        };
    };
    assert_eq!(result, Ok(()));
    assert_eq!(
        delivered,
        vec![
            SseEvent::Connected,
            message("{\"id\":1}"),
            message("a\nb"),
            message("tail"),
            disconnected("Stream ended"),
        ]
    );
    assert!(script.next().is_none());
}

#[test]
fn session_cut_short_by_a_later_connection() {
    let mut registry = ClientState::new();
    let mut driver = streaming(&mut registry);
    let mut delivered = vec![SseEvent::Connected];
    let mut chunks = 0;
    let mut step = driver.poll(&registry);
    let result = loop {
        delivered.append(&mut step.emit);
        step = match step.next {
            Directive::Finish(result) => break result,
            Directive::CheckLiveness => driver.poll(&registry),
            Directive::AwaitChunk => {
                chunks += 1;
                if chunks == 3 {
                    registry.begin_connection();
                }
                driver.step(chunk(&format!("data: {}\n\n", chunks)))
            }
            Directive::Begin | Directive::Send => panic!("the connection has begun"),
        };
    };
    assert_eq!(result, Ok(()));
    assert_eq!(
        delivered,
        vec![
            SseEvent::Connected,
            message("1"),
            message("2"),
            message("3"),
            disconnected("Disconnected by client"),
        ]
    );
}
