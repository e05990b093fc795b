use svc_adapter::conn::{Connection, Phase};
use svc_adapter::handler::{DispatchMiss, HandlerChain};
use svc_adapter::http::{parse_request_bytes, Method};
use svc_adapter::ProtocolError;

#[test]
fn parse_full_request() {
    let input = b"POST /submit HTTP/1.1\r\nHost: example\r\nContent-Length: 4\r\n\r\nbody";
    let (head, body) = parse_request_bytes(input).unwrap();
    assert_eq!(head.method, Method::Post);
    assert_eq!(head.path, b"/submit".to_vec());
    assert_eq!(head.headers.len(), 2);
    assert_eq!(head.headers[0].0, b"Host".to_vec());
    assert_eq!(head.headers[0].1, b"example".to_vec());
    assert_eq!(head.headers[1].0, b"Content-Length".to_vec());
    assert_eq!(head.headers[1].1, b"4".to_vec());
    assert_eq!(body, b"body".to_vec());
}

#[test]
fn parse_request_without_headers() {
    let (head, body) = parse_request_bytes(b"GET / HTTP/1.1\r\n\r\n").unwrap();
    assert_eq!(head.method, Method::Get);
    assert_eq!(head.path, b"/".to_vec());
    assert!(head.headers.is_empty());
    assert!(body.is_empty());
}

#[test]
fn parse_each_method() {
    let cases: [(&[u8], Method); 5] = [
        (b"GET / x\r\n\r\n", Method::Get),
        (b"POST / x\r\n\r\n", Method::Post),
        (b"PUT / x\r\n\r\n", Method::Put),
        (b"DELETE / x\r\n\r\n", Method::Delete),
        (b"HEAD / x\r\n\r\n", Method::Head),
    ];
    for (input, method) in cases {
        let (head, _) = parse_request_bytes(input).unwrap();
        assert_eq!(head.method, method);
    }
}

#[test]
fn malformed_requests_are_rejected() {
    let cases: [&[u8]; 7] = [
        b"",                                  // no request line
        b"GET / HTTP/1.1",                    // no line end
        b"GET /\r\n\r\n",                     // no second space
        b"BREW / HTTP/1.1\r\n\r\n",           // unknown method
        b"GET  HTTP/1.1\r\n\r\n",             // empty path
        b"GET / HTTP/1.1\r\nHost example\r\n\r\n", // header without colon
        b"GET / HTTP/1.1\r\nHost: example\r\n", // no empty line ending the head
    ];
    for input in cases {
        assert_eq!(parse_request_bytes(input).unwrap_err(), ProtocolError::Malformed);
    }
}

#[test]
fn exchange_walks_all_phases() {
    let mut conn = Connection::new(b"POST /submit HTTP/1.1\r\nHost: example\r\n\r\nhello".to_vec());
    assert_eq!(conn.phase, Phase::AwaitingRequest);
    conn.parse_request().unwrap();
    assert_eq!(conn.phase, Phase::HeadersReady);
    assert_eq!(conn.method, Method::Post);
    assert_eq!(conn.path, b"/submit".to_vec());

    let chunk = conn.read_body(3).unwrap();
    assert_eq!(conn.phase, Phase::BodyInProgress);
    assert_eq!(chunk, b"hel".to_vec());
    let chunk = conn.read_body(10).unwrap();
    assert_eq!(chunk, b"lo".to_vec());
    let chunk = conn.read_body(10).unwrap();
    assert!(chunk.is_empty());

    conn.into_ok_response().unwrap();
    assert_eq!(conn.phase, Phase::ResponseReady);
    conn.write(b"done").unwrap();
    conn.complete().unwrap();
    assert_eq!(conn.phase, Phase::Closed);
    assert_eq!(conn.wire, b"HTTP/1.1 200 OK\r\n\r\ndone".to_vec());
}

#[test]
fn malformed_head_fails_the_exchange() {
    let mut conn = Connection::new(b"nonsense".to_vec());
    assert_eq!(conn.parse_request().unwrap_err(), ProtocolError::Malformed);
    assert_eq!(conn.phase, Phase::Closed);
}

#[test]
fn second_parse_is_a_phase_violation() {
    let mut conn = Connection::new(b"GET / HTTP/1.1\r\n\r\n".to_vec());
    conn.parse_request().unwrap();
    assert_eq!(conn.parse_request().unwrap_err(), ProtocolError::OutOfPhase);
}

#[test]
fn second_response_fails_and_body_is_sealed() {
    let mut conn = Connection::new(b"GET / HTTP/1.1\r\n\r\n".to_vec());
    conn.parse_request().unwrap();
    conn.into_ok_response().unwrap();
    // a second response on the same exchange is a phase violation
    assert_eq!(conn.into_ok_response().unwrap_err(), ProtocolError::OutOfPhase);
    assert_eq!(
        conn.into_response(500, b"ERR", &Vec::new()).unwrap_err(),
        ProtocolError::OutOfPhase
    );
    // reading the body after entering the response phase is one too
    assert_eq!(conn.read_body(1).unwrap_err(), ProtocolError::OutOfPhase);
}

#[test]
fn writes_are_rejected_outside_the_response_phase() {
    let mut conn = Connection::new(b"GET / HTTP/1.1\r\n\r\n".to_vec());
    conn.parse_request().unwrap();
    assert_eq!(conn.write(b"early").unwrap_err(), ProtocolError::OutOfPhase);
    conn.into_ok_response().unwrap();
    conn.complete().unwrap();
    assert_eq!(conn.write(b"late").unwrap_err(), ProtocolError::OutOfPhase);
    assert_eq!(conn.complete().unwrap_err(), ProtocolError::OutOfPhase);
    assert_eq!(conn.wire, b"HTTP/1.1 200 OK\r\n\r\n".to_vec());
}

#[test]
fn response_head_carries_status_reason_and_headers() {
    let mut conn = Connection::new(b"GET / HTTP/1.1\r\n\r\n".to_vec());
    conn.parse_request().unwrap();
    let headers = vec![(b"Content-Type".to_vec(), b"text/plain".to_vec())];
    conn.into_response(404, b"Not Found", &headers).unwrap();
    conn.complete().unwrap();
    assert_eq!(
        conn.wire,
        b"HTTP/1.1 404 Not Found\r\nContent-Type: text/plain\r\n\r\n".to_vec()
    );
}

#[test]
fn response_status_prints_all_digits() {
    let mut conn = Connection::new(b"GET / HTTP/1.1\r\n\r\n".to_vec());
    conn.parse_request().unwrap();
    conn.into_response(65535, b"Way Out", &Vec::new()).unwrap();
    assert_eq!(conn.wire, b"HTTP/1.1 65535 Way Out\r\n\r\n".to_vec());
}

#[test]
fn header_value_keeps_all_but_one_leading_space() {
    let (head, _) = parse_request_bytes(b"GET / x\r\nA:b\r\nB: c\r\nC:  d\r\n\r\n").unwrap();
    assert_eq!(head.headers[0], (b"A".to_vec(), b"b".to_vec()));
    assert_eq!(head.headers[1], (b"B".to_vec(), b"c".to_vec()));
    assert_eq!(head.headers[2], (b"C".to_vec(), b" d".to_vec()));
}

fn sample_chain() -> HandlerChain<u32> {
    HandlerChain::new()
        .register(Method::Get, b"/".to_vec(), 1)
        .register(Method::Post, b"/".to_vec(), 2)
        .register(Method::Get, b"/foo".to_vec(), 3)
}

#[test]
fn dispatch_finds_first_match_in_registration_order() {
    let chain = sample_chain();
    assert_eq!(chain.dispatch(Method::Get, b"/"), Ok(&1));
    assert_eq!(chain.dispatch(Method::Post, b"/"), Ok(&2));
    assert_eq!(chain.dispatch(Method::Get, b"/foo"), Ok(&3));
}

#[test]
fn dispatch_miss_when_nothing_matches() {
    let chain = sample_chain();
    assert_eq!(chain.dispatch(Method::Get, b"/bar"), Err(DispatchMiss));
    assert_eq!(chain.dispatch(Method::Post, b"/foo"), Err(DispatchMiss));
    let empty: HandlerChain<u32> = HandlerChain::new();
    assert_eq!(empty.dispatch(Method::Get, b"/"), Err(DispatchMiss));
}

#[test]
fn dispatch_prefers_the_earlier_of_two_equal_entries() {
    let chain = HandlerChain::new()
        .register(Method::Get, b"/dup".to_vec(), 10)
        .register(Method::Get, b"/dup".to_vec(), 20);
    assert_eq!(chain.dispatch(Method::Get, b"/dup"), Ok(&10));
}

#[test]
fn end_to_end_get_root_hello() {
    // client issues GET "/": the dispatched handler answers 200 with body
    // "Hello!", and exactly those bytes go on the wire
    let chain = sample_chain();
    let mut conn = Connection::new(b"GET / HTTP/1.1\r\n\r\n".to_vec());
    conn.parse_request().unwrap();
    let handler = *chain.dispatch(conn.method, &conn.path.clone()).unwrap();
    assert_eq!(handler, 1);
    conn.into_ok_response().unwrap();
    conn.write(b"Hello!").unwrap();
    conn.complete().unwrap();
    assert_eq!(conn.phase, Phase::Closed);
    assert_eq!(conn.wire, b"HTTP/1.1 200 OK\r\n\r\nHello!".to_vec());
}

#[test]
fn end_to_end_get_foo_empty_body() {
    // client issues GET "/foo": the handler answers 200 "OK" with no extra
    // headers and an empty body, and the exchange closes cleanly
    let chain = sample_chain();
    let mut conn = Connection::new(b"GET /foo HTTP/1.1\r\n\r\n".to_vec());
    conn.parse_request().unwrap();
    let handler = *chain.dispatch(conn.method, &conn.path.clone()).unwrap();
    assert_eq!(handler, 3);
    conn.into_response(200, b"OK", &Vec::new()).unwrap();
    conn.complete().unwrap();
    assert_eq!(conn.phase, Phase::Closed);
    assert_eq!(conn.wire, b"HTTP/1.1 200 OK\r\n\r\n".to_vec());
}
