//! Tests of the connection state machine, the pipeline's halt and
//! deferred-callback phases, and the end-to-end request lifecycle.

use aqua_web::conn::{Conn, ConnModel, RespState};
use aqua_web::ext::{ExtValue, Extensions};
use aqua_web::plug::{Pipeline, Plug, Responder};
use aqua_web::request::{Method, Request};
use aqua_web::router::{Router, RouteTable};

fn fresh_conn<P>() -> Conn<P> {
    Conn::new(Request::new(Method::Get, "/".to_string()))
}

#[test]
fn test_send_resp_buffers_and_seals() {
    let mut conn: Conn<Responder> = fresh_conn();
    assert!(matches!(conn.resp_state(), RespState::Waiting));
    conn.send_resp(200, "hello");
    assert!(matches!(conn.resp_state(), RespState::Sent));
    assert_eq!(conn.status(), 200);
    assert_eq!(conn.body().as_slice(), b"hello");
}

#[test]
fn test_double_send_refused() {
    // the second send reports failure and the buffered body stays
    // exactly the first call's argument
    let mut conn: Conn<Responder> = fresh_conn();
    assert!(conn.try_send_resp(200, "first"));
    assert!(!conn.try_send_resp(500, "second"));
    assert_eq!(conn.status(), 200);
    assert_eq!(conn.body().as_slice(), b"first");
}

#[test]
fn test_send_file_ignores_status_argument() {
    let mut conn: Conn<Responder> = fresh_conn();
    conn.send_file(418, Some(b"contents".to_vec()));
    assert_eq!(conn.status(), 200);
    assert_eq!(conn.body().as_slice(), b"contents");
    assert!(matches!(conn.resp_state(), RespState::Sent));
}

#[test]
fn test_send_file_failure_is_500() {
    let mut conn: Conn<Responder> = fresh_conn();
    conn.send_file(200, None);
    assert_eq!(conn.status(), 500);
    assert_eq!(
        conn.body().as_slice(),
        b"unexpected server error: could not open file."
    );
    assert!(matches!(conn.resp_state(), RespState::Sent));
}

/// A plug for pipeline tests.
enum TestPlug {
    /// Registers a deferred sender, then halts.
    HaltAndDefer,
    /// Sends a fixed marker response.
    Send(u16, &'static str),
}

impl Plug for TestPlug {
    fn effect(&self, _pre: ConnModel<Self>) -> ConnModel<Self> {
        unreachable!()
    }

    fn call(&self, conn: &mut Conn<Self>) {
        match self {
            TestPlug::HaltAndDefer => {
                conn.register_before_send(TestPlug::Send(299, "from deferred"));
                conn.halt();
            },
            TestPlug::Send(status, body) => {
                conn.try_send_resp(*status, body);
            },
        }
    }
}

#[test]
fn test_halt_skips_later_plugs_but_runs_callbacks() {
    // the plug after the halting one is never invoked, and the deferred
    // callback registered before the halt still runs
    let mut pipeline: Pipeline<TestPlug> = Pipeline::new();
    pipeline.register(TestPlug::HaltAndDefer);
    pipeline.register(TestPlug::Send(200, "from second"));
    let resp = pipeline.run(Request::new(Method::Get, "/".to_string()));
    assert_eq!(resp.status, 299);
    assert_eq!(resp.body.as_slice(), b"from deferred");
}

#[test]
fn test_plugs_run_in_order_without_halt() {
    // without a halt both run; the first to send wins the buffer
    let mut pipeline: Pipeline<TestPlug> = Pipeline::new();
    pipeline.register(TestPlug::Send(200, "first"));
    pipeline.register(TestPlug::Send(500, "second"));
    let resp = pipeline.run(Request::new(Method::Get, "/".to_string()));
    assert_eq!(resp.status, 200);
    assert_eq!(resp.body.as_slice(), b"first");
}

#[test]
fn test_pipeline_without_response_synthesizes_500() {
    let pipeline: Pipeline<TestPlug> = Pipeline::new();
    let resp = pipeline.run(Request::new(Method::Get, "/".to_string()));
    assert_eq!(resp.status, 500);
    assert_eq!(resp.body.as_slice(), b"pipeline produced no response");
}

#[test]
fn test_responder_acts_as_catch_all() {
    let mut pipeline: Pipeline<Responder> = Pipeline::new();
    pipeline.register(Responder { status: 404, body: "nothing here".to_string() });
    let resp = pipeline.run(Request::new(Method::Get, "/".to_string()));
    assert_eq!(resp.status, 404);
    assert_eq!(resp.body.as_slice(), b"nothing here");
}

/// A plug that composes a router, a nested pipeline, and fixed senders.
enum WebPlug {
    Routes(Router<WebPlug>),
    Nested(Pipeline<WebPlug>),
    Fixed(u16, &'static str),
}

impl Plug for WebPlug {
    fn effect(&self, _pre: ConnModel<Self>) -> ConnModel<Self> {
        unreachable!()
    }

    fn call(&self, conn: &mut Conn<Self>) {
        match self {
            WebPlug::Routes(router) => router.dispatch(conn),
            WebPlug::Nested(inner) => inner.run_main(conn),
            WebPlug::Fixed(status, body) => {
                conn.try_send_resp(*status, body);
            },
        }
    }
}

#[test]
fn test_end_to_end_routing() {
    // a pipeline holding one router with one route: a matching request
    // yields the handler's response, a miss yields the 404
    let mut table: RouteTable<WebPlug> = RouteTable::new();
    table
        .add_route(Method::Get, "/x", WebPlug::Fixed(200, "ok"))
        .unwrap();
    let router = Router::new(table);
    let mut pipeline: Pipeline<WebPlug> = Pipeline::new();
    pipeline.register(WebPlug::Routes(router));

    let hit = pipeline.run(Request::new(Method::Get, "/x".to_string()));
    assert_eq!(hit.status, 200);
    assert_eq!(hit.body.as_slice(), b"ok");

    let mut table2: RouteTable<WebPlug> = RouteTable::new();
    table2
        .add_route(Method::Get, "/x", WebPlug::Fixed(200, "ok"))
        .unwrap();
    let mut pipeline2: Pipeline<WebPlug> = Pipeline::new();
    pipeline2.register(WebPlug::Routes(Router::new(table2)));
    let miss = pipeline2.run(Request::new(Method::Get, "/y".to_string()));
    assert_eq!(miss.status, 404);
    assert_eq!(miss.body.as_slice(), b"route not found");
}

#[test]
fn test_nested_pipeline_shares_outer_conn() {
    let mut inner: Pipeline<WebPlug> = Pipeline::new();
    inner.register(WebPlug::Fixed(203, "inner wrote this"));
    let mut outer: Pipeline<WebPlug> = Pipeline::new();
    outer.register(WebPlug::Nested(inner));
    let resp = outer.run(Request::new(Method::Get, "/".to_string()));
    assert_eq!(resp.status, 203);
    assert_eq!(resp.body.as_slice(), b"inner wrote this");
}

#[test]
fn test_then_chains_like_register() {
    let pipeline: Pipeline<TestPlug> = Pipeline::new()
        .then(TestPlug::Send(200, "first"))
        .then(TestPlug::Send(500, "second"));
    let resp = pipeline.run(Request::new(Method::Get, "/".to_string()));
    assert_eq!(resp.status, 200);
    assert_eq!(resp.body.as_slice(), b"first");
}

#[test]
fn test_multipart_parser_reads_request_headers() {
    let mut request = Request::new(Method::Post, "/entries/upload".to_string());
    request.headers.insert(
        "content-type".to_string(),
        vec!["multipart/form-data; boundary=wxyz".to_string()],
    );
    assert_eq!(
        aqua_web::forms::MultipartParser::boundary(&request).unwrap(),
        "wxyz"
    );

    let plain = Request::new(Method::Post, "/entries/upload".to_string());
    assert!(aqua_web::forms::MultipartParser::boundary(&plain).is_none());
}

#[test]
fn test_extension_store_replaces_per_key() {
    let mut exts = Extensions::new();
    exts.insert(9, ExtValue::Text("one".to_string()));
    exts.insert(9, ExtValue::Text("two".to_string()));
    match exts.get(9) {
        Some(ExtValue::Text(s)) => assert_eq!(s, "two"),
        _ => panic!("expected the replacing value"),
    }
    let taken = exts.remove(9);
    assert!(matches!(taken, Some(ExtValue::Text(_))));
    assert!(exts.get(9).is_none());
}

#[test]
fn test_extension_store_keys_are_independent() {
    let mut exts = Extensions::new();
    exts.insert(1, ExtValue::Handle(77));
    exts.insert(2, ExtValue::Bytes(vec![1, 2, 3]));
    assert!(matches!(exts.get(1), Some(ExtValue::Handle(77))));
    match exts.get(2) {
        Some(ExtValue::Bytes(b)) => assert_eq!(b.as_slice(), &[1, 2, 3]),
        _ => panic!("expected bytes"),
    }
    exts.remove(1);
    assert!(exts.get(1).is_none());
    assert!(exts.get(2).is_some());
}
