//! Tests of routes and the router: matching, parameter capture, and
//! registration-order dispatch.

use aqua_web::conn::{Conn, ConnModel};
use aqua_web::plug::Plug;
use aqua_web::request::{Method, Request};
use aqua_web::route::Route;
use aqua_web::router::{Router, RouteTable};

struct MockHandler;

impl Plug for MockHandler {
    fn effect(&self, _pre: ConnModel<Self>) -> ConnModel<Self> {
        unreachable!()
    }

    fn call(&self, _conn: &mut Conn<Self>) {}
}

#[test]
fn test_route_matches() {
    let route = Route::new("/foo/{bar}/{baz}", MockHandler).unwrap();
    assert!(route.matches("/foo/hello/test"));
}

#[test]
fn test_route_matches_not_greedy() {
    let route = Route::new("/foo/{bar}/{baz}/quux", MockHandler).unwrap();
    assert!(!route.matches("/foo/hello/test"));
}

#[test]
fn test_route_params_nonempty() {
    let route = Route::new("/foo/{bar}/{baz}", MockHandler).unwrap();
    let params = route.get_context("/foo/hello/test");
    assert!(params.get("bar").is_some());
    assert!(params.get("baz").is_some());
}

#[test]
fn test_route_params_empty() {
    let route = Route::new("/foo/{bar}/{baz}", MockHandler).unwrap();
    let params = route.get_context("/foo//test");
    assert!(params.get("bar").is_some());
    assert!(params.get("baz").is_some());
}

/// A plug for router tests: either a router over this type or a fixed
/// response.
enum WebPlug {
    Routes(Router<WebPlug>),
    Fixed(u16, &'static str),
}

impl Plug for WebPlug {
    fn effect(&self, _pre: ConnModel<Self>) -> ConnModel<Self> {
        unreachable!()
    }

    fn call(&self, conn: &mut Conn<Self>) {
        match self {
            WebPlug::Routes(router) => router.dispatch(conn),
            WebPlug::Fixed(status, body) => {
                conn.try_send_resp(*status, body);
            },
        }
    }
}

fn dispatch_path(table: RouteTable<WebPlug>, method: Method, path: &str) -> (u16, Vec<u8>) {
    let router = Router::new(table);
    let mut conn: Conn<WebPlug> = Conn::new(Request::new(method, path.to_string()));
    router.dispatch(&mut conn);
    (conn.status(), conn.body().clone())
}

#[test]
fn test_dispatch_first_match_wins() {
    // both routes match "/x/1"; the one registered first is selected
    let mut table: RouteTable<WebPlug> = RouteTable::new();
    table
        .add_route(Method::Get, "/x/{a}", WebPlug::Fixed(200, "first"))
        .unwrap();
    table
        .add_route(Method::Get, "/x/{b}", WebPlug::Fixed(200, "second"))
        .unwrap();
    let (status, body) = dispatch_path(table, Method::Get, "/x/1");
    assert_eq!(status, 200);
    assert_eq!(body, b"first".to_vec());
}

#[test]
fn test_dispatch_first_match_wins_reversed() {
    let mut table: RouteTable<WebPlug> = RouteTable::new();
    table
        .add_route(Method::Get, "/x/{b}", WebPlug::Fixed(200, "second"))
        .unwrap();
    table
        .add_route(Method::Get, "/x/{a}", WebPlug::Fixed(200, "first"))
        .unwrap();
    let (status, body) = dispatch_path(table, Method::Get, "/x/1");
    assert_eq!(status, 200);
    assert_eq!(body, b"second".to_vec());
}

#[test]
fn test_dispatch_skips_non_matching_routes() {
    let mut table: RouteTable<WebPlug> = RouteTable::new();
    table
        .add_route(Method::Get, "/a/{x}", WebPlug::Fixed(200, "a"))
        .unwrap();
    table
        .add_route(Method::Get, "/b/{x}", WebPlug::Fixed(200, "b"))
        .unwrap();
    let (status, body) = dispatch_path(table, Method::Get, "/b/7");
    assert_eq!(status, 200);
    assert_eq!(body, b"b".to_vec());
}

#[test]
fn test_dispatch_unknown_method_is_404() {
    let mut table: RouteTable<WebPlug> = RouteTable::new();
    table
        .add_route(Method::Get, "/x", WebPlug::Fixed(200, "ok"))
        .unwrap();
    let (status, body) = dispatch_path(table, Method::Post, "/x");
    assert_eq!(status, 404);
    assert_eq!(body, b"route not found".to_vec());
}

#[test]
fn test_dispatch_no_matching_route_is_404() {
    let mut table: RouteTable<WebPlug> = RouteTable::new();
    table
        .add_route(Method::Get, "/x", WebPlug::Fixed(200, "ok"))
        .unwrap();
    let (status, body) = dispatch_path(table, Method::Get, "/y");
    assert_eq!(status, 404);
    assert_eq!(body, b"route not found".to_vec());
}

#[test]
fn test_add_route_rejects_bad_template() {
    let mut table: RouteTable<WebPlug> = RouteTable::new();
    let err = table
        .add_route(Method::Get, "/{oops", WebPlug::Fixed(200, "x"))
        .unwrap_err();
    assert_eq!(err, aqua_web::template::TemplateError::MismatchedBraces);
}

#[test]
fn test_builder_get_post() {
    let table: RouteTable<WebPlug> = RouteTable::new()
        .get("/g", WebPlug::Fixed(200, "got"))
        .unwrap()
        .post("/p", WebPlug::Fixed(201, "posted"))
        .unwrap();
    let router = Router::new(table);
    let mut conn: Conn<WebPlug> = Conn::new(Request::new(Method::Post, "/p".to_string()));
    router.dispatch(&mut conn);
    assert_eq!(conn.status(), 201);
    assert_eq!(conn.body().as_slice(), b"posted");
}

#[test]
fn test_dispatch_stores_match_context() {
    let mut table: RouteTable<WebPlug> = RouteTable::new();
    table
        .add_route(Method::Get, "/tags/{schema}/{name}", WebPlug::Fixed(200, "t"))
        .unwrap();
    let router = Router::new(table);
    let mut conn: Conn<WebPlug> =
        Conn::new(Request::new(Method::Get, "/tags/site/cats".to_string()));
    router.dispatch(&mut conn);
    let req = conn.req();
    let params = req.extensions.match_context().expect("match context stored");
    assert_eq!(params.get("schema").unwrap(), "site");
    assert_eq!(params.get("name").unwrap(), "cats");
}
