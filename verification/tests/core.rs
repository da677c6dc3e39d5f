//! End-to-end behavior of the parser and the projection engine.

use reqcraft::ast::{EndpointType, FieldType, MockValue, RqcConfig};
use reqcraft::parser::{ParseError, Parser};

fn parse_ok(input: &str) -> RqcConfig {
    let mut p = Parser::new(input);
    p.parse().expect("parse should succeed")
}

#[test]
fn ping_endpoint_with_boolean_mock() {
    let cfg = parse_ok("api /ping { get { request {} response { ok Boolean @mock(true) } } }");
    assert_eq!(cfg.apis.len(), 1);
    let eps = cfg.to_endpoints();
    assert_eq!(eps.len(), 1);
    let ep = &eps[0];
    assert_eq!(ep.id, "api-1");
    assert_eq!(ep.endpoint_type, EndpointType::Http);
    assert_eq!(ep.method.as_deref(), Some("GET"));
    assert_eq!(ep.path, "/ping");
    assert!(ep.full_url.is_none());
    let resp = ep.response.as_ref().expect("response schema");
    assert_eq!(resp.fields.len(), 1);
    assert_eq!(resp.fields[0].name, "ok");
    assert_eq!(resp.fields[0].field_type, FieldType::Boolean);
    assert_eq!(resp.fields[0].mock, Some(MockValue::Boolean(true)));
    assert!(resp.fields[0].example.is_none());
}

#[test]
fn optional_number_field() {
    let cfg = parse_ok("api /x { get { response { count Number? } } }");
    let m = &cfg.apis[0].methods[0];
    let resp = m.response.as_ref().unwrap();
    assert_eq!(resp.fields.len(), 1);
    let f = &resp.fields[0];
    assert_eq!(f.name, "count");
    assert_eq!(f.field_type, FieldType::Number);
    assert!(f.optional);
    assert!(f.mock.is_none());
    assert!(f.example.is_none());
}

#[test]
fn nested_category_prefixes_accumulate() {
    let cfg = parse_ok(
        "category outer { prefix \"/v1\" category inner { prefix \"/users\" api \"/list\" { get { request {} response {} } } } }",
    );
    let eps = cfg.to_endpoints();
    assert_eq!(eps.len(), 1);
    assert_eq!(eps[0].path, "/v1/users/list");
}

#[test]
fn projection_is_deterministic() {
    let text = "config { baseUrl http://localhost:9999 }\napi /a { get { response { x String } } post { request { y Number } } }\nws ws://h/s { event ping { request {} } }\ncategory c { prefix /p api /q { get {} } }";
    let c1 = parse_ok(text);
    let c2 = parse_ok(text);
    let ids1: Vec<String> = c1.to_endpoints().into_iter().map(|e| e.id).collect();
    let ids2: Vec<String> = c2.to_endpoints().into_iter().map(|e| e.id).collect();
    assert_eq!(ids1, ids2);
    assert_eq!(ids1, vec!["api-1", "api-2", "ws-3", "api-4"]);
}

#[test]
fn base_url_joins_paths_and_trims_slash() {
    let cfg = parse_ok("config { baseUrl http://h:1/ }\napi /a { get {} }");
    let eps = cfg.to_endpoints();
    assert_eq!(eps[0].full_url.as_deref(), Some("http://h:1/a"));
}

#[test]
fn base_url_list_splits_on_commas() {
    let cfg = parse_ok("config { baseUrl \"http://a, http://b ,,\" }");
    assert_eq!(cfg.get_base_urls(), vec!["http://a", "http://b"]);
}

#[test]
fn config_flags_and_variables() {
    let cfg = parse_ok(
        "config { cors true mock false variable token String default(\"abc\") variable n Number header X-Api @default(k1) }",
    );
    let c = cfg.config.as_ref().unwrap();
    assert!(c.cors);
    assert!(!c.mock);
    assert_eq!(c.variables.len(), 2);
    assert_eq!(c.variables[0].name, "token");
    assert_eq!(c.variables[0].var_type, "String");
    assert_eq!(c.variables[0].default_value.as_deref(), Some("abc"));
    assert_eq!(c.variables[1].name, "n");
    assert_eq!(c.variables[1].var_type, "Number");
    assert!(c.variables[1].default_value.is_none());
    assert_eq!(c.headers.len(), 1);
    assert_eq!(c.headers[0].name, "X-Api");
    assert_eq!(c.headers[0].default_value.as_deref(), Some("k1"));
}

#[test]
fn unexpected_token_aborts_with_line() {
    let mut p = Parser::new("api /a { get { request { f { } } } }\nconfig )");
    // `config` demands `{`, so the `)` is a terminal error
    let err = p.parse().expect_err("should fail");
    match err {
        ParseError::UnexpectedToken { expected, got, line } => {
            assert_eq!(expected, "LBrace");
            assert_eq!(got, "RParen");
            assert_eq!(line, 2);
        },
        other => panic!("wrong error: {:?}", other),
    }
}

#[test]
fn error_message_renders() {
    let e = ParseError::UnexpectedToken {
        expected: String::from("LBrace"),
        got: String::from("Eof"),
        line: 7,
    };
    assert_eq!(e.message(), "Line 7: expected LBrace, got Eof");
    let io = ParseError::IoError(String::from("gone"));
    assert_eq!(io.message(), "IO error: gone");
}

#[test]
fn doc_comment_becomes_method_description() {
    let cfg = parse_ok("api /a { /** Adds a\n * thing */ get { name \"Add\" } }");
    let m = &cfg.apis[0].methods[0];
    assert_eq!(m.name.as_deref(), Some("Add"));
    assert_eq!(m.description.as_deref(), Some("Adds a thing"));
}

#[test]
fn unknown_keywords_are_skipped() {
    let cfg = parse_ok("frobnicate api /a { get {} zork } api /b { post {} }");
    assert_eq!(cfg.apis.len(), 2);
    assert_eq!(cfg.apis[0].methods[0].method, "GET");
    assert_eq!(cfg.apis[1].methods[0].method, "POST");
}

#[test]
fn field_annotations_and_comment() {
    let cfg = parse_ok(
        "api /a { post { request { q String @params @example(\"x\") // trailing\n body { inner Number @mock(-1.5) }? } } }",
    );
    let req = cfg.apis[0].methods[0].request.as_ref().unwrap();
    let q = &req.fields[0];
    assert!(q.is_params);
    assert_eq!(q.example, Some(MockValue::String("x".to_string())));
    assert_eq!(q.comment.as_deref(), Some("trailing"));
    let body = &req.fields[1];
    assert_eq!(body.field_type, FieldType::Object);
    assert!(body.optional);
    let nested = body.nested.as_ref().unwrap();
    assert_eq!(nested.fields[0].mock, Some(MockValue::Number("-1.5".to_string())));
}

#[test]
fn category_ids_share_one_counter() {
    let cfg = parse_ok("category a { category b {} } category c {}");
    assert_eq!(cfg.categories[0].id, "cat-a-1");
    assert_eq!(cfg.categories[0].children[0].id, "cat-b-2");
    assert_eq!(cfg.categories[1].id, "cat-c-3");
}

#[test]
fn category_counts_are_direct_only() {
    let cfg = parse_ok(
        "category outer { api /a { get {} post {} } ws ws://x {} category inner { api /b { get {} } } }",
    );
    let cats = cfg.to_categories();
    assert_eq!(cats.len(), 1);
    assert_eq!(cats[0].endpoint_count, 3);
    assert_eq!(cats[0].children.len(), 1);
    assert_eq!(cats[0].children[0].endpoint_count, 1);
}

#[test]
fn websocket_block_round_trips() {
    let cfg = parse_ok(
        "socketio ws://h/io { name \"S\" auth { token String } headers { k String } event hello { request { a String } response { b Number } } }",
    );
    assert_eq!(cfg.socketio_apis.len(), 1);
    let ws = &cfg.socketio_apis[0];
    assert_eq!(ws.url, "ws://h/io");
    assert_eq!(ws.name.as_deref(), Some("S"));
    assert!(ws.auth.is_some());
    assert!(ws.connect_headers.is_some());
    assert_eq!(ws.events.len(), 1);
    assert_eq!(ws.events[0].name, "hello");
    let eps = cfg.to_endpoints();
    assert_eq!(eps[0].id, "sio-1");
    assert_eq!(eps[0].endpoint_type, EndpointType::Socketio);
    assert!(eps[0].auth.is_some());
}
