//! The import resolver, the merger and the OpenAPI adapter.

use reqcraft::ast::FieldType;
use reqcraft::openapi::{is_url, parse_openapi_content, sniff_format};
use reqcraft::parser::{ParseError, Parser};
use reqcraft::resolve::{merge_configs, resolve_import_path, resolve_with_store, strip_quotes};

fn store(entries: &[(&str, &str)]) -> Vec<(String, String)> {
    entries.iter().map(|(k, v)| (k.to_string(), v.to_string())).collect()
}

#[test]
fn mutual_imports_terminate_each_parsed_once() {
    let st = store(&[
        ("a.rqc", "import \"b.rqc\"\napi /a { get {} }"),
        ("b.rqc", "import \"a.rqc\"\napi /b { get {} }"),
    ]);
    let (res, parsed) = resolve_with_store(&st, "a.rqc", "");
    let cfg = res.expect("resolves");
    assert_eq!(parsed, vec!["a.rqc", "b.rqc"]);
    assert!(cfg.imports.is_empty());
    let paths: Vec<String> = cfg.apis.iter().map(|a| a.path.clone()).collect();
    assert_eq!(paths, vec!["/a", "/b"]);
}

#[test]
fn import_base_urls_never_override_the_root() {
    let st = store(&[
        ("root.rqc", "config { baseUrl http://root }\nimport \"other.rqc\""),
        ("other.rqc", "config { baseUrl http://other }\napi /x { get {} }"),
    ]);
    let (res, _) = resolve_with_store(&st, "root.rqc", "");
    let cfg = res.expect("resolves");
    assert_eq!(cfg.get_base_urls(), vec!["http://root"]);
    assert_eq!(cfg.apis.len(), 1);
}

#[test]
fn import_fills_missing_settings() {
    let st = store(&[
        ("root.rqc", "import \"other.rqc\""),
        ("other.rqc", "config { baseUrl http://other }"),
    ]);
    let (res, _) = resolve_with_store(&st, "root.rqc", "");
    let cfg = res.expect("resolves");
    assert_eq!(cfg.get_base_urls(), vec!["http://other"]);
}

#[test]
fn merge_concatenates_all_lists() {
    let mut target = Parser::new("api /t { get {} }\nws ws://t {}").parse().unwrap();
    let source = Parser::new("api /s { post {} }\nsocketio ws://s {}\ncategory c {}")
        .parse()
        .unwrap();
    merge_configs(&mut target, source);
    assert_eq!(target.apis.len(), 2);
    assert_eq!(target.ws_apis.len(), 1);
    assert_eq!(target.socketio_apis.len(), 1);
    assert_eq!(target.categories.len(), 1);
}

#[test]
fn missing_root_is_an_io_error() {
    let st = store(&[]);
    let (res, parsed) = resolve_with_store(&st, "nope.rqc", "");
    assert!(parsed.is_empty());
    match res {
        Err(ParseError::IoError(msg)) => assert_eq!(msg, "no such file: nope.rqc"),
        other => panic!("wrong result: {:?}", other),
    }
}

#[test]
fn broken_import_is_skipped_but_broken_root_is_fatal() {
    let st = store(&[
        ("root.rqc", "import \"bad.rqc\"\napi /ok { get {} }"),
        ("bad.rqc", "config )"),
    ]);
    let (res, _) = resolve_with_store(&st, "root.rqc", "");
    let cfg = res.expect("root still resolves");
    assert_eq!(cfg.apis.len(), 1);

    let (res2, _) = resolve_with_store(&st, "bad.rqc", "");
    assert!(res2.is_err());
}

#[test]
fn relative_imports_resolve_against_the_importing_file() {
    assert_eq!(resolve_import_path("\"./x.rqc\"", "base", "sub/cur.rqc"), "sub/x.rqc");
    assert_eq!(resolve_import_path("./x.rqc", "base", "cur.rqc"), "x.rqc");
    assert_eq!(resolve_import_path("../x.rqc", "base", "sub/cur.rqc"), "sub/../x.rqc");
    assert_eq!(resolve_import_path("x.rqc", "base", "sub/cur.rqc"), "base/x.rqc");
    assert_eq!(resolve_import_path("x.rqc", "", "cur.rqc"), "x.rqc");
}

#[test]
fn nested_relative_import_chain() {
    let st = store(&[
        ("root.rqc", "import \"sub/mid.rqc\""),
        ("sub/mid.rqc", "import \"./leaf.rqc\"\napi /mid { get {} }"),
        ("sub/leaf.rqc", "api /leaf { get {} }"),
    ]);
    let (res, parsed) = resolve_with_store(&st, "root.rqc", "");
    let cfg = res.expect("resolves");
    assert_eq!(parsed, vec!["root.rqc", "sub/mid.rqc", "sub/leaf.rqc"]);
    assert_eq!(cfg.apis.len(), 2);
}

#[test]
fn quotes_strip_off_paths() {
    assert_eq!(strip_quotes("\"'a b'\""), "a b");
    assert_eq!(strip_quotes("plain"), "plain");
    assert_eq!(strip_quotes("\"\""), "");
}

#[test]
fn url_detection() {
    assert!(is_url("http://h/x"));
    assert!(is_url("https://h/x"));
    assert!(!is_url("httpx://h"));
    assert!(!is_url("./h.rqc"));
}

#[test]
fn sniffing_prefers_the_content_type() {
    assert_eq!(sniff_format("application/yaml; charset=u", "http://h/a.json"), "yaml");
    assert_eq!(sniff_format("application/json", "http://h/a.yaml"), "json");
    assert_eq!(sniff_format("text/plain", "http://h/spec.yml"), "yml");
    assert_eq!(sniff_format("", "http://host/spec"), "http://host/spec");
}

#[test]
fn openapi_required_marks_fields() {
    let text = r#"{
        "servers": [{"url": "http://api"}],
        "paths": {
            "/users": {
                "get": {
                    "responses": {"200": {"content": {"application/json": {"schema": {
                        "type": "object",
                        "required": ["id"],
                        "properties": {"id": {"type": "integer"}, "name": {"type": "string"}}
                    }}}}}
                }
            }
        }
    }"#;
    let cfg = parse_openapi_content(text, "json").expect("adapts");
    assert_eq!(cfg.get_base_urls(), vec!["http://api"]);
    assert_eq!(cfg.categories.len(), 1);
    let top = &cfg.categories[0];
    assert_eq!(top.id, "openapi");
    let api = &top.apis[0];
    assert_eq!(api.path, "/users");
    let resp = api.methods[0].response.as_ref().unwrap();
    assert_eq!(resp.fields.len(), 2);
    let id = resp.fields.iter().find(|f| f.name == "id").unwrap();
    let name = resp.fields.iter().find(|f| f.name == "name").unwrap();
    assert!(!id.optional);
    assert_eq!(id.field_type, FieldType::Number);
    assert!(name.optional);
    assert_eq!(name.field_type, FieldType::String);
}

#[test]
fn openapi_tags_group_into_sorted_categories() {
    let text = r#"{
        "paths": {
            "/b": {"get": {"tags": ["Zoo Keeping"], "responses": {}}},
            "/a": {"get": {"tags": ["Admin"], "summary": "list", "responses": {}}},
            "/c": {"get": {"responses": {}}}
        }
    }"#;
    let cfg = parse_openapi_content(text, "json").expect("adapts");
    let top = &cfg.categories[0];
    assert_eq!(top.apis.len(), 1);
    assert_eq!(top.apis[0].path, "/c");
    let tags: Vec<String> = top.children.iter().map(|c| c.id.clone()).collect();
    assert_eq!(tags, vec!["openapi-admin", "openapi-zoo-keeping"]);
    assert_eq!(top.children[0].name.as_deref(), Some("Admin"));
    assert_eq!(top.children[0].apis[0].methods[0].name.as_deref(), Some("list"));
}

#[test]
fn openapi_yaml_parses_too() {
    let text = "servers:\n  - url: http://y\npaths: {}\n";
    let cfg = parse_openapi_content(text, "yaml").expect("adapts");
    assert_eq!(cfg.get_base_urls(), vec!["http://y"]);
}

#[test]
fn openapi_query_and_path_parameters_are_tagged() {
    let text = r#"{
        "paths": {"/q": {"get": {
            "parameters": [
                {"name": "page", "in": "query", "required": true, "schema": {"type": "integer"}},
                {"name": "id", "in": "path", "description": "which", "schema": {"type": "string"}}
            ],
            "responses": {}
        }}}
    }"#;
    let cfg = parse_openapi_content(text, "json").expect("adapts");
    let req = cfg.categories[0].apis[0].methods[0].request.as_ref().unwrap();
    assert_eq!(req.fields.len(), 2);
    assert_eq!(req.fields[0].name, "page");
    assert!(req.fields[0].is_params);
    assert!(!req.fields[0].optional);
    assert_eq!(req.fields[1].name, "id");
    assert!(req.fields[1].is_params);
    assert!(req.fields[1].optional);
    assert_eq!(req.fields[1].comment.as_deref(), Some("which"));
}

#[test]
fn openapi_import_from_store_merges() {
    let st = store(&[
        ("root.rqc", "config { baseUrl http://root }\nimport \"spec.json\""),
        (
            "spec.json",
            r#"{"servers": [{"url": "http://ignored"}], "paths": {"/o": {"get": {"responses": {}}}}}"#,
        ),
    ]);
    let (res, parsed) = resolve_with_store(&st, "root.rqc", "");
    let cfg = res.expect("resolves");
    assert_eq!(parsed, vec!["root.rqc"]);
    assert_eq!(cfg.get_base_urls(), vec!["http://root"]);
    assert_eq!(cfg.categories.len(), 1);
    assert_eq!(cfg.categories[0].apis[0].path, "/o");
}

#[test]
fn remote_openapi_import_resolves_from_store() {
    let st = store(&[
        ("root.rqc", "import \"http://spec.host/openapi.json\""),
        (
            "http://spec.host/openapi.json",
            r#"{"paths": {"/r": {"get": {"responses": {}}}}}"#,
        ),
    ]);
    let (res, _) = resolve_with_store(&st, "root.rqc", "");
    let cfg = res.expect("resolves");
    assert_eq!(cfg.categories[0].apis[0].path, "/r");
}
