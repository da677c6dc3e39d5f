//! The OpenAPI adapter: OpenAPI JSON or YAML text is deserialized by serde
//! into an untyped value tree, converted to the library's own JSON tree, and
//! then transformed — entirely in verified code — into the same document
//! type the parser produces.

use vstd::prelude::*;
use vstd::string::{StrSliceExecFns, StringExecFns};

use crate::ast::{
    view_opt_string, ApiBlock, CategoryBlock, ConfigBlock, Field, FieldType, MethodBlock,
    MockValue, RqcConfig, SpecApiBlock, SpecCategoryBlock, SpecConfigBlock, SpecField,
    SpecMethodBlock, SpecMockValue, SpecRqcConfig, SpecSchemaBlock, SchemaBlock,
};
use crate::parser::{ascii_lower, ascii_upper, spec_ascii_lower, spec_ascii_upper, ParseError};
use crate::strutil::{str_eq, string_eq, string_from_chars};

verus! {

// ---------------------------------------------------------------------------
// The library's JSON tree
// ---------------------------------------------------------------------------

/// An untyped JSON document as plain values. Numbers keep their decimal
/// rendering, so the tree stays free of machine floating point.
#[derive(Debug, PartialEq)]
pub enum JsonValue {
    Null,
    Bool(bool),
    Num(String),
    Text(String),
    Arr(Vec<JsonValue>),
    Obj(Vec<(String, JsonValue)>),
}

// ---------------------------------------------------------------------------
// Trusted items: serde_json / serde_yaml
// ---------------------------------------------------------------------------

#[verifier::external_type_specification]
#[verifier::external_body]
pub struct ExValue(serde_json::Value);

/// What serde_json's parser yields for a text, if it parses at all:
/// a function of the text alone.
pub uninterp spec fn json_value_of(s: Seq<char>) -> Option<serde_json::Value>;

/// What serde_yaml's parser yields for a text (read into serde_json's value
/// type), if it parses at all: a function of the text alone.
pub uninterp spec fn yaml_value_of(s: Seq<char>) -> Option<serde_json::Value>;

/// Relies on serde_json::from_str: parses JSON text into serde_json's
/// untyped value tree, or fails; the outcome depends on the text alone.
#[verifier::external_body]
fn parse_json_value(s: &str) -> (r: Option<serde_json::Value>)
    ensures
        r == json_value_of(s@),
{
    serde_json::from_str(s).ok()
}

/// Relies on serde_yaml::from_str: parses YAML text into serde_json's
/// untyped value tree, or fails; the outcome depends on the text alone.
#[verifier::external_body]
fn parse_yaml_value(s: &str) -> (r: Option<serde_json::Value>)
    ensures
        r == yaml_value_of(s@),
{
    serde_yaml::from_str(s).ok()
}

/// One shallow layer of a `serde_json::Value`, with children still opaque.
pub enum JsonNode {
    Null,
    Bool(bool),
    Num(String),
    Text(String),
    Arr(Vec<serde_json::Value>),
    Obj(Vec<(String, serde_json::Value)>),
}

/// The one shallow layer a serde value holds: a function of the value
/// alone (object entries in serde_json's key-sorted iteration order).
pub uninterp spec fn node_of(v: serde_json::Value) -> JsonNode;

/// Relies on serde_json::Value: tells its six variants apart, renders a
/// number as its decimal text, and hands an object's entries out in
/// serde_json's (key-sorted) iteration order.
#[verifier::external_body]
fn value_node(v: &serde_json::Value) -> (r: JsonNode)
    ensures
        r == node_of(*v),
{
    match v {
        serde_json::Value::Null => JsonNode::Null,
        serde_json::Value::Bool(b) => JsonNode::Bool(*b),
        serde_json::Value::Number(n) => JsonNode::Num(n.to_string()),
        serde_json::Value::String(s) => JsonNode::Text(s.clone()),
        serde_json::Value::Array(a) => JsonNode::Arr(a.clone()),
        serde_json::Value::Object(m) => JsonNode::Obj(
            m.iter().map(|(k, x)| (k.clone(), x.clone())).collect(),
        ),
    }
}

// ---------------------------------------------------------------------------
// The mathematical JSON tree and the conversion model
// ---------------------------------------------------------------------------

/// The mathematical form of a JSON document.
#[verifier::ext_equal]
pub ghost enum SpecJson {
    Null,
    Bool(bool),
    Num(Seq<char>),
    Text(Seq<char>),
    Arr(Seq<SpecJson>),
    Obj(Seq<(Seq<char>, SpecJson)>),
}

pub open spec fn view_json(j: JsonValue) -> SpecJson
    decreases j,
{
    match j {
        JsonValue::Null => SpecJson::Null,
        JsonValue::Bool(b) => SpecJson::Bool(b),
        JsonValue::Num(s) => SpecJson::Num(s@),
        JsonValue::Text(s) => SpecJson::Text(s@),
        JsonValue::Arr(items) => SpecJson::Arr(view_json_list(items@)),
        JsonValue::Obj(es) => SpecJson::Obj(view_json_entries(es@)),
    }
}

pub open spec fn view_json_list(items: Seq<JsonValue>) -> Seq<SpecJson>
    decreases items,
{
    if items.len() == 0 {
        Seq::empty()
    } else {
        seq![view_json(items[0])] + view_json_list(items.drop_first())
    }
}

pub open spec fn view_json_entries(es: Seq<(String, JsonValue)>) -> Seq<(Seq<char>, SpecJson)>
    decreases es,
{
    if es.len() == 0 {
        Seq::empty()
    } else {
        seq![(es[0].0@, view_json(es[0].1))] + view_json_entries(es.drop_first())
    }
}

impl View for JsonValue {
    type V = SpecJson;

    open spec fn view(&self) -> SpecJson {
        view_json(*self)
    }
}

pub proof fn lemma_view_json_list(items: Seq<JsonValue>)
    ensures
        view_json_list(items).len() == items.len(),
        forall|i: int|
            0 <= i < items.len() ==> view_json_list(items)[i] == view_json(#[trigger] items[i]),
    decreases items,
{
    if items.len() > 0 {
        lemma_view_json_list(items.drop_first());
        assert forall|i: int| 0 <= i < items.len() implies view_json_list(items)[i] == view_json(
            #[trigger] items[i],
        ) by {
            if i > 0 {
                assert(items.drop_first()[i - 1] == items[i]);
            }
        }
    }
}

pub proof fn lemma_view_json_entries(es: Seq<(String, JsonValue)>)
    ensures
        view_json_entries(es).len() == es.len(),
        forall|i: int|
            0 <= i < es.len() ==> view_json_entries(es)[i] == ((#[trigger] es[i]).0@, view_json(
                es[i].1,
            )),
    decreases es,
{
    if es.len() > 0 {
        lemma_view_json_entries(es.drop_first());
        assert forall|i: int| 0 <= i < es.len() implies view_json_entries(es)[i] == ((
        #[trigger] es[i]).0@, view_json(es[i].1)) by {
            if i > 0 {
                assert(es.drop_first()[i - 1] == es[i]);
            }
        }
    }
}

/// The tree a serde value denotes, down to `depth` layers: the shallow
/// layers that `node_of` names, stacked.
pub open spec fn spec_value_tree(v: serde_json::Value, depth: nat) -> SpecJson
    decreases depth, 0int, 0int,
{
    if depth == 0 {
        SpecJson::Null
    } else {
        match node_of(v) {
            JsonNode::Null => SpecJson::Null,
            JsonNode::Bool(b) => SpecJson::Bool(b),
            JsonNode::Num(s) => SpecJson::Num(s@),
            JsonNode::Text(s) => SpecJson::Text(s@),
            JsonNode::Arr(items) => SpecJson::Arr(
                spec_values_tree(items@, (depth - 1) as nat),
            ),
            JsonNode::Obj(es) => SpecJson::Obj(spec_entries_tree(es@, (depth - 1) as nat)),
        }
    }
}

pub open spec fn spec_values_tree(items: Seq<serde_json::Value>, depth: nat) -> Seq<SpecJson>
    decreases depth, 1int, items.len(),
{
    if items.len() == 0 {
        Seq::empty()
    } else {
        seq![spec_value_tree(items[0], depth)] + spec_values_tree(items.drop_first(), depth)
    }
}

pub open spec fn spec_entries_tree(es: Seq<(String, serde_json::Value)>, depth: nat) -> Seq<
    (Seq<char>, SpecJson),
>
    decreases depth, 1int, es.len(),
{
    if es.len() == 0 {
        Seq::empty()
    } else {
        seq![(es[0].0@, spec_value_tree(es[0].1, depth))] + spec_entries_tree(
            es.drop_first(),
            depth,
        )
    }
}

proof fn lemma_spec_values_tree(items: Seq<serde_json::Value>, depth: nat)
    ensures
        spec_values_tree(items, depth).len() == items.len(),
        forall|i: int|
            0 <= i < items.len() ==> spec_values_tree(items, depth)[i] == spec_value_tree(
                #[trigger] items[i],
                depth,
            ),
    decreases items,
{
    if items.len() > 0 {
        lemma_spec_values_tree(items.drop_first(), depth);
        assert forall|i: int| 0 <= i < items.len() implies spec_values_tree(items, depth)[i]
            == spec_value_tree(#[trigger] items[i], depth) by {
            if i > 0 {
                assert(items.drop_first()[i - 1] == items[i]);
            }
        }
    }
}

proof fn lemma_spec_entries_tree(es: Seq<(String, serde_json::Value)>, depth: nat)
    ensures
        spec_entries_tree(es, depth).len() == es.len(),
        forall|i: int|
            0 <= i < es.len() ==> spec_entries_tree(es, depth)[i] == ((#[trigger] es[i]).0@,
            spec_value_tree(es[i].1, depth)),
    decreases es,
{
    if es.len() > 0 {
        lemma_spec_entries_tree(es.drop_first(), depth);
        assert forall|i: int| 0 <= i < es.len() implies spec_entries_tree(es, depth)[i] == ((
        #[trigger] es[i]).0@, spec_value_tree(es[i].1, depth)) by {
            if i > 0 {
                assert(es.drop_first()[i - 1] == es[i]);
            }
        }
    }
}

/// Converts an opaque serde value into the library's JSON tree, layer by
/// layer; `depth` bounds the recursion and is far above serde_json's own
/// nesting limit, so real documents are never truncated.
fn value_to_json(v: &serde_json::Value, depth: u32) -> (r: JsonValue)
    ensures
        r@ == spec_value_tree(*v, depth as nat),
    decreases depth, 1int,
{
    if depth == 0 {
        return JsonValue::Null;
    }
    match value_node(v) {
        JsonNode::Null => JsonValue::Null,
        JsonNode::Bool(b) => JsonValue::Bool(b),
        JsonNode::Num(s) => JsonValue::Num(s),
        JsonNode::Text(s) => JsonValue::Text(s),
        JsonNode::Arr(items) => {
            let converted = values_to_json(&items, depth);
            proof {
                assert(view_json(JsonValue::Arr(converted)) =~~= spec_value_tree(
                    *v,
                    depth as nat,
                ));
            }
            JsonValue::Arr(converted)
        },
        JsonNode::Obj(entries) => {
            let converted = entries_to_json(&entries, depth);
            proof {
                assert(view_json(JsonValue::Obj(converted)) =~~= spec_value_tree(
                    *v,
                    depth as nat,
                ));
            }
            JsonValue::Obj(converted)
        },
    }
}

fn values_to_json(items: &Vec<serde_json::Value>, depth: u32) -> (r: Vec<JsonValue>)
    requires
        depth >= 1,
    ensures
        view_json_list(r@) == spec_values_tree(items@, (depth - 1) as nat),
    decreases depth, 0int,
{
    let mut out: Vec<JsonValue> = Vec::new();
    let mut i: usize = 0;
    while i < items.len()
        invariant
            depth >= 1,
            i <= items@.len(),
            out@.len() == i,
            forall|m: int|
                0 <= m < i ==> (#[trigger] out@[m])@ == spec_value_tree(
                    items@[m],
                    (depth - 1) as nat,
                ),
        decreases items@.len() - i,
    {
        out.push(value_to_json(&items[i], depth - 1));
        i = i + 1;
    }
    proof {
        lemma_view_json_list(out@);
        lemma_spec_values_tree(items@, (depth - 1) as nat);
        assert forall|m: int| 0 <= m < out@.len() implies view_json_list(out@)[m]
            == spec_values_tree(items@, (depth - 1) as nat)[m] by {
            assert(out@[m]@ == spec_value_tree(items@[m], (depth - 1) as nat));
        }
        assert(view_json_list(out@) =~= spec_values_tree(items@, (depth - 1) as nat));
    }
    out
}

fn entries_to_json(entries: &Vec<(String, serde_json::Value)>, depth: u32) -> (r: Vec<
    (String, JsonValue),
>)
    requires
        depth >= 1,
    ensures
        view_json_entries(r@) == spec_entries_tree(entries@, (depth - 1) as nat),
    decreases depth, 0int,
{
    let mut out: Vec<(String, JsonValue)> = Vec::new();
    let mut i: usize = 0;
    while i < entries.len()
        invariant
            depth >= 1,
            i <= entries@.len(),
            out@.len() == i,
            forall|m: int|
                0 <= m < i ==> (#[trigger] out@[m]).0@ == entries@[m].0@ && out@[m].1@
                    == spec_value_tree(entries@[m].1, (depth - 1) as nat),
        decreases entries@.len() - i,
    {
        let key = entries[i].0.clone();
        let val = value_to_json(&entries[i].1, depth - 1);
        out.push((key, val));
        i = i + 1;
    }
    proof {
        lemma_view_json_entries(out@);
        lemma_spec_entries_tree(entries@, (depth - 1) as nat);
        assert forall|m: int| 0 <= m < out@.len() implies view_json_entries(out@)[m]
            == spec_entries_tree(entries@, (depth - 1) as nat)[m] by {
            assert(out@[m].0@ == entries@[m].0@);
            assert(out@[m].1@ == spec_value_tree(entries@[m].1, (depth - 1) as nat));
        }
        assert(view_json_entries(out@) =~= spec_entries_tree(entries@, (depth - 1) as nat));
    }
    out
}

/// How deep a converted JSON tree may nest; far above serde_json's own
/// recursion limit.
pub fn json_depth_limit() -> (r: u32)
    ensures
        r == 200,
{
    200
}

/// The serde value a text parses to in the named format: `json` tries JSON
/// only, `yaml`/`yml` YAML only, anything else JSON and then YAML.
pub open spec fn spec_parsed_value(s: Seq<char>, ext: Seq<char>) -> Option<serde_json::Value> {
    if ext == "json"@ {
        json_value_of(s)
    } else if ext == "yaml"@ || ext == "yml"@ {
        yaml_value_of(s)
    } else {
        match json_value_of(s) {
            Option::Some(v) => Option::Some(v),
            Option::None => yaml_value_of(s),
        }
    }
}

/// The JSON tree an OpenAPI text denotes in the named format, if it parses.
pub open spec fn spec_openapi_tree(s: Seq<char>, ext: Seq<char>) -> Option<SpecJson> {
    match spec_parsed_value(s, ext) {
        Option::Some(v) => Option::Some(spec_value_tree(v, 200)),
        Option::None => Option::None,
    }
}

/// Parses OpenAPI text in the named format (`json`, `yaml`/`yml`, or
/// anything else to try JSON then YAML) into the library's JSON tree.
pub fn parse_openapi_json(content: &str, ext: &str) -> (r: Option<JsonValue>)
    ensures
        r is Some <==> spec_openapi_tree(content@, ext@) is Some,
        r matches Some(j) ==> Option::Some(j@) == spec_openapi_tree(content@, ext@),
{
    let v: Option<serde_json::Value> = if str_eq(ext, "json") {
        parse_json_value(content)
    } else if str_eq(ext, "yaml") || str_eq(ext, "yml") {
        parse_yaml_value(content)
    } else {
        match parse_json_value(content) {
            Some(x) => Some(x),
            None => parse_yaml_value(content),
        }
    };
    match v {
        Some(x) => Some(value_to_json(&x, json_depth_limit())),
        None => None,
    }
}

// ---------------------------------------------------------------------------
// The adapter model
// ---------------------------------------------------------------------------

pub open spec fn spec_obj_entries(j: SpecJson) -> Seq<(Seq<char>, SpecJson)> {
    match j {
        SpecJson::Obj(es) => es,
        _ => Seq::empty(),
    }
}

pub open spec fn spec_obj_get(es: Seq<(Seq<char>, SpecJson)>, k: Seq<char>) -> Option<SpecJson>
    decreases es.len(),
{
    if es.len() == 0 {
        Option::None
    } else if es[0].0 == k {
        Option::Some(es[0].1)
    } else {
        spec_obj_get(es.drop_first(), k)
    }
}

pub open spec fn spec_get(j: SpecJson, k: Seq<char>) -> Option<SpecJson> {
    spec_obj_get(spec_obj_entries(j), k)
}

pub open spec fn spec_as_text(j: SpecJson) -> Option<Seq<char>> {
    match j {
        SpecJson::Text(s) => Option::Some(s),
        _ => Option::None,
    }
}

pub open spec fn spec_get_text(j: SpecJson, k: Seq<char>) -> Option<Seq<char>> {
    match spec_get(j, k) {
        Option::Some(v) => spec_as_text(v),
        Option::None => Option::None,
    }
}

pub open spec fn spec_as_arr(j: SpecJson) -> Seq<SpecJson> {
    match j {
        SpecJson::Arr(items) => items,
        _ => Seq::empty(),
    }
}

pub open spec fn spec_get_arr(j: SpecJson, k: Seq<char>) -> Seq<SpecJson> {
    match spec_get(j, k) {
        Option::Some(v) => spec_as_arr(v),
        Option::None => Seq::empty(),
    }
}

/// The field type named by an OpenAPI `type` string; unknown types are
/// String.
pub open spec fn spec_convert_type(t: Seq<char>) -> FieldType {
    let l = spec_ascii_lower(t);
    if l == "string"@ {
        FieldType::String
    } else if l == "integer"@ || l == "number"@ {
        FieldType::Number
    } else if l == "boolean"@ {
        FieldType::Boolean
    } else if l == "array"@ {
        FieldType::Array
    } else if l == "object"@ {
        FieldType::Object
    } else {
        FieldType::String
    }
}

/// An example value rendered as a mock value: strings, numbers and booleans
/// carry over, anything else is dropped.
pub open spec fn spec_convert_example(o: Option<SpecJson>) -> Option<SpecMockValue> {
    match o {
        Option::Some(SpecJson::Text(t)) => Option::Some(SpecMockValue::String(t)),
        Option::Some(SpecJson::Num(n)) => Option::Some(SpecMockValue::Number(n)),
        Option::Some(SpecJson::Bool(b)) => Option::Some(SpecMockValue::Boolean(b)),
        _ => Option::None,
    }
}

/// Whether a `required` name list names `name`.
pub open spec fn spec_required_contains(req: Seq<SpecJson>, name: Seq<char>) -> bool
    decreases req.len(),
{
    if req.len() == 0 {
        false
    } else if spec_as_text(req[0]) == Option::Some(name) {
        true
    } else {
        spec_required_contains(req.drop_first(), name)
    }
}

/// The fields of an OpenAPI schema object: one per property, optional
/// exactly when the property is absent from the schema's `required` list;
/// object and array properties get nested schema blocks.
pub open spec fn spec_schema_fields(schema: SpecJson, depth: nat) -> Seq<SpecField>
    decreases depth, 1int, 0int,
{
    if depth == 0 {
        Seq::empty()
    } else {
        match spec_get(schema, "properties"@) {
            Option::Some(props) => spec_props_fields(
                spec_obj_entries(props),
                spec_get_arr(schema, "required"@),
                depth,
            ),
            Option::None => Seq::empty(),
        }
    }
}

pub open spec fn spec_props_fields(
    props: Seq<(Seq<char>, SpecJson)>,
    req: Seq<SpecJson>,
    depth: nat,
) -> Seq<SpecField>
    decreases depth, 0int, props.len(),
{
    if depth == 0 || props.len() == 0 {
        Seq::empty()
    } else {
        seq![spec_prop_field(props[0].0, props[0].1, req, depth)] + spec_props_fields(
            props.drop_first(),
            req,
            depth,
        )
    }
}

pub open spec fn spec_prop_field(
    name: Seq<char>,
    prop: SpecJson,
    req: Seq<SpecJson>,
    depth: nat,
) -> SpecField
    decreases depth, 0int, 0int,
{
    let ftype = match spec_get_text(prop, "type"@) {
        Option::Some(t) => t,
        Option::None => "string"@,
    };
    let nested = if depth == 0 {
        Option::None
    } else if ftype == "object"@ {
        let fs = spec_schema_fields(prop, (depth - 1) as nat);
        if fs.len() > 0 {
            Option::Some(Box::new(SpecSchemaBlock { fields: fs, optional: false }))
        } else {
            Option::None
        }
    } else if ftype == "array"@ {
        match spec_get(prop, "items"@) {
            Option::Some(items) => {
                let fs = spec_schema_fields(items, (depth - 1) as nat);
                if fs.len() > 0 {
                    Option::Some(Box::new(SpecSchemaBlock { fields: fs, optional: false }))
                } else {
                    Option::None
                }
            },
            Option::None => Option::None,
        }
    } else {
        Option::None
    };
    SpecField {
        name,
        field_type: spec_convert_type(ftype),
        optional: !spec_required_contains(req, name),
        nested,
        mock: Option::None,
        example: spec_convert_example(spec_get(prop, "example"@)),
        comment: spec_get_text(prop, "description"@),
        is_params: false,
    }
}

/// The field for one `parameters` entry, if it has a name: query and path
/// parameters become non-body fields tagged as query-style parameters,
/// required carrying over.
pub open spec fn spec_param_field(p: SpecJson) -> Option<SpecField> {
    match spec_get_text(p, "name"@) {
        Option::None => Option::None,
        Option::Some(name) => {
            let schema = spec_get(p, "schema"@);
            let ftype = match schema {
                Option::Some(sc) => match spec_get_text(sc, "type"@) {
                    Option::Some(t) => t,
                    Option::None => "string"@,
                },
                Option::None => "string"@,
            };
            Option::Some(
                SpecField {
                    name,
                    field_type: spec_convert_type(ftype),
                    optional: !(spec_get(p, "required"@) == Option::Some(SpecJson::Bool(true))),
                    nested: Option::None,
                    mock: Option::None,
                    example: match schema {
                        Option::Some(sc) => spec_convert_example(spec_get(sc, "example"@)),
                        Option::None => Option::None,
                    },
                    comment: spec_get_text(p, "description"@),
                    is_params: spec_get_text(p, "in"@) == Option::Some("query"@)
                        || spec_get_text(p, "in"@) == Option::Some("path"@),
                },
            )
        },
    }
}

pub open spec fn spec_parameters(params: Seq<SpecJson>) -> Seq<SpecField>
    decreases params.len(),
{
    if params.len() == 0 {
        Seq::empty()
    } else {
        let rest = spec_parameters(params.drop_first());
        match spec_param_field(params[0]) {
            Option::Some(f) => seq![f] + rest,
            Option::None => rest,
        }
    }
}

/// The fields of the JSON request body or response schema under `content`.
pub open spec fn spec_content_fields(holder: Option<SpecJson>, depth: nat) -> Seq<SpecField> {
    match holder {
        Option::Some(h) => match spec_get(h, "content"@) {
            Option::Some(content) => match spec_obj_get(
                spec_obj_entries(content),
                "application/json"@,
            ) {
                Option::Some(media) => match spec_get(media, "schema"@) {
                    Option::Some(schema) => spec_schema_fields(schema, depth),
                    Option::None => Seq::empty(),
                },
                Option::None => Seq::empty(),
            },
            Option::None => Seq::empty(),
        },
        Option::None => Seq::empty(),
    }
}

/// The response chosen for an operation: `200`, else `201`, else `default`.
pub open spec fn spec_pick_response(op: SpecJson) -> Option<SpecJson> {
    match spec_get(op, "responses"@) {
        Option::Some(rs) => match spec_get(rs, "200"@) {
            Option::Some(r) => Option::Some(r),
            Option::None => match spec_get(rs, "201"@) {
                Option::Some(r) => Option::Some(r),
                Option::None => spec_get(rs, "default"@),
            },
        },
        Option::None => Option::None,
    }
}

/// The method block for one operation.
pub open spec fn spec_op_method(mname: Seq<char>, op: SpecJson, depth: nat) -> SpecMethodBlock {
    let params = spec_get_arr(op, "parameters"@);
    let request_fields = spec_parameters(params) + spec_content_fields(
        spec_get(op, "requestBody"@),
        depth,
    );
    let response_fields = spec_content_fields(spec_pick_response(op), depth);
    SpecMethodBlock {
        method: spec_ascii_upper(mname),
        name: match spec_get_text(op, "summary"@) {
            Option::Some(t) => Option::Some(t),
            Option::None => spec_get_text(op, "operationId"@),
        },
        description: spec_get_text(op, "description"@),
        request: if request_fields.len() == 0 {
            Option::None
        } else {
            Option::Some(SpecSchemaBlock { fields: request_fields, optional: false })
        },
        response: if response_fields.len() == 0 {
            Option::None
        } else {
            Option::Some(SpecSchemaBlock { fields: response_fields, optional: false })
        },
    }
}

/// Whether an uppercased name is a recognized HTTP method.
pub open spec fn spec_is_http_method(mu: Seq<char>) -> bool {
    mu == "GET"@ || mu == "POST"@ || mu == "PUT"@ || mu == "DELETE"@ || mu == "PATCH"@ || mu
        == "HEAD"@ || mu == "OPTIONS"@
}

/// The first tag of an operation, if any.
pub open spec fn spec_first_tag(op: SpecJson) -> Option<Seq<char>> {
    let tags = spec_get_arr(op, "tags"@);
    if tags.len() > 0 {
        spec_as_text(tags[0])
    } else {
        Option::None
    }
}

/// The method blocks of one path entry, with the first tag seen on a
/// recognized method.
pub open spec fn spec_path_methods(
    mentries: Seq<(Seq<char>, SpecJson)>,
    tag: Option<Seq<char>>,
    depth: nat,
) -> (Seq<SpecMethodBlock>, Option<Seq<char>>)
    decreases mentries.len(),
{
    if mentries.len() == 0 {
        (Seq::empty(), tag)
    } else {
        let mu = spec_ascii_upper(mentries[0].0);
        if spec_is_http_method(mu) {
            let tag2 = match tag {
                Option::Some(t) => Option::Some(t),
                Option::None => spec_first_tag(mentries[0].1),
            };
            let rest = spec_path_methods(mentries.drop_first(), tag2, depth);
            (seq![spec_op_method(mentries[0].0, mentries[0].1, depth)] + rest.0, rest.1)
        } else {
            spec_path_methods(mentries.drop_first(), tag, depth)
        }
    }
}

/// Strict lexicographic order on character sequences.
pub open spec fn spec_seq_lt(a: Seq<char>, b: Seq<char>) -> bool
    decreases a.len(),
{
    if b.len() == 0 {
        false
    } else if a.len() == 0 {
        true
    } else if a[0] != b[0] {
        a[0] < b[0]
    } else {
        spec_seq_lt(a.drop_first(), b.drop_first())
    }
}

/// Inserts an api block into the tag groups, keeping tags sorted and
/// appending to an existing tag's list.
pub open spec fn spec_insert_group(
    groups: Seq<(Seq<char>, Seq<SpecApiBlock>)>,
    tag: Seq<char>,
    api: SpecApiBlock,
) -> Seq<(Seq<char>, Seq<SpecApiBlock>)>
    decreases groups.len(),
{
    if groups.len() == 0 {
        seq![(tag, seq![api])]
    } else if groups[0].0 == tag {
        seq![(groups[0].0, groups[0].1.push(api))] + groups.drop_first()
    } else if spec_seq_lt(tag, groups[0].0) {
        seq![(tag, seq![api])] + groups
    } else {
        seq![groups[0]] + spec_insert_group(groups.drop_first(), tag, api)
    }
}

/// Folds the path entries into sorted tag groups and an untagged list.
pub open spec fn spec_paths_fold(
    pentries: Seq<(Seq<char>, SpecJson)>,
    groups: Seq<(Seq<char>, Seq<SpecApiBlock>)>,
    untagged: Seq<SpecApiBlock>,
    depth: nat,
) -> (Seq<(Seq<char>, Seq<SpecApiBlock>)>, Seq<SpecApiBlock>)
    decreases pentries.len(),
{
    if pentries.len() == 0 {
        (groups, untagged)
    } else {
        let pm = spec_path_methods(spec_obj_entries(pentries[0].1), Option::None, depth);
        if pm.0.len() == 0 {
            spec_paths_fold(pentries.drop_first(), groups, untagged, depth)
        } else {
            let api = SpecApiBlock { path: pentries[0].0, methods: pm.0 };
            match pm.1 {
                Option::Some(tag) => spec_paths_fold(
                    pentries.drop_first(),
                    spec_insert_group(groups, tag, api),
                    untagged,
                    depth,
                ),
                Option::None => spec_paths_fold(
                    pentries.drop_first(),
                    groups,
                    untagged.push(api),
                    depth,
                ),
            }
        }
    }
}

/// A tag lowercased with spaces dashed, for generated category ids.
pub open spec fn spec_dashed_lower(t: Seq<char>) -> Seq<char> {
    t.map_values(
        |c: char|
            {
                let l = crate::parser::lower_char(c);
                if l == ' ' {
                    '-'
                } else {
                    l
                }
            },
    )
}

/// The child category for one tag group.
pub open spec fn spec_tag_category(tag: Seq<char>, apis: Seq<SpecApiBlock>) -> SpecCategoryBlock {
    SpecCategoryBlock {
        id: "openapi-"@ + spec_dashed_lower(tag),
        name: Option::Some(tag),
        desc: Option::None,
        prefix: Option::None,
        apis,
        ws_apis: Seq::empty(),
        socketio_apis: Seq::empty(),
        sse_apis: Seq::empty(),
        children: Seq::empty(),
    }
}

pub open spec fn spec_group_categories(groups: Seq<(Seq<char>, Seq<SpecApiBlock>)>) -> Seq<
    SpecCategoryBlock,
>
    decreases groups.len(),
{
    if groups.len() == 0 {
        Seq::empty()
    } else {
        seq![spec_tag_category(groups[0].0, groups[0].1)] + spec_group_categories(
            groups.drop_first(),
        )
    }
}

/// The settings block derived from `servers`: the first server URL becomes
/// the single base URL.
pub open spec fn spec_servers_config(j: SpecJson) -> Option<SpecConfigBlock> {
    let servers = spec_get_arr(j, "servers"@);
    if servers.len() > 0 {
        match spec_get_text(servers[0], "url"@) {
            Option::Some(u) => Option::Some(
                SpecConfigBlock {
                    base_urls: seq![u],
                    cors: false,
                    mock: false,
                    variables: Seq::empty(),
                    headers: Seq::empty(),
                },
            ),
            Option::None => Option::None,
        }
    } else {
        Option::None
    }
}

/// The whole adaptation of an OpenAPI document tree into a document: base
/// URL from `servers`, operations grouped by first tag into sorted child
/// categories under one `openapi` category, untagged operations directly
/// under it.
pub open spec fn spec_adapt(j: SpecJson, depth: nat) -> SpecRqcConfig {
    let config = spec_servers_config(j);
    match spec_get(j, "paths"@) {
        Option::None => SpecRqcConfig {
            config,
            imports: Seq::empty(),
            apis: Seq::empty(),
            ws_apis: Seq::empty(),
            socketio_apis: Seq::empty(),
            sse_apis: Seq::empty(),
            categories: Seq::empty(),
        },
        Option::Some(paths) => {
            let folded = spec_paths_fold(spec_obj_entries(paths), Seq::empty(), Seq::empty(), depth);
            let top = SpecCategoryBlock {
                id: "openapi"@,
                name: Option::Some("OpenAPI"@),
                desc: Option::Some("Imported from OpenAPI specification"@),
                prefix: Option::None,
                apis: folded.1,
                ws_apis: Seq::empty(),
                socketio_apis: Seq::empty(),
                sse_apis: Seq::empty(),
                children: spec_group_categories(folded.0),
            };
            SpecRqcConfig {
                config,
                imports: Seq::empty(),
                apis: Seq::empty(),
                ws_apis: Seq::empty(),
                socketio_apis: Seq::empty(),
                sse_apis: Seq::empty(),
                categories: seq![top],
            }
        },
    }
}

// ---------------------------------------------------------------------------
// The executable adapter
// ---------------------------------------------------------------------------

fn obj_get_ref<'a>(j: &'a JsonValue, k: &str) -> (r: Option<&'a JsonValue>)
    ensures
        match r {
            Option::Some(v) => spec_get(j@, k@) == Option::Some(v@),
            Option::None => spec_get(j@, k@) is None,
        },
{
    match j {
        JsonValue::Obj(es) => {
            let ghost ev = view_json_entries(es@);
            let mut i: usize = 0;
            proof {
                lemma_view_json_entries(es@);
                assert(ev.skip(0) =~= ev);
            }
            loop
                invariant
                    i <= es@.len(),
                    ev == view_json_entries(es@),
                    ev.len() == es@.len(),
                    spec_obj_get(ev.skip(i as int), k@) == spec_obj_get(ev, k@),
                decreases es@.len() - i,
            {
                if i >= es.len() {
                    proof {
                        assert(ev.skip(i as int) =~= Seq::<(Seq<char>, SpecJson)>::empty());
                    }
                    return None;
                }
                proof {
                    lemma_view_json_entries(es@);
                    assert(ev.skip(i as int)[0] == ev[i as int]);
                    assert(ev.skip(i as int).drop_first() =~= ev.skip(i + 1));
                }
                if string_eq(&es[i].0, k) {
                    return Some(&es[i].1);
                }
                i = i + 1;
            }
        },
        _ => None,
    }
}

fn as_text_x(j: &JsonValue) -> (r: Option<String>)
    ensures
        view_opt_string(r) == spec_as_text(j@),
{
    match j {
        JsonValue::Text(s) => Some(s.clone()),
        _ => None,
    }
}

fn get_text_x(j: &JsonValue, k: &str) -> (r: Option<String>)
    ensures
        view_opt_string(r) == spec_get_text(j@, k@),
{
    match obj_get_ref(j, k) {
        Some(v) => as_text_x(v),
        None => None,
    }
}

fn get_arr_ref<'a>(j: &'a JsonValue, k: &str) -> (r: Option<&'a Vec<JsonValue>>)
    ensures
        match r {
            Option::Some(v) => view_json_list(v@) == spec_get_arr(j@, k@),
            Option::None => spec_get_arr(j@, k@) == Seq::<SpecJson>::empty(),
        },
{
    match obj_get_ref(j, k) {
        Some(v) => match v {
            JsonValue::Arr(items) => Some(items),
            _ => None,
        },
        None => None,
    }
}

/// Maps an OpenAPI `type` string to a field type.
pub fn convert_type(t: &str) -> (r: FieldType)
    ensures
        r == spec_convert_type(t@),
{
    let l = ascii_lower(t);
    if string_eq(&l, "string") {
        FieldType::String
    } else if string_eq(&l, "integer") || string_eq(&l, "number") {
        FieldType::Number
    } else if string_eq(&l, "boolean") {
        FieldType::Boolean
    } else if string_eq(&l, "array") {
        FieldType::Array
    } else if string_eq(&l, "object") {
        FieldType::Object
    } else {
        FieldType::String
    }
}

fn convert_example(o: Option<&JsonValue>) -> (r: Option<MockValue>)
    ensures
        crate::ast::view_opt_mock(r) == spec_convert_example(match o {
            Option::Some(v) => Option::Some(v@),
            Option::None => Option::None,
        }),
{
    match o {
        Some(JsonValue::Text(t)) => Some(MockValue::String(t.clone())),
        Some(JsonValue::Num(n)) => Some(MockValue::Number(n.clone())),
        Some(JsonValue::Bool(b)) => Some(MockValue::Boolean(*b)),
        _ => None,
    }
}

fn required_contains(req: &Vec<JsonValue>, name: &String) -> (r: bool)
    ensures
        r == spec_required_contains(view_json_list(req@), name@),
{
    let ghost rv = view_json_list(req@);
    let mut i: usize = 0;
    proof {
        lemma_view_json_list(req@);
        assert(rv.skip(0) =~= rv);
    }
    loop
        invariant
            i <= req@.len(),
            rv == view_json_list(req@),
            rv.len() == req@.len(),
            spec_required_contains(rv.skip(i as int), name@) == spec_required_contains(rv, name@),
        decreases req@.len() - i,
    {
        if i >= req.len() {
            proof {
                assert(rv.skip(i as int) =~= Seq::<SpecJson>::empty());
            }
            return false;
        }
        proof {
            lemma_view_json_list(req@);
            assert(rv.skip(i as int)[0] == rv[i as int]);
            assert(rv.skip(i as int).drop_first() =~= rv.skip(i + 1));
        }
        match &req[i] {
            JsonValue::Text(t) => {
                if string_eq(t, name.as_str()) {
                    return true;
                }
            },
            _ => {},
        }
        i = i + 1;
    }
}

/// The fields of an OpenAPI schema object (see the model for the rules).
pub fn schema_fields(schema: &JsonValue, depth: u32) -> (r: Vec<Field>)
    ensures
        crate::ast::view_field_list(r@) == spec_schema_fields(schema@, depth as nat),
    decreases depth, 1int, 0int,
{
    if depth == 0 {
        let r: Vec<Field> = Vec::new();
        return r;
    }
    match obj_get_ref(schema, "properties") {
        Some(props) => {
            let empty_req: Vec<JsonValue> = Vec::new();
            let req: &Vec<JsonValue> = match get_arr_ref(schema, "required") {
                Some(v) => v,
                None => &empty_req,
            };
            proof {
                assert(view_json_list(empty_req@) =~= Seq::<SpecJson>::empty());
            }
            match props {
                JsonValue::Obj(es) => {
                    let out = props_fields(es, 0, req, depth);
                    proof {
                        assert(view_json_entries(es@) == spec_obj_entries(props@));
                        assert(view_json_entries(es@).skip(0) =~= view_json_entries(es@));
                    }
                    out
                },
                _ => {
                    let r: Vec<Field> = Vec::new();
                    proof {
                        assert(spec_obj_entries(props@) =~= Seq::<(Seq<char>, SpecJson)>::empty());
                        assert(crate::ast::view_field_list(r@) =~= spec_props_fields(
                            spec_obj_entries(props@),
                            view_json_list(req@),
                            depth as nat,
                        ));
                    }
                    r
                },
            }
        },
        None => {
            let r: Vec<Field> = Vec::new();
            r
        },
    }
}

fn props_fields(props: &Vec<(String, JsonValue)>, i: usize, req: &Vec<JsonValue>, depth: u32) -> (r:
    Vec<Field>)
    requires
        i <= props@.len(),
        depth >= 1,
    ensures
        crate::ast::view_field_list(r@) == spec_props_fields(
            view_json_entries(props@).skip(i as int),
            view_json_list(req@),
            depth as nat,
        ),
    decreases depth, 0int, props@.len() - i,
{
    let ghost pv = view_json_entries(props@);
    proof {
        lemma_view_json_entries(props@);
    }
    if i >= props.len() {
        let r: Vec<Field> = Vec::new();
        proof {
            assert(pv.skip(i as int) =~= Seq::<(Seq<char>, SpecJson)>::empty());
        }
        return r;
    }
    let f = prop_field(&props[i].0, &props[i].1, req, depth);
    let ghost fv = f@;
    let mut rest = props_fields(props, i + 1, req, depth);
    let mut out: Vec<Field> = Vec::new();
    out.push(f);
    let ghost restv = rest@;
    out.append(&mut rest);
    proof {
        assert(out@ =~= seq![out@[0]] + restv);
        crate::ast::lemma_view_field_list_concat(seq![out@[0]], restv);
        crate::ast::lemma_view_field_list_single(out@[0]);
        assert(out@[0]@ == fv);
        assert(pv.skip(i as int)[0] == pv[i as int]);
        assert(pv.skip(i as int).drop_first() =~= pv.skip(i + 1));
        assert(crate::ast::view_field_list(out@) =~= spec_props_fields(
            pv.skip(i as int),
            view_json_list(req@),
            depth as nat,
        ));
    }
    out
}

fn prop_field(name: &String, prop: &JsonValue, req: &Vec<JsonValue>, depth: u32) -> (r: Field)
    requires
        depth >= 1,
    ensures
        r@ == spec_prop_field(name@, prop@, view_json_list(req@), depth as nat),
    decreases depth, 0int, 0int,
{
    let ftype: String = match get_text_x(prop, "type") {
        Some(t) => t,
        None => String::from_str("string"),
    };
    let nested: Option<Box<SchemaBlock>> = if string_eq(&ftype, "object") {
        let fs = schema_fields(prop, depth - 1);
        if fs.len() > 0 {
            Some(Box::new(SchemaBlock { fields: fs, optional: false }))
        } else {
            None
        }
    } else if string_eq(&ftype, "array") {
        match obj_get_ref(prop, "items") {
            Some(items) => {
                let fs = schema_fields(items, depth - 1);
                if fs.len() > 0 {
                    Some(Box::new(SchemaBlock { fields: fs, optional: false }))
                } else {
                    None
                }
            },
            None => None,
        }
    } else {
        None
    };
    let r = Field {
        name: name.clone(),
        field_type: convert_type(ftype.as_str()),
        optional: !required_contains(req, name),
        nested,
        mock: None,
        example: convert_example(obj_get_ref(prop, "example")),
        comment: get_text_x(prop, "description"),
        is_params: false,
    };
    proof {
        assert(r@ =~~= spec_prop_field(name@, prop@, view_json_list(req@), depth as nat));
    }
    r
}

fn param_field(p: &JsonValue) -> (r: Option<Field>)
    ensures
        match r {
            Option::Some(f) => spec_param_field(p@) == Option::Some(f@),
            Option::None => spec_param_field(p@) is None,
        },
{
    let name = match get_text_x(p, "name") {
        Some(n) => n,
        None => {
            return None;
        },
    };
    let schema = obj_get_ref(p, "schema");
    let ftype: String = match schema {
        Some(sc) => match get_text_x(sc, "type") {
            Some(t) => t,
            None => String::from_str("string"),
        },
        None => String::from_str("string"),
    };
    let is_req = match obj_get_ref(p, "required") {
        Some(v) => match v {
            JsonValue::Bool(b) => *b,
            _ => false,
        },
        None => false,
    };
    let example = match schema {
        Some(sc) => convert_example(obj_get_ref(sc, "example")),
        None => None,
    };
    let is_params = match get_text_x(p, "in") {
        Some(loc) => string_eq(&loc, "query") || string_eq(&loc, "path"),
        None => false,
    };
    let f = Field {
        name,
        field_type: convert_type(ftype.as_str()),
        optional: !is_req,
        nested: None,
        mock: None,
        example,
        comment: get_text_x(p, "description"),
        is_params,
    };
    proof {
        assert(spec_param_field(p@) matches Option::Some(sf) && f@ =~~= sf);
    }
    Some(f)
}

fn parameters_fields(params: &Vec<JsonValue>, i: usize) -> (r: Vec<Field>)
    requires
        i <= params@.len(),
    ensures
        crate::ast::view_field_list(r@) == spec_parameters(
            view_json_list(params@).skip(i as int),
        ),
    decreases params@.len() - i,
{
    let ghost pv = view_json_list(params@);
    proof {
        lemma_view_json_list(params@);
    }
    if i >= params.len() {
        let r: Vec<Field> = Vec::new();
        proof {
            assert(pv.skip(i as int) =~= Seq::<SpecJson>::empty());
        }
        return r;
    }
    proof {
        assert(pv.skip(i as int)[0] == pv[i as int]);
        assert(pv.skip(i as int).drop_first() =~= pv.skip(i + 1));
    }
    let mut rest = parameters_fields(params, i + 1);
    match param_field(&params[i]) {
        Some(f) => {
            let ghost fv = f@;
            let ghost restv = rest@;
            let mut out: Vec<Field> = Vec::new();
            out.push(f);
            out.append(&mut rest);
            proof {
                assert(out@ =~= seq![out@[0]] + restv);
                crate::ast::lemma_view_field_list_concat(seq![out@[0]], restv);
                crate::ast::lemma_view_field_list_single(out@[0]);
                assert(out@[0]@ == fv);
                assert(crate::ast::view_field_list(out@) =~= spec_parameters(
                    pv.skip(i as int),
                ));
            }
            out
        },
        None => rest,
    }
}

fn content_fields(holder: Option<&JsonValue>, depth: u32) -> (r: Vec<Field>)
    ensures
        crate::ast::view_field_list(r@) == spec_content_fields(
            match holder {
                Option::Some(h) => Option::Some(h@),
                Option::None => Option::None,
            },
            depth as nat,
        ),
{
    let h = match holder {
        Some(h) => h,
        None => {
            let r: Vec<Field> = Vec::new();
            return r;
        },
    };
    let content = match obj_get_ref(h, "content") {
        Some(c) => c,
        None => {
            let r: Vec<Field> = Vec::new();
            return r;
        },
    };
    let media = match obj_get_ref(content, "application/json") {
        Some(m) => m,
        None => {
            let r: Vec<Field> = Vec::new();
            return r;
        },
    };
    match obj_get_ref(media, "schema") {
        Some(schema) => schema_fields(schema, depth),
        None => {
            let r: Vec<Field> = Vec::new();
            r
        },
    }
}

fn pick_response<'a>(op: &'a JsonValue) -> (r: Option<&'a JsonValue>)
    ensures
        match r {
            Option::Some(v) => spec_pick_response(op@) == Option::Some(v@),
            Option::None => spec_pick_response(op@) is None,
        },
{
    let rs = match obj_get_ref(op, "responses") {
        Some(rs) => rs,
        None => {
            return None;
        },
    };
    match obj_get_ref(rs, "200") {
        Some(r) => Some(r),
        None => match obj_get_ref(rs, "201") {
            Some(r) => Some(r),
            None => obj_get_ref(rs, "default"),
        },
    }
}

/// Builds the method block for one OpenAPI operation.
pub fn op_method(mname: &String, op: &JsonValue, depth: u32) -> (r: MethodBlock)
    ensures
        r@ == spec_op_method(mname@, op@, depth as nat),
{
    let empty_params: Vec<JsonValue> = Vec::new();
    let params: &Vec<JsonValue> = match get_arr_ref(op, "parameters") {
        Some(v) => v,
        None => &empty_params,
    };
    let mut request_fields = parameters_fields(params, 0);
    let ghost pf = request_fields@;
    let mut body_fields = content_fields(obj_get_ref(op, "requestBody"), depth);
    let ghost bf = body_fields@;
    request_fields.append(&mut body_fields);
    proof {
        assert(request_fields@ =~= pf + bf);
        crate::ast::lemma_view_field_list_concat(pf, bf);
        assert(view_json_list(empty_params@) =~= Seq::<SpecJson>::empty());
        assert(view_json_list(params@).skip(0) =~= view_json_list(params@));
    }
    let response_fields = content_fields(pick_response(op), depth);
    let name = match get_text_x(op, "summary") {
        Some(t) => Some(t),
        None => get_text_x(op, "operationId"),
    };
    let request: Option<SchemaBlock> = if request_fields.len() == 0 {
        None
    } else {
        Some(SchemaBlock { fields: request_fields, optional: false })
    };
    let response: Option<SchemaBlock> = if response_fields.len() == 0 {
        None
    } else {
        Some(SchemaBlock { fields: response_fields, optional: false })
    };
    let r = MethodBlock {
        method: ascii_upper(mname.as_str()),
        name,
        description: get_text_x(op, "description"),
        request,
        response,
    };
    proof {
        assert(r@ =~~= spec_op_method(mname@, op@, depth as nat));
    }
    r
}

fn is_http_method(mu: &String) -> (r: bool)
    ensures
        r == spec_is_http_method(mu@),
{
    string_eq(mu, "GET") || string_eq(mu, "POST") || string_eq(mu, "PUT") || string_eq(
        mu,
        "DELETE",
    ) || string_eq(mu, "PATCH") || string_eq(mu, "HEAD") || string_eq(mu, "OPTIONS")
}

fn first_tag(op: &JsonValue) -> (r: Option<String>)
    ensures
        view_opt_string(r) == spec_first_tag(op@),
{
    match get_arr_ref(op, "tags") {
        Some(tags) => {
            proof {
                lemma_view_json_list(tags@);
            }
            if tags.len() > 0 {
                as_text_x(&tags[0])
            } else {
                None
            }
        },
        None => None,
    }
}

fn path_methods(
    mentries: &Vec<(String, JsonValue)>,
    i: usize,
    tag: Option<String>,
    depth: u32,
) -> (r: (Vec<MethodBlock>, Option<String>))
    requires
        i <= mentries@.len(),
    ensures
        ({
            let sp = spec_path_methods(
                view_json_entries(mentries@).skip(i as int),
                view_opt_string(tag),
                depth as nat,
            );
            &&& r.0@.map_values(|m: MethodBlock| m@) == sp.0
            &&& view_opt_string(r.1) == sp.1
        }),
    decreases mentries@.len() - i,
{
    let ghost mv_all = view_json_entries(mentries@);
    proof {
        lemma_view_json_entries(mentries@);
    }
    if i >= mentries.len() {
        let out: Vec<MethodBlock> = Vec::new();
        proof {
            assert(mv_all.skip(i as int) =~= Seq::<(Seq<char>, SpecJson)>::empty());
            assert(out@.map_values(|m: MethodBlock| m@) =~= Seq::<SpecMethodBlock>::empty());
        }
        return (out, tag);
    }
    proof {
        assert(mv_all.skip(i as int)[0] == mv_all[i as int]);
        assert(mv_all.skip(i as int).drop_first() =~= mv_all.skip(i + 1));
    }
    let mu = ascii_upper(mentries[i].0.as_str());
    if is_http_method(&mu) {
        let tag2: Option<String> = match tag {
            Some(t) => Some(t),
            None => first_tag(&mentries[i].1),
        };
        let m = op_method(&mentries[i].0, &mentries[i].1, depth);
        let ghost mv = m@;
        let (mut rest, tag_out) = path_methods(mentries, i + 1, tag2, depth);
        let ghost restv = rest@;
        let mut out: Vec<MethodBlock> = Vec::new();
        out.push(m);
        out.append(&mut rest);
        proof {
            assert(out@ =~= seq![out@[0]] + restv);
            assert(out@.map_values(|m: MethodBlock| m@) =~= seq![mv] + restv.map_values(
                |m: MethodBlock| m@,
            ));
        }
        (out, tag_out)
    } else {
        path_methods(mentries, i + 1, tag, depth)
    }
}

fn seq_lt(a: &String, b: &String) -> (r: bool)
    ensures
        r == spec_seq_lt(a@, b@),
{
    let an = a.as_str().unicode_len();
    let bn = b.as_str().unicode_len();
    let mut i: usize = 0;
    proof {
        assert(a@.skip(0) =~= a@);
        assert(b@.skip(0) =~= b@);
    }
    loop
        invariant
            i <= an,
            i <= bn,
            an == a@.len(),
            bn == b@.len(),
            spec_seq_lt(a@.skip(i as int), b@.skip(i as int)) == spec_seq_lt(a@, b@),
        decreases an - i,
    {
        if i >= bn {
            proof {
                assert(b@.skip(i as int) =~= Seq::<char>::empty());
            }
            return false;
        }
        if i >= an {
            proof {
                assert(a@.skip(i as int) =~= Seq::<char>::empty());
                assert(b@.skip(i as int).len() > 0);
            }
            return true;
        }
        let ca = a.as_str().get_char(i);
        let cb = b.as_str().get_char(i);
        proof {
            assert(a@.skip(i as int)[0] == a@[i as int]);
            assert(b@.skip(i as int)[0] == b@[i as int]);
            assert(a@.skip(i as int).drop_first() =~= a@.skip(i + 1));
            assert(b@.skip(i as int).drop_first() =~= b@.skip(i + 1));
        }
        if ca != cb {
            return (ca as u32) < (cb as u32);
        }
        i = i + 1;
    }
}

/// The model of a tag-group vector.
pub open spec fn view_groups(gs: Seq<(String, Vec<ApiBlock>)>) -> Seq<
    (Seq<char>, Seq<SpecApiBlock>),
> {
    gs.map_values(|g: (String, Vec<ApiBlock>)| (g.0@, g.1@.map_values(|a: ApiBlock| a@)))
}

fn insert_group(groups: Vec<(String, Vec<ApiBlock>)>, tag: String, api: ApiBlock) -> (r: Vec<
    (String, Vec<ApiBlock>),
>)
    ensures
        view_groups(r@) == spec_insert_group(view_groups(groups@), tag@, api@),
    decreases groups@.len(),
{
    let ghost gv = view_groups(groups@);
    let ghost av = api@;
    if groups.len() == 0 {
        let mut out: Vec<(String, Vec<ApiBlock>)> = Vec::new();
        let mut apis: Vec<ApiBlock> = Vec::new();
        apis.push(api);
        out.push((tag, apis));
        proof {
            assert(view_groups(out@) =~~= spec_insert_group(gv, tag@, av));
        }
        return out;
    }
    let mut gs = groups;
    let mut head = gs.remove(0);
    proof {
        assert(gs@ =~= groups@.drop_first());
        assert(view_groups(gs@) =~= gv.drop_first());
    }
    if string_eq(&head.0, tag.as_str()) {
        let ghost headv = (head.0@, head.1@.map_values(|a: ApiBlock| a@));
        head.1.push(api);
        proof {
            assert(head.1@.map_values(|a: ApiBlock| a@) =~= headv.1.push(av));
        }
        gs.insert(0, head);
        proof {
            assert(view_groups(gs@) =~~= spec_insert_group(gv, tag@, av));
        }
        gs
    } else if seq_lt(&tag, &head.0) {
        gs.insert(0, head);
        let mut apis: Vec<ApiBlock> = Vec::new();
        apis.push(api);
        gs.insert(0, (tag, apis));
        proof {
            assert(view_groups(gs@) =~~= spec_insert_group(gv, tag@, av));
        }
        gs
    } else {
        let mut rest = insert_group(gs, tag, api);
        rest.insert(0, head);
        proof {
            assert(view_groups(rest@) =~~= spec_insert_group(gv, tag@, av));
        }
        rest
    }
}

fn paths_fold(
    pentries: &Vec<(String, JsonValue)>,
    i: usize,
    groups: Vec<(String, Vec<ApiBlock>)>,
    untagged: Vec<ApiBlock>,
    depth: u32,
) -> (r: (Vec<(String, Vec<ApiBlock>)>, Vec<ApiBlock>))
    requires
        i <= pentries@.len(),
    ensures
        ({
            let sp = spec_paths_fold(
                view_json_entries(pentries@).skip(i as int),
                view_groups(groups@),
                untagged@.map_values(|a: ApiBlock| a@),
                depth as nat,
            );
            &&& view_groups(r.0@) == sp.0
            &&& r.1@.map_values(|a: ApiBlock| a@) == sp.1
        }),
    decreases pentries@.len() - i,
{
    let ghost pev = view_json_entries(pentries@);
    proof {
        lemma_view_json_entries(pentries@);
    }
    if i >= pentries.len() {
        proof {
            assert(pev.skip(i as int) =~= Seq::<(Seq<char>, SpecJson)>::empty());
        }
        return (groups, untagged);
    }
    proof {
        assert(pev.skip(i as int)[0] == pev[i as int]);
        assert(pev.skip(i as int).drop_first() =~= pev.skip(i + 1));
    }
    let empty_methods: Vec<(String, JsonValue)> = Vec::new();
    let mentries: &Vec<(String, JsonValue)> = match &pentries[i].1 {
        JsonValue::Obj(es) => es,
        _ => &empty_methods,
    };
    proof {
        assert(view_json_entries(mentries@) == spec_obj_entries(pev[i as int].1));
        assert(view_json_entries(mentries@).skip(0) =~= view_json_entries(mentries@));
    }
    let (methods, tag) = path_methods(mentries, 0, None, depth);
    if methods.len() == 0 {
        paths_fold(pentries, i + 1, groups, untagged, depth)
    } else {
        let api = ApiBlock { path: pentries[i].0.clone(), methods };
        let ghost apiv = api@;
        match tag {
            Some(t) => {
                let groups2 = insert_group(groups, t, api);
                paths_fold(pentries, i + 1, groups2, untagged, depth)
            },
            None => {
                let mut u2 = untagged;
                let ghost uv = u2@.map_values(|a: ApiBlock| a@);
                u2.push(api);
                proof {
                    assert(u2@.map_values(|a: ApiBlock| a@) =~= uv.push(apiv));
                }
                paths_fold(pentries, i + 1, groups, u2, depth)
            },
        }
    }
}

fn dashed_lower(t: &str) -> (r: String)
    ensures
        r@ == spec_dashed_lower(t@),
{
    let n = t.unicode_len();
    let mut out = String::new();
    let mut i: usize = 0;
    while i < n
        invariant
            i <= n,
            n == t@.len(),
            out@ =~= t@.subrange(0, i as int).map_values(
                |c: char|
                    {
                        let l = crate::parser::lower_char(c);
                        if l == ' ' {
                            '-'
                        } else {
                            l
                        }
                    },
            ),
        decreases n - i,
    {
        let l = crate::parser::lower_char_exec(t.get_char(i));
        if l == ' ' {
            out.push('-');
        } else {
            out.push(l);
        }
        i = i + 1;
        proof {
            assert(out@ =~= t@.subrange(0, i as int).map_values(
                |c: char|
                    {
                        let l = crate::parser::lower_char(c);
                        if l == ' ' {
                            '-'
                        } else {
                            l
                        }
                    },
            ));
        }
    }
    proof {
        assert(t@.subrange(0, n as int) =~= t@);
        assert(out@ =~= spec_dashed_lower(t@));
    }
    out
}

fn group_categories(groups: Vec<(String, Vec<ApiBlock>)>) -> (r: Vec<CategoryBlock>)
    ensures
        crate::ast::view_category_list(r@) == spec_group_categories(view_groups(groups@)),
    decreases groups@.len(),
{
    let ghost gv = view_groups(groups@);
    if groups.len() == 0 {
        let r: Vec<CategoryBlock> = Vec::new();
        proof {
            assert(crate::ast::view_category_list(r@) =~= spec_group_categories(gv));
        }
        return r;
    }
    let mut gs = groups;
    let head = gs.remove(0);
    proof {
        assert(view_groups(gs@) =~= gv.drop_first());
    }
    let mut id = String::from_str("openapi-");
    id.append(dashed_lower(head.0.as_str()).as_str());
    let cat = CategoryBlock {
        id,
        name: Some(head.0),
        desc: None,
        prefix: None,
        apis: head.1,
        ws_apis: Vec::new(),
        socketio_apis: Vec::new(),
        sse_apis: Vec::new(),
        children: Vec::new(),
    };
    let ghost catv = crate::ast::view_category(cat);
    proof {
        assert(catv =~~= spec_tag_category(gv[0].0, gv[0].1));
    }
    let mut rest = group_categories(gs);
    let ghost old_rest = rest@;
    proof {
        crate::ast::lemma_view_category_list(old_rest);
    }
    rest.insert(0, cat);
    proof {
        assert(rest@ =~= seq![rest@[0]] + old_rest);
        crate::ast::lemma_view_category_list(rest@);
        assert(rest@[0] == cat);
        assert forall|m: int| 0 <= m < rest@.len() implies crate::ast::view_category_list(
            rest@,
        )[m] == (seq![catv] + crate::ast::view_category_list(old_rest))[m] by {
            if m > 0 {
                assert(rest@[m] == old_rest[m - 1]);
            }
        }
        assert(crate::ast::view_category_list(rest@) =~= seq![catv]
            + crate::ast::view_category_list(old_rest));
        assert(crate::ast::view_category_list(rest@) =~= spec_group_categories(gv));
    }
    rest
}

/// Transforms an OpenAPI document tree into a document, exactly as the
/// model describes; `depth` bounds nested schema walking.
pub fn adapt_openapi(j: &JsonValue, depth: u32) -> (r: RqcConfig)
    ensures
        r@ == spec_adapt(j@, depth as nat),
{
    let config: Option<ConfigBlock> = match get_arr_ref(j, "servers") {
        Some(servers) => {
            proof {
                lemma_view_json_list(servers@);
            }
            if servers.len() > 0 {
                match get_text_x(&servers[0], "url") {
                    Some(u) => {
                        let mut base_urls: Vec<String> = Vec::new();
                        base_urls.push(u);
                        Some(ConfigBlock {
                            base_urls,
                            cors: false,
                            mock: false,
                            variables: Vec::new(),
                            headers: Vec::new(),
                        })
                    },
                    None => None,
                }
            } else {
                None
            }
        },
        None => None,
    };
    proof {
        assert(crate::ast::view_opt_config(config) =~~= spec_servers_config(j@));
    }
    let paths = match obj_get_ref(j, "paths") {
        Some(p) => p,
        None => {
            let r = RqcConfig {
                config,
                imports: Vec::new(),
                apis: Vec::new(),
                ws_apis: Vec::new(),
                socketio_apis: Vec::new(),
                sse_apis: Vec::new(),
                categories: Vec::new(),
            };
            proof {
                assert(r@ =~~= spec_adapt(j@, depth as nat));
            }
            return r;
        },
    };
    let empty_paths: Vec<(String, JsonValue)> = Vec::new();
    let pentries: &Vec<(String, JsonValue)> = match paths {
        JsonValue::Obj(es) => es,
        _ => &empty_paths,
    };
    proof {
        assert(view_json_entries(pentries@) == spec_obj_entries(paths@));
        assert(view_json_entries(pentries@).skip(0) =~= view_json_entries(pentries@));
    }
    let groups0: Vec<(String, Vec<ApiBlock>)> = Vec::new();
    let untagged0: Vec<ApiBlock> = Vec::new();
    proof {
        assert(view_groups(groups0@) =~= Seq::<(Seq<char>, Seq<SpecApiBlock>)>::empty());
        assert(untagged0@.map_values(|a: ApiBlock| a@) =~= Seq::<SpecApiBlock>::empty());
    }
    let (groups, untagged) = paths_fold(pentries, 0, groups0, untagged0, depth);
    let children = group_categories(groups);
    let top = CategoryBlock {
        id: String::from_str("openapi"),
        name: Some(String::from_str("OpenAPI")),
        desc: Some(String::from_str("Imported from OpenAPI specification")),
        prefix: None,
        apis: untagged,
        ws_apis: Vec::new(),
        socketio_apis: Vec::new(),
        sse_apis: Vec::new(),
        children,
    };
    let ghost folded = spec_paths_fold(
        spec_obj_entries(paths@),
        Seq::empty(),
        Seq::empty(),
        depth as nat,
    );
    let ghost topv = crate::ast::view_category(top);
    proof {
        assert(topv =~~= SpecCategoryBlock {
            id: "openapi"@,
            name: Option::Some("OpenAPI"@),
            desc: Option::Some("Imported from OpenAPI specification"@),
            prefix: Option::None,
            apis: folded.1,
            ws_apis: Seq::empty(),
            socketio_apis: Seq::empty(),
            sse_apis: Seq::empty(),
            children: spec_group_categories(folded.0),
        });
    }
    let mut categories: Vec<CategoryBlock> = Vec::new();
    categories.push(top);
    let r = RqcConfig {
        config,
        imports: Vec::new(),
        apis: Vec::new(),
        ws_apis: Vec::new(),
        socketio_apis: Vec::new(),
        sse_apis: Vec::new(),
        categories,
    };
    proof {
        crate::ast::lemma_view_category_list(r.categories@);
        assert(crate::ast::view_category_list(r.categories@) =~= seq![topv]);
        assert(r@ =~~= spec_adapt(j@, depth as nat));
    }
    r
}

/// The document an OpenAPI text adapts to in the named format, if its text
/// parses at all.
pub open spec fn spec_openapi_document(s: Seq<char>, ext: Seq<char>) -> Option<SpecRqcConfig> {
    match spec_openapi_tree(s, ext) {
        Option::Some(t) => Option::Some(spec_adapt(t, 200)),
        Option::None => Option::None,
    }
}

/// Parses OpenAPI text and adapts it into a document: it succeeds exactly
/// when the text deserializes in the named format, and then returns the
/// faithful adaptation of the parsed tree.
pub fn parse_openapi_content(content: &str, ext: &str) -> (r: Result<RqcConfig, ParseError>)
    ensures
        r is Ok <==> spec_openapi_document(content@, ext@) is Some,
        r matches Ok(c) ==> Option::Some(c@) == spec_openapi_document(content@, ext@),
        r matches Err(e) ==> e@ == crate::parser::SpecParseError::IoError(
            "failed to parse OpenAPI content"@,
        ),
{
    match parse_openapi_json(content, ext) {
        Some(j) => {
            let c = adapt_openapi(&j, 200);
            Ok(c)
        },
        None => Err(ParseError::IoError(String::from_str("failed to parse OpenAPI content"))),
    }
}

// ---------------------------------------------------------------------------
// Remote specification helpers
// ---------------------------------------------------------------------------

/// Whether a path names a remote specification.
pub open spec fn spec_is_url(s: Seq<char>) -> bool {
    crate::resolve::spec_starts_with(s, "http://"@) || crate::resolve::spec_starts_with(
        s,
        "https://"@,
    )
}

/// Checks whether a path is an `http` or `https` URL.
pub fn is_url(path: &str) -> (r: bool)
    ensures
        r == spec_is_url(path@),
{
    crate::resolve::str_starts_with(path, "http://") || crate::resolve::str_starts_with(
        path,
        "https://",
    )
}

/// Whether `p` occurs anywhere inside `s`.
pub open spec fn spec_contains(s: Seq<char>, p: Seq<char>) -> bool {
    exists|i: int| 0 <= i <= s.len() - p.len() && #[trigger] s.subrange(i, i + p.len()) == p
}

fn str_contains(s: &str, p: &str) -> (r: bool)
    ensures
        r == spec_contains(s@, p@),
{
    let n = s.unicode_len();
    let m = p.unicode_len();
    if m > n {
        proof {
            assert(!spec_contains(s@, p@));
        }
        return false;
    }
    let mut i: usize = 0;
    while i <= n - m
        invariant
            m <= n,
            n == s@.len(),
            m == p@.len(),
            i <= n - m + 1,
            forall|x: int| 0 <= x < i ==> #[trigger] s@.subrange(x, x + p@.len()) != p@,
        decreases n - i,
    {
        let mut j: usize = 0;
        let mut matched = true;
        while j < m
            invariant
                i + m <= n,
                n == s@.len(),
                m == p@.len(),
                j <= m,
                matched == (forall|y: int| 0 <= y < j ==> s@[i + y] == p@[y]),
            decreases m - j,
        {
            if s.get_char(i + j) != p.get_char(j) {
                matched = false;
                proof {
                    assert(s@[i + j] != p@[j as int]);
                }
                break;
            }
            j = j + 1;
        }
        if matched {
            proof {
                assert(s@.subrange(i as int, i + p@.len()) =~= p@);
            }
            return true;
        }
        proof {
            assert(s@.subrange(i as int, i + p@.len()) != p@);
        }
        i = i + 1;
    }
    proof {
        assert(!spec_contains(s@, p@));
    }
    false
}

/// The format a remote specification is read in: from the `Content-Type`
/// header where it names one, else from the URL's suffix after its last
/// dot (or the whole URL when it has none).
pub open spec fn spec_sniff_format(content_type: Seq<char>, url: Seq<char>) -> Seq<char> {
    if spec_contains(content_type, "yaml"@) || spec_contains(content_type, "yml"@) {
        "yaml"@
    } else if spec_contains(content_type, "json"@) {
        "json"@
    } else {
        spec_url_suffix(url)
    }
}

/// Sniffs the format of a fetched specification.
pub fn sniff_format(content_type: &str, url: &str) -> (r: String)
    ensures
        r@ == spec_sniff_format(content_type@, url@),
{
    if str_contains(content_type, "yaml") || str_contains(content_type, "yml") {
        String::from_str("yaml")
    } else if str_contains(content_type, "json") {
        String::from_str("json")
    } else {
        url_suffix(url)
    }
}

/// The part of a URL after its last dot, or the whole URL when it has none.
pub open spec fn spec_url_suffix(u: Seq<char>) -> Seq<char> {
    let k = crate::resolve::last_dot_idx(u, u.len() as int);
    if k < 0 {
        u
    } else {
        u.subrange(k + 1, u.len() as int)
    }
}

/// The part of a URL after its last dot, or the whole URL.
pub fn url_suffix(url: &str) -> (r: String)
    ensures
        r@ == spec_url_suffix(url@),
{
    let n = url.unicode_len();
    let mut k: usize = n;
    loop
        invariant
            k <= n,
            n == url@.len(),
            crate::resolve::last_dot_idx(url@, k as int) == crate::resolve::last_dot_idx(
                url@,
                n as int,
            ),
        decreases k,
    {
        if k > 0 {
            if url.get_char(k - 1) == '.' {
                break;
            }
            k = k - 1;
        } else {
            break;
        }
    }
    if k == 0 {
        String::from_str(url)
    } else {
        let mut out: Vec<char> = Vec::new();
        let mut i: usize = k;
        while i < n
            invariant
                k <= i <= n,
                n == url@.len(),
                out@ =~= url@.subrange(k as int, i as int),
            decreases n - i,
        {
            out.push(url.get_char(i));
            i = i + 1;
        }
        string_from_chars(&out)
    }
}
} // verus!
