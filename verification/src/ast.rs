//! The typed document tree that the parser and the OpenAPI adapter produce
//! and that the projection engine consumes, together with its mathematical
//! model: every executable type has a ghost mirror over `Seq` and `Seq<char>`
//! reached through `@`.

use vstd::prelude::*;

verus! {

// ---------------------------------------------------------------------------
// Executable types
// ---------------------------------------------------------------------------

/// The field types the schema language distinguishes.
#[derive(Debug, Clone, Copy, PartialEq, Eq, Structural)]
pub enum FieldType {
    String,
    Number,
    Boolean,
    Array,
    Object,
}

/// A literal mock or example value. Numbers keep their decimal source text,
/// so the tree stays free of machine floating point.
#[derive(Debug, PartialEq)]
pub enum MockValue {
    String(String),
    Number(String),
    Boolean(bool),
}

/// One field of a request or response schema.
#[derive(Debug, PartialEq)]
pub struct Field {
    pub name: String,
    pub field_type: FieldType,
    pub optional: bool,
    pub nested: Option<Box<SchemaBlock>>,
    pub mock: Option<MockValue>,
    pub example: Option<MockValue>,
    pub comment: Option<String>,
    pub is_params: bool,
}

/// An ordered field list; `optional` marks the whole block as optional.
#[derive(Debug, PartialEq)]
pub struct SchemaBlock {
    pub fields: Vec<Field>,
    pub optional: bool,
}

/// One HTTP verb inside an `api` block.
#[derive(Debug, PartialEq)]
pub struct MethodBlock {
    pub method: String,
    pub name: Option<String>,
    pub description: Option<String>,
    pub request: Option<SchemaBlock>,
    pub response: Option<SchemaBlock>,
}

/// An `api` block: a path and its method blocks.
#[derive(Debug, PartialEq)]
pub struct ApiBlock {
    pub path: String,
    pub methods: Vec<MethodBlock>,
}

/// One named event of a WebSocket or Socket-style block.
#[derive(Debug, PartialEq)]
pub struct WsEvent {
    pub name: String,
    pub request: Option<SchemaBlock>,
    pub response: Option<SchemaBlock>,
}

/// A `ws` or `socketio` block.
#[derive(Debug, PartialEq)]
pub struct WsBlock {
    pub url: String,
    pub events: Vec<WsEvent>,
    pub name: Option<String>,
    pub description: Option<String>,
    pub auth: Option<SchemaBlock>,
    pub connect_headers: Option<SchemaBlock>,
}

/// One named sub-event of a Server-Sent-Events block.
#[derive(Debug, PartialEq)]
pub struct SseEvent {
    pub name: String,
    pub fields: Vec<Field>,
}

/// A Server-Sent-Events block.
#[derive(Debug, PartialEq)]
pub struct SseBlock {
    pub path: String,
    pub name: Option<String>,
    pub description: Option<String>,
    pub request: Option<SchemaBlock>,
    pub events: Vec<SseEvent>,
}

/// A named, nestable grouping of endpoints contributing a path prefix.
#[derive(Debug, PartialEq)]
pub struct CategoryBlock {
    pub id: String,
    pub name: Option<String>,
    pub desc: Option<String>,
    pub prefix: Option<String>,
    pub apis: Vec<ApiBlock>,
    pub ws_apis: Vec<WsBlock>,
    pub socketio_apis: Vec<WsBlock>,
    pub sse_apis: Vec<SseBlock>,
    pub children: Vec<CategoryBlock>,
}

/// A variable definition inside the settings block.
#[derive(Debug, PartialEq)]
pub struct VariableDefinition {
    pub name: String,
    pub var_type: String,
    pub default_value: Option<String>,
}

/// A header definition inside the settings block.
#[derive(Debug, PartialEq)]
pub struct HeaderDefinition {
    pub name: String,
    pub default_value: Option<String>,
}

/// The top-level settings block.
#[derive(Debug, PartialEq)]
pub struct ConfigBlock {
    pub base_urls: Vec<String>,
    pub cors: bool,
    pub mock: bool,
    pub variables: Vec<VariableDefinition>,
    pub headers: Vec<HeaderDefinition>,
}

/// One parsed document: optional settings, pending imports, and the ordered
/// endpoint lists and category forest.
#[derive(Debug, PartialEq)]
pub struct RqcConfig {
    pub config: Option<ConfigBlock>,
    pub imports: Vec<String>,
    pub apis: Vec<ApiBlock>,
    pub ws_apis: Vec<WsBlock>,
    pub socketio_apis: Vec<WsBlock>,
    pub sse_apis: Vec<SseBlock>,
    pub categories: Vec<CategoryBlock>,
}

/// The kind of a flattened endpoint descriptor.
#[derive(Debug, Clone, Copy, PartialEq, Eq, Structural)]
pub enum EndpointType {
    Http,
    Websocket,
    Socketio,
    Sse,
}

/// A flattened endpoint descriptor, one row of the linear projection.
#[derive(Debug, PartialEq)]
pub struct ApiEndpoint {
    pub id: String,
    pub endpoint_type: EndpointType,
    pub path: String,
    pub full_url: Option<String>,
    pub method: Option<String>,
    pub name: Option<String>,
    pub description: Option<String>,
    pub request: Option<SchemaBlock>,
    pub response: Option<SchemaBlock>,
    pub events: Option<Vec<WsEvent>>,
    pub sse_events: Option<Vec<SseEvent>>,
    pub auth: Option<SchemaBlock>,
    pub connect_headers: Option<SchemaBlock>,
    pub category_id: Option<String>,
    pub category_name: Option<String>,
}

/// One node of the category summary tree.
#[derive(Debug, PartialEq)]
pub struct CategoryInfo {
    pub id: String,
    pub name: Option<String>,
    pub desc: Option<String>,
    pub endpoint_count: usize,
    pub children: Vec<CategoryInfo>,
}

/// Summary data about a loaded configuration, for external consumers.
#[derive(Debug, PartialEq)]
pub struct ApiInfo {
    pub name: String,
    pub version: String,
    pub base_urls: Vec<String>,
    pub endpoint_count: usize,
    pub mock_mode: bool,
    pub cors_mode: bool,
}

// ---------------------------------------------------------------------------
// Ghost mirrors
// ---------------------------------------------------------------------------

#[verifier::ext_equal]
pub ghost enum SpecMockValue {
    String(Seq<char>),
    Number(Seq<char>),
    Boolean(bool),
}

#[verifier::ext_equal]
pub ghost struct SpecField {
    pub name: Seq<char>,
    pub field_type: FieldType,
    pub optional: bool,
    pub nested: Option<Box<SpecSchemaBlock>>,
    pub mock: Option<SpecMockValue>,
    pub example: Option<SpecMockValue>,
    pub comment: Option<Seq<char>>,
    pub is_params: bool,
}

#[verifier::ext_equal]
pub ghost struct SpecSchemaBlock {
    pub fields: Seq<SpecField>,
    pub optional: bool,
}

#[verifier::ext_equal]
pub ghost struct SpecMethodBlock {
    pub method: Seq<char>,
    pub name: Option<Seq<char>>,
    pub description: Option<Seq<char>>,
    pub request: Option<SpecSchemaBlock>,
    pub response: Option<SpecSchemaBlock>,
}

#[verifier::ext_equal]
pub ghost struct SpecApiBlock {
    pub path: Seq<char>,
    pub methods: Seq<SpecMethodBlock>,
}

#[verifier::ext_equal]
pub ghost struct SpecWsEvent {
    pub name: Seq<char>,
    pub request: Option<SpecSchemaBlock>,
    pub response: Option<SpecSchemaBlock>,
}

#[verifier::ext_equal]
pub ghost struct SpecWsBlock {
    pub url: Seq<char>,
    pub events: Seq<SpecWsEvent>,
    pub name: Option<Seq<char>>,
    pub description: Option<Seq<char>>,
    pub auth: Option<SpecSchemaBlock>,
    pub connect_headers: Option<SpecSchemaBlock>,
}

#[verifier::ext_equal]
pub ghost struct SpecSseEvent {
    pub name: Seq<char>,
    pub fields: Seq<SpecField>,
}

#[verifier::ext_equal]
pub ghost struct SpecSseBlock {
    pub path: Seq<char>,
    pub name: Option<Seq<char>>,
    pub description: Option<Seq<char>>,
    pub request: Option<SpecSchemaBlock>,
    pub events: Seq<SpecSseEvent>,
}

#[verifier::ext_equal]
pub ghost struct SpecCategoryBlock {
    pub id: Seq<char>,
    pub name: Option<Seq<char>>,
    pub desc: Option<Seq<char>>,
    pub prefix: Option<Seq<char>>,
    pub apis: Seq<SpecApiBlock>,
    pub ws_apis: Seq<SpecWsBlock>,
    pub socketio_apis: Seq<SpecWsBlock>,
    pub sse_apis: Seq<SpecSseBlock>,
    pub children: Seq<SpecCategoryBlock>,
}

#[verifier::ext_equal]
pub ghost struct SpecVariableDefinition {
    pub name: Seq<char>,
    pub var_type: Seq<char>,
    pub default_value: Option<Seq<char>>,
}

#[verifier::ext_equal]
pub ghost struct SpecHeaderDefinition {
    pub name: Seq<char>,
    pub default_value: Option<Seq<char>>,
}

#[verifier::ext_equal]
pub ghost struct SpecConfigBlock {
    pub base_urls: Seq<Seq<char>>,
    pub cors: bool,
    pub mock: bool,
    pub variables: Seq<SpecVariableDefinition>,
    pub headers: Seq<SpecHeaderDefinition>,
}

#[verifier::ext_equal]
pub ghost struct SpecRqcConfig {
    pub config: Option<SpecConfigBlock>,
    pub imports: Seq<Seq<char>>,
    pub apis: Seq<SpecApiBlock>,
    pub ws_apis: Seq<SpecWsBlock>,
    pub socketio_apis: Seq<SpecWsBlock>,
    pub sse_apis: Seq<SpecSseBlock>,
    pub categories: Seq<SpecCategoryBlock>,
}

#[verifier::ext_equal]
pub ghost struct SpecApiEndpoint {
    pub id: Seq<char>,
    pub endpoint_type: EndpointType,
    pub path: Seq<char>,
    pub full_url: Option<Seq<char>>,
    pub method: Option<Seq<char>>,
    pub name: Option<Seq<char>>,
    pub description: Option<Seq<char>>,
    pub request: Option<SpecSchemaBlock>,
    pub response: Option<SpecSchemaBlock>,
    pub events: Option<Seq<SpecWsEvent>>,
    pub sse_events: Option<Seq<SpecSseEvent>>,
    pub auth: Option<SpecSchemaBlock>,
    pub connect_headers: Option<SpecSchemaBlock>,
    pub category_id: Option<Seq<char>>,
    pub category_name: Option<Seq<char>>,
}

#[verifier::ext_equal]
pub ghost struct SpecCategoryInfo {
    pub id: Seq<char>,
    pub name: Option<Seq<char>>,
    pub desc: Option<Seq<char>>,
    pub endpoint_count: nat,
    pub children: Seq<SpecCategoryInfo>,
}

// ---------------------------------------------------------------------------
// Views
// ---------------------------------------------------------------------------

pub open spec fn view_opt_string(o: Option<String>) -> Option<Seq<char>> {
    match o {
        Option::Some(s) => Option::Some(s@),
        Option::None => Option::None,
    }
}

pub open spec fn view_string_list(v: Seq<String>) -> Seq<Seq<char>> {
    v.map_values(|s: String| s@)
}

impl View for MockValue {
    type V = SpecMockValue;

    open spec fn view(&self) -> SpecMockValue {
        match self {
            MockValue::String(s) => SpecMockValue::String(s@),
            MockValue::Number(s) => SpecMockValue::Number(s@),
            MockValue::Boolean(b) => SpecMockValue::Boolean(*b),
        }
    }
}

pub open spec fn view_opt_mock(o: Option<MockValue>) -> Option<SpecMockValue> {
    match o {
        Option::Some(m) => Option::Some(m@),
        Option::None => Option::None,
    }
}

pub open spec fn view_field(f: Field) -> SpecField
    decreases f,
{
    SpecField {
        name: f.name@,
        field_type: f.field_type,
        optional: f.optional,
        nested: match f.nested {
            Option::Some(b) => Option::Some(Box::new(view_schema(*b))),
            Option::None => Option::None,
        },
        mock: view_opt_mock(f.mock),
        example: view_opt_mock(f.example),
        comment: view_opt_string(f.comment),
        is_params: f.is_params,
    }
}

pub open spec fn view_field_list(fs: Seq<Field>) -> Seq<SpecField>
    decreases fs,
{
    if fs.len() == 0 {
        Seq::empty()
    } else {
        seq![view_field(fs[0])] + view_field_list(fs.drop_first())
    }
}

pub open spec fn view_schema(s: SchemaBlock) -> SpecSchemaBlock
    decreases s,
{
    SpecSchemaBlock { fields: view_field_list(s.fields@), optional: s.optional }
}

pub proof fn lemma_view_field_list(fs: Seq<Field>)
    ensures
        view_field_list(fs).len() == fs.len(),
        forall|i: int|
            0 <= i < fs.len() ==> view_field_list(fs)[i] == view_field(#[trigger] fs[i]),
    decreases fs,
{
    if fs.len() > 0 {
        lemma_view_field_list(fs.drop_first());
        assert forall|i: int| 0 <= i < fs.len() implies view_field_list(fs)[i] == view_field(
            #[trigger] fs[i],
        ) by {
            if i > 0 {
                assert(fs.drop_first()[i - 1] == fs[i]);
            }
        }
    }
}

impl View for SchemaBlock {
    type V = SpecSchemaBlock;

    open spec fn view(&self) -> SpecSchemaBlock {
        view_schema(*self)
    }
}

impl View for Field {
    type V = SpecField;

    open spec fn view(&self) -> SpecField {
        view_field(*self)
    }
}

pub open spec fn view_opt_schema(o: Option<SchemaBlock>) -> Option<SpecSchemaBlock> {
    match o {
        Option::Some(s) => Option::Some(view_schema(s)),
        Option::None => Option::None,
    }
}

impl View for MethodBlock {
    type V = SpecMethodBlock;

    open spec fn view(&self) -> SpecMethodBlock {
        SpecMethodBlock {
            method: self.method@,
            name: view_opt_string(self.name),
            description: view_opt_string(self.description),
            request: view_opt_schema(self.request),
            response: view_opt_schema(self.response),
        }
    }
}

impl View for ApiBlock {
    type V = SpecApiBlock;

    open spec fn view(&self) -> SpecApiBlock {
        SpecApiBlock {
            path: self.path@,
            methods: self.methods@.map_values(|m: MethodBlock| m@),
        }
    }
}

impl View for WsEvent {
    type V = SpecWsEvent;

    open spec fn view(&self) -> SpecWsEvent {
        SpecWsEvent {
            name: self.name@,
            request: view_opt_schema(self.request),
            response: view_opt_schema(self.response),
        }
    }
}

impl View for WsBlock {
    type V = SpecWsBlock;

    open spec fn view(&self) -> SpecWsBlock {
        SpecWsBlock {
            url: self.url@,
            events: self.events@.map_values(|e: WsEvent| e@),
            name: view_opt_string(self.name),
            description: view_opt_string(self.description),
            auth: view_opt_schema(self.auth),
            connect_headers: view_opt_schema(self.connect_headers),
        }
    }
}

impl View for SseEvent {
    type V = SpecSseEvent;

    open spec fn view(&self) -> SpecSseEvent {
        SpecSseEvent { name: self.name@, fields: view_field_list(self.fields@) }
    }
}

impl View for SseBlock {
    type V = SpecSseBlock;

    open spec fn view(&self) -> SpecSseBlock {
        SpecSseBlock {
            path: self.path@,
            name: view_opt_string(self.name),
            description: view_opt_string(self.description),
            request: view_opt_schema(self.request),
            events: self.events@.map_values(|e: SseEvent| e@),
        }
    }
}

pub open spec fn view_category(c: CategoryBlock) -> SpecCategoryBlock
    decreases c,
{
    SpecCategoryBlock {
        id: c.id@,
        name: view_opt_string(c.name),
        desc: view_opt_string(c.desc),
        prefix: view_opt_string(c.prefix),
        apis: c.apis@.map_values(|a: ApiBlock| a@),
        ws_apis: c.ws_apis@.map_values(|w: WsBlock| w@),
        socketio_apis: c.socketio_apis@.map_values(|w: WsBlock| w@),
        sse_apis: c.sse_apis@.map_values(|s: SseBlock| s@),
        children: view_category_list(c.children@),
    }
}

pub open spec fn view_category_list(cs: Seq<CategoryBlock>) -> Seq<SpecCategoryBlock>
    decreases cs,
{
    if cs.len() == 0 {
        Seq::empty()
    } else {
        seq![view_category(cs[0])] + view_category_list(cs.drop_first())
    }
}

pub proof fn lemma_view_category_list(cs: Seq<CategoryBlock>)
    ensures
        view_category_list(cs).len() == cs.len(),
        forall|i: int|
            0 <= i < cs.len() ==> view_category_list(cs)[i] == view_category(#[trigger] cs[i]),
    decreases cs,
{
    if cs.len() > 0 {
        lemma_view_category_list(cs.drop_first());
        assert forall|i: int| 0 <= i < cs.len() implies view_category_list(cs)[i] == view_category(
            #[trigger] cs[i],
        ) by {
            if i > 0 {
                assert(cs.drop_first()[i - 1] == cs[i]);
            }
        }
    }
}

/// A field list's view distributes over concatenation.
pub proof fn lemma_view_field_list_concat(a: Seq<Field>, b: Seq<Field>)
    ensures
        view_field_list(a + b) == view_field_list(a) + view_field_list(b),
    decreases a.len(),
{
    if a.len() == 0 {
        assert(a + b =~= b);
        assert(view_field_list(a + b) =~= view_field_list(a) + view_field_list(b));
    } else {
        assert((a + b).drop_first() =~= a.drop_first() + b);
        lemma_view_field_list_concat(a.drop_first(), b);
        assert((a + b)[0] == a[0]);
        assert(view_field_list(a + b) =~= view_field_list(a) + view_field_list(b));
    }
}

/// The view of a one-field list.
pub proof fn lemma_view_field_list_single(f: Field)
    ensures
        view_field_list(seq![f]) == seq![view_field(f)],
{
    assert(seq![f].drop_first() =~= Seq::<Field>::empty());
    assert(view_field_list(Seq::<Field>::empty()) == Seq::<SpecField>::empty());
    assert(seq![f][0] == f);
    assert(view_field_list(seq![f]) =~= seq![view_field(f)]);
}

/// Lists of fields with pointwise-equal views have equal view lists.
pub proof fn lemma_view_field_list_congruence(a: Seq<Field>, b: Seq<Field>)
    requires
        a.len() == b.len(),
        forall|i: int| 0 <= i < a.len() ==> #[trigger] a[i]@ == b[i]@,
    ensures
        view_field_list(a) == view_field_list(b),
    decreases a,
{
    if a.len() > 0 {
        assert forall|i: int| 0 <= i < a.drop_first().len() implies #[trigger] a.drop_first()[i]@
            == b.drop_first()[i]@ by {
            assert(a.drop_first()[i] == a[i + 1]);
            assert(b.drop_first()[i] == b[i + 1]);
        }
        lemma_view_field_list_congruence(a.drop_first(), b.drop_first());
        assert(a[0]@ == b[0]@);
        assert(view_field_list(a) =~= view_field_list(b));
    } else {
        assert(view_field_list(a) =~= view_field_list(b));
    }
}

/// Lists of categories with pointwise-equal views have equal view lists.
pub proof fn lemma_view_category_list_congruence(a: Seq<CategoryBlock>, b: Seq<CategoryBlock>)
    requires
        a.len() == b.len(),
        forall|i: int| 0 <= i < a.len() ==> #[trigger] a[i]@ == b[i]@,
    ensures
        view_category_list(a) == view_category_list(b),
    decreases a,
{
    if a.len() > 0 {
        assert forall|i: int| 0 <= i < a.drop_first().len() implies #[trigger] a.drop_first()[i]@
            == b.drop_first()[i]@ by {
            assert(a.drop_first()[i] == a[i + 1]);
            assert(b.drop_first()[i] == b[i + 1]);
        }
        lemma_view_category_list_congruence(a.drop_first(), b.drop_first());
        assert(a[0]@ == b[0]@);
        assert(view_category_list(a) =~= view_category_list(b));
    } else {
        assert(view_category_list(a) =~= view_category_list(b));
    }
}

/// Appending a field appends its view.
pub proof fn lemma_view_field_list_push(fs: Seq<Field>, f: Field)
    ensures
        view_field_list(fs.push(f)) == view_field_list(fs).push(view_field(f)),
    decreases fs.len(),
{
    if fs.len() == 0 {
        assert(fs.push(f).drop_first() =~= Seq::<Field>::empty());
        assert(fs.push(f)[0] == f);
        assert(view_field_list(fs.push(f).drop_first()) == Seq::<SpecField>::empty());
        assert(view_field_list(fs.push(f)) == seq![view_field(f)] + Seq::<SpecField>::empty());
        assert(view_field_list(fs) == Seq::<SpecField>::empty());
        assert(view_field_list(fs.push(f)) =~= view_field_list(fs).push(view_field(f)));
    } else {
        assert(fs.push(f).drop_first() =~= fs.drop_first().push(f));
        lemma_view_field_list_push(fs.drop_first(), f);
        assert(fs.push(f)[0] == fs[0]);
        assert((seq![view_field(fs[0])] + view_field_list(fs.drop_first())).push(view_field(f))
            =~= seq![view_field(fs[0])] + view_field_list(fs.drop_first()).push(view_field(f)));
        assert(view_field_list(fs.push(f)) =~= view_field_list(fs).push(view_field(f)));
    }
}

/// Appending a category appends its view.
pub proof fn lemma_view_category_list_push(cs: Seq<CategoryBlock>, c: CategoryBlock)
    ensures
        view_category_list(cs.push(c)) == view_category_list(cs).push(view_category(c)),
    decreases cs.len(),
{
    if cs.len() == 0 {
        assert(cs.push(c).drop_first() =~= Seq::<CategoryBlock>::empty());
        assert(cs.push(c)[0] == c);
        assert(view_category_list(cs.push(c).drop_first()) == Seq::<SpecCategoryBlock>::empty());
        assert(view_category_list(cs.push(c)) == seq![view_category(c)]
            + Seq::<SpecCategoryBlock>::empty());
        assert(view_category_list(cs) == Seq::<SpecCategoryBlock>::empty());
        assert(view_category_list(cs.push(c)) =~= view_category_list(cs).push(view_category(c)));
    } else {
        assert(cs.push(c).drop_first() =~= cs.drop_first().push(c));
        lemma_view_category_list_push(cs.drop_first(), c);
        assert(cs.push(c)[0] == cs[0]);
        assert((seq![view_category(cs[0])] + view_category_list(cs.drop_first())).push(
            view_category(c),
        ) =~= seq![view_category(cs[0])] + view_category_list(cs.drop_first()).push(
            view_category(c),
        ));
        assert(view_category_list(cs.push(c)) =~= view_category_list(cs).push(view_category(c)));
    }
}

impl View for CategoryBlock {
    type V = SpecCategoryBlock;

    open spec fn view(&self) -> SpecCategoryBlock {
        view_category(*self)
    }
}

impl View for VariableDefinition {
    type V = SpecVariableDefinition;

    open spec fn view(&self) -> SpecVariableDefinition {
        SpecVariableDefinition {
            name: self.name@,
            var_type: self.var_type@,
            default_value: view_opt_string(self.default_value),
        }
    }
}

impl View for HeaderDefinition {
    type V = SpecHeaderDefinition;

    open spec fn view(&self) -> SpecHeaderDefinition {
        SpecHeaderDefinition {
            name: self.name@,
            default_value: view_opt_string(self.default_value),
        }
    }
}

impl View for ConfigBlock {
    type V = SpecConfigBlock;

    open spec fn view(&self) -> SpecConfigBlock {
        SpecConfigBlock {
            base_urls: view_string_list(self.base_urls@),
            cors: self.cors,
            mock: self.mock,
            variables: self.variables@.map_values(|v: VariableDefinition| v@),
            headers: self.headers@.map_values(|h: HeaderDefinition| h@),
        }
    }
}

pub open spec fn view_opt_config(o: Option<ConfigBlock>) -> Option<SpecConfigBlock> {
    match o {
        Option::Some(c) => Option::Some(c@),
        Option::None => Option::None,
    }
}

impl View for RqcConfig {
    type V = SpecRqcConfig;

    open spec fn view(&self) -> SpecRqcConfig {
        SpecRqcConfig {
            config: view_opt_config(self.config),
            imports: view_string_list(self.imports@),
            apis: self.apis@.map_values(|a: ApiBlock| a@),
            ws_apis: self.ws_apis@.map_values(|w: WsBlock| w@),
            socketio_apis: self.socketio_apis@.map_values(|w: WsBlock| w@),
            sse_apis: self.sse_apis@.map_values(|s: SseBlock| s@),
            categories: view_category_list(self.categories@),
        }
    }
}

impl View for ApiEndpoint {
    type V = SpecApiEndpoint;

    open spec fn view(&self) -> SpecApiEndpoint {
        SpecApiEndpoint {
            id: self.id@,
            endpoint_type: self.endpoint_type,
            path: self.path@,
            full_url: view_opt_string(self.full_url),
            method: view_opt_string(self.method),
            name: view_opt_string(self.name),
            description: view_opt_string(self.description),
            request: view_opt_schema(self.request),
            response: view_opt_schema(self.response),
            events: match self.events {
                Option::Some(es) => Option::Some(es@.map_values(|e: WsEvent| e@)),
                Option::None => Option::None,
            },
            sse_events: match self.sse_events {
                Option::Some(es) => Option::Some(es@.map_values(|e: SseEvent| e@)),
                Option::None => Option::None,
            },
            auth: view_opt_schema(self.auth),
            connect_headers: view_opt_schema(self.connect_headers),
            category_id: view_opt_string(self.category_id),
            category_name: view_opt_string(self.category_name),
        }
    }
}

pub open spec fn view_category_info(c: CategoryInfo) -> SpecCategoryInfo
    decreases c,
{
    SpecCategoryInfo {
        id: c.id@,
        name: view_opt_string(c.name),
        desc: view_opt_string(c.desc),
        endpoint_count: c.endpoint_count as nat,
        children: view_category_info_list(c.children@),
    }
}

pub open spec fn view_category_info_list(cs: Seq<CategoryInfo>) -> Seq<SpecCategoryInfo>
    decreases cs,
{
    if cs.len() == 0 {
        Seq::empty()
    } else {
        seq![view_category_info(cs[0])] + view_category_info_list(cs.drop_first())
    }
}

pub proof fn lemma_view_category_info_list(cs: Seq<CategoryInfo>)
    ensures
        view_category_info_list(cs).len() == cs.len(),
        forall|i: int|
            0 <= i < cs.len() ==> view_category_info_list(cs)[i] == view_category_info(
                #[trigger] cs[i],
            ),
    decreases cs,
{
    if cs.len() > 0 {
        lemma_view_category_info_list(cs.drop_first());
        assert forall|i: int| 0 <= i < cs.len() implies view_category_info_list(cs)[i]
            == view_category_info(#[trigger] cs[i]) by {
            if i > 0 {
                assert(cs.drop_first()[i - 1] == cs[i]);
            }
        }
    }
}

/// Lists of category summaries with pointwise-equal views have equal view lists.
pub proof fn lemma_view_category_info_list_congruence(a: Seq<CategoryInfo>, b: Seq<CategoryInfo>)
    requires
        a.len() == b.len(),
        forall|i: int| 0 <= i < a.len() ==> #[trigger] a[i]@ == b[i]@,
    ensures
        view_category_info_list(a) == view_category_info_list(b),
    decreases a,
{
    if a.len() > 0 {
        assert forall|i: int| 0 <= i < a.drop_first().len() implies #[trigger] a.drop_first()[i]@
            == b.drop_first()[i]@ by {
            assert(a.drop_first()[i] == a[i + 1]);
            assert(b.drop_first()[i] == b[i + 1]);
        }
        lemma_view_category_info_list_congruence(a.drop_first(), b.drop_first());
        assert(a[0]@ == b[0]@);
        assert(view_category_info_list(a) =~= view_category_info_list(b));
    } else {
        assert(view_category_info_list(a) =~= view_category_info_list(b));
    }
}

impl View for CategoryInfo {
    type V = SpecCategoryInfo;

    open spec fn view(&self) -> SpecCategoryInfo {
        view_category_info(*self)
    }
}

// ---------------------------------------------------------------------------
// Construction helpers
// ---------------------------------------------------------------------------

impl RqcConfig {
    /// The empty document: no settings, no imports, no endpoints.
    pub fn empty() -> (r: RqcConfig)
        ensures
            r@ == spec_empty_config(),
    {
        let r = RqcConfig {
            config: None,
            imports: Vec::new(),
            apis: Vec::new(),
            ws_apis: Vec::new(),
            socketio_apis: Vec::new(),
            sse_apis: Vec::new(),
            categories: Vec::new(),
        };
        proof {
            assert(r@ =~~= spec_empty_config());
        }
        r
    }

    /// The configured base URLs: those of the settings block, if any.
    pub fn get_base_urls(&self) -> (r: Vec<String>)
        ensures
            view_string_list(r@) == spec_base_urls(self@),
    {
        match &self.config {
            Some(c) => c.base_urls.clone(),
            None => Vec::new(),
        }
    }
}

/// The model of `RqcConfig::empty`.
pub open spec fn spec_empty_config() -> SpecRqcConfig {
    SpecRqcConfig {
        config: Option::None,
        imports: Seq::empty(),
        apis: Seq::empty(),
        ws_apis: Seq::empty(),
        socketio_apis: Seq::empty(),
        sse_apis: Seq::empty(),
        categories: Seq::empty(),
    }
}

/// The base URLs of a document model: the settings block's list, or empty.
pub open spec fn spec_base_urls(c: SpecRqcConfig) -> Seq<Seq<char>> {
    match c.config {
        Option::Some(cb) => cb.base_urls,
        Option::None => Seq::empty(),
    }
}

} // verus!
