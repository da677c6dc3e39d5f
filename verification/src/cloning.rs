//! Hand-written `Clone` implementations for the document tree. Each one
//! guarantees that the clone has the same mathematical view as the original
//! (for the flat types, that it is equal outright), so verified callers can
//! reason about cloned subtrees; the recursive types are cloned through free
//! functions with explicit termination measures.

use vstd::prelude::*;

use crate::ast::{
    lemma_view_category_list_congruence, lemma_view_field_list_congruence, view_opt_schema,
    ApiBlock, ApiEndpoint, ApiInfo, CategoryBlock, CategoryInfo, ConfigBlock, Field,
    HeaderDefinition, MethodBlock, MockValue, RqcConfig, SchemaBlock, SseBlock, SseEvent,
    VariableDefinition, WsBlock, WsEvent,
};

verus! {

impl Clone for MockValue {
    fn clone(&self) -> (r: Self)
        ensures
            r == *self,
    {
        match self {
            MockValue::String(s) => MockValue::String(s.clone()),
            MockValue::Number(s) => MockValue::Number(s.clone()),
            MockValue::Boolean(b) => MockValue::Boolean(*b),
        }
    }
}

fn clone_opt_string(o: &Option<String>) -> (r: Option<String>)
    ensures
        r == *o,
{
    match o {
        Some(s) => Some(s.clone()),
        None => None,
    }
}

fn clone_opt_mock(o: &Option<MockValue>) -> (r: Option<MockValue>)
    ensures
        r == *o,
{
    match o {
        Some(m) => Some(m.clone()),
        None => None,
    }
}

pub fn clone_string_vec(v: &Vec<String>) -> (r: Vec<String>)
    ensures
        r@ =~= v@,
{
    let mut r: Vec<String> = Vec::new();
    let mut i: usize = 0;
    while i < v.len()
        invariant
            i <= v@.len(),
            r@ =~= v@.subrange(0, i as int),
        decreases v@.len() - i,
    {
        r.push(v[i].clone());
        i = i + 1;
    }
    r
}

pub fn clone_field(f: &Field) -> (r: Field)
    ensures
        r@ == f@,
    decreases *f,
{
    let nested: Option<Box<SchemaBlock>> = match &f.nested {
        Some(b) => Some(Box::new(clone_schema(&**b))),
        None => None,
    };
    let r = Field {
        name: f.name.clone(),
        field_type: f.field_type,
        optional: f.optional,
        nested,
        mock: clone_opt_mock(&f.mock),
        example: clone_opt_mock(&f.example),
        comment: clone_opt_string(&f.comment),
        is_params: f.is_params,
    };
    proof {
        assert(r@ =~~= f@);
    }
    r
}

pub fn clone_fields(v: &Vec<Field>) -> (r: Vec<Field>)
    ensures
        r@.len() == v@.len(),
        forall|i: int| 0 <= i < v@.len() ==> #[trigger] r@[i]@ == v@[i]@,
    decreases *v,
{
    let mut r: Vec<Field> = Vec::new();
    let mut i: usize = 0;
    while i < v.len()
        invariant
            i <= v@.len(),
            r@.len() == i,
            forall|j: int| 0 <= j < i ==> #[trigger] r@[j]@ == v@[j]@,
        decreases v@.len() - i,
    {
        r.push(clone_field(&v[i]));
        i = i + 1;
    }
    r
}

pub fn clone_schema(s: &SchemaBlock) -> (r: SchemaBlock)
    ensures
        r@ == s@,
    decreases *s,
{
    let fields = clone_fields(&s.fields);
    let r = SchemaBlock { fields, optional: s.optional };
    proof {
        lemma_view_field_list_congruence(r.fields@, s.fields@);
        assert(r@ =~~= s@);
    }
    r
}

impl Clone for SchemaBlock {
    fn clone(&self) -> (r: Self)
        ensures
            r@ == self@,
    {
        clone_schema(self)
    }
}

impl Clone for Field {
    fn clone(&self) -> (r: Self)
        ensures
            r@ == self@,
    {
        clone_field(self)
    }
}

pub fn clone_opt_schema(o: &Option<SchemaBlock>) -> (r: Option<SchemaBlock>)
    ensures
        view_opt_schema(r) == view_opt_schema(*o),
{
    match o {
        Some(s) => Some(clone_schema(s)),
        None => None,
    }
}

impl Clone for MethodBlock {
    fn clone(&self) -> (r: Self)
        ensures
            r@ == self@,
    {
        let r = MethodBlock {
            method: self.method.clone(),
            name: clone_opt_string(&self.name),
            description: clone_opt_string(&self.description),
            request: clone_opt_schema(&self.request),
            response: clone_opt_schema(&self.response),
        };
        proof {
            assert(r@ =~~= self@);
        }
        r
    }
}

pub fn clone_methods(v: &Vec<MethodBlock>) -> (r: Vec<MethodBlock>)
    ensures
        r@.len() == v@.len(),
        forall|i: int| 0 <= i < v@.len() ==> #[trigger] r@[i]@ == v@[i]@,
{
    let mut r: Vec<MethodBlock> = Vec::new();
    let mut i: usize = 0;
    while i < v.len()
        invariant
            i <= v@.len(),
            r@.len() == i,
            forall|j: int| 0 <= j < i ==> #[trigger] r@[j]@ == v@[j]@,
        decreases v@.len() - i,
    {
        r.push(v[i].clone());
        i = i + 1;
    }
    r
}

impl Clone for ApiBlock {
    fn clone(&self) -> (r: Self)
        ensures
            r@ == self@,
    {
        let r = ApiBlock { path: self.path.clone(), methods: clone_methods(&self.methods) };
        proof {
            assert(r.methods@.map_values(|m: MethodBlock| m@) =~= self.methods@.map_values(
                |m: MethodBlock| m@,
            ));
            assert(r@ =~~= self@);
        }
        r
    }
}

impl Clone for WsEvent {
    fn clone(&self) -> (r: Self)
        ensures
            r@ == self@,
    {
        let r = WsEvent {
            name: self.name.clone(),
            request: clone_opt_schema(&self.request),
            response: clone_opt_schema(&self.response),
        };
        proof {
            assert(r@ =~~= self@);
        }
        r
    }
}

pub fn clone_ws_events(v: &Vec<WsEvent>) -> (r: Vec<WsEvent>)
    ensures
        r@.len() == v@.len(),
        forall|i: int| 0 <= i < v@.len() ==> #[trigger] r@[i]@ == v@[i]@,
{
    let mut r: Vec<WsEvent> = Vec::new();
    let mut i: usize = 0;
    while i < v.len()
        invariant
            i <= v@.len(),
            r@.len() == i,
            forall|j: int| 0 <= j < i ==> #[trigger] r@[j]@ == v@[j]@,
        decreases v@.len() - i,
    {
        r.push(v[i].clone());
        i = i + 1;
    }
    r
}

impl Clone for WsBlock {
    fn clone(&self) -> (r: Self)
        ensures
            r@ == self@,
    {
        let r = WsBlock {
            url: self.url.clone(),
            events: clone_ws_events(&self.events),
            name: clone_opt_string(&self.name),
            description: clone_opt_string(&self.description),
            auth: clone_opt_schema(&self.auth),
            connect_headers: clone_opt_schema(&self.connect_headers),
        };
        proof {
            assert(r.events@.map_values(|e: WsEvent| e@) =~= self.events@.map_values(
                |e: WsEvent| e@,
            ));
            assert(r@ =~~= self@);
        }
        r
    }
}

impl Clone for SseEvent {
    fn clone(&self) -> (r: Self)
        ensures
            r@ == self@,
    {
        let r = SseEvent { name: self.name.clone(), fields: clone_fields(&self.fields) };
        proof {
            lemma_view_field_list_congruence(r.fields@, self.fields@);
            assert(r@ =~~= self@);
        }
        r
    }
}

pub fn clone_sse_events(v: &Vec<SseEvent>) -> (r: Vec<SseEvent>)
    ensures
        r@.len() == v@.len(),
        forall|i: int| 0 <= i < v@.len() ==> #[trigger] r@[i]@ == v@[i]@,
{
    let mut r: Vec<SseEvent> = Vec::new();
    let mut i: usize = 0;
    while i < v.len()
        invariant
            i <= v@.len(),
            r@.len() == i,
            forall|j: int| 0 <= j < i ==> #[trigger] r@[j]@ == v@[j]@,
        decreases v@.len() - i,
    {
        r.push(v[i].clone());
        i = i + 1;
    }
    r
}

impl Clone for SseBlock {
    fn clone(&self) -> (r: Self)
        ensures
            r@ == self@,
    {
        let r = SseBlock {
            path: self.path.clone(),
            name: clone_opt_string(&self.name),
            description: clone_opt_string(&self.description),
            request: clone_opt_schema(&self.request),
            events: clone_sse_events(&self.events),
        };
        proof {
            assert(r.events@.map_values(|e: SseEvent| e@) =~= self.events@.map_values(
                |e: SseEvent| e@,
            ));
            assert(r@ =~~= self@);
        }
        r
    }
}

pub fn clone_ws_list(v: &Vec<WsBlock>) -> (r: Vec<WsBlock>)
    ensures
        r@.len() == v@.len(),
        forall|i: int| 0 <= i < v@.len() ==> #[trigger] r@[i]@ == v@[i]@,
{
    let mut r: Vec<WsBlock> = Vec::new();
    let mut i: usize = 0;
    while i < v.len()
        invariant
            i <= v@.len(),
            r@.len() == i,
            forall|j: int| 0 <= j < i ==> #[trigger] r@[j]@ == v@[j]@,
        decreases v@.len() - i,
    {
        r.push(v[i].clone());
        i = i + 1;
    }
    r
}

pub fn clone_sse_list(v: &Vec<SseBlock>) -> (r: Vec<SseBlock>)
    ensures
        r@.len() == v@.len(),
        forall|i: int| 0 <= i < v@.len() ==> #[trigger] r@[i]@ == v@[i]@,
{
    let mut r: Vec<SseBlock> = Vec::new();
    let mut i: usize = 0;
    while i < v.len()
        invariant
            i <= v@.len(),
            r@.len() == i,
            forall|j: int| 0 <= j < i ==> #[trigger] r@[j]@ == v@[j]@,
        decreases v@.len() - i,
    {
        r.push(v[i].clone());
        i = i + 1;
    }
    r
}

pub fn clone_api_list(v: &Vec<ApiBlock>) -> (r: Vec<ApiBlock>)
    ensures
        r@.len() == v@.len(),
        forall|i: int| 0 <= i < v@.len() ==> #[trigger] r@[i]@ == v@[i]@,
{
    let mut r: Vec<ApiBlock> = Vec::new();
    let mut i: usize = 0;
    while i < v.len()
        invariant
            i <= v@.len(),
            r@.len() == i,
            forall|j: int| 0 <= j < i ==> #[trigger] r@[j]@ == v@[j]@,
        decreases v@.len() - i,
    {
        r.push(v[i].clone());
        i = i + 1;
    }
    r
}

pub fn clone_category(c: &CategoryBlock) -> (r: CategoryBlock)
    ensures
        r@ == c@,
    decreases *c,
{
    let mut children: Vec<CategoryBlock> = Vec::new();
    let mut i: usize = 0;
    while i < c.children.len()
        invariant
            i <= c.children@.len(),
            children@.len() == i,
            forall|j: int| 0 <= j < i ==> #[trigger] children@[j]@ == c.children@[j]@,
        decreases c.children@.len() - i,
    {
        children.push(clone_category(&c.children[i]));
        i = i + 1;
    }
    let r = CategoryBlock {
        id: c.id.clone(),
        name: clone_opt_string(&c.name),
        desc: clone_opt_string(&c.desc),
        prefix: clone_opt_string(&c.prefix),
        apis: clone_api_list(&c.apis),
        ws_apis: clone_ws_list(&c.ws_apis),
        socketio_apis: clone_ws_list(&c.socketio_apis),
        sse_apis: clone_sse_list(&c.sse_apis),
        children,
    };
    proof {
        lemma_view_category_list_congruence(r.children@, c.children@);
        assert(r.apis@.map_values(|a: ApiBlock| a@) =~= c.apis@.map_values(|a: ApiBlock| a@));
        assert(r.ws_apis@.map_values(|w: WsBlock| w@) =~= c.ws_apis@.map_values(
            |w: WsBlock| w@,
        ));
        assert(r.socketio_apis@.map_values(|w: WsBlock| w@) =~= c.socketio_apis@.map_values(
            |w: WsBlock| w@,
        ));
        assert(r.sse_apis@.map_values(|s: SseBlock| s@) =~= c.sse_apis@.map_values(
            |s: SseBlock| s@,
        ));
        assert(r@ =~~= c@);
    }
    r
}

impl Clone for CategoryBlock {
    fn clone(&self) -> (r: Self)
        ensures
            r@ == self@,
    {
        clone_category(self)
    }
}

pub fn clone_category_list(v: &Vec<CategoryBlock>) -> (r: Vec<CategoryBlock>)
    ensures
        r@.len() == v@.len(),
        forall|i: int| 0 <= i < v@.len() ==> #[trigger] r@[i]@ == v@[i]@,
{
    let mut r: Vec<CategoryBlock> = Vec::new();
    let mut i: usize = 0;
    while i < v.len()
        invariant
            i <= v@.len(),
            r@.len() == i,
            forall|j: int| 0 <= j < i ==> #[trigger] r@[j]@ == v@[j]@,
        decreases v@.len() - i,
    {
        r.push(v[i].clone());
        i = i + 1;
    }
    r
}

impl Clone for VariableDefinition {
    fn clone(&self) -> (r: Self)
        ensures
            r == *self,
    {
        VariableDefinition {
            name: self.name.clone(),
            var_type: self.var_type.clone(),
            default_value: clone_opt_string(&self.default_value),
        }
    }
}

impl Clone for HeaderDefinition {
    fn clone(&self) -> (r: Self)
        ensures
            r == *self,
    {
        HeaderDefinition {
            name: self.name.clone(),
            default_value: clone_opt_string(&self.default_value),
        }
    }
}

pub fn clone_variables(v: &Vec<VariableDefinition>) -> (r: Vec<VariableDefinition>)
    ensures
        r@ =~= v@,
{
    let mut r: Vec<VariableDefinition> = Vec::new();
    let mut i: usize = 0;
    while i < v.len()
        invariant
            i <= v@.len(),
            r@ =~= v@.subrange(0, i as int),
        decreases v@.len() - i,
    {
        r.push(v[i].clone());
        i = i + 1;
    }
    r
}

pub fn clone_headers(v: &Vec<HeaderDefinition>) -> (r: Vec<HeaderDefinition>)
    ensures
        r@ =~= v@,
{
    let mut r: Vec<HeaderDefinition> = Vec::new();
    let mut i: usize = 0;
    while i < v.len()
        invariant
            i <= v@.len(),
            r@ =~= v@.subrange(0, i as int),
        decreases v@.len() - i,
    {
        r.push(v[i].clone());
        i = i + 1;
    }
    r
}

impl Clone for ConfigBlock {
    fn clone(&self) -> (r: Self)
        ensures
            r@ == self@,
    {
        let r = ConfigBlock {
            base_urls: clone_string_vec(&self.base_urls),
            cors: self.cors,
            mock: self.mock,
            variables: clone_variables(&self.variables),
            headers: clone_headers(&self.headers),
        };
        proof {
            assert(r@ =~~= self@);
        }
        r
    }
}

impl Clone for RqcConfig {
    fn clone(&self) -> (r: Self)
        ensures
            r@ == self@,
    {
        let config = match &self.config {
            Some(c) => Some(c.clone()),
            None => None,
        };
        let r = RqcConfig {
            config,
            imports: clone_string_vec(&self.imports),
            apis: clone_api_list(&self.apis),
            ws_apis: clone_ws_list(&self.ws_apis),
            socketio_apis: clone_ws_list(&self.socketio_apis),
            sse_apis: clone_sse_list(&self.sse_apis),
            categories: clone_category_list(&self.categories),
        };
        proof {
            lemma_view_category_list_congruence(r.categories@, self.categories@);
            assert(r.apis@.map_values(|a: ApiBlock| a@) =~= self.apis@.map_values(
                |a: ApiBlock| a@,
            ));
            assert(r.ws_apis@.map_values(|w: WsBlock| w@) =~= self.ws_apis@.map_values(
                |w: WsBlock| w@,
            ));
            assert(r.socketio_apis@.map_values(|w: WsBlock| w@)
                =~= self.socketio_apis@.map_values(|w: WsBlock| w@));
            assert(r.sse_apis@.map_values(|s: SseBlock| s@) =~= self.sse_apis@.map_values(
                |s: SseBlock| s@,
            ));
            assert(r@ =~~= self@);
        }
        r
    }
}

impl Clone for ApiEndpoint {
    fn clone(&self) -> (r: Self)
        ensures
            r@ == self@,
    {
        let events = match &self.events {
            Some(es) => Some(clone_ws_events(es)),
            None => None,
        };
        let sse_events = match &self.sse_events {
            Some(es) => Some(clone_sse_events(es)),
            None => None,
        };
        let r = ApiEndpoint {
            id: self.id.clone(),
            endpoint_type: self.endpoint_type,
            path: self.path.clone(),
            full_url: clone_opt_string(&self.full_url),
            method: clone_opt_string(&self.method),
            name: clone_opt_string(&self.name),
            description: clone_opt_string(&self.description),
            request: clone_opt_schema(&self.request),
            response: clone_opt_schema(&self.response),
            events,
            sse_events,
            auth: clone_opt_schema(&self.auth),
            connect_headers: clone_opt_schema(&self.connect_headers),
            category_id: clone_opt_string(&self.category_id),
            category_name: clone_opt_string(&self.category_name),
        };
        proof {
            match (&self.events, &r.events) {
                (Some(a), Some(b)) => {
                    assert(b@.map_values(|e: WsEvent| e@) =~= a@.map_values(|e: WsEvent| e@));
                },
                _ => {},
            }
            match (&self.sse_events, &r.sse_events) {
                (Some(a), Some(b)) => {
                    assert(b@.map_values(|e: SseEvent| e@) =~= a@.map_values(|e: SseEvent| e@));
                },
                _ => {},
            }
            assert(r@ =~~= self@);
        }
        r
    }
}

pub fn clone_category_info(c: &CategoryInfo) -> (r: CategoryInfo)
    ensures
        r@ == c@,
    decreases *c,
{
    let mut children: Vec<CategoryInfo> = Vec::new();
    let mut i: usize = 0;
    while i < c.children.len()
        invariant
            i <= c.children@.len(),
            children@.len() == i,
            forall|j: int| 0 <= j < i ==> #[trigger] children@[j]@ == c.children@[j]@,
        decreases c.children@.len() - i,
    {
        children.push(clone_category_info(&c.children[i]));
        i = i + 1;
    }
    let r = CategoryInfo {
        id: c.id.clone(),
        name: clone_opt_string(&c.name),
        desc: clone_opt_string(&c.desc),
        endpoint_count: c.endpoint_count,
        children,
    };
    proof {
        crate::ast::lemma_view_category_info_list_congruence(r.children@, c.children@);
        assert(r@ =~~= c@);
    }
    r
}

impl Clone for CategoryInfo {
    fn clone(&self) -> (r: Self)
        ensures
            r@ == self@,
    {
        clone_category_info(self)
    }
}

impl Clone for ApiInfo {
    fn clone(&self) -> (r: Self)
        ensures
            r.name == self.name,
            r.version == self.version,
            r.base_urls@ == self.base_urls@,
            r.endpoint_count == self.endpoint_count,
            r.mock_mode == self.mock_mode,
            r.cors_mode == self.cors_mode,
    {
        ApiInfo {
            name: self.name.clone(),
            version: self.version.clone(),
            base_urls: clone_string_vec(&self.base_urls),
            endpoint_count: self.endpoint_count,
            mock_mode: self.mock_mode,
            cors_mode: self.cors_mode,
        }
    }
}

} // verus!
