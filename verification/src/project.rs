//! The projection engine: flattening a document into a linear, addressable
//! endpoint list and summarizing the category forest, exactly as the model
//! functions describe.

use vstd::prelude::*;
use vstd::string::{StrSliceExecFns, StringExecFns};

use crate::ast::{
    view_opt_string, ApiBlock, ApiEndpoint, CategoryBlock, CategoryInfo,
    MethodBlock, RqcConfig, SpecApiBlock, SpecApiEndpoint, SpecCategoryBlock, SpecCategoryInfo,
    SpecMethodBlock, SpecRqcConfig, SpecSseBlock, SpecWsBlock, EndpointType, SseBlock, WsBlock,
};
use crate::cloning::{clone_opt_schema, clone_sse_events, clone_ws_events};
use crate::numfmt::{push_dec, spec_dec};
use crate::parser::strip_trailing_idx;

verus! {

// ---------------------------------------------------------------------------
// The endpoint model
// ---------------------------------------------------------------------------

/// An endpoint counter bumped once per produced endpoint, capped so it
/// always fits in `u64`.
pub open spec fn bump_id(n: nat) -> nat {
    if n < u64::MAX as nat {
        n + 1
    } else {
        n
    }
}

/// `s` with every trailing `/` removed.
pub open spec fn spec_trim_slashes(s: Seq<char>) -> Seq<char> {
    s.subrange(0, strip_trailing_idx(s, s.len() as int, '/'))
}

/// The full URL of a path under an optional base URL.
pub open spec fn spec_full_url(base: Option<Seq<char>>, path: Seq<char>) -> Option<Seq<char>> {
    match base {
        Option::Some(b) => Option::Some(spec_trim_slashes(b) + path),
        Option::None => Option::None,
    }
}

/// The endpoint identifier `<prefix><n>`.
pub open spec fn spec_endpoint_id(prefix: Seq<char>, n: nat) -> Seq<char> {
    prefix + spec_dec(n)
}

/// The first configured base URL, if any.
pub open spec fn spec_first_base(c: SpecRqcConfig) -> Option<Seq<char>> {
    match c.config {
        Option::Some(cb) => if cb.base_urls.len() > 0 {
            Option::Some(cb.base_urls[0])
        } else {
            Option::None
        },
        Option::None => Option::None,
    }
}

/// The HTTP endpoint for one method of an `api` block.
pub open spec fn spec_http_endpoint(
    m: SpecMethodBlock,
    full_path: Seq<char>,
    base: Option<Seq<char>>,
    cat_id: Option<Seq<char>>,
    cat_name: Option<Seq<char>>,
    n: nat,
) -> SpecApiEndpoint {
    SpecApiEndpoint {
        id: spec_endpoint_id("api-"@, n),
        endpoint_type: EndpointType::Http,
        path: full_path,
        full_url: spec_full_url(base, full_path),
        method: Option::Some(m.method),
        name: m.name,
        description: m.description,
        request: m.request,
        response: m.response,
        events: Option::None,
        sse_events: Option::None,
        auth: Option::None,
        connect_headers: Option::None,
        category_id: cat_id,
        category_name: cat_name,
    }
}

/// The endpoints of one `api` block's method list and the counter after
/// them, ids continuing from `n0`.
pub open spec fn spec_methods_endpoints(
    ms: Seq<SpecMethodBlock>,
    full_path: Seq<char>,
    base: Option<Seq<char>>,
    cat_id: Option<Seq<char>>,
    cat_name: Option<Seq<char>>,
    n0: nat,
) -> (Seq<SpecApiEndpoint>, nat)
    decreases ms.len(),
{
    if ms.len() == 0 {
        (Seq::empty(), n0)
    } else {
        let n1 = bump_id(n0);
        let rest = spec_methods_endpoints(ms.drop_first(), full_path, base, cat_id, cat_name, n1);
        (seq![spec_http_endpoint(ms[0], full_path, base, cat_id, cat_name, n1)] + rest.0, rest.1)
    }
}

/// The endpoints of a list of `api` blocks under a path prefix, with the
/// counter after them.
pub open spec fn spec_apis_endpoints(
    apis: Seq<SpecApiBlock>,
    prefix: Seq<char>,
    base: Option<Seq<char>>,
    cat_id: Option<Seq<char>>,
    cat_name: Option<Seq<char>>,
    n0: nat,
) -> (Seq<SpecApiEndpoint>, nat)
    decreases apis.len(),
{
    if apis.len() == 0 {
        (Seq::empty(), n0)
    } else {
        let head = spec_methods_endpoints(
            apis[0].methods,
            prefix + apis[0].path,
            base,
            cat_id,
            cat_name,
            n0,
        );
        let rest = spec_apis_endpoints(apis.drop_first(), prefix, base, cat_id, cat_name, head.1);
        (head.0 + rest.0, rest.1)
    }
}

/// The endpoint for one WebSocket or Socket-style block.
pub open spec fn spec_ws_endpoint(
    w: SpecWsBlock,
    socket_style: bool,
    cat_id: Option<Seq<char>>,
    cat_name: Option<Seq<char>>,
    n: nat,
) -> SpecApiEndpoint {
    SpecApiEndpoint {
        id: spec_endpoint_id(if socket_style {
            "sio-"@
        } else {
            "ws-"@
        }, n),
        endpoint_type: if socket_style {
            EndpointType::Socketio
        } else {
            EndpointType::Websocket
        },
        path: w.url,
        full_url: Option::Some(w.url),
        method: Option::None,
        name: w.name,
        description: w.description,
        request: Option::None,
        response: Option::None,
        events: Option::Some(w.events),
        sse_events: Option::None,
        auth: if socket_style {
            w.auth
        } else {
            Option::None
        },
        connect_headers: if socket_style {
            w.connect_headers
        } else {
            Option::None
        },
        category_id: cat_id,
        category_name: cat_name,
    }
}

/// The endpoints of a list of WebSocket or Socket-style blocks, with the
/// counter after them.
pub open spec fn spec_ws_endpoints(
    ws: Seq<SpecWsBlock>,
    socket_style: bool,
    cat_id: Option<Seq<char>>,
    cat_name: Option<Seq<char>>,
    n0: nat,
) -> (Seq<SpecApiEndpoint>, nat)
    decreases ws.len(),
{
    if ws.len() == 0 {
        (Seq::empty(), n0)
    } else {
        let n1 = bump_id(n0);
        let rest = spec_ws_endpoints(ws.drop_first(), socket_style, cat_id, cat_name, n1);
        (seq![spec_ws_endpoint(ws[0], socket_style, cat_id, cat_name, n1)] + rest.0, rest.1)
    }
}

/// The endpoint for one Server-Sent-Events block.
pub open spec fn spec_sse_endpoint(
    s: SpecSseBlock,
    full_path: Seq<char>,
    base: Option<Seq<char>>,
    cat_id: Option<Seq<char>>,
    cat_name: Option<Seq<char>>,
    n: nat,
) -> SpecApiEndpoint {
    SpecApiEndpoint {
        id: spec_endpoint_id("sse-"@, n),
        endpoint_type: EndpointType::Sse,
        path: full_path,
        full_url: spec_full_url(base, full_path),
        method: Option::Some("SSE"@),
        name: s.name,
        description: s.description,
        request: s.request,
        response: Option::None,
        events: Option::None,
        sse_events: Option::Some(s.events),
        auth: Option::None,
        connect_headers: Option::None,
        category_id: cat_id,
        category_name: cat_name,
    }
}

/// The endpoints of a list of Server-Sent-Events blocks under a prefix,
/// with the counter after them.
pub open spec fn spec_sse_endpoints(
    ss: Seq<SpecSseBlock>,
    prefix: Seq<char>,
    base: Option<Seq<char>>,
    cat_id: Option<Seq<char>>,
    cat_name: Option<Seq<char>>,
    n0: nat,
) -> (Seq<SpecApiEndpoint>, nat)
    decreases ss.len(),
{
    if ss.len() == 0 {
        (Seq::empty(), n0)
    } else {
        let n1 = bump_id(n0);
        let rest = spec_sse_endpoints(ss.drop_first(), prefix, base, cat_id, cat_name, n1);
        (seq![spec_sse_endpoint(ss[0], prefix + ss[0].path, base, cat_id, cat_name, n1)] + rest.0,
        rest.1)
    }
}

/// The endpoints of one category: its own lists first, then its children
/// depth-first, each child extending the accumulated path prefix.
pub open spec fn spec_category_endpoints(
    c: SpecCategoryBlock,
    base: Option<Seq<char>>,
    prefix: Seq<char>,
    n0: nat,
) -> (Seq<SpecApiEndpoint>, nat)
    decreases c, 1int,
{
    let cur_prefix = match c.prefix {
        Option::Some(p) => prefix + p,
        Option::None => prefix,
    };
    let s1 = spec_apis_endpoints(c.apis, cur_prefix, base, Option::Some(c.id), c.name, n0);
    let s2 = spec_ws_endpoints(c.ws_apis, false, Option::Some(c.id), c.name, s1.1);
    let s3 = spec_ws_endpoints(c.socketio_apis, true, Option::Some(c.id), c.name, s2.1);
    let s4 = spec_sse_endpoints(c.sse_apis, cur_prefix, base, Option::Some(c.id), c.name, s3.1);
    let s5 = spec_categories_endpoints(c.children, base, cur_prefix, s4.1);
    (s1.0 + s2.0 + s3.0 + s4.0 + s5.0, s5.1)
}

/// The endpoints of a category list, depth-first in order.
pub open spec fn spec_categories_endpoints(
    cs: Seq<SpecCategoryBlock>,
    base: Option<Seq<char>>,
    prefix: Seq<char>,
    n0: nat,
) -> (Seq<SpecApiEndpoint>, nat)
    decreases cs, 0int,
{
    if cs.len() == 0 {
        (Seq::empty(), n0)
    } else {
        let head = spec_category_endpoints(cs[0], base, prefix, n0);
        let rest = spec_categories_endpoints(cs.drop_first(), base, prefix, head.1);
        (head.0 + rest.0, rest.1)
    }
}

/// The whole flattened endpoint list of a document: top-level HTTP,
/// WebSocket, Socket-style and Server-Sent-Events lists first, then the
/// category forest, with one id counter across the entire traversal.
pub open spec fn spec_to_endpoints(c: SpecRqcConfig) -> Seq<SpecApiEndpoint> {
    let base = spec_first_base(c);
    let s1 = spec_apis_endpoints(c.apis, Seq::empty(), base, Option::None, Option::None, 0);
    let s2 = spec_ws_endpoints(c.ws_apis, false, Option::None, Option::None, s1.1);
    let s3 = spec_ws_endpoints(c.socketio_apis, true, Option::None, Option::None, s2.1);
    let s4 = spec_sse_endpoints(c.sse_apis, Seq::empty(), base, Option::None, Option::None, s3.1);
    let s5 = spec_categories_endpoints(c.categories, base, Seq::empty(), s4.1);
    s1.0 + s2.0 + s3.0 + s4.0 + s5.0
}

/// The model of a produced endpoint vector.
pub open spec fn view_endpoints(v: Seq<ApiEndpoint>) -> Seq<SpecApiEndpoint> {
    v.map_values(|e: ApiEndpoint| e@)
}

// ---------------------------------------------------------------------------
// The category summary model
// ---------------------------------------------------------------------------

/// Saturating add, capped at `usize::MAX`.
pub open spec fn sat_add(a: nat, b: nat) -> nat {
    if a + b <= usize::MAX as nat {
        a + b
    } else {
        usize::MAX as nat
    }
}

/// The number of direct method blocks of a category's api list.
pub open spec fn spec_direct_method_count(apis: Seq<SpecApiBlock>) -> nat
    decreases apis.len(),
{
    if apis.len() == 0 {
        0
    } else {
        sat_add(apis[0].methods.len(), spec_direct_method_count(apis.drop_first()))
    }
}

/// A category's direct endpoint count: its own method, WebSocket,
/// Socket-style and Server-Sent-Events counts, not its descendants'.
pub open spec fn spec_category_count(c: SpecCategoryBlock) -> nat {
    sat_add(
        sat_add(
            sat_add(spec_direct_method_count(c.apis), c.ws_apis.len()),
            c.socketio_apis.len(),
        ),
        c.sse_apis.len(),
    )
}

/// The summary node of one category.
pub open spec fn spec_category_info(c: SpecCategoryBlock) -> SpecCategoryInfo
    decreases c, 1int,
{
    SpecCategoryInfo {
        id: c.id,
        name: c.name,
        desc: c.desc,
        endpoint_count: spec_category_count(c),
        children: spec_categories_info(c.children),
    }
}

/// The summary nodes of a category list.
pub open spec fn spec_categories_info(cs: Seq<SpecCategoryBlock>) -> Seq<SpecCategoryInfo>
    decreases cs, 0int,
{
    if cs.len() == 0 {
        Seq::empty()
    } else {
        seq![spec_category_info(cs[0])] + spec_categories_info(cs.drop_first())
    }
}

/// The whole category summary tree of a document.
pub open spec fn spec_to_categories(c: SpecRqcConfig) -> Seq<SpecCategoryInfo> {
    spec_categories_info(c.categories)
}

pub open spec fn view_category_infos(v: Seq<CategoryInfo>) -> Seq<SpecCategoryInfo> {
    v.map_values(|e: CategoryInfo| e@)
}


// ---------------------------------------------------------------------------
// The executable projection
// ---------------------------------------------------------------------------

fn clone_opt_string_p(o: &Option<String>) -> (r: Option<String>)
    ensures
        r == *o,
{
    match o {
        Some(x) => Some(x.clone()),
        None => None,
    }
}

fn trim_slashes(b: &str) -> (r: String)
    ensures
        r@ == spec_trim_slashes(b@),
{
    let n = b.unicode_len();
    let mut e: usize = n;
    loop
        invariant
            e <= n,
            n == b@.len(),
            strip_trailing_idx(b@, e as int, '/') == strip_trailing_idx(b@, n as int, '/'),
        decreases e,
    {
        if e > 0 {
            if b.get_char(e - 1) == '/' {
                e = e - 1;
            } else {
                break;
            }
        } else {
            break;
        }
    }
    let mut out = String::new();
    let mut i: usize = 0;
    while i < e
        invariant
            i <= e <= n,
            n == b@.len(),
            out@ =~= b@.subrange(0, i as int),
        decreases e - i,
    {
        out.push(b.get_char(i));
        i = i + 1;
    }
    proof {
        assert(out@ =~= spec_trim_slashes(b@));
    }
    out
}

fn full_url_of(base: &Option<String>, path: &String) -> (r: Option<String>)
    ensures
        view_opt_string(r) == spec_full_url(view_opt_string(*base), path@),
{
    match base {
        Some(b) => {
            let mut u = trim_slashes(b.as_str());
            u.append(path.as_str());
            Some(u)
        },
        None => None,
    }
}

fn make_id(prefix: &str, n: u64) -> (r: String)
    ensures
        r@ == spec_endpoint_id(prefix@, n as nat),
{
    let mut s = String::from_str(prefix);
    push_dec(&mut s, n);
    s
}

fn bump_counter(counter: &mut u64)
    ensures
        *final(counter) as nat == bump_id(*old(counter) as nat),
{
    if *counter < u64::MAX {
        *counter = *counter + 1;
    }
}

fn emit_methods_from(
    out: &mut Vec<ApiEndpoint>,
    counter: &mut u64,
    ms: &Vec<MethodBlock>,
    i: usize,
    full_path: &String,
    base: &Option<String>,
    cat_id: &Option<String>,
    cat_name: &Option<String>,
) -> (produced: ())
    requires
        i <= ms@.len(),
    ensures
        ({
            let sp = spec_methods_endpoints(
                ms@.map_values(|m: MethodBlock| m@).skip(i as int),
                full_path@,
                view_opt_string(*base),
                view_opt_string(*cat_id),
                view_opt_string(*cat_name),
                *old(counter) as nat,
            );
            &&& view_endpoints(final(out)@) == view_endpoints(old(out)@) + sp.0
            &&& *final(counter) as nat == sp.1
        }),
    decreases ms@.len() - i,
{
    let ghost msv = ms@.map_values(|m: MethodBlock| m@);
    if i >= ms.len() {
        proof {
            assert(msv.skip(i as int) =~= Seq::<SpecMethodBlock>::empty());
            assert(view_endpoints(out@) =~= view_endpoints(out@) + Seq::<
                SpecApiEndpoint,
            >::empty());
        }
        return ;
    }
    bump_counter(counter);
    let m = &ms[i];
    let ep = ApiEndpoint {
        id: make_id("api-", *counter),
        endpoint_type: EndpointType::Http,
        path: full_path.clone(),
        full_url: full_url_of(base, full_path),
        method: Some(m.method.clone()),
        name: clone_opt_string_p(&m.name),
        description: clone_opt_string_p(&m.description),
        request: clone_opt_schema(&m.request),
        response: clone_opt_schema(&m.response),
        events: None,
        sse_events: None,
        auth: None,
        connect_headers: None,
        category_id: clone_opt_string_p(cat_id),
        category_name: clone_opt_string_p(cat_name),
    };
    proof {
        assert(msv.skip(i as int)[0] == msv[i as int]);
        assert(ep@ =~~= spec_http_endpoint(
            msv[i as int],
            full_path@,
            view_opt_string(*base),
            view_opt_string(*cat_id),
            view_opt_string(*cat_name),
            *counter as nat,
        ));
    }
    let ghost out_before = view_endpoints(out@);
    let ghost ep_v = ep@;
    out.push(ep);
    proof {
        assert(view_endpoints(out@) =~= out_before + seq![ep_v]);
    }
    emit_methods_from(out, counter, ms, i + 1, full_path, base, cat_id, cat_name);
    proof {
        assert(msv.skip(i as int).drop_first() =~= msv.skip(i + 1));
        assert(view_endpoints(out@) =~= view_endpoints(old(out)@) + spec_methods_endpoints(
            msv.skip(i as int),
            full_path@,
            view_opt_string(*base),
            view_opt_string(*cat_id),
            view_opt_string(*cat_name),
            *old(counter) as nat,
        ).0);
    }
}

fn emit_apis_from(
    out: &mut Vec<ApiEndpoint>,
    counter: &mut u64,
    apis: &Vec<ApiBlock>,
    i: usize,
    prefix: &String,
    base: &Option<String>,
    cat_id: &Option<String>,
    cat_name: &Option<String>,
) -> (produced: ())
    requires
        i <= apis@.len(),
    ensures
        ({
            let sp = spec_apis_endpoints(
                apis@.map_values(|a: ApiBlock| a@).skip(i as int),
                prefix@,
                view_opt_string(*base),
                view_opt_string(*cat_id),
                view_opt_string(*cat_name),
                *old(counter) as nat,
            );
            &&& view_endpoints(final(out)@) == view_endpoints(old(out)@) + sp.0
            &&& *final(counter) as nat == sp.1
        }),
    decreases apis@.len() - i,
{
    let ghost asv = apis@.map_values(|a: ApiBlock| a@);
    if i >= apis.len() {
        proof {
            assert(asv.skip(i as int) =~= Seq::<SpecApiBlock>::empty());
            assert(view_endpoints(out@) =~= view_endpoints(out@) + Seq::<
                SpecApiEndpoint,
            >::empty());
        }
        return ;
    }
    let mut full_path = prefix.clone();
    full_path.append(apis[i].path.as_str());
    proof {
        assert(asv.skip(i as int)[0] == asv[i as int]);
        assert(full_path@ == prefix@ + asv[i as int].path);
    }
    emit_methods_from(out, counter, &apis[i].methods, 0, &full_path, base, cat_id, cat_name);
    proof {
        assert(apis[i as int].methods@.map_values(|m: MethodBlock| m@).skip(0) =~= asv[
            i as int
        ].methods);
    }
    emit_apis_from(out, counter, apis, i + 1, prefix, base, cat_id, cat_name);
    proof {
        assert(asv.skip(i as int).drop_first() =~= asv.skip(i + 1));
        assert(view_endpoints(out@) =~= view_endpoints(old(out)@) + spec_apis_endpoints(
            asv.skip(i as int),
            prefix@,
            view_opt_string(*base),
            view_opt_string(*cat_id),
            view_opt_string(*cat_name),
            *old(counter) as nat,
        ).0);
    }
}

fn emit_ws_from(
    out: &mut Vec<ApiEndpoint>,
    counter: &mut u64,
    ws: &Vec<WsBlock>,
    i: usize,
    socket_style: bool,
    cat_id: &Option<String>,
    cat_name: &Option<String>,
) -> (produced: ())
    requires
        i <= ws@.len(),
    ensures
        ({
            let sp = spec_ws_endpoints(
                ws@.map_values(|w: WsBlock| w@).skip(i as int),
                socket_style,
                view_opt_string(*cat_id),
                view_opt_string(*cat_name),
                *old(counter) as nat,
            );
            &&& view_endpoints(final(out)@) == view_endpoints(old(out)@) + sp.0
            &&& *final(counter) as nat == sp.1
        }),
    decreases ws@.len() - i,
{
    let ghost wsv = ws@.map_values(|w: WsBlock| w@);
    if i >= ws.len() {
        proof {
            assert(wsv.skip(i as int) =~= Seq::<SpecWsBlock>::empty());
            assert(view_endpoints(out@) =~= view_endpoints(out@) + Seq::<
                SpecApiEndpoint,
            >::empty());
        }
        return ;
    }
    bump_counter(counter);
    let w = &ws[i];
    let ep = ApiEndpoint {
        id: if socket_style {
            make_id("sio-", *counter)
        } else {
            make_id("ws-", *counter)
        },
        endpoint_type: if socket_style {
            EndpointType::Socketio
        } else {
            EndpointType::Websocket
        },
        path: w.url.clone(),
        full_url: Some(w.url.clone()),
        method: None,
        name: clone_opt_string_p(&w.name),
        description: clone_opt_string_p(&w.description),
        request: None,
        response: None,
        events: Some(clone_ws_events(&w.events)),
        sse_events: None,
        auth: if socket_style {
            clone_opt_schema(&w.auth)
        } else {
            None
        },
        connect_headers: if socket_style {
            clone_opt_schema(&w.connect_headers)
        } else {
            None
        },
        category_id: clone_opt_string_p(cat_id),
        category_name: clone_opt_string_p(cat_name),
    };
    proof {
        assert(wsv.skip(i as int)[0] == wsv[i as int]);
        match (&ep.events, &ws[i as int].events) {
            (Some(a), _) => {
                assert(a@.map_values(|e: crate::ast::WsEvent| e@) =~= wsv[i as int].events);
            },
            _ => {},
        }
        assert(ep@ =~~= spec_ws_endpoint(
            wsv[i as int],
            socket_style,
            view_opt_string(*cat_id),
            view_opt_string(*cat_name),
            *counter as nat,
        ));
    }
    let ghost out_before = view_endpoints(out@);
    let ghost ep_v = ep@;
    out.push(ep);
    proof {
        assert(view_endpoints(out@) =~= out_before + seq![ep_v]);
    }
    emit_ws_from(out, counter, ws, i + 1, socket_style, cat_id, cat_name);
    proof {
        assert(wsv.skip(i as int).drop_first() =~= wsv.skip(i + 1));
        assert(view_endpoints(out@) =~= view_endpoints(old(out)@) + spec_ws_endpoints(
            wsv.skip(i as int),
            socket_style,
            view_opt_string(*cat_id),
            view_opt_string(*cat_name),
            *old(counter) as nat,
        ).0);
    }
}

fn emit_sse_from(
    out: &mut Vec<ApiEndpoint>,
    counter: &mut u64,
    ss: &Vec<SseBlock>,
    i: usize,
    prefix: &String,
    base: &Option<String>,
    cat_id: &Option<String>,
    cat_name: &Option<String>,
) -> (produced: ())
    requires
        i <= ss@.len(),
    ensures
        ({
            let sp = spec_sse_endpoints(
                ss@.map_values(|x: SseBlock| x@).skip(i as int),
                prefix@,
                view_opt_string(*base),
                view_opt_string(*cat_id),
                view_opt_string(*cat_name),
                *old(counter) as nat,
            );
            &&& view_endpoints(final(out)@) == view_endpoints(old(out)@) + sp.0
            &&& *final(counter) as nat == sp.1
        }),
    decreases ss@.len() - i,
{
    let ghost ssv = ss@.map_values(|x: SseBlock| x@);
    if i >= ss.len() {
        proof {
            assert(ssv.skip(i as int) =~= Seq::<SpecSseBlock>::empty());
            assert(view_endpoints(out@) =~= view_endpoints(out@) + Seq::<
                SpecApiEndpoint,
            >::empty());
        }
        return ;
    }
    bump_counter(counter);
    let x = &ss[i];
    let mut full_path = prefix.clone();
    full_path.append(x.path.as_str());
    let ep = ApiEndpoint {
        id: make_id("sse-", *counter),
        endpoint_type: EndpointType::Sse,
        path: full_path.clone(),
        full_url: full_url_of(base, &full_path),
        method: Some(String::from_str("SSE")),
        name: clone_opt_string_p(&x.name),
        description: clone_opt_string_p(&x.description),
        request: clone_opt_schema(&x.request),
        response: None,
        events: None,
        sse_events: Some(clone_sse_events(&x.events)),
        auth: None,
        connect_headers: None,
        category_id: clone_opt_string_p(cat_id),
        category_name: clone_opt_string_p(cat_name),
    };
    proof {
        assert(ssv.skip(i as int)[0] == ssv[i as int]);
        assert(full_path@ == prefix@ + ssv[i as int].path);
        match (&ep.sse_events, &ss[i as int].events) {
            (Some(a), _) => {
                assert(a@.map_values(|e: crate::ast::SseEvent| e@) =~= ssv[i as int].events);
            },
            _ => {},
        }
        assert(ep@ =~~= spec_sse_endpoint(
            ssv[i as int],
            prefix@ + ssv[i as int].path,
            view_opt_string(*base),
            view_opt_string(*cat_id),
            view_opt_string(*cat_name),
            *counter as nat,
        ));
    }
    let ghost out_before = view_endpoints(out@);
    let ghost ep_v = ep@;
    out.push(ep);
    proof {
        assert(view_endpoints(out@) =~= out_before + seq![ep_v]);
    }
    emit_sse_from(out, counter, ss, i + 1, prefix, base, cat_id, cat_name);
    proof {
        assert(ssv.skip(i as int).drop_first() =~= ssv.skip(i + 1));
        assert(view_endpoints(out@) =~= view_endpoints(old(out)@) + spec_sse_endpoints(
            ssv.skip(i as int),
            prefix@,
            view_opt_string(*base),
            view_opt_string(*cat_id),
            view_opt_string(*cat_name),
            *old(counter) as nat,
        ).0);
    }
}

#[verifier::rlimit(100)]
#[verifier::spinoff_prover]
fn emit_category(
    out: &mut Vec<ApiEndpoint>,
    counter: &mut u64,
    c: &CategoryBlock,
    base: &Option<String>,
    prefix: &String,
) -> (produced: ())
    ensures
        ({
            let sp = spec_category_endpoints(
                crate::ast::view_category(*c),
                view_opt_string(*base),
                prefix@,
                *old(counter) as nat,
            );
            &&& view_endpoints(final(out)@) == view_endpoints(old(out)@) + sp.0
            &&& *final(counter) as nat == sp.1
        }),
    decreases *c, 1int,
{
    let ghost cv = crate::ast::view_category(*c);
    let cur_prefix: String = match &c.prefix {
        Some(px) => {
            let mut q = prefix.clone();
            q.append(px.as_str());
            q
        },
        None => prefix.clone(),
    };
    let cid: Option<String> = Some(c.id.clone());
    let cname: Option<String> = clone_opt_string_p(&c.name);
    proof {
        assert(view_opt_string(cid) == Option::Some(cv.id));
        assert(view_opt_string(cname) == cv.name);
        assert(cur_prefix@ == (match cv.prefix {
            Option::Some(px) => prefix@ + px,
            Option::None => prefix@,
        }));
    }
    emit_apis_from(out, counter, &c.apis, 0, &cur_prefix, base, &cid, &cname);
    proof {
        assert(c.apis@.map_values(|a: ApiBlock| a@).skip(0) =~= cv.apis);
    }
    emit_ws_from(out, counter, &c.ws_apis, 0, false, &cid, &cname);
    proof {
        assert(c.ws_apis@.map_values(|w: WsBlock| w@).skip(0) =~= cv.ws_apis);
    }
    emit_ws_from(out, counter, &c.socketio_apis, 0, true, &cid, &cname);
    proof {
        assert(c.socketio_apis@.map_values(|w: WsBlock| w@).skip(0) =~= cv.socketio_apis);
    }
    emit_sse_from(out, counter, &c.sse_apis, 0, &cur_prefix, base, &cid, &cname);
    proof {
        assert(c.sse_apis@.map_values(|x: SseBlock| x@).skip(0) =~= cv.sse_apis);
    }
    let ghost before_children = view_endpoints(out@);
    let ghost cnt_children: nat = *counter as nat;
    let mut j: usize = 0;
    let ghost mut gained = Seq::<SpecApiEndpoint>::empty();
    proof {
        crate::ast::lemma_view_category_list(c.children@);
        assert(cv.children.skip(0) =~= cv.children);
        assert(view_endpoints(out@) =~= before_children + gained);
        assert(spec_categories_endpoints(
            cv.children,
            view_opt_string(*base),
            cur_prefix@,
            cnt_children,
        ).0 =~= gained + spec_categories_endpoints(
            cv.children,
            view_opt_string(*base),
            cur_prefix@,
            cnt_children,
        ).0);
    }
    while j < c.children.len()
        invariant
            j <= c.children@.len(),
            view_endpoints(out@) =~= before_children + gained,
            ({
                let full = spec_categories_endpoints(
                    cv.children,
                    view_opt_string(*base),
                    cur_prefix@,
                    cnt_children,
                );
                let rem = spec_categories_endpoints(
                    cv.children.skip(j as int),
                    view_opt_string(*base),
                    cur_prefix@,
                    *counter as nat,
                );
                &&& full.0 =~= gained + rem.0
                &&& full.1 == rem.1
            }),
        decreases c.children@.len() - j,
    {
        proof {
            crate::ast::lemma_view_category_list(c.children@);
            assert(cv.children.skip(j as int)[0] == cv.children[j as int]);
        }
        let ghost out_pre = view_endpoints(out@);
        let ghost cnt_pre: nat = *counter as nat;
        emit_category(out, counter, &c.children[j], base, &cur_prefix);
        proof {
            let head = spec_category_endpoints(
                cv.children[j as int],
                view_opt_string(*base),
                cur_prefix@,
                cnt_pre,
            );
            assert(view_endpoints(out@) =~= out_pre + head.0);
            gained = gained + head.0;
        }
        j = j + 1;
        proof {
            assert(cv.children.skip(j - 1).drop_first() =~= cv.children.skip(j as int));
        }
    }
    proof {
        assert(cv.children.skip(c.children@.len() as int) =~= Seq::<SpecCategoryBlock>::empty());
        assert(view_endpoints(out@) =~= view_endpoints(old(out)@) + spec_category_endpoints(
            cv,
            view_opt_string(*base),
            prefix@,
            *old(counter) as nat,
        ).0);
    }
}

impl RqcConfig {
    /// Flattens the document into its ordered endpoint list. The list is
    /// recomputed from the document alone, so equal documents always yield
    /// identical endpoint rows, ids included.
    #[verifier::rlimit(100)]
    #[verifier::spinoff_prover]
    pub fn to_endpoints(&self) -> (r: Vec<ApiEndpoint>)
        ensures
            view_endpoints(r@) == spec_to_endpoints(self@),
    {
        let base: Option<String> = match &self.config {
            Some(c) => if c.base_urls.len() > 0 {
                Some(c.base_urls[0].clone())
            } else {
                None
            },
            None => None,
        };
        proof {
            assert(view_opt_string(base) == spec_first_base(self@));
        }
        let empty_prefix = String::new();
        let none_s: Option<String> = None;
        let mut out: Vec<ApiEndpoint> = Vec::new();
        let mut counter: u64 = 0;
        emit_apis_from(&mut out, &mut counter, &self.apis, 0, &empty_prefix, &base, &none_s, &none_s);
        proof {
            assert(self.apis@.map_values(|a: ApiBlock| a@).skip(0) =~= self@.apis);
        }
        emit_ws_from(&mut out, &mut counter, &self.ws_apis, 0, false, &none_s, &none_s);
        proof {
            assert(self.ws_apis@.map_values(|w: WsBlock| w@).skip(0) =~= self@.ws_apis);
        }
        emit_ws_from(&mut out, &mut counter, &self.socketio_apis, 0, true, &none_s, &none_s);
        proof {
            assert(self.socketio_apis@.map_values(|w: WsBlock| w@).skip(0) =~= self@.socketio_apis);
        }
        emit_sse_from(&mut out, &mut counter, &self.sse_apis, 0, &empty_prefix, &base, &none_s, &none_s);
        proof {
            assert(self.sse_apis@.map_values(|x: SseBlock| x@).skip(0) =~= self@.sse_apis);
        }
        let ghost before_cats = view_endpoints(out@);
        let ghost cnt_cats: nat = counter as nat;
        let ghost csv = self@.categories;
        let mut j: usize = 0;
        let ghost mut gained = Seq::<SpecApiEndpoint>::empty();
        proof {
            crate::ast::lemma_view_category_list(self.categories@);
            assert(csv.skip(0) =~= csv);
            assert(view_endpoints(out@) =~= before_cats + gained);
        }
        while j < self.categories.len()
            invariant
                j <= self.categories@.len(),
                view_endpoints(out@) =~= before_cats + gained,
                ({
                    let full = spec_categories_endpoints(
                        csv,
                        view_opt_string(base),
                        Seq::empty(),
                        cnt_cats,
                    );
                    let rem = spec_categories_endpoints(
                        csv.skip(j as int),
                        view_opt_string(base),
                        Seq::empty(),
                        counter as nat,
                    );
                    &&& full.0 =~= gained + rem.0
                    &&& full.1 == rem.1
                }),
            decreases self.categories@.len() - j,
        {
            proof {
                crate::ast::lemma_view_category_list(self.categories@);
                assert(csv.skip(j as int)[0] == csv[j as int]);
            }
            let ghost out_pre = view_endpoints(out@);
            let ghost cnt_pre: nat = counter as nat;
            emit_category(&mut out, &mut counter, &self.categories[j], &base, &empty_prefix);
            proof {
                let head = spec_category_endpoints(
                    csv[j as int],
                    view_opt_string(base),
                    Seq::empty(),
                    cnt_pre,
                );
                assert(view_endpoints(out@) =~= out_pre + head.0);
                gained = gained + head.0;
            }
            j = j + 1;
            proof {
                assert(csv.skip(j - 1).drop_first() =~= csv.skip(j as int));
            }
        }
        proof {
            assert(csv.skip(self.categories@.len() as int) =~= Seq::<SpecCategoryBlock>::empty());
            assert(view_endpoints(out@) =~= spec_to_endpoints(self@));
        }
        out
    }

    /// Summarizes the category forest: each node carries its own direct
    /// endpoint count only, not its descendants'.
    pub fn to_categories(&self) -> (r: Vec<CategoryInfo>)
        ensures
            view_category_infos(r@) == spec_to_categories(self@),
    {
        let mut out: Vec<CategoryInfo> = Vec::new();
        let ghost csv = self@.categories;
        proof {
            crate::ast::lemma_view_category_list(self.categories@);
            assert(csv.skip(0) =~= csv);
        }
        let mut j: usize = 0;
        while j < self.categories.len()
            invariant
                j <= self.categories@.len(),
                spec_categories_info(csv) =~= view_category_infos(out@) + spec_categories_info(
                    csv.skip(j as int),
                ),
            decreases self.categories@.len() - j,
        {
            proof {
                crate::ast::lemma_view_category_list(self.categories@);
                assert(csv.skip(j as int)[0] == csv[j as int]);
            }
            let ghost out_pre = view_category_infos(out@);
            let info = category_info_of(&self.categories[j]);
            let ghost iv = info@;
            out.push(info);
            proof {
                assert(view_category_infos(out@) =~= out_pre + seq![iv]);
                assert(csv.skip(j as int).drop_first() =~= csv.skip(j + 1));
            }
            j = j + 1;
        }
        proof {
            assert(csv.skip(self.categories@.len() as int) =~= Seq::<SpecCategoryBlock>::empty());
            assert(view_category_infos(out@) =~= spec_to_categories(self@));
        }
        out
    }
}

/// Builds the summary node of one category.
#[verifier::rlimit(100)]
fn category_info_of(c: &CategoryBlock) -> (r: CategoryInfo)
    ensures
        r@ == spec_category_info(crate::ast::view_category(*c)),
    decreases *c,
{
    let ghost cv = crate::ast::view_category(*c);
    let mut count: usize = 0;
    let ghost asv = cv.apis;
    proof {
        assert(c.apis@.map_values(|a: ApiBlock| a@) =~= cv.apis);
        assert(asv.skip(0) =~= asv);
    }
    let mut i: usize = 0;
    while i < c.apis.len()
        invariant
            i <= c.apis@.len(),
            asv == cv.apis,
            c.apis@.map_values(|a: ApiBlock| a@) == cv.apis,
            spec_direct_method_count(asv) == sat_add(
                count as nat,
                spec_direct_method_count(asv.skip(i as int)),
            ),
        decreases c.apis@.len() - i,
    {
        proof {
            assert(asv.skip(i as int)[0] == asv[i as int]);
            assert(asv.skip(i as int).drop_first() =~= asv.skip(i + 1));
        }
        let d = c.apis[i].methods.len();
        count = if count <= usize::MAX - d {
            count + d
        } else {
            usize::MAX
        };
        i = i + 1;
    }
    proof {
        assert(asv.skip(c.apis@.len() as int) =~= Seq::<SpecApiBlock>::empty());
    }
    let d1 = c.ws_apis.len();
    count = if count <= usize::MAX - d1 {
        count + d1
    } else {
        usize::MAX
    };
    let d2 = c.socketio_apis.len();
    count = if count <= usize::MAX - d2 {
        count + d2
    } else {
        usize::MAX
    };
    let d3 = c.sse_apis.len();
    count = if count <= usize::MAX - d3 {
        count + d3
    } else {
        usize::MAX
    };
    proof {
        assert(count as nat == spec_category_count(cv));
    }
    let mut children: Vec<CategoryInfo> = Vec::new();
    proof {
        crate::ast::lemma_view_category_list(c.children@);
        assert(cv.children.skip(0) =~= cv.children);
    }
    let mut j: usize = 0;
    while j < c.children.len()
        invariant
            j <= c.children@.len(),
            crate::ast::view_category_list(c.children@) == cv.children,
            spec_categories_info(cv.children) =~= view_category_infos(children@)
                + spec_categories_info(cv.children.skip(j as int)),
        decreases c.children@.len() - j,
    {
        proof {
            crate::ast::lemma_view_category_list(c.children@);
            assert(cv.children.skip(j as int)[0] == cv.children[j as int]);
        }
        let ghost pre = view_category_infos(children@);
        let info = category_info_of(&c.children[j]);
        let ghost iv = info@;
        children.push(info);
        proof {
            assert(view_category_infos(children@) =~= pre + seq![iv]);
            assert(cv.children.skip(j as int).drop_first() =~= cv.children.skip(j + 1));
        }
        j = j + 1;
    }
    proof {
        assert(cv.children.skip(c.children@.len() as int) =~= Seq::<SpecCategoryBlock>::empty());
    }
    let r = CategoryInfo {
        id: c.id.clone(),
        name: clone_opt_string_p(&c.name),
        desc: clone_opt_string_p(&c.desc),
        endpoint_count: count,
        children,
    };
    proof {
        crate::ast::lemma_view_category_info_list(r.children@);
        assert(crate::ast::view_category_info_list(r.children@) =~= view_category_infos(
            r.children@,
        ));
        assert(r@ =~~= spec_category_info(cv));
    }
    r
}

/// Parsing a document text and projecting the result is deterministic: two
/// parses of the same text that succeed yield the same document, and its
/// projection — ids, order and all — is a function of that document alone.
pub proof fn lemma_projection_deterministic(
    text: Seq<char>,
    c1: SpecRqcConfig,
    c2: SpecRqcConfig,
)
    requires
        crate::parser::spec_parse_text(text) == Result::<
            SpecRqcConfig,
            crate::parser::SpecParseError,
        >::Ok(c1),
        crate::parser::spec_parse_text(text) == Result::<
            SpecRqcConfig,
            crate::parser::SpecParseError,
        >::Ok(c2),
    ensures
        c1 == c2,
        spec_to_endpoints(c1) == spec_to_endpoints(c2),
        spec_to_categories(c1) == spec_to_categories(c2),
{
}
} // verus!
