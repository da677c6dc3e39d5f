//! The import resolver and merger: combining a graph of documents reachable
//! through `import` statements into one document, with first-document-wins
//! settings, additive list merging, and a visited set that makes circular
//! imports terminate after each file is parsed at most once.
//!
//! The resolver here walks an in-memory store of sources; reading files and
//! fetching remote specifications is the caller's work, done with the same
//! path rules.

use vstd::prelude::*;
use vstd::string::{StrSliceExecFns, StringExecFns};

use crate::ast::{
    view_string_list, ApiBlock, ConfigBlock, RqcConfig, SpecConfigBlock, SpecRqcConfig, SseBlock,
    WsBlock,
};
use crate::openapi::parse_openapi_content;
use crate::parser::{ParseError, Parser, SpecParseError};
use crate::strutil::{str_eq, string_eq, string_from_chars};

verus! {

// ---------------------------------------------------------------------------
// Merging
// ---------------------------------------------------------------------------

/// The merge of an imported document into a target: settings are taken only
/// if the target has none, base URLs only if the target's list is empty, and
/// every endpoint list and the category forest are concatenated in order.
pub open spec fn spec_merge(t: SpecRqcConfig, s: SpecRqcConfig) -> SpecRqcConfig {
    let config = match t.config {
        Option::None => s.config,
        Option::Some(tc) => match s.config {
            Option::Some(sc) => Option::Some(
                SpecConfigBlock {
                    base_urls: if tc.base_urls.len() == 0 {
                        sc.base_urls
                    } else {
                        tc.base_urls
                    },
                    ..tc
                },
            ),
            Option::None => Option::Some(tc),
        },
    };
    SpecRqcConfig {
        config,
        imports: t.imports,
        apis: t.apis + s.apis,
        ws_apis: t.ws_apis + s.ws_apis,
        socketio_apis: t.socketio_apis + s.socketio_apis,
        sse_apis: t.sse_apis + s.sse_apis,
        categories: t.categories + s.categories,
    }
}

/// A settings block declared by the first document is never overwritten by a
/// later import; in particular a non-empty base URL list always survives a
/// merge unchanged.
pub proof fn lemma_first_base_urls_win(t: SpecRqcConfig, s: SpecRqcConfig)
    requires
        t.config matches Option::Some(tc) && tc.base_urls.len() > 0,
    ensures
        spec_merge(t, s).config matches Option::Some(mc) && mc.base_urls
            == t.config->Some_0.base_urls,
{
}

/// Merges `source` into `target` in place, by extension only.
pub fn merge_configs(target: &mut RqcConfig, source: RqcConfig)
    ensures
        final(target)@ == spec_merge(old(target)@, source@),
{
    let ghost t0 = target@;
    let ghost s0 = source@;
    let mut tmp: Option<ConfigBlock> = None;
    core::mem::swap(&mut tmp, &mut target.config);
    let source_config = source.config;
    match tmp {
        None => {
            target.config = source_config;
        },
        Some(mut tc) => {
            match source_config {
                Some(sc) => {
                    if tc.base_urls.len() == 0 {
                        tc.base_urls = sc.base_urls;
                    }
                    target.config = Some(tc);
                },
                None => {
                    target.config = Some(tc);
                },
            }
        },
    }
    let mut src_apis = source.apis;
    let mut src_ws = source.ws_apis;
    let mut src_sio = source.socketio_apis;
    let mut src_sse = source.sse_apis;
    let mut src_cats = source.categories;
    let ghost apis_before = target.apis@;
    target.apis.append(&mut src_apis);
    let ghost ws_before = target.ws_apis@;
    target.ws_apis.append(&mut src_ws);
    let ghost sio_before = target.socketio_apis@;
    target.socketio_apis.append(&mut src_sio);
    let ghost sse_before = target.sse_apis@;
    target.sse_apis.append(&mut src_sse);
    let ghost cats_before = target.categories@;
    let ghost src_cats0 = src_cats@;
    target.categories.append(&mut src_cats);
    proof {
        assert(target.apis@.map_values(|a: ApiBlock| a@) =~= t0.apis + s0.apis);
        assert(target.ws_apis@.map_values(|w: WsBlock| w@) =~= t0.ws_apis + s0.ws_apis);
        assert(target.socketio_apis@.map_values(|w: WsBlock| w@) =~= t0.socketio_apis
            + s0.socketio_apis);
        assert(target.sse_apis@.map_values(|x: SseBlock| x@) =~= t0.sse_apis + s0.sse_apis);
        crate::ast::lemma_view_category_list(target.categories@);
        crate::ast::lemma_view_category_list(cats_before);
        crate::ast::lemma_view_category_list(src_cats0);
        assert forall|m: int|
            0 <= m < target.categories@.len() implies crate::ast::view_category_list(
            target.categories@,
        )[m] == (t0.categories + s0.categories)[m] by {
            if m < cats_before.len() {
                assert(target.categories@[m] == cats_before[m]);
            } else {
                assert(target.categories@[m] == src_cats0[m - cats_before.len()]);
            }
        }
        assert(crate::ast::view_category_list(target.categories@) =~= t0.categories
            + s0.categories);
        assert(target@ =~~= spec_merge(t0, s0));
    }
}

// ---------------------------------------------------------------------------
// Import path rules
// ---------------------------------------------------------------------------

/// Whether `c` is one of the quote characters trimmed off import paths.
pub open spec fn is_quote_char(c: char) -> bool {
    c == '"' || c == '\''
}

pub open spec fn quote_start_idx(s: Seq<char>, i: int) -> int
    decreases s.len() - i,
{
    if 0 <= i < s.len() && is_quote_char(s[i]) {
        quote_start_idx(s, i + 1)
    } else {
        i
    }
}

pub open spec fn quote_end_idx(s: Seq<char>, j: int) -> int
    decreases j,
{
    if 0 < j <= s.len() && is_quote_char(s[j - 1]) {
        quote_end_idx(s, j - 1)
    } else {
        j
    }
}

/// `s` with every leading and trailing quote character removed.
pub open spec fn spec_strip_quotes(s: Seq<char>) -> Seq<char> {
    let a = quote_start_idx(s, 0);
    let b = quote_end_idx(s, s.len() as int);
    if a <= b {
        s.subrange(a, b)
    } else {
        Seq::empty()
    }
}

fn quote_char_exec(c: char) -> (r: bool)
    ensures
        r == is_quote_char(c),
{
    c == '"' || c == '\''
}

/// Strips surrounding quote characters off an import path.
pub fn strip_quotes(s: &str) -> (r: String)
    ensures
        r@ == spec_strip_quotes(s@),
{
    let n = s.unicode_len();
    let mut a: usize = 0;
    loop
        invariant
            a <= n,
            n == s@.len(),
            quote_start_idx(s@, a as int) == quote_start_idx(s@, 0),
        decreases n - a,
    {
        if a < n {
            if quote_char_exec(s.get_char(a)) {
                a = a + 1;
            } else {
                break;
            }
        } else {
            break;
        }
    }
    let mut b: usize = n;
    loop
        invariant
            b <= n,
            n == s@.len(),
            quote_end_idx(s@, b as int) == quote_end_idx(s@, n as int),
        decreases b,
    {
        if b > 0 {
            if quote_char_exec(s.get_char(b - 1)) {
                b = b - 1;
            } else {
                break;
            }
        } else {
            break;
        }
    }
    if a <= b {
        let mut out: Vec<char> = Vec::new();
        let mut i: usize = a;
        while i < b
            invariant
                a <= i <= b <= n,
                n == s@.len(),
                out@ =~= s@.subrange(a as int, i as int),
            decreases b - i,
        {
            out.push(s.get_char(i));
            i = i + 1;
        }
        proof {
            assert(out@ =~= spec_strip_quotes(s@));
        }
        string_from_chars(&out)
    } else {
        proof {
            assert(Seq::<char>::empty() =~= spec_strip_quotes(s@));
        }
        String::new()
    }
}

/// The index of the last `/` in `s`, or `-1` if there is none.
pub open spec fn last_slash_idx(s: Seq<char>, j: int) -> int
    decreases j,
{
    if j <= 0 {
        -1
    } else if s[j - 1] == '/' {
        j - 1
    } else {
        last_slash_idx(s, j - 1)
    }
}

/// The directory part of a path: everything before the last `/`, or empty.
pub open spec fn spec_parent_dir(s: Seq<char>) -> Seq<char> {
    let k = last_slash_idx(s, s.len() as int);
    if k < 0 {
        Seq::empty()
    } else {
        s.subrange(0, k)
    }
}

/// Joins a directory and a relative path with a `/`; an empty directory
/// contributes nothing.
pub open spec fn spec_join_path(d: Seq<char>, p: Seq<char>) -> Seq<char> {
    if d.len() == 0 {
        p
    } else {
        d + seq!['/'] + p
    }
}

/// Whether `s` starts with the prefix `p`.
pub open spec fn spec_starts_with(s: Seq<char>, p: Seq<char>) -> bool {
    s.len() >= p.len() && s.subrange(0, p.len() as int) == p
}

/// The resolved location of an import: `./`- and `../`-prefixed paths are
/// relative to the importing file's directory (or the root directory when
/// that file has none), anything else is relative to the root directory.
/// A leading `./` contributes nothing to the joined path.
pub open spec fn spec_resolve_import(
    import_path: Seq<char>,
    base_dir: Seq<char>,
    current_file: Seq<char>,
) -> Seq<char> {
    let ip = spec_strip_quotes(import_path);
    if spec_starts_with(ip, "./"@) || spec_starts_with(ip, "../"@) {
        let parent = if current_file.len() == 0 {
            base_dir
        } else {
            spec_parent_dir(current_file)
        };
        let ip2 = if spec_starts_with(ip, "./"@) {
            ip.subrange(2, ip.len() as int)
        } else {
            ip
        };
        spec_join_path(parent, ip2)
    } else {
        spec_join_path(base_dir, ip)
    }
}

/// Whether `s` starts with the literal prefix `p`.
pub fn str_starts_with(s: &str, p: &str) -> (r: bool)
    ensures
        r == spec_starts_with(s@, p@),
{
    let n = s.unicode_len();
    let m = p.unicode_len();
    if n < m {
        return false;
    }
    let mut i: usize = 0;
    while i < m
        invariant
            m <= n,
            n == s@.len(),
            m == p@.len(),
            i <= m,
            forall|j: int| 0 <= j < i ==> s@[j] == p@[j],
        decreases m - i,
    {
        if s.get_char(i) != p.get_char(i) {
            return false;
        }
        i = i + 1;
    }
    proof {
        assert(s@.subrange(0, p@.len() as int) =~= p@);
    }
    true
}

pub fn parent_dir(s: &str) -> (r: String)
    ensures
        r@ == spec_parent_dir(s@),
{
    let n = s.unicode_len();
    let mut j: usize = n;
    loop
        invariant
            j <= n,
            n == s@.len(),
            last_slash_idx(s@, j as int) == last_slash_idx(s@, n as int),
        decreases j,
    {
        if j > 0 {
            if s.get_char(j - 1) == '/' {
                break;
            }
            j = j - 1;
        } else {
            break;
        }
    }
    if j == 0 {
        proof {
            assert(Seq::<char>::empty() =~= spec_parent_dir(s@));
        }
        String::new()
    } else {
        let mut out: Vec<char> = Vec::new();
        let mut i: usize = 0;
        while i < j - 1
            invariant
                j >= 1,
                j <= n,
                n == s@.len(),
                i <= j - 1,
                out@ =~= s@.subrange(0, i as int),
            decreases j - i,
        {
            out.push(s.get_char(i));
            i = i + 1;
        }
        proof {
            assert(out@ =~= spec_parent_dir(s@));
        }
        string_from_chars(&out)
    }
}

fn join_path(d: &str, p: &str) -> (r: String)
    ensures
        r@ == spec_join_path(d@, p@),
{
    if d.is_empty() {
        let r = String::from_str(p);
        r
    } else {
        let mut out = String::from_str(d);
        out.push('/');
        out.append(p);
        proof {
            assert(out@ =~= spec_join_path(d@, p@));
        }
        out
    }
}

/// Resolves an import path against the root directory and the importing
/// file, exactly as the model says.
pub fn resolve_import_path(import_path: &str, base_dir: &str, current_file: &str) -> (r: String)
    ensures
        r@ == spec_resolve_import(import_path@, base_dir@, current_file@),
{
    let ip = strip_quotes(import_path);
    if str_starts_with(ip.as_str(), "./") || str_starts_with(ip.as_str(), "../") {
        let parent = if current_file.is_empty() {
            String::from_str(base_dir)
        } else {
            parent_dir(current_file)
        };
        let ip2 = if str_starts_with(ip.as_str(), "./") {
            proof {
                reveal_strlit("./");
                assert(ip@.len() >= 2);
            }
            let n = ip.as_str().unicode_len();
            let mut cs: Vec<char> = Vec::new();
            let mut i: usize = 2;
            proof {
                assert(cs@ =~= ip@.subrange(2, 2));
            }
            while i < n
                invariant
                    2 <= i <= n,
                    n == ip@.len(),
                    cs@ =~= ip@.subrange(2, i as int),
                decreases n - i,
            {
                cs.push(ip.as_str().get_char(i));
                i = i + 1;
            }
            proof {
                assert(cs@ =~= ip@.subrange(2, ip@.len() as int));
            }
            string_from_chars(&cs)
        } else {
            ip
        };
        join_path(parent.as_str(), ip2.as_str())
    } else {
        join_path(base_dir, ip.as_str())
    }
}

/// The file extension: the part of the last component after its last `.`,
/// or empty when the component has no usable extension.
pub open spec fn spec_extension(s: Seq<char>) -> Seq<char> {
    let comp_start = last_slash_idx(s, s.len() as int) + 1;
    let comp = s.subrange(comp_start, s.len() as int);
    let k = last_dot_idx(comp, comp.len() as int);
    if k <= 0 {
        Seq::empty()
    } else {
        comp.subrange(k + 1, comp.len() as int)
    }
}

/// The index of the last `.` in `s`, or `-1` if there is none.
pub open spec fn last_dot_idx(s: Seq<char>, j: int) -> int
    decreases j,
{
    if j <= 0 {
        -1
    } else if s[j - 1] == '.' {
        j - 1
    } else {
        last_dot_idx(s, j - 1)
    }
}

/// The extension of a path, per the model.
pub fn path_extension(s: &str) -> (r: String)
    ensures
        r@ == spec_extension(s@),
{
    let n = s.unicode_len();
    let mut cs: usize = n;
    loop
        invariant
            cs <= n,
            n == s@.len(),
            last_slash_idx(s@, cs as int) == last_slash_idx(s@, n as int),
        decreases cs,
    {
        if cs > 0 {
            if s.get_char(cs - 1) == '/' {
                break;
            }
            cs = cs - 1;
        } else {
            break;
        }
    }
    let comp_start = cs;
    let ghost comp = s@.subrange(comp_start as int, n as int);
    let mut k: usize = n;
    loop
        invariant
            comp_start <= k <= n,
            n == s@.len(),
            comp == s@.subrange(comp_start as int, n as int),
            last_dot_idx(comp, k - comp_start) == last_dot_idx(comp, comp.len() as int),
        decreases k,
    {
        if k > comp_start {
            if s.get_char(k - 1) == '.' {
                break;
            }
            k = k - 1;
            proof {
                assert(comp[k - comp_start] == s@[k as int]);
            }
        } else {
            break;
        }
    }
    if k == comp_start {
        // no dot in the component at all
        proof {
            assert(last_dot_idx(comp, 0) == -1);
            assert(Seq::<char>::empty() =~= spec_extension(s@));
        }
        return String::new();
    }
    if k - 1 == comp_start {
        // the only dot opens the component, so there is no extension
        proof {
            assert(last_dot_idx(comp, comp.len() as int) == 0);
            assert(Seq::<char>::empty() =~= spec_extension(s@));
        }
        return String::new();
    }
    let mut out: Vec<char> = Vec::new();
    let mut i: usize = k;
    while i < n
        invariant
            k <= i <= n,
            n == s@.len(),
            out@ =~= s@.subrange(k as int, i as int),
        decreases n - i,
    {
        out.push(s.get_char(i));
        i = i + 1;
    }
    proof {
        assert(last_dot_idx(comp, comp.len() as int) == k - 1 - comp_start);
        assert(out@ =~= spec_extension(s@));
    }
    string_from_chars(&out)
}


// ---------------------------------------------------------------------------
// The store resolver
// ---------------------------------------------------------------------------

/// Whether some entry of the store is keyed by `k`.
pub open spec fn key_in_store(store: Seq<(String, String)>, k: Seq<char>) -> bool {
    exists|i: int| 0 <= i < store.len() && store[i].0@ == k
}

/// The text stored under the first entry keyed by `k`.
pub open spec fn store_text(store: Seq<(String, String)>, k: Seq<char>) -> Seq<char>
    decreases store.len(),
{
    if store.len() == 0 {
        Seq::empty()
    } else if store[0].0@ == k {
        store[0].1@
    } else {
        store_text(store.drop_first(), k)
    }
}

/// The store's keys are pairwise distinct.
pub open spec fn store_keys_distinct(store: Seq<(String, String)>) -> bool {
    forall|i: int, j: int| 0 <= i < j < store.len() ==> store[i].0@ != store[j].0@
}

/// The visited paths are pairwise distinct.
pub open spec fn views_no_dup(s: Seq<String>) -> bool {
    forall|i: int, j: int| 0 <= i < j < s.len() ==> s[i]@ != s[j]@
}

/// Every visited path keys a store entry.
pub open spec fn all_in_store(s: Seq<String>, store: Seq<(String, String)>) -> bool {
    forall|i: int| 0 <= i < s.len() ==> key_in_store(store, #[trigger] s[i]@)
}

/// Whether the visited list holds `k`.
pub open spec fn seq_contains_str(s: Seq<String>, k: Seq<char>) -> bool {
    exists|i: int| 0 <= i < s.len() && s[i]@ == k
}

fn lookup(store: &Vec<(String, String)>, key: &String) -> (r: Option<usize>)
    ensures
        r matches Some(i) ==> i < store@.len() && store@[i as int].0@ == key@,
        r is None ==> !key_in_store(store@, key@),
{
    let mut i: usize = 0;
    while i < store.len()
        invariant
            i <= store@.len(),
            forall|j: int| 0 <= j < i ==> store@[j].0@ != key@,
        decreases store@.len() - i,
    {
        if str_eq(store[i].0.as_str(), key.as_str()) {
            return Some(i);
        }
        i = i + 1;
    }
    None
}

/// With distinct keys, any matching entry holds the stored text.
proof fn lemma_store_text_at(store: Seq<(String, String)>, k: Seq<char>, i: int)
    requires
        store_keys_distinct(store),
        0 <= i < store.len(),
        store[i].0@ == k,
    ensures
        store_text(store, k) == store[i].1@,
    decreases store.len(),
{
    if i > 0 {
        assert(store[0].0@ != k);
        assert(store.drop_first()[i - 1] == store[i]);
        assert forall|x: int, y: int|
            0 <= x < y < store.drop_first().len() implies store.drop_first()[x].0@
            != store.drop_first()[y].0@ by {
            assert(store.drop_first()[x] == store[x + 1]);
            assert(store.drop_first()[y] == store[y + 1]);
        }
        lemma_store_text_at(store.drop_first(), k, i - 1);
    }
}

fn visited_contains(visited: &Vec<String>, key: &String) -> (r: bool)
    ensures
        r == seq_contains_str(visited@, key@),
{
    let mut i: usize = 0;
    while i < visited.len()
        invariant
            i <= visited@.len(),
            forall|j: int| 0 <= j < i ==> visited@[j]@ != key@,
        decreases visited@.len() - i,
    {
        if str_eq(visited[i].as_str(), key.as_str()) {
            return true;
        }
        i = i + 1;
    }
    false
}

/// Distinct visited paths that all key distinct store entries cannot
/// outnumber the store.
proof fn lemma_visited_le_store(s: Seq<String>, store: Seq<(String, String)>)
    requires
        views_no_dup(s),
        all_in_store(s, store),
        store_keys_distinct(store),
    ensures
        s.len() <= store.len(),
    decreases s.len(),
{
    if s.len() > 0 {
        let last = s[s.len() - 1];
        let k = choose|k: int| 0 <= k < store.len() && store[k].0@ == last@;
        let store2 = store.remove(k);
        let s2 = s.drop_last();
        assert forall|i: int| 0 <= i < s2.len() implies key_in_store(store2, #[trigger] s2[i]@) by {
            assert(key_in_store(store, s[i]@));
            let m0 = choose|m0: int| 0 <= m0 < store.len() && store[m0].0@ == s[i]@;
            assert(m0 != k);
            if m0 < k {
                assert(store2[m0].0@ == s2[i]@);
            } else {
                assert(store2[m0 - 1].0@ == s2[i]@);
            }
        }
        lemma_visited_le_store(s2, store2);
    }
}

/// The document a well-parsed root contributes: the root's own lists come
/// first and its declared settings survive every later merge.
pub open spec fn root_claims(c: SpecRqcConfig, d: SpecRqcConfig) -> bool {
    &&& c.imports.len() == 0
    &&& d.apis.len() <= c.apis.len()
    &&& (forall|i: int| 0 <= i < d.apis.len() ==> c.apis[i] == #[trigger] d.apis[i])
    &&& (d.config is Some && d.config->Some_0.base_urls.len() > 0 ==> c.config is Some
        && c.config->Some_0.base_urls == d.config->Some_0.base_urls)
}

/// Whether the visited list holds `k`, seen at the model level.
pub open spec fn vis_contains(vs: Seq<Seq<char>>, k: Seq<char>) -> bool {
    exists|i: int| 0 <= i < vs.len() && vs[i] == k
}

/// The whole resolution of one file against an in-memory store: an
/// already-visited file contributes an empty document unparsed; a missing
/// or unparsable file is this call's error; otherwise the file's own
/// document, imports drained, is merged with the contribution of each
/// import in encounter order. Remote and OpenAPI imports contribute their
/// adapted documents when their text is in the store and parses; every
/// failing, missing or unsupported import contributes nothing.
pub open spec fn spec_resolve(
    store: Seq<(String, String)>,
    path: Seq<char>,
    base_dir: Seq<char>,
    visited: Seq<Seq<char>>,
) -> (Result<SpecRqcConfig, SpecParseError>, Seq<Seq<char>>)
    decreases store.len() - visited.len(), 0int, 0int,
{
    if vis_contains(visited, path) {
        (Result::Ok(crate::ast::spec_empty_config()), visited)
    } else if !key_in_store(store, path) || visited.len() + 1 > store.len() {
        // the length test never fires when the visited paths are distinct
        // keys of the store; it keeps the recursion well founded
        (Result::Err(SpecParseError::IoError("no such file: "@ + path)), visited)
    } else {
        let v1 = visited.push(path);
        match crate::parser::spec_parse_text(store_text(store, path)) {
            Result::Err(e) => (Result::Err(e), v1),
            Result::Ok(d) => {
                let folded = spec_resolve_imports(
                    store,
                    path,
                    base_dir,
                    d.imports,
                    0,
                    SpecRqcConfig { imports: Seq::empty(), ..d },
                    v1,
                );
                (Result::Ok(folded.0), folded.1)
            },
        }
    }
}

/// The fold of merges over a file's import list, from import `i` on, with
/// the visited list threaded through recursive resolutions.
pub open spec fn spec_resolve_imports(
    store: Seq<(String, String)>,
    path: Seq<char>,
    base_dir: Seq<char>,
    imports: Seq<Seq<char>>,
    i: int,
    acc: SpecRqcConfig,
    visited: Seq<Seq<char>>,
) -> (SpecRqcConfig, Seq<Seq<char>>)
    decreases store.len() - visited.len(), 1int, imports.len() - i,
{
    if i < 0 || i >= imports.len() || visited.len() > store.len() {
        (acc, visited)
    } else {
        let clean = spec_strip_quotes(imports[i]);
        if crate::openapi::spec_is_url(clean) {
            let acc2 = if key_in_store(store, clean) {
                match crate::openapi::spec_openapi_document(
                    store_text(store, clean),
                    crate::openapi::spec_url_suffix(clean),
                ) {
                    Option::Some(c) => spec_merge(acc, c),
                    Option::None => acc,
                }
            } else {
                acc
            };
            spec_resolve_imports(store, path, base_dir, imports, i + 1, acc2, visited)
        } else {
            let file = spec_resolve_import(clean, base_dir, path);
            let ext = spec_extension(file);
            if ext == "rqc"@ {
                let sub = spec_resolve(store, file, spec_parent_dir(file), visited);
                let v2 = if visited.len() < sub.1.len() <= store.len() {
                    sub.1
                } else {
                    visited
                };
                let acc2 = match sub.0 {
                    Result::Ok(c) => spec_merge(acc, c),
                    Result::Err(_) => acc,
                };
                spec_resolve_imports(store, path, base_dir, imports, i + 1, acc2, v2)
            } else if ext == "json"@ || ext == "yaml"@ || ext == "yml"@ {
                let acc2 = if key_in_store(store, file) {
                    match crate::openapi::spec_openapi_document(store_text(store, file), ext) {
                        Option::Some(c) => spec_merge(acc, c),
                        Option::None => acc,
                    }
                } else {
                    acc
                };
                spec_resolve_imports(store, path, base_dir, imports, i + 1, acc2, visited)
            } else {
                spec_resolve_imports(store, path, base_dir, imports, i + 1, acc, visited)
            }
        }
    }
}

/// Containment at the model level matches containment over the paths.
proof fn lemma_vis_contains(v: Seq<String>, k: Seq<char>)
    ensures
        vis_contains(view_string_list(v), k) == seq_contains_str(v, k),
{
    if seq_contains_str(v, k) {
        let i = choose|i: int| 0 <= i < v.len() && v[i]@ == k;
        assert(view_string_list(v)[i] == v[i]@);
        assert(vis_contains(view_string_list(v), k));
    }
    if vis_contains(view_string_list(v), k) {
        let i = choose|i: int| 0 <= i < view_string_list(v).len() && view_string_list(v)[i] == k;
        assert(view_string_list(v)[i] == v[i]@);
        assert(seq_contains_str(v, k));
    }
}

/// Resolves one file of the store and, recursively, its imports. The
/// returned path list extends `visited` by every file parsed during the
/// call, each at most once; an already-visited file contributes an empty
/// document without being parsed again.
#[verifier::rlimit(100)]
#[verifier::spinoff_prover]
fn resolve_rec(
    store: &Vec<(String, String)>,
    path: String,
    base_dir: String,
    visited: Vec<String>,
) -> (r: (Result<RqcConfig, ParseError>, Vec<String>))
    requires
        store_keys_distinct(store@),
        views_no_dup(visited@),
        all_in_store(visited@, store@),
    ensures
        views_no_dup(r.1@),
        all_in_store(r.1@, store@),
        r.1@.len() >= visited@.len(),
        forall|m: int| 0 <= m < visited@.len() ==> r.1@[m] == #[trigger] visited@[m],
        seq_contains_str(visited@, path@) ==> r.1@ == visited@ && (r.0 matches Ok(c) && c@
            == crate::ast::spec_empty_config()),
        !seq_contains_str(visited@, path@) && !key_in_store(store@, path@) ==> r.1@ == visited@
            && r.0 is Err,
        !seq_contains_str(visited@, path@) && key_in_store(store@, path@) ==> seq_contains_str(
            r.1@,
            path@,
        ) && r.1@.len() > visited@.len(),
        !seq_contains_str(visited@, path@) && key_in_store(store@, path@) ==> (
        match crate::parser::spec_parse_text(store_text(store@, path@)) {
            Result::Err(e) => r.0 matches Err(e2) && e2@ == e,
            Result::Ok(d) => r.0 matches Ok(c) && root_claims(c@, d),
        }),
        ({
            let sp = spec_resolve(store@, path@, base_dir@, view_string_list(visited@));
            &&& (match r.0 {
                Result::Ok(c) => sp.0 matches Result::Ok(sc) && c@ == sc,
                Result::Err(e) => sp.0 matches Result::Err(se) && e@ == se,
            })
            &&& view_string_list(r.1@) == sp.1
        }),
    decreases store@.len() - visited@.len(),
{
    let ghost sv = store@;
    let ghost vv0 = view_string_list(visited@);
    proof {
        lemma_vis_contains(visited@, path@);
    }
    if visited_contains(&visited, &path) {
        return (Ok(RqcConfig::empty()), visited);
    }
    let idx = match lookup(store, &path) {
        Some(i) => i,
        None => {
            let mut msg = String::from_str("no such file: ");
            msg.append(path.as_str());
            proof {
                assert(msg@ =~= "no such file: "@ + path@);
            }
            return (Err(ParseError::IoError(msg)), visited);
        },
    };
    let mut vis = visited;
    let ghost vis0 = vis@;
    vis.push(path.clone());
    proof {
        assert(vis@[vis@.len() - 1]@ == path@);
        assert(store@[idx as int].0@ == path@);
        assert(key_in_store(store@, path@));
        assert(seq_contains_str(vis@, path@));
        assert forall|i: int, j: int| 0 <= i < j < vis@.len() implies vis@[i]@ != vis@[j]@ by {
            if j == vis@.len() - 1 {
                assert(vis@[i] == vis0[i]);
                if vis@[i]@ == path@ {
                    assert(seq_contains_str(vis0, path@));
                }
            } else {
                assert(vis@[i] == vis0[i]);
                assert(vis@[j] == vis0[j]);
            }
        }
        assert forall|i: int| 0 <= i < vis@.len() implies key_in_store(
            store@,
            #[trigger] vis@[i]@,
        ) by {
            if i < vis@.len() - 1 {
                assert(vis@[i] == vis0[i]);
            }
        }
        lemma_visited_le_store(vis@, store@);
        lemma_store_text_at(store@, path@, idx as int);
        assert(view_string_list(vis@) =~= vv0.push(path@));
        assert(vv0.len() == visited@.len());
        assert(vv0.len() + 1 <= sv.len());
    }
    let ghost v1g = view_string_list(vis@);
    let mut parser = Parser::new(store[idx].1.as_str());
    let mut config = match parser.parse() {
        Ok(c) => c,
        Err(e) => {
            return (Err(e), vis);
        },
    };
    let ghost dv = config@;
    proof {
        assert(crate::parser::spec_parse_text(store_text(sv, path@)) == Result::<
            SpecRqcConfig,
            SpecParseError,
        >::Ok(dv));
    }
    let mut imports: Vec<String> = Vec::new();
    imports.append(&mut config.imports);
    proof {
        assert(view_string_list(config.imports@) =~= Seq::<Seq<char>>::empty());
        assert(config@ =~~= SpecRqcConfig { imports: Seq::empty(), ..dv });
        assert(view_string_list(imports@) =~= dv.imports);
    }
    let ghost acc0g = config@;
    let mut k: usize = 0;
    while k < imports.len()
        invariant
            store_keys_distinct(store@),
            views_no_dup(vis@),
            all_in_store(vis@, store@),
            vis@.len() > vis0.len(),
            forall|m: int| 0 <= m < vis0.len() ==> vis@[m] == #[trigger] vis0[m],
            seq_contains_str(vis@, path@),
            k <= imports@.len(),
            config@.imports.len() == 0,
            root_claims(config@, dv),
            spec_resolve_imports(
                sv,
                path@,
                base_dir@,
                dv.imports,
                k as int,
                config@,
                view_string_list(vis@),
            ) == spec_resolve_imports(sv, path@, base_dir@, dv.imports, 0, acc0g, v1g),
        decreases imports@.len() - k,
    {
        let ghost kk = k as int;
        let ghost cfg_at = config@;
        let ghost views_at = view_string_list(vis@);
        proof {
            lemma_visited_le_store(vis@, store@);
            assert(views_at.len() == vis@.len());
            assert(view_string_list(imports@)[kk] == imports@[kk]@);
            assert(dv.imports[kk] == imports@[kk]@);
        }
        let clean = strip_quotes(imports[k].as_str());
        if crate::openapi::is_url(clean.as_str()) {
            // a remote specification: its text stands in the store under its
            // URL when it is reachable; anything else is skipped
            match lookup(store, &clean) {
                Some(j) => {
                    proof {
                        assert(key_in_store(sv, clean@));
                        lemma_store_text_at(sv, clean@, j as int);
                    }
                    let ext = crate::openapi::url_suffix(clean.as_str());
                    match parse_openapi_content(store[j].1.as_str(), ext.as_str()) {
                        Ok(imported) => {
                            merge_configs(&mut config, imported);
                        },
                        Err(_) => {},
                    }
                },
                None => {},
            }
        } else {
            let import_file = resolve_import_path(
                clean.as_str(),
                base_dir.as_str(),
                path.as_str(),
            );
            let ext = path_extension(import_file.as_str());
            if string_eq(&ext, "rqc") {
                let import_base = parent_dir(import_file.as_str());
                proof {
                    lemma_visited_le_store(vis@, store@);
                }
                let (sub, vis2) = resolve_rec(store, import_file, import_base, vis);
                vis = vis2;
                proof {
                    lemma_visited_le_store(vis@, store@);
                    let spsub = spec_resolve(sv, import_file@, import_base@, views_at);
                    assert(view_string_list(vis@) == spsub.1);
                    if !(views_at.len() < spsub.1.len() <= sv.len()) {
                        assert(spsub.1.len() == views_at.len());
                        assert(view_string_list(vis@) =~= views_at);
                    }
                }
                match sub {
                    Ok(imported) => {
                        merge_configs(&mut config, imported);
                    },
                    Err(_) => {},
                }
            } else if string_eq(&ext, "json") || string_eq(&ext, "yaml") || string_eq(
                &ext,
                "yml",
            ) {
                match lookup(store, &import_file) {
                    Some(j) => {
                        proof {
                            assert(key_in_store(sv, import_file@));
                            lemma_store_text_at(sv, import_file@, j as int);
                        }
                        match parse_openapi_content(store[j].1.as_str(), ext.as_str()) {
                            Ok(imported) => {
                                merge_configs(&mut config, imported);
                            },
                            Err(_) => {},
                        }
                    },
                    None => {},
                }
            } else {
                // unsupported import extension: skipped
            }
        }
        k = k + 1;
        proof {
            assert(spec_resolve_imports(sv, path@, base_dir@, dv.imports, kk, cfg_at, views_at)
                == spec_resolve_imports(
                sv,
                path@,
                base_dir@,
                dv.imports,
                kk + 1,
                config@,
                view_string_list(vis@),
            ));
        }
    }
    proof {
        assert(view_string_list(imports@).len() == imports@.len());
        assert(spec_resolve_imports(
            sv,
            path@,
            base_dir@,
            dv.imports,
            k as int,
            config@,
            view_string_list(vis@),
        ) == (config@, view_string_list(vis@)));
    }
    (Ok(config), vis)
}

/// Resolves a root document and every document reachable through its
/// imports into one merged document — exactly the model's resolution. The
/// second result lists the files parsed, in order: it never repeats a path,
/// so mutually importing documents terminate with each parsed exactly once.
pub fn resolve_with_store(store: &Vec<(String, String)>, root_path: &str, base_dir: &str) -> (r: (
    Result<RqcConfig, ParseError>,
    Vec<String>,
))
    requires
        store_keys_distinct(store@),
    ensures
        views_no_dup(r.1@),
        all_in_store(r.1@, store@),
        !key_in_store(store@, root_path@) ==> r.0 is Err,
        key_in_store(store@, root_path@) ==> seq_contains_str(r.1@, root_path@) && (
        match crate::parser::spec_parse_text(store_text(store@, root_path@)) {
            Result::Err(e) => r.0 matches Err(e2) && e2@ == e,
            Result::Ok(d) => r.0 matches Ok(c) && root_claims(c@, d),
        }),
        ({
            let sp = spec_resolve(store@, root_path@, base_dir@, Seq::empty());
            &&& (match r.0 {
                Result::Ok(c) => sp.0 matches Result::Ok(sc) && c@ == sc,
                Result::Err(e) => sp.0 matches Result::Err(se) && e@ == se,
            })
            &&& view_string_list(r.1@) == sp.1
        }),
{
    let visited: Vec<String> = Vec::new();
    proof {
        assert(view_string_list(visited@) =~= Seq::<Seq<char>>::empty());
    }
    resolve_rec(store, String::from_str(root_path), String::from_str(base_dir), visited)
}

} // verus!
