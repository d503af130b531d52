//! URL configuration: the endpoints of the benchmark application, how a
//! request path selects one, and the routers of the HTTP, gRPC and WebSocket
//! projects.

use vstd::prelude::*;
use crate::strings::{split_on, split_chars, chars_of, push_char};
use crate::grpc_urls::GrpcService;

verus! {

/// An HTTP method that the endpoints answer.
#[derive(Clone, Copy, Debug, PartialEq, Eq, Structural)]
pub enum Method {
    Get,
    Post,
    Put,
}

/// An endpoint: method, path pattern (`{name}` stands for one path segment)
/// and route name.
pub struct Endpoint {
    pub method: Method,
    pub path: &'static str,
    pub name: &'static str,
}

/// The endpoints of one application, in registration order.
pub struct ServerRouter {
    pub endpoints: Vec<Endpoint>,
}

pub open spec fn endpoints_view(e: Seq<Endpoint>) -> Seq<(Method, Seq<char>, Seq<char>)> {
    e.map_values(|x: Endpoint| (x.method, x.path@, x.name@))
}

/// The endpoints of the benchmark application.
pub open spec fn benchmark_endpoints() -> Seq<(Method, Seq<char>, Seq<char>)> {
    seq![
        (Method::Get, "/pipeline"@, "pipeline"@),
        (Method::Get, "/baseline11"@, "baseline11"@),
        (Method::Post, "/baseline11"@, "baseline11-post"@),
        (Method::Get, "/baseline2"@, "baseline2"@),
        (Method::Post, "/upload"@, "upload"@),
        (Method::Get, "/json/{count}"@, "json"@),
        (Method::Get, "/static/{path}"@, "static"@),
        (Method::Get, "/async-db"@, "async-db"@),
        (Method::Get, "/crud/items"@, "crud-list"@),
        (Method::Get, "/crud/items/{id}"@, "crud-read"@),
        (Method::Post, "/crud/items"@, "crud-create"@),
        (Method::Put, "/crud/items/{id}"@, "crud-update"@),
        (Method::Get, "/fortunes"@, "fortunes"@),
    ]
}

fn endpoint(method: Method, path: &'static str, name: &'static str) -> (e: Endpoint)
    ensures
        e.method == method && e.path@ == path@ && e.name@ == name@,
{
    Endpoint { method, path, name }
}

/// Every benchmark endpoint, registered with the router.
pub fn server_url_patterns() -> (r: ServerRouter)
    ensures
        endpoints_view(r.endpoints@) == benchmark_endpoints(),
{
    let mut e: Vec<Endpoint> = Vec::new();
    e.push(endpoint(Method::Get, "/pipeline", "pipeline"));
    e.push(endpoint(Method::Get, "/baseline11", "baseline11"));
    e.push(endpoint(Method::Post, "/baseline11", "baseline11-post"));
    e.push(endpoint(Method::Get, "/baseline2", "baseline2"));
    e.push(endpoint(Method::Post, "/upload", "upload"));
    e.push(endpoint(Method::Get, "/json/{count}", "json"));
    e.push(endpoint(Method::Get, "/static/{path}", "static"));
    e.push(endpoint(Method::Get, "/async-db", "async-db"));
    e.push(endpoint(Method::Get, "/crud/items", "crud-list"));
    e.push(endpoint(Method::Get, "/crud/items/{id}", "crud-read"));
    e.push(endpoint(Method::Post, "/crud/items", "crud-create"));
    e.push(endpoint(Method::Put, "/crud/items/{id}", "crud-update"));
    e.push(endpoint(Method::Get, "/fortunes", "fortunes"));
    assert(endpoints_view(e@) =~= benchmark_endpoints());
    ServerRouter { endpoints: e }
}

// ---------------------------------------------------------------------------
// Matching a request path against a pattern

/// Whether a pattern segment is a parameter `{name}`.
pub open spec fn is_param(seg: Seq<char>) -> bool {
    seg.len() >= 2 && seg[0] == '{' && seg.last() == '}'
}

/// Whether a path segment fits a pattern segment: a parameter takes any
/// non-empty segment, anything else only itself.
pub open spec fn segment_fits(pattern: Seq<char>, seg: Seq<char>) -> bool {
    if is_param(pattern) {
        seg.len() > 0
    } else {
        pattern == seg
    }
}

/// Whether `path` fits `pattern`, segment by segment.
pub open spec fn path_fits(pattern: Seq<char>, path: Seq<char>) -> bool {
    let ps = split_on(pattern, '/');
    let qs = split_on(path, '/');
    &&& ps.len() == qs.len()
    &&& forall|i: int| 0 <= i < ps.len() ==> segment_fits(#[trigger] ps[i], qs[i])
}

/// The segments of `path` that stand where `pattern` has parameters, in order.
pub open spec fn params_of(ps: Seq<Seq<char>>, qs: Seq<Seq<char>>) -> Seq<Seq<char>>
    decreases ps.len(),
{
    if ps.len() == 0 {
        Seq::empty()
    } else if is_param(ps.last()) {
        params_of(ps.drop_last(), qs.drop_last()).push(qs.last())
    } else {
        params_of(ps.drop_last(), qs.drop_last())
    }
}

pub open spec fn path_params(pattern: Seq<char>, path: Seq<char>) -> Seq<Seq<char>> {
    params_of(split_on(pattern, '/'), split_on(path, '/'))
}

fn vec_to_string(v: &Vec<char>) -> (s: String)
    ensures
        s@ == v@,
{
    let mut s = String::new();
    let mut i: usize = 0;
    while i < v.len()
        invariant
            i <= v@.len(),
            s@ == v@.take(i as int),
        decreases v@.len() - i,
    {
        push_char(&mut s, v[i]);
        assert(s@ =~= v@.take(i + 1));
        i = i + 1;
    }
    assert(v@.take(i as int) =~= v@);
    s
}

/// The parameters that `path` gives `pattern`, where it fits.
pub fn match_path(pattern: &str, path: &str) -> (r: Option<Vec<String>>)
    ensures
        r is Some <==> path_fits(pattern@, path@),
        r matches Some(params) ==> params@.map_values(|s: String| s@) == path_params(pattern@, path@),
{
    let pc = chars_of(pattern);
    let qc = chars_of(path);
    let ps = split_chars(&pc, '/');
    let qs = split_chars(&qc, '/');
    let ghost pv = ps@.map_values(|v: Vec<char>| v@);
    let ghost qv = qs@.map_values(|v: Vec<char>| v@);
    if ps.len() != qs.len() {
        return None;
    }
    let mut params: Vec<String> = Vec::new();
    let mut i: usize = 0;
    assert(pv.take(0) =~= Seq::<Seq<char>>::empty());
    while i < ps.len()
        invariant
            i <= ps@.len(),
            ps@.len() == qs@.len(),
            pv == ps@.map_values(|v: Vec<char>| v@),
            qv == qs@.map_values(|v: Vec<char>| v@),
            pv == split_on(pattern@, '/'),
            qv == split_on(path@, '/'),
            forall|k: int| 0 <= k < i ==> segment_fits(#[trigger] pv[k], qv[k]),
            params@.map_values(|s: String| s@) == params_of(pv.take(i as int), qv.take(i as int)),
        decreases ps@.len() - i,
    {
        let p = &ps[i];
        let q = &qs[i];
        assert(pv[i as int] == p@ && qv[i as int] == q@);
        assert(pv.take(i + 1).drop_last() =~= pv.take(i as int));
        assert(qv.take(i + 1).drop_last() =~= qv.take(i as int));
        assert(pv.take(i + 1).last() == p@);
        assert(qv.take(i + 1).last() == q@);
        let param = p.len() >= 2 && p[0] == '{' && p[p.len() - 1] == '}';
        if param {
            if q.len() == 0 {
                return None;
            }
            let ghost before = params@.map_values(|s: String| s@);
            let text = vec_to_string(q);
            params.push(text);
            assert(params@.map_values(|s: String| s@) =~= before.push(q@));
        } else {
            if p.len() != q.len() {
                return None;
            }
            let mut k: usize = 0;
            #[verifier::loop_isolation(false)]
            while k < p.len()
                invariant
                    k <= p@.len(),
                    p@.len() == q@.len(),
                    forall|j: int| 0 <= j < k ==> p@[j] == q@[j],
                decreases p@.len() - k,
            {
                if p[k] != q[k] {
                    assert(p@[k as int] != q@[k as int]);
                    return None;
                }
                k = k + 1;
            }
            assert(p@ =~= q@);
            assert(params@.map_values(|s: String| s@) =~= params_of(pv.take(i + 1), qv.take(i + 1)));
        }
        i = i + 1;
    }
    assert(pv.take(i as int) =~= pv);
    assert(qv.take(i as int) =~= qv);
    Some(params)
}

/// Whether endpoint `e` answers `method` on `path`.
pub open spec fn answers(e: (Method, Seq<char>, Seq<char>), method: Method, path: Seq<char>) -> bool {
    e.0 == method && path_fits(e.1, path)
}

/// The endpoint of `router` that answers `method` on `path` (the first
/// registered one that does), with the path parameters.
pub fn resolve(router: &ServerRouter, method: Method, path: &str) -> (r: Option<(usize, Vec<String>)>)
    ensures
        r matches Some((i, params)) ==> {
            &&& i < router.endpoints@.len()
            &&& answers(endpoints_view(router.endpoints@)[i as int], method, path@)
            &&& forall|k: int| 0 <= k < i ==> !answers(#[trigger] endpoints_view(router.endpoints@)[k], method, path@)
            &&& params@.map_values(|s: String| s@) == path_params(endpoints_view(router.endpoints@)[i as int].1, path@)
        },
        r is None ==> forall|k: int|
            0 <= k < router.endpoints@.len() ==> !answers(#[trigger] endpoints_view(router.endpoints@)[k], method, path@),
{
    let ghost ev = endpoints_view(router.endpoints@);
    let mut i: usize = 0;
    while i < router.endpoints.len()
        invariant
            i <= router.endpoints@.len(),
            ev == endpoints_view(router.endpoints@),
            forall|k: int| 0 <= k < i ==> !answers(#[trigger] ev[k], method, path@),
        decreases router.endpoints@.len() - i,
    {
        let e = &router.endpoints[i];
        assert(ev[i as int] == (e.method, e.path@, e.name@));
        if e.method == method {
            match match_path(e.path, path) {
                Some(params) => {
                    return Some((i, params));
                },
                None => {},
            }
        }
        i = i + 1;
    }
    None
}

// ---------------------------------------------------------------------------
// Routers of the three projects

/// A router mounted under a path prefix.
pub struct Mount {
    pub prefix: &'static str,
    pub router: ServerRouter,
}

/// A WebSocket consumer: path and name.
pub struct WebSocketRoute {
    pub path: &'static str,
    pub name: &'static str,
}

/// The routes of a project: HTTP routers by prefix, gRPC services,
/// WebSocket consumers, and whether responses are compressed.
pub struct UnifiedRouter {
    pub mounts: Vec<Mount>,
    pub grpc: Vec<GrpcService>,
    pub websocket: Vec<WebSocketRoute>,
    pub compression: bool,
}

/// The HTTP project: the benchmark endpoints under `/`, with the response
/// compression middleware.
pub fn routes() -> (r: UnifiedRouter)
    ensures
        r.mounts@.len() == 1,
        r.mounts@[0].prefix@ == "/"@,
        endpoints_view(r.mounts@[0].router.endpoints@) == benchmark_endpoints(),
        r.grpc@.len() == 0,
        r.websocket@.len() == 0,
        r.compression,
{
    let mut mounts: Vec<Mount> = Vec::new();
    mounts.push(Mount { prefix: "/", router: server_url_patterns() });
    UnifiedRouter { mounts, grpc: Vec::new(), websocket: Vec::new(), compression: true }
}

} // verus!
