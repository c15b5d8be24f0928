//! The request-handling rules of the HTTP server.
//!
//! Per inbound request the server decides everything here, before any
//! I/O: a path registered in the route table is answered 200 with the
//! rendered page as `text/html`; any other path is delegated to the
//! fallback handler, which answers 200 with the asset the store held for
//! that path, or 404 when it held none. [`response_of`] is the whole
//! decision as one mathematical function of the request alone, which is
//! what makes concurrent requests independent: no response reads anything
//! another request could write.

use vstd::prelude::*;
use crate::html::contains_text;
use crate::router::RouteTable;
use crate::view::{ViewId, page_markup, home_text, render_page, lemma_page_contains_home};

verus! {

/// Process-wide diagnostics: the error-reporting and logging hooks the
/// startup sequence installs, exactly once, before anything else runs.
/// Installing the error hook a second time is a logic error in the
/// underlying reporting machinery, so the contract rules the second call
/// out instead of letting it happen.
pub struct Diagnostics {
    pub hooks_installed: bool,
}

impl Diagnostics {
    /// At process start no hook is installed yet.
    pub fn new() -> (d: Diagnostics)
        ensures
            !d.hooks_installed,
    {
        Diagnostics { hooks_installed: false }
    }

    /// Install the process-wide hooks. Callable only while none are
    /// installed; afterward they stay installed for the process lifetime.
    pub fn install_hooks(&mut self)
        requires
            !old(self).hooks_installed,
        ensures
            final(self).hooks_installed,
    {
        self.hooks_installed = true;
    }
}

/// A response: status code, content type, and body text.
pub struct HttpResponse {
    pub status: u16,
    pub content_type: String,
    pub body: String,
}

/// Mathematical model of a response.
pub struct ResponseModel {
    pub status: int,
    pub content_type: Seq<char>,
    pub body: Seq<char>,
}

pub open spec fn response_model(r: HttpResponse) -> ResponseModel {
    ResponseModel { status: r.status as int, content_type: r.content_type@, body: r.body@ }
}

/// A static asset the fallback handler found for a path.
pub struct StaticAsset {
    pub content_type: String,
    pub body: String,
}

/// Mathematical model of an asset.
pub struct AssetModel {
    pub content_type: Seq<char>,
    pub body: Seq<char>,
}

pub open spec fn asset_model(a: StaticAsset) -> AssetModel {
    AssetModel { content_type: a.content_type@, body: a.body@ }
}

pub open spec fn asset_models(a: Option<StaticAsset>) -> Option<AssetModel> {
    match a {
        Option::Some(asset) => Option::Some(asset_model(asset)),
        Option::None => Option::None,
    }
}

/// The page response for a route: 200, `text/html`, the serialized page.
pub open spec fn page_response(v: ViewId) -> ResponseModel {
    ResponseModel { status: 200, content_type: "text/html"@, body: page_markup(v) }
}

/// The fallback's response: the asset when the store held one, else 404.
pub open spec fn fallback_of(asset: Option<AssetModel>) -> ResponseModel {
    match asset {
        Option::Some(a) => ResponseModel { status: 200, content_type: a.content_type, body: a.body },
        Option::None => ResponseModel {
            status: 404,
            content_type: "text/plain"@,
            body: "Not Found"@,
        },
    }
}

/// The whole per-request decision: the response for a path, given the route
/// table and what the asset store held for that path (`None` when nothing).
pub open spec fn response_of(t: RouteTable, path: Seq<char>, asset: Option<AssetModel>)
    -> ResponseModel {
    match t.route_for(path) {
        Option::Some(v) => page_response(v),
        Option::None => fallback_of(asset),
    }
}

/// What the server decides for a request before touching any store:
/// render a route's view, or delegate to the fallback handler.
pub enum RoutePlan {
    Render(ViewId),
    Fallback,
}

/// Decide whether a request path is served by a route or by the fallback.
pub fn plan_request(table: &RouteTable, path: &str) -> (p: RoutePlan)
    ensures
        (p matches RoutePlan::Render(v) ==> table.route_for(path@) == Option::Some(v)),
        (table.route_for(path@) matches Option::Some(v) ==> p == RoutePlan::Render(v)),
        (p is Fallback <==> table.route_for(path@) is None),
{
    match table.lookup(path) {
        Option::Some(v) => RoutePlan::Render(v),
        Option::None => RoutePlan::Fallback,
    }
}

/// The fallback handler's decision, given what the asset store held.
pub fn fallback_response(asset: Option<StaticAsset>) -> (r: HttpResponse)
    ensures
        response_model(r) == fallback_of(asset_models(asset)),
{
    match asset {
        Option::Some(a) => HttpResponse {
            status: 200,
            content_type: a.content_type,
            body: a.body,
        },
        Option::None => HttpResponse {
            status: 404,
            content_type: String::from_str("text/plain"),
            body: String::from_str("Not Found"),
        },
    }
}

/// Serve one request: render the matched route, or fall back to the asset
/// the store held for the path. The response is exactly `response_of`, a
/// function of the request alone.
pub fn respond(table: &RouteTable, path: &str, asset: Option<StaticAsset>) -> (r: HttpResponse)
    ensures
        response_model(r) == response_of(*table, path@, asset_models(asset)),
{
    match table.lookup(path) {
        Option::Some(v) => {
            let body = render_page(v);
            HttpResponse { status: 200, content_type: String::from_str("text/html"), body }
        },
        Option::None => fallback_response(asset),
    }
}

/// Law: a GET to a path routed to the home view is answered 200 with
/// content type `text/html` and a body that contains "Hello, World!",
/// whatever the asset store holds.
pub proof fn lemma_home_request_served(t: RouteTable, path: Seq<char>, asset: Option<AssetModel>)
    requires
        t.route_for(path) == Option::Some(ViewId::Home),
    ensures
        response_of(t, path, asset).status == 200,
        response_of(t, path, asset).content_type == "text/html"@,
        response_of(t, path, asset).body == page_markup(ViewId::Home),
        contains_text(response_of(t, path, asset).body, home_text()),
{
    lemma_page_contains_home();
}

/// Law: a GET to a path with no route and no asset is answered 404.
pub proof fn lemma_unknown_path_not_found(t: RouteTable, path: Seq<char>)
    requires
        t.route_for(path) is None,
    ensures
        response_of(t, path, Option::None).status == 404,
{
}

/// Law: the whole HTTP surface, for a table whose one route is `/`. A GET
/// to `/` is the rendered page, 200 and `text/html`, whatever the asset
/// store holds; any other path is the asset the store held for it, 200;
/// any other path without an asset is a 404.
pub proof fn lemma_http_surface(t: RouteTable, path: Seq<char>, asset: Option<AssetModel>)
    requires
        forall|p: Seq<char>|
            t.route_for(p) == (if p == "/"@ {
                Option::Some(ViewId::Home)
            } else {
                Option::<ViewId>::None
            }),
    ensures
        path == "/"@ ==> response_of(t, path, asset) == page_response(ViewId::Home)
            && contains_text(response_of(t, path, asset).body, home_text()),
        path != "/"@ ==> (asset matches Option::Some(a) ==> response_of(t, path, asset)
            == (ResponseModel { status: 200, content_type: a.content_type, body: a.body })),
        path != "/"@ && asset is None ==> response_of(t, path, asset).status == 404,
{
    if path == "/"@ {
        lemma_page_contains_home();
    }
}

/// The responses to a batch of requests, each paired with what the asset
/// store held for its path: every one is decided independently.
pub open spec fn responses_of(t: RouteTable, reqs: Seq<(Seq<char>, Option<AssetModel>)>)
    -> Seq<ResponseModel> {
    reqs.map_values(|q: (Seq<char>, Option<AssetModel>)| response_of(t, q.0, q.1))
}

/// Law: requests are independent and commutative. In any two batches that
/// agree on the request at position `i` — whatever the other requests are,
/// however many there are, in whatever order — the response at `i` is the
/// same: no response reads another request's data.
pub proof fn lemma_requests_independent(
    t: RouteTable,
    reqs1: Seq<(Seq<char>, Option<AssetModel>)>,
    reqs2: Seq<(Seq<char>, Option<AssetModel>)>,
    i: int,
)
    requires
        0 <= i < reqs1.len(),
        0 <= i < reqs2.len(),
        reqs1[i] == reqs2[i],
    ensures
        responses_of(t, reqs1)[i] == responses_of(t, reqs2)[i],
{
}

} // verus!
