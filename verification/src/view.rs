//! The view definitions: the one route's content and the document shell.
//!
//! [`render_home`] produces the home fragment, a paragraph reading
//! "Hello, World!". [`render_app`] wraps a route's content in the full
//! document: metadata in the head (character set, viewport, title,
//! stylesheet and client-bundle references) and the content in the body.
//! Both are proved to produce exactly the model the specs here describe,
//! so rendering is deterministic: any two renders of the same route are
//! the same tree, character for character.

use vstd::prelude::*;
use crate::html::{
    Attr, AttrModel, Element, Node, NodeModel, attr_model, contains_text, escaped, markup,
    markup_nodes, attrs_markup, node_model, node_models, render_node,
};

verus! {

/// Identifies a view that the route table can dispatch to. One route exists.
#[derive(Clone, Copy, PartialEq, Eq, Structural)]
pub enum ViewId {
    Home,
}

/// The text of the home paragraph.
pub open spec fn home_text() -> Seq<char> {
    "Hello, World!"@
}

/// Model of the home fragment: `<p>Hello, World!</p>`.
pub open spec fn home_model() -> NodeModel {
    NodeModel::Element {
        tag: "p"@,
        attrs: Seq::empty(),
        children: seq![NodeModel::Text(home_text())],
    }
}

/// Model of a route's content.
pub open spec fn view_model(v: ViewId) -> NodeModel {
    match v {
        ViewId::Home => home_model(),
    }
}

pub open spec fn attr_of(name: Seq<char>, value: Seq<char>) -> AttrModel {
    AttrModel { name: name, value: value }
}

/// Model of the document head: character set, viewport, title, the
/// stylesheet reference, and the client bundle reference.
pub open spec fn head_model() -> NodeModel {
    NodeModel::Element {
        tag: "head"@,
        attrs: Seq::empty(),
        children: seq![
            NodeModel::Element {
                tag: "meta"@,
                attrs: seq![attr_of("charset"@, "utf-8"@)],
                children: Seq::empty(),
            },
            NodeModel::Element {
                tag: "meta"@,
                attrs: seq![
                    attr_of("name"@, "viewport"@),
                    attr_of("content"@, "width=device-width, initial-scale=1"@),
                ],
                children: Seq::empty(),
            },
            NodeModel::Element {
                tag: "title"@,
                attrs: Seq::empty(),
                children: seq![NodeModel::Text("A template app"@)],
            },
            NodeModel::Element {
                tag: "link"@,
                attrs: seq![
                    attr_of("id"@, "leptos"@),
                    attr_of("rel"@, "stylesheet"@),
                    attr_of("href"@, "/pkg/site.css"@),
                ],
                children: Seq::empty(),
            },
            NodeModel::Element {
                tag: "script"@,
                attrs: seq![attr_of("type"@, "module"@), attr_of("src"@, "/pkg/site.js"@)],
                children: Seq::empty(),
            },
        ],
    }
}

/// Model of the document body: the route's content, nothing else.
pub open spec fn body_model(v: ViewId) -> NodeModel {
    NodeModel::Element { tag: "body"@, attrs: Seq::empty(), children: seq![view_model(v)] }
}

/// Model of the whole document: `<html lang="en">` around head and body.
pub open spec fn document_model(v: ViewId) -> NodeModel {
    NodeModel::Element {
        tag: "html"@,
        attrs: seq![attr_of("lang"@, "en"@)],
        children: seq![head_model(), body_model(v)],
    }
}

pub open spec fn doctype() -> Seq<char> {
    "<!DOCTYPE html>"@
}

/// The full serialized page for a route: doctype, then the document.
pub open spec fn page_markup(v: ViewId) -> Seq<char> {
    doctype() + markup(document_model(v))
}

/// Build one attribute from literals.
fn attr(name: &str, value: &str) -> (a: Attr)
    ensures
        attr_model(a) == attr_of(name@, value@),
{
    Attr { name: String::from_str(name), value: String::from_str(value) }
}

/// Build a text node.
fn text(s: &str) -> (n: Node)
    ensures
        node_model(n) == NodeModel::Text(s@),
{
    Node::Text(String::from_str(s))
}

/// Build an element node.
fn element(tag: &str, attrs: Vec<Attr>, children: Vec<Node>) -> (n: Node)
    ensures
        node_model(n) == (NodeModel::Element {
            tag: tag@,
            attrs: attrs@.map_values(|a: Attr| attr_model(a)),
            children: node_models(children@),
        }),
{
    Node::Element(Element { tag: String::from_str(tag), attrs, children })
}

/// The home route's content: a paragraph reading "Hello, World!".
pub fn render_home() -> (n: Node)
    ensures
        node_model(n) == home_model(),
{
    let mut children: Vec<Node> = Vec::new();
    children.push(text("Hello, World!"));
    let no_attrs: Vec<Attr> = Vec::new();
    let ghost no_attrs_view = no_attrs@;
    let n = element("p", no_attrs, children);
    proof {
        assert(children@.drop_first() =~= Seq::<Node>::empty());
        assert(node_models(Seq::<Node>::empty()) =~= Seq::<NodeModel>::empty());
        assert(node_models(children@) =~~= seq![NodeModel::Text(home_text())]);
        assert(no_attrs_view.map_values(|a: Attr| attr_model(a)) =~~= Seq::<AttrModel>::empty());
        assert(node_model(n) =~~= home_model());
    }
    n
}

/// An element with attributes and no children.
fn empty_element(tag: &str, attrs: Vec<Attr>) -> (n: Node)
    ensures
        node_model(n) == (NodeModel::Element {
            tag: tag@,
            attrs: attrs@.map_values(|a: Attr| attr_model(a)),
            children: Seq::empty(),
        }),
{
    let children: Vec<Node> = Vec::new();
    let ghost cv = children@;
    let n = element(tag, attrs, children);
    proof {
        assert(node_models(cv) =~= Seq::<NodeModel>::empty());
    }
    n
}

/// An element with children and no attributes.
fn plain_element(tag: &str, children: Vec<Node>) -> (n: Node)
    ensures
        node_model(n) == (NodeModel::Element {
            tag: tag@,
            attrs: Seq::empty(),
            children: node_models(children@),
        }),
{
    let attrs: Vec<Attr> = Vec::new();
    let ghost av = attrs@;
    let n = element(tag, attrs, children);
    proof {
        assert(av.map_values(|a: Attr| attr_model(a)) =~= Seq::<AttrModel>::empty());
    }
    n
}

/// The document head, as `head_model` describes it.
fn render_head() -> (n: Node)
    ensures
        node_model(n) == head_model(),
{
    let mut charset_attrs: Vec<Attr> = Vec::new();
    charset_attrs.push(attr("charset", "utf-8"));
    let ghost charset_av = charset_attrs@;
    let charset = empty_element("meta", charset_attrs);

    let mut viewport_attrs: Vec<Attr> = Vec::new();
    viewport_attrs.push(attr("name", "viewport"));
    viewport_attrs.push(attr("content", "width=device-width, initial-scale=1"));
    let ghost viewport_av = viewport_attrs@;
    let viewport = empty_element("meta", viewport_attrs);

    let mut title_children: Vec<Node> = Vec::new();
    title_children.push(text("A template app"));
    let ghost title_cv = title_children@;
    let title = plain_element("title", title_children);

    let mut link_attrs: Vec<Attr> = Vec::new();
    link_attrs.push(attr("id", "leptos"));
    link_attrs.push(attr("rel", "stylesheet"));
    link_attrs.push(attr("href", "/pkg/site.css"));
    let ghost link_av = link_attrs@;
    let stylesheet = empty_element("link", link_attrs);

    let mut script_attrs: Vec<Attr> = Vec::new();
    script_attrs.push(attr("type", "module"));
    script_attrs.push(attr("src", "/pkg/site.js"));
    let ghost script_av = script_attrs@;
    let bundle = empty_element("script", script_attrs);

    proof {
        assert(charset_av.map_values(|a: Attr| attr_model(a)) =~= seq![
            attr_of("charset"@, "utf-8"@),
        ]);
        assert(viewport_av.map_values(|a: Attr| attr_model(a)) =~= seq![
            attr_of("name"@, "viewport"@),
            attr_of("content"@, "width=device-width, initial-scale=1"@),
        ]);
        assert(title_cv.drop_first() =~= Seq::<Node>::empty());
        assert(node_models(Seq::<Node>::empty()) =~= Seq::<NodeModel>::empty());
        assert(node_models(title_cv) =~~= seq![NodeModel::Text("A template app"@)]);
        assert(link_av.map_values(|a: Attr| attr_model(a)) =~= seq![
            attr_of("id"@, "leptos"@),
            attr_of("rel"@, "stylesheet"@),
            attr_of("href"@, "/pkg/site.css"@),
        ]);
        assert(script_av.map_values(|a: Attr| attr_model(a)) =~= seq![
            attr_of("type"@, "module"@),
            attr_of("src"@, "/pkg/site.js"@),
        ]);
    }
    let mut head_children: Vec<Node> = Vec::new();
    let ghost s0 = head_children@;
    head_children.push(charset);
    let ghost s1 = head_children@;
    head_children.push(viewport);
    let ghost s2 = head_children@;
    head_children.push(title);
    let ghost s3 = head_children@;
    head_children.push(stylesheet);
    let ghost s4 = head_children@;
    head_children.push(bundle);
    let ghost s5 = head_children@;
    proof {
        crate::html::lemma_node_models_push(s0, charset);
        crate::html::lemma_node_models_push(s1, viewport);
        crate::html::lemma_node_models_push(s2, title);
        crate::html::lemma_node_models_push(s3, stylesheet);
        crate::html::lemma_node_models_push(s4, bundle);
        assert(node_models(s0) =~= Seq::<NodeModel>::empty());
        assert(node_models(s5) =~~= head_model()->Element_children);
    }
    let n = plain_element("head", head_children);
    proof {
        assert(node_model(n) =~~= head_model());
    }
    n
}

/// The document body: the route's content, nothing else.
fn render_body(v: ViewId) -> (n: Node)
    ensures
        node_model(n) == body_model(v),
{
    let content = render_view(v);
    let mut body_children: Vec<Node> = Vec::new();
    body_children.push(content);
    let ghost cv = body_children@;
    let n = plain_element("body", body_children);
    proof {
        assert(cv.drop_first() =~= Seq::<Node>::empty());
        assert(node_models(Seq::<Node>::empty()) =~= Seq::<NodeModel>::empty());
        assert(node_models(cv) =~~= seq![view_model(v)]);
        assert(node_model(n) =~~= body_model(v));
    }
    n
}

/// The whole document for a route: metadata in the head, the route's
/// content in the body. Its model is pinned to `document_model`, so any
/// two renders of the same route are the same tree.
pub fn render_app(v: ViewId) -> (n: Node)
    ensures
        node_model(n) == document_model(v),
{
    let head = render_head();
    let body = render_body(v);
    let mut html_attrs: Vec<Attr> = Vec::new();
    html_attrs.push(attr("lang", "en"));
    let ghost av = html_attrs@;
    let mut html_children: Vec<Node> = Vec::new();
    html_children.push(head);
    html_children.push(body);
    let ghost cv = html_children@;
    let n = element("html", html_attrs, html_children);
    proof {
        assert(av.map_values(|a: Attr| attr_model(a)) =~= seq![attr_of("lang"@, "en"@)]);
        crate::html::lemma_node_models_push(seq![head], body);
        assert(cv =~= seq![head].push(body));
        assert(seq![head].drop_first() =~= Seq::<Node>::empty());
        assert(node_models(Seq::<Node>::empty()) =~= Seq::<NodeModel>::empty());
        assert(node_models(seq![head]) =~= seq![node_model(head)]);
        assert(node_models(cv) =~~= seq![head_model(), body_model(v)]);
        assert(node_model(n) =~~= document_model(v));
    }
    n
}

/// The serialized page for a route: the doctype line, then the document.
pub fn render_page(v: ViewId) -> (out: String)
    ensures
        out@ == page_markup(v),
{
    let doc = render_app(v);
    let mut out = String::from_str("<!DOCTYPE html>");
    let body = render_node(&doc);
    out.append(body.as_str());
    out
}

/// A route's content.
pub fn render_view(v: ViewId) -> (n: Node)
    ensures
        node_model(n) == view_model(v),
{
    match v {
        ViewId::Home => render_home(),
    }
}

/// The home text has no markup-significant character, so escaping leaves it
/// unchanged.
proof fn lemma_home_text_plain()
    ensures
        escaped(home_text()) == home_text(),
{
    reveal_strlit("Hello, World!");
    crate::html::lemma_escaped_plain(home_text());
}

/// The home fragment serializes to exactly `<p>Hello, World!</p>`.
pub proof fn lemma_home_markup()
    ensures
        markup(home_model()) == "<p>"@ + home_text() + "</p>"@,
{
    lemma_home_text_plain();
    let children = seq![NodeModel::Text(home_text())];
    assert(children.drop_first() =~= Seq::<NodeModel>::empty());
    assert(markup_nodes(Seq::<NodeModel>::empty()) =~= Seq::<char>::empty());
    assert(children[0] == NodeModel::Text(home_text()));
    assert(markup(NodeModel::Text(home_text())) == escaped(home_text()));
    assert(markup_nodes(children) =~= home_text());
    assert(attrs_markup(Seq::<AttrModel>::empty()) =~= Seq::<char>::empty());
    reveal_strlit("<");
    reveal_strlit("p");
    reveal_strlit(">");
    reveal_strlit("</");
    reveal_strlit("<p>");
    reveal_strlit("</p>");
    assert(markup(home_model()) =~= "<p>"@ + home_text() + "</p>"@);
}

/// Law: the serialized page for the home route contains the home text,
/// "Hello, World!", exactly once as rendered in its paragraph.
pub proof fn lemma_page_contains_home()
    ensures
        contains_text(page_markup(ViewId::Home), home_text()),
{
    lemma_home_markup();
    crate::html::lemma_contains_self(home_text());
    crate::html::lemma_contains_prepend("<p>"@, home_text(), home_text());
    crate::html::lemma_contains_append("<p>"@ + home_text(), "</p>"@, home_text());
    assert(contains_text(markup(home_model()), home_text()));

    // The body wraps the home fragment.
    let no_attrs = Seq::<AttrModel>::empty();
    let body_children = seq![home_model()];
    assert(body_children.drop_first() =~= Seq::<NodeModel>::empty());
    assert(markup_nodes(Seq::<NodeModel>::empty()) =~= Seq::<char>::empty());
    assert(markup_nodes(body_children) =~= markup(home_model()));
    assert(attrs_markup(no_attrs) =~= Seq::<char>::empty());
    let body_open = "<"@ + "body"@ + attrs_markup(no_attrs) + ">"@;
    crate::html::lemma_contains_prepend(body_open, markup_nodes(body_children), home_text());
    crate::html::lemma_contains_append(
        body_open + markup_nodes(body_children),
        "</"@,
        home_text(),
    );
    crate::html::lemma_contains_append(
        body_open + markup_nodes(body_children) + "</"@,
        "body"@,
        home_text(),
    );
    crate::html::lemma_contains_append(
        body_open + markup_nodes(body_children) + "</"@ + "body"@,
        ">"@,
        home_text(),
    );
    assert(contains_text(markup(body_model(ViewId::Home)), home_text()));

    // The document wraps head and body.
    let doc_children = seq![head_model(), body_model(ViewId::Home)];
    assert(doc_children.drop_first() =~= seq![body_model(ViewId::Home)]);
    assert(seq![body_model(ViewId::Home)].drop_first() =~= Seq::<NodeModel>::empty());
    assert(markup_nodes(seq![body_model(ViewId::Home)]) =~= markup(body_model(ViewId::Home)));
    assert(markup_nodes(doc_children) == markup(head_model()) + markup_nodes(
        seq![body_model(ViewId::Home)],
    ));
    crate::html::lemma_contains_prepend(
        markup(head_model()),
        markup_nodes(seq![body_model(ViewId::Home)]),
        home_text(),
    );
    let doc_attrs = seq![attr_of("lang"@, "en"@)];
    let doc_open = "<"@ + "html"@ + attrs_markup(doc_attrs) + ">"@;
    crate::html::lemma_contains_prepend(doc_open, markup_nodes(doc_children), home_text());
    crate::html::lemma_contains_append(doc_open + markup_nodes(doc_children), "</"@, home_text());
    crate::html::lemma_contains_append(
        doc_open + markup_nodes(doc_children) + "</"@,
        "html"@,
        home_text(),
    );
    crate::html::lemma_contains_append(
        doc_open + markup_nodes(doc_children) + "</"@ + "html"@,
        ">"@,
        home_text(),
    );
    assert(contains_text(markup(document_model(ViewId::Home)), home_text()));

    crate::html::lemma_contains_prepend(
        doctype(),
        markup(document_model(ViewId::Home)),
        home_text(),
    );
}

/// Law: rendering a route is deterministic and side-effect-free. Any two
/// document trees rendered for the same route are the same tree and
/// serialize to the same text, byte for byte.
pub proof fn lemma_render_deterministic(v: ViewId, a: Node, b: Node)
    requires
        node_model(a) == document_model(v),
        node_model(b) == document_model(v),
    ensures
        node_model(a) == node_model(b),
        markup(node_model(a)) == markup(node_model(b)),
{
}

} // verus!

