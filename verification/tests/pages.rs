use site::html::{Attr, Element, Node, escape_text, render_node};
use site::hydrate::{HydrationMode, hydrate, nodes_equal};
use site::view::{ViewId, render_app, render_home, render_page};

fn expected_page() -> String {
    let mut page = String::new();
    page.push_str("<!DOCTYPE html>");
    page.push_str("<html lang=\"en\">");
    page.push_str("<head>");
    page.push_str("<meta charset=\"utf-8\"></meta>");
    page.push_str("<meta name=\"viewport\" content=\"width=device-width, initial-scale=1\"></meta>");
    page.push_str("<title>A template app</title>");
    page.push_str("<link id=\"leptos\" rel=\"stylesheet\" href=\"/pkg/site.css\"></link>");
    page.push_str("<script type=\"module\" src=\"/pkg/site.js\"></script>");
    page.push_str("</head>");
    page.push_str("<body><p>Hello, World!</p></body>");
    page.push_str("</html>");
    page
}

#[test]
fn home_fragment_renders_hello_paragraph() {
    let n = render_home();
    assert_eq!(render_node(&n), "<p>Hello, World!</p>");
}

#[test]
fn page_renders_expected_document() {
    let page = render_page(ViewId::Home);
    assert_eq!(page, expected_page());
    assert!(page.contains("Hello, World!"));
}

#[test]
fn rendering_is_deterministic() {
    let first = render_page(ViewId::Home);
    let second = render_page(ViewId::Home);
    assert_eq!(first, second);
    let a = render_app(ViewId::Home);
    let b = render_app(ViewId::Home);
    assert!(nodes_equal(&a, &b));
}

#[test]
fn text_is_escaped() {
    assert_eq!(escape_text("<b>&\"fish\""), "&lt;b&gt;&amp;&quot;fish&quot;");
    assert_eq!(escape_text(""), "");
    assert_eq!(escape_text("plain"), "plain");
    let n = Node::Text(String::from("1 < 2 & 3 > 2"));
    assert_eq!(render_node(&n), "1 &lt; 2 &amp; 3 &gt; 2");
}

#[test]
fn attribute_values_are_escaped() {
    let e = Element {
        tag: String::from("p"),
        attrs: vec![Attr { name: String::from("title"), value: String::from("say \"hi\"") }],
        children: vec![],
    };
    assert_eq!(
        render_node(&Node::Element(e)),
        "<p title=\"say &quot;hi&quot;\"></p>"
    );
}

#[test]
fn structural_equality_discriminates() {
    let a = render_home();
    let b = Node::Text(String::from("Hello, World!"));
    assert!(!nodes_equal(&a, &b));
    let c = Node::Text(String::from("Hello, World?"));
    assert!(!nodes_equal(&b, &c));
    assert!(nodes_equal(&b, &b));
}

#[test]
fn hydration_adopts_matching_markup() {
    let server_dom = render_app(ViewId::Home);
    let server_page = render_page(ViewId::Home);
    let out = hydrate(true, server_dom, ViewId::Home);
    assert!(out.logger_active);
    assert!(out.crash_hook_installed);
    assert!(matches!(out.app.mode, HydrationMode::Live));
    let hydrated = format!("<!DOCTYPE html>{}", render_node(&out.app.document));
    assert_eq!(hydrated, server_page);
}

#[test]
fn hydration_survives_logger_failure() {
    let server_dom = render_app(ViewId::Home);
    let out = hydrate(false, server_dom, ViewId::Home);
    assert!(!out.logger_active);
    assert!(out.crash_hook_installed);
    assert!(matches!(out.app.mode, HydrationMode::Live));
}

#[test]
fn hydration_replaces_mismatched_markup() {
    let stale = Node::Text(String::from("stale markup"));
    let out = hydrate(true, stale, ViewId::Home);
    let hydrated = format!("<!DOCTYPE html>{}", render_node(&out.app.document));
    assert_eq!(hydrated, render_page(ViewId::Home));
}
