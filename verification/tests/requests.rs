use site::router::app_routes;
use site::server::{Diagnostics, RoutePlan, StaticAsset, fallback_response, plan_request, respond};
use site::view::{ViewId, render_page};

#[test]
fn hooks_install_once_at_startup() {
    let mut d = Diagnostics::new();
    assert!(!d.hooks_installed);
    d.install_hooks();
    assert!(d.hooks_installed);
}

#[test]
fn route_table_has_one_entry() {
    let table = app_routes();
    assert!(matches!(table.lookup("/"), Some(ViewId::Home)));
    assert!(table.lookup("/about").is_none());
    assert!(table.lookup("").is_none());
    assert!(table.lookup("//").is_none());
}

#[test]
fn root_is_planned_for_rendering() {
    let table = app_routes();
    assert!(matches!(plan_request(&table, "/"), RoutePlan::Render(ViewId::Home)));
    assert!(matches!(plan_request(&table, "/pkg/site.css"), RoutePlan::Fallback));
}

#[test]
fn get_root_returns_full_page() {
    let table = app_routes();
    let r = respond(&table, "/", None);
    assert_eq!(r.status, 200);
    assert_eq!(r.content_type, "text/html");
    assert_eq!(r.body, render_page(ViewId::Home));
    assert!(r.body.contains("Hello, World!"));
}

#[test]
fn unknown_path_returns_not_found() {
    let table = app_routes();
    let r = respond(&table, "/nowhere", None);
    assert_eq!(r.status, 404);
    assert_eq!(r.content_type, "text/plain");
    assert_eq!(r.body, "Not Found");
}

#[test]
fn known_asset_is_served() {
    let table = app_routes();
    let asset = StaticAsset {
        content_type: String::from("text/css"),
        body: String::from("p { color: black; }"),
    };
    let r = respond(&table, "/pkg/site.css", Some(asset));
    assert_eq!(r.status, 200);
    assert_eq!(r.content_type, "text/css");
    assert_eq!(r.body, "p { color: black; }");
}

#[test]
fn fallback_without_asset_is_not_found() {
    let r = fallback_response(None);
    assert_eq!(r.status, 404);
    assert_eq!(r.body, "Not Found");
}

#[test]
fn many_requests_are_independent() {
    let table = app_routes();
    let expected = render_page(ViewId::Home);
    for i in 0..100 {
        let r = respond(&table, "/", None);
        assert_eq!(r.status, 200);
        assert_eq!(r.body, expected);
        // Interleave misses; they must not disturb the next hit.
        let miss = respond(&table, if i % 2 == 0 { "/other" } else { "/pkg/x" }, None);
        assert_eq!(miss.status, 404);
    }
}
