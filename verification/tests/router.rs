use rat_engine::server::router::{
    error_body, is_already_properly_compressed, requires_mtls_auth, select_best_encoding,
};

#[test]
fn encoding_preference() {
    assert_eq!(select_best_encoding(""), "identity");
    assert_eq!(select_best_encoding("gzip, deflate, br"), "br");
    assert_eq!(select_best_encoding("deflate, gzip"), "gzip");
    assert_eq!(select_best_encoding("gzip;q=0.5, zstd"), "zstd");
    assert_eq!(select_best_encoding("deflate"), "deflate");
    assert_eq!(select_best_encoding("identity"), "identity");
    assert_eq!(select_best_encoding("compress"), "identity");
    assert_eq!(select_best_encoding("br-gzip"), "br");
    assert_eq!(select_best_encoding(" ,gzip,"), "gzip");
}

#[test]
fn already_compressed() {
    assert!(is_already_properly_compressed(Some("br"), "gzip, br"));
    assert!(is_already_properly_compressed(Some("identity"), "gzip"));
    assert!(!is_already_properly_compressed(Some("gzip"), "gzip, br"));
    assert!(!is_already_properly_compressed(Some("br"), ""));
    assert!(!is_already_properly_compressed(None, "br"));
}

#[test]
fn error_bodies() {
    assert_eq!(error_body("Not Found", 404), r#"{"error":"Not Found","code":404}"#);
    assert_eq!(error_body("Access denied", 403), r#"{"error":"Access denied","code":403}"#);
}

#[test]
fn no_path_needs_mtls_by_itself() {
    assert!(!requires_mtls_auth(None, "/x"));
}

use rat_engine::server::proxy_protocol::IpAddress;
use rat_engine::server::router::{early_answer, route_decision, IpBlacklist, RouteAction};

#[test]
fn route_order() {
    assert_eq!(route_decision(Some(2), Some(1), true, true, false, true, Some("/index.html")), RouteAction::Streaming(2));
    assert_eq!(
        route_decision(None, Some(1), true, true, false, true, None),
        RouteAction::Standard { index: 1, cached: true }
    );
    assert_eq!(
        route_decision(None, Some(0), false, false, false, false, None),
        RouteAction::Standard { index: 0, cached: false }
    );
    assert_eq!(route_decision(None, None, true, false, false, true, None), RouteAction::Wildcard { cached: false });
    assert_eq!(
        route_decision(None, None, false, true, false, true, Some("/index.html")),
        RouteAction::SpaFallback("/index.html".to_string())
    );
    assert_eq!(route_decision(None, None, false, true, true, true, Some("/index.html")), RouteAction::NotFound);
    assert_eq!(route_decision(None, None, false, true, false, false, Some("/index.html")), RouteAction::NotFound);
    assert_eq!(route_decision(None, None, false, true, false, true, None), RouteAction::NotFound);
}

#[test]
fn answers_before_routing() {
    assert_eq!(early_answer(true, true), Some((400, "gRPC requests should be handled by HTTP/2 layer")));
    assert_eq!(early_answer(false, true), Some((403, "Access denied")));
    assert_eq!(early_answer(false, false), None);
}

#[test]
fn blacklist_add_remove() {
    let mut b = IpBlacklist::new();
    let a = IpAddress::V4([10, 0, 0, 1]);
    let mut six = [0u8; 16];
    six[15] = 1;
    assert!(!b.contains(&a));
    b.add_to_blacklist(a);
    b.add_to_blacklist(a);
    b.add_to_blacklist(IpAddress::V6(six));
    assert!(b.contains(&IpAddress::V4([10, 0, 0, 1])));
    assert!(b.contains(&IpAddress::V6(six)));
    assert!(!b.contains(&IpAddress::V4([10, 0, 0, 2])));
    b.remove_from_blacklist(&a);
    assert!(!b.contains(&a));
    assert!(b.contains(&IpAddress::V6(six)));
    b.remove_from_blacklist(&a);
    assert!(!b.contains(&a));
}
