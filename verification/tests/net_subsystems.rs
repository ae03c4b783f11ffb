use js_engine::dns::DnsServiceMap;
use js_engine::routes::{
    classify_request, content_type_for, e_tag, split_once_slash, ui_route, IsNonEmptyFile, Route,
    UiRoute,
};
use js_engine::tor::{os_key_bytes, AddPlan, OnionService, OnionServiceMap};

fn labels(parts: &[&str]) -> Vec<String> {
    parts.iter().map(|s| (*s).to_owned()).collect()
}

#[test]
fn dns_resolves_packages_under_the_platform_domain() {
    let mut map = DnsServiceMap::new();
    map.add("filebrowser".to_owned(), 0x0A00_0002);
    map.add("filebrowser".to_owned(), 0x0A00_0003);
    let ips = map.resolve(&labels(&["filebrowser", "embassy"]), 0x0A00_0001).unwrap();
    assert_eq!(ips, vec![0x0A00_0002, 0x0A00_0003]);
    assert_eq!(
        map.resolve(&labels(&["embassy"]), 0x0A00_0001).unwrap(),
        vec![0x0A00_0001]
    );
    assert!(map.resolve(&labels(&["unknown", "embassy"]), 0x0A00_0001).is_none());
    assert!(map.resolve(&labels(&["example", "com"]), 0x0A00_0001).is_none());
    assert!(map.resolve(&labels(&[]), 0x0A00_0001).is_none());
}

#[test]
fn dns_remove_drops_one_address_then_the_package() {
    let mut map = DnsServiceMap::new();
    map.add("pkg".to_owned(), 1);
    map.add("pkg".to_owned(), 2);
    map.remove("pkg".to_owned(), 1);
    assert_eq!(map.resolve(&labels(&["pkg", "embassy"]), 9).unwrap(), vec![2]);
    map.remove("pkg".to_owned(), 2);
    assert!(map.resolve(&labels(&["pkg", "embassy"]), 9).is_none());
}

#[test]
fn request_paths_route_to_their_handlers() {
    assert!(matches!(classify_request("/ws/db"), Route::WsDb));
    match classify_request("/ws/rpc/abc123") {
        Route::WsRpc(guid) => assert_eq!(guid, "abc123"),
        _ => panic!("expected a websocket continuation"),
    }
    match classify_request("/rest/rpc/xyz") {
        Route::RestRpc(guid) => assert_eq!(guid, "xyz"),
        _ => panic!("expected a rest continuation"),
    }
    assert!(matches!(classify_request("/index.html"), Route::Ui));
}

#[test]
fn ui_routing_decisions() {
    assert!(matches!(ui_route(true, "/", false), UiRoute::Index));
    match ui_route(true, "/public/pkg/icon.png", true) {
        UiRoute::Public(p) => assert_eq!(p, "pkg/icon.png"),
        _ => panic!("expected a public file"),
    }
    assert!(matches!(
        ui_route(true, "/public/pkg/icon.png", false),
        UiRoute::Unauthorized
    ));
    assert!(matches!(ui_route(true, "/eos/local.crt", true), UiRoute::LocalCert));
    assert!(matches!(
        ui_route(true, "/eos/local.crt", false),
        UiRoute::Unauthorized
    ));
    match ui_route(true, "/app.js", false) {
        UiRoute::Www(p) => assert_eq!(p, "app.js"),
        _ => panic!("expected an interface asset"),
    }
    match ui_route(true, "/assets/app.js", false) {
        UiRoute::Www(p) => assert_eq!(p, "assets/app.js"),
        _ => panic!("expected an interface asset"),
    }
    assert!(matches!(ui_route(false, "/app.js", true), UiRoute::NotFound));
}

#[test]
fn split_once_takes_the_first_slash() {
    assert_eq!(
        split_once_slash("a/b/c").unwrap(),
        ("a".to_owned(), "b/c".to_owned())
    );
    assert!(split_once_slash("abc").is_none());
}

#[test]
fn content_types_by_extension() {
    assert_eq!(content_type_for(Some("png")), "image/png");
    assert_eq!(content_type_for(Some("jpeg")), "image/jpeg");
    assert_eq!(content_type_for(Some("jfif")), "image/jpeg");
    assert_eq!(content_type_for(Some("svg")), "image/svg+xml");
    assert_eq!(content_type_for(Some("css")), "text/css");
    assert_eq!(content_type_for(Some("html")), "text/html");
    assert_eq!(content_type_for(Some("js")), "text/javascript");
    assert_eq!(content_type_for(Some("wasm")), "application/wasm");
    assert_eq!(content_type_for(Some("weird")), "text/plain");
    assert_eq!(content_type_for(None), "text/plain");
}

#[test]
fn only_non_empty_files_are_sent() {
    assert!(IsNonEmptyFile::new(true, 10).is_some());
    assert!(IsNonEmptyFile::new(true, 0).is_none());
    assert!(IsNonEmptyFile::new(false, 10).is_none());
}

#[test]
fn e_tag_depends_on_path_and_time() {
    let a = e_tag("\"/var/www/html/main/index.html\"", 1000);
    let b = e_tag("\"/var/www/html/main/index.html\"", 1001);
    let c = e_tag("\"/var/www/html/main/other.html\"", 1000);
    assert_eq!(a.len(), 52);
    assert_ne!(a, b);
    assert_ne!(a, c);
    assert_eq!(a, e_tag("\"/var/www/html/main/index.html\"", 1000));
}

#[test]
fn stored_service_keys_must_hold_64_bytes() {
    let short = vec![1u8; 63];
    assert!(os_key_bytes(&short).is_none());
    let mut row = vec![7u8; 64];
    row.push(99);
    let key = os_key_bytes(&row).unwrap();
    assert_eq!(key.len(), 64);
    assert_eq!(key, vec![7u8; 64]);
}

#[test]
fn onion_registrations_are_planned_and_bookkept() {
    let mut map = OnionServiceMap::new();
    let key_a = vec![1u8; 64];
    let key_b = vec![2u8; 64];
    assert_eq!(map.plan_add("pkg", "main", &key_a), AddPlan::Fresh);
    map.insert(
        "pkg".to_owned(),
        "main".to_owned(),
        OnionService { key: key_a.clone(), port_mapping: vec![(80, 8080)], ip: 5 },
    );
    assert_eq!(map.plan_add("pkg", "main", &key_a), AddPlan::Skip);
    assert_eq!(map.plan_add("pkg", "main", &key_b), AddPlan::ReplaceExisting);
    assert_eq!(map.plan_add("pkg", "other", &key_a), AddPlan::Fresh);
    let removed = map.remove("pkg", "main").unwrap();
    assert_eq!(removed.key, key_a);
    assert!(map.get("pkg", "main").is_none());
    assert!(map.remove("pkg", "main").is_none());
}
