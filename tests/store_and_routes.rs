use hello_server::assets::AssetStore;
use hello_server::router::{site_routes, Handler, Method, Pattern, RouteTable};

#[test]
fn lookup_returns_exact_bytes_and_mime() {
    let mut store = AssetStore::new();
    store.insert("index.html".to_string(), b"<p>x</p>".to_vec());
    store.insert("img/logo.png".to_string(), vec![137u8, 80, 78, 71]);
    let a = store.lookup("index.html").unwrap();
    assert_eq!(a.data, b"<p>x</p>".to_vec());
    assert_eq!(a.mime, "text/html");
    assert_eq!(a.path, "index.html");
    let b = store.lookup("img/logo.png").unwrap();
    assert_eq!(b.data, vec![137u8, 80, 78, 71]);
    assert_eq!(b.mime, "image/png");
}

#[test]
fn lookup_misses_unknown_paths() {
    let mut store = AssetStore::new();
    assert!(store.lookup("a.txt").is_none());
    store.insert("a.txt".to_string(), b"a".to_vec());
    assert!(store.lookup("A.txt").is_none());
    assert!(store.lookup("/a.txt").is_none());
    assert!(store.lookup("").is_none());
    assert!(store.lookup("dir/../a.txt").is_none());
}

#[test]
fn insert_replaces_same_path() {
    let mut store = AssetStore::new();
    store.insert("a.css".to_string(), b"old".to_vec());
    store.insert("a.css".to_string(), b"new".to_vec());
    let a = store.lookup("a.css").unwrap();
    assert_eq!(a.data, b"new".to_vec());
    assert_eq!(a.mime, "text/css");
}

#[test]
fn later_file_wins_when_building() {
    let store = AssetStore::from_files(vec![
        ("x.txt".to_string(), b"1".to_vec()),
        ("y.txt".to_string(), b"2".to_vec()),
        ("x.txt".to_string(), b"3".to_vec()),
    ]);
    assert_eq!(store.lookup("x.txt").unwrap().data, b"3".to_vec());
    assert_eq!(store.lookup("y.txt").unwrap().data, b"2".to_vec());
}

#[test]
fn empty_file_list_gives_empty_store() {
    let store = AssetStore::from_files(Vec::new());
    assert!(store.lookup("x").is_none());
}

fn summary(t: &RouteTable, m: Method, p: &str) -> Option<(Handler, String, String)> {
    t.find(m, p).map(|r| (r.handler, r.pattern, r.capture))
}

#[test]
fn site_routes_match_each_path() {
    let t = site_routes();
    assert_eq!(t.len(), 4);
    assert_eq!(
        summary(&t, Method::Get, "/style.css"),
        Some((Handler::Stylesheet, "/style.css".to_string(), String::new()))
    );
    assert_eq!(
        summary(&t, Method::Get, "/htmx.min.js"),
        Some((Handler::Script, "/htmx.min.js".to_string(), String::new()))
    );
    assert_eq!(
        summary(&t, Method::Get, "/static/a/b.png"),
        Some((Handler::StaticFile, "/static/*file".to_string(), "a/b.png".to_string()))
    );
    assert_eq!(
        summary(&t, Method::Get, "/"),
        Some((Handler::Greeting, "/".to_string(), String::new()))
    );
    assert_eq!(summary(&t, Method::Get, "/style.css/"), None);
    assert_eq!(summary(&t, Method::Get, ""), None);
    assert_eq!(summary(&t, Method::Delete, "/"), None);
}

#[test]
fn building_routes_twice_matches_alike() {
    let a = site_routes();
    let b = site_routes();
    let methods = [Method::Get, Method::Head, Method::Post, Method::Other];
    let paths = ["/", "/style.css", "/htmx.min.js", "/static/x", "/static/", "/nope", ""];
    for m in methods {
        for p in paths {
            assert_eq!(summary(&a, m, p), summary(&b, m, p));
        }
    }
}

#[test]
fn first_accepting_route_wins() {
    let mut t = RouteTable::new();
    assert_eq!(t.len(), 0);
    t.add(Method::Get, Pattern::Rest { prefix: "/a/".to_string(), param: "rest".to_string() }, Handler::StaticFile);
    t.add(Method::Get, Pattern::Exact("/a/b".to_string()), Handler::Greeting);
    assert_eq!(
        summary(&t, Method::Get, "/a/b"),
        Some((Handler::StaticFile, "/a/*rest".to_string(), "b".to_string()))
    );
    assert_eq!(summary(&t, Method::Put, "/a/b"), None);
}
