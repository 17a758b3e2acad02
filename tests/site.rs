use hello_server::assets::AssetStore;
use hello_server::router::Method;
use hello_server::site::{Reply, Response, Site};

fn sample_site() -> Site {
    let files = vec![
        ("hello.txt".to_string(), b"hi there".to_vec()),
        ("css/app.css".to_string(), b"body{}".to_vec()),
        ("app.js".to_string(), b"let x = 1;".to_vec()),
        ("blob.unknownext".to_string(), vec![0u8, 1, 2]),
    ];
    let store = AssetStore::from_files(files);
    Site::new(store, b"h1 { color: red; }".to_vec(), b"var htmx = {};".to_vec())
}

fn greeting(r: &Response) -> String {
    match &r.reply {
        Reply::Greeting { name } => name.clone(),
        other => panic!("expected the greeting page, got {:?}", other),
    }
}

fn content(r: &Response) -> (String, Vec<u8>) {
    match &r.reply {
        Reply::Content { content_type, body } => (content_type.clone(), body.clone()),
        other => panic!("expected content, got {:?}", other),
    }
}

#[test]
fn root_without_query_greets_world() {
    let site = sample_site();
    let r = site.handle(Method::Get, "/", "");
    assert_eq!(r.reply.status(), 200);
    assert_eq!(r.route.as_deref(), Some("/"));
    assert!(greeting(&r).contains("World"));
}

#[test]
fn root_with_name_greets_that_name() {
    let site = sample_site();
    let r = site.handle(Method::Get, "/", "name=Ada");
    assert_eq!(r.reply.status(), 200);
    let name = greeting(&r);
    assert!(name.contains("Ada"));
    assert!(!name.contains("World"));
}

#[test]
fn empty_name_falls_back_to_world() {
    let site = sample_site();
    let r = site.handle(Method::Get, "/", "name=");
    assert_eq!(r.reply.status(), 200);
    assert_eq!(greeting(&r), "World");
}

#[test]
fn name_is_percent_and_plus_decoded() {
    let site = sample_site();
    assert_eq!(greeting(&site.handle(Method::Get, "/", "name=A%64a")), "Ada");
    assert_eq!(greeting(&site.handle(Method::Get, "/", "name=Ada+L")), "Ada L");
}

#[test]
fn last_name_parameter_wins() {
    let site = sample_site();
    let r = site.handle(Method::Get, "/", "name=Bob&other=1&name=Ada");
    assert_eq!(greeting(&r), "Ada");
}

#[test]
fn other_parameters_leave_default_name() {
    let site = sample_site();
    let r = site.handle(Method::Get, "/", "who=Ada");
    assert_eq!(greeting(&r), "World");
}

#[test]
fn stylesheet_is_served_as_css() {
    let site = sample_site();
    let r = site.handle(Method::Get, "/style.css", "");
    assert_eq!(r.reply.status(), 200);
    let (ct, body) = content(&r);
    assert_eq!(ct, "text/css");
    assert!(!body.is_empty());
    assert_eq!(body, b"h1 { color: red; }".to_vec());
    assert_eq!(r.route.as_deref(), Some("/style.css"));
}

#[test]
fn script_is_served_as_javascript() {
    let site = sample_site();
    let r = site.handle(Method::Get, "/htmx.min.js", "");
    assert_eq!(r.reply.status(), 200);
    let (ct, body) = content(&r);
    assert_eq!(ct, "text/javascript; charset=utf-8");
    assert_eq!(body, b"var htmx = {};".to_vec());
}

#[test]
fn unknown_path_is_not_found() {
    let site = sample_site();
    let r = site.handle(Method::Get, "/nonexistent", "");
    assert_eq!(r.reply.status(), 404);
    assert!(r.route.is_none());
}

#[test]
fn other_methods_are_not_found() {
    let site = sample_site();
    let r = site.handle(Method::Post, "/", "");
    assert_eq!(r.reply.status(), 404);
    let r = site.handle(Method::Head, "/style.css", "");
    assert_eq!(r.reply.status(), 404);
}

#[test]
fn embedded_file_is_served_with_its_mime_type() {
    let site = sample_site();
    let r = site.handle(Method::Get, "/static/hello.txt", "");
    assert_eq!(r.reply.status(), 200);
    assert_eq!(content(&r), ("text/plain".to_string(), b"hi there".to_vec()));
    assert_eq!(r.route.as_deref(), Some("/static/*file"));
    let r = site.handle(Method::Get, "/static/css/app.css", "");
    assert_eq!(content(&r), ("text/css".to_string(), b"body{}".to_vec()));
    let r = site.handle(Method::Get, "/static/app.js", "");
    assert_eq!(content(&r), ("text/javascript".to_string(), b"let x = 1;".to_vec()));
    let r = site.handle(Method::Get, "/static/blob.unknownext", "");
    assert_eq!(content(&r), ("application/octet-stream".to_string(), vec![0u8, 1, 2]));
}

#[test]
fn missing_embedded_file_is_not_found() {
    let site = sample_site();
    let r = site.handle(Method::Get, "/static/missing.txt", "");
    assert_eq!(r.reply.status(), 404);
    assert_eq!(r.route.as_deref(), Some("/static/*file"));
    assert_eq!(site.handle(Method::Get, "/static/Hello.txt", "").reply.status(), 404);
    assert_eq!(site.handle(Method::Get, "/static/./hello.txt", "").reply.status(), 404);
    assert_eq!(site.handle(Method::Get, "/static/hello.txt/", "").reply.status(), 404);
}

#[test]
fn static_prefix_alone_is_not_found() {
    let site = sample_site();
    let r = site.handle(Method::Get, "/static/", "");
    assert_eq!(r.reply.status(), 404);
    assert!(r.route.is_none());
    assert_eq!(site.handle(Method::Get, "/static", "").reply.status(), 404);
}
