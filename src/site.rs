//! The site: the route table, the asset store and the two fixed assets, and
//! the answer to each request.
use vstd::prelude::*;

use crate::assets::{
    distinct_keys, law_embedded_file_found, mime_of, store_of, AssetContent, AssetStore,
};
use crate::query::{form_pairs, greeting_name_for_query, greeting_name_of};
use crate::router::{
    lemma_site_routes_match, lemma_static_route, site_route_of, site_routes, site_routes_model, Handler,
    Method, RouteTable,
};

verus! {

/// The answer to a request, before the greeting page is rendered.
#[derive(Debug)]
pub enum Reply {
    /// Status 200 with these bytes and this content type.
    Content { content_type: String, body: Vec<u8> },
    /// Status 200 with the greeting page for this name, as HTML.
    Greeting { name: String },
    /// Status 404.
    NotFound,
}

/// A reply as text and bytes.
pub ghost enum ReplyModel {
    Content(Seq<char>, Seq<u8>),
    Greeting(Seq<char>),
    NotFound,
}

impl Reply {
    pub open spec fn model(&self) -> ReplyModel {
        match self {
            Reply::Content { content_type, body } => ReplyModel::Content(content_type@, body@),
            Reply::Greeting { name } => ReplyModel::Greeting(name@),
            Reply::NotFound => ReplyModel::NotFound,
        }
    }

    /// The HTTP status of the reply: 404 when nothing was found, else 200.
    pub fn status(&self) -> (r: u16)
        ensures
            r == (if self is NotFound { 404u16 } else { 200u16 }),
    {
        match self {
            Reply::NotFound => 404,
            _ => 200,
        }
    }
}

/// A reply with the pattern of the route that produced it, for the request's
/// log record.
pub struct Response {
    pub route: Option<String>,
    pub reply: Reply,
}

/// The content type of the stylesheet.
pub open spec fn css_type() -> Seq<char> {
    "text/css"@
}

/// The content type of the script.
pub open spec fn script_type() -> Seq<char> {
    "text/javascript; charset=utf-8"@
}

/// What the site answers to `method`, `path` and the raw `query`, given its
/// embedded files and its fixed stylesheet and script.
pub open spec fn reply_of(
    assets: Map<Seq<char>, AssetContent>,
    css: Seq<u8>,
    js: Seq<u8>,
    method: Method,
    path: Seq<char>,
    query: Seq<char>,
) -> ReplyModel {
    match site_route_of(method, path) {
        None => ReplyModel::NotFound,
        Some(m) => match m.0 {
            Handler::Stylesheet => ReplyModel::Content(css_type(), css),
            Handler::Script => ReplyModel::Content(script_type(), js),
            Handler::StaticFile => if assets.contains_key(m.2) {
                ReplyModel::Content(assets[m.2].1, assets[m.2].0)
            } else {
                ReplyModel::NotFound
            },
            Handler::Greeting => ReplyModel::Greeting(greeting_name_of(form_pairs(query))),
        },
    }
}

/// Every embedded file of a store built from files with distinct paths is
/// served at `/static/` followed by its path, with its exact bytes and the
/// MIME type of its extension.
pub proof fn law_embedded_file_served(
    files: Seq<(Seq<char>, Seq<u8>)>,
    i: int,
    css: Seq<u8>,
    js: Seq<u8>,
    query: Seq<char>,
)
    requires
        distinct_keys(files),
        0 <= i < files.len(),
        files[i].0.len() > 0,
    ensures
        reply_of(store_of(files), css, js, Method::Get, "/static/"@ + files[i].0, query)
            == ReplyModel::Content(mime_of(files[i].0), files[i].1),
{
    lemma_static_route(files[i].0);
    law_embedded_file_found(files, i);
}

/// A path under `/static/` that no embedded file has is answered with 404.
pub proof fn law_missing_file_not_found(
    assets: Map<Seq<char>, AssetContent>,
    css: Seq<u8>,
    js: Seq<u8>,
    rest: Seq<char>,
    query: Seq<char>,
)
    requires
        !assets.contains_key(rest),
    ensures
        reply_of(assets, css, js, Method::Get, "/static/"@ + rest, query) == ReplyModel::NotFound,
{
    if rest.len() > 0 {
        lemma_static_route(rest);
    } else {
        reveal_strlit("/style.css");
        reveal_strlit("/htmx.min.js");
        reveal_strlit("/static/");
        reveal_strlit("/");
        assert("/static/"@ + rest =~= "/static/"@);
    }
}

fn copy_bytes(v: &Vec<u8>) -> (r: Vec<u8>)
    ensures
        r@ == v@,
{
    let r = v.clone();
    assert(r@ =~= v@);
    r
}

/// The site's routes and content, fixed once built.
pub struct Site {
    routes: RouteTable,
    assets: AssetStore,
    stylesheet: Vec<u8>,
    script: Vec<u8>,
}

impl Site {
    /// The routes are the site's table and the store is well formed.
    pub closed spec fn wf(&self) -> bool {
        self.routes@ == site_routes_model() && self.assets.wf()
    }

    pub closed spec fn assets_view(&self) -> Map<Seq<char>, AssetContent> {
        self.assets@
    }

    pub closed spec fn stylesheet_view(&self) -> Seq<u8> {
        self.stylesheet@
    }

    pub closed spec fn script_view(&self) -> Seq<u8> {
        self.script@
    }

    /// A site serving `assets` under `/static/`, and the given stylesheet and
    /// script.
    pub fn new(assets: AssetStore, stylesheet: Vec<u8>, script: Vec<u8>) -> (r: Site)
        requires
            assets.wf(),
        ensures
            r.wf(),
            r.assets_view() == assets@,
            r.stylesheet_view() == stylesheet@,
            r.script_view() == script@,
    {
        Site { routes: site_routes(), assets, stylesheet, script }
    }

    /// Answers a request: the route it matches, and the reply of that route's
    /// responder; 404 where no route matches or no embedded file has the
    /// requested path.
    pub fn handle(&self, method: Method, path: &str, query: &str) -> (r: Response)
        requires
            self.wf(),
        ensures
            r.reply.model() == reply_of(
                self.assets_view(),
                self.stylesheet_view(),
                self.script_view(),
                method,
                path@,
                query@,
            ),
            match r.route {
                None => site_route_of(method, path@) is None,
                Some(p) => site_route_of(method, path@) matches Some(m) && p@ == m.1,
            },
    {
        proof {
            lemma_site_routes_match(method, path@);
        }
        match self.routes.find(method, path) {
            None => Response { route: None, reply: Reply::NotFound },
            Some(m) => {
                let reply = match m.handler {
                    Handler::Stylesheet => Reply::Content {
                        content_type: String::from_str("text/css"),
                        body: copy_bytes(&self.stylesheet),
                    },
                    Handler::Script => Reply::Content {
                        content_type: String::from_str("text/javascript; charset=utf-8"),
                        body: copy_bytes(&self.script),
                    },
                    Handler::StaticFile => match self.assets.lookup(m.capture.as_str()) {
                        Some(a) => Reply::Content {
                            content_type: a.mime.clone(),
                            body: copy_bytes(&a.data),
                        },
                        None => Reply::NotFound,
                    },
                    Handler::Greeting => Reply::Greeting { name: greeting_name_for_query(query) },
                };
                Response { route: Some(m.pattern), reply }
            },
        }
    }
}

} // verus!
