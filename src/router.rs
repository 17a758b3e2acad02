//! The route table: which responder answers a method and a path.
use vstd::prelude::*;

use crate::text::{same_text, starts_with};

verus! {

/// The HTTP method of a request.
#[derive(Debug, Clone, Copy, PartialEq, Eq, Structural)]
pub enum Method {
    Get,
    Head,
    Post,
    Put,
    Delete,
    Patch,
    Options,
    Other,
}

/// The responder that a route leads to.
#[derive(Debug, Clone, Copy, PartialEq, Eq, Structural)]
pub enum Handler {
    /// The fixed stylesheet.
    Stylesheet,
    /// The fixed client-side script.
    Script,
    /// An embedded file, named by the captured rest of the path.
    StaticFile,
    /// The greeting page.
    Greeting,
}

/// The shape of paths that a route accepts.
pub enum Pattern {
    /// Exactly this path.
    Exact(String),
    /// This prefix followed by a non-empty rest, captured under `param`.
    Rest { prefix: String, param: String },
}

/// A pattern as text and as a rule on paths.
pub ghost enum PatternModel {
    Exact(Seq<char>),
    Rest(Seq<char>, Seq<char>),
}

impl Pattern {
    pub open spec fn model(&self) -> PatternModel {
        match self {
            Pattern::Exact(s) => PatternModel::Exact(s@),
            Pattern::Rest { prefix, param } => PatternModel::Rest(prefix@, param@),
        }
    }
}

/// What a pattern captures of `path`, if it accepts it: nothing for an exact
/// pattern, the rest after the prefix for a wildcard one.
pub open spec fn capture_of(pat: PatternModel, path: Seq<char>) -> Option<Seq<char>> {
    match pat {
        PatternModel::Exact(lit) => if path == lit {
            Some(Seq::empty())
        } else {
            None
        },
        PatternModel::Rest(prefix, _) => if prefix.is_prefix_of(path) && path.len() > prefix.len() {
            Some(path.skip(prefix.len() as int))
        } else {
            None
        },
    }
}

/// The text of a pattern, as reported for a matched request:
/// `/static/*file` for a wildcard.
pub open spec fn pattern_text(pat: PatternModel) -> Seq<char> {
    match pat {
        PatternModel::Exact(lit) => lit,
        PatternModel::Rest(prefix, param) => prefix + "*"@ + param,
    }
}

/// One entry of the table.
pub struct Route {
    pub method: Method,
    pub pattern: Pattern,
    pub handler: Handler,
}

pub type RouteModel = (Method, PatternModel, Handler);

impl Route {
    pub open spec fn model(&self) -> RouteModel {
        (self.method, self.pattern.model(), self.handler)
    }
}

/// What matching a request gives: the handler, the pattern's text and the
/// captured part of the path.
pub type MatchModel = (Handler, Seq<char>, Seq<char>);

/// The first route of `routes` that accepts `method` and `path`.
pub open spec fn first_match(routes: Seq<RouteModel>, method: Method, path: Seq<char>) -> Option<
    MatchModel,
>
    decreases routes.len(),
{
    if routes.len() == 0 {
        None
    } else {
        let r = routes[0];
        if r.0 == method && capture_of(r.1, path) is Some {
            Some((r.2, pattern_text(r.1), capture_of(r.1, path)->0))
        } else {
            first_match(routes.skip(1), method, path)
        }
    }
}

/// The result of matching a request against the table.
pub struct RouteMatch {
    pub handler: Handler,
    pub pattern: String,
    pub capture: String,
}

impl RouteMatch {
    pub open spec fn model(&self) -> MatchModel {
        (self.handler, self.pattern@, self.capture@)
    }
}

/// Which routes the site has, in order.
pub open spec fn site_routes_model() -> Seq<RouteModel> {
    seq![
        (Method::Get, PatternModel::Exact("/style.css"@), Handler::Stylesheet),
        (Method::Get, PatternModel::Exact("/htmx.min.js"@), Handler::Script),
        (Method::Get, PatternModel::Rest("/static/"@, "file"@), Handler::StaticFile),
        (Method::Get, PatternModel::Exact("/"@), Handler::Greeting),
    ]
}

/// The site's routing as a table of cases: `GET` of `/style.css`,
/// `/htmx.min.js`, `/static/` followed by a non-empty rest, or `/`; nothing
/// else matches.
pub open spec fn site_route_of(method: Method, path: Seq<char>) -> Option<MatchModel> {
    if method != Method::Get {
        None
    } else if path == "/style.css"@ {
        Some((Handler::Stylesheet, "/style.css"@, Seq::empty()))
    } else if path == "/htmx.min.js"@ {
        Some((Handler::Script, "/htmx.min.js"@, Seq::empty()))
    } else if "/static/"@.is_prefix_of(path) && path.len() > "/static/"@.len() {
        Some((Handler::StaticFile, "/static/*file"@, path.skip("/static/"@.len() as int)))
    } else if path == "/"@ {
        Some((Handler::Greeting, "/"@, Seq::empty()))
    } else {
        None
    }
}

/// Matching against the site's table gives the cases of `site_route_of`.
pub proof fn lemma_site_routes_match(method: Method, path: Seq<char>)
    ensures
        first_match(site_routes_model(), method, path) == site_route_of(method, path),
{
    let t = site_routes_model();
    reveal_with_fuel(first_match, 5);
    assert(t.skip(1) =~= seq![t[1], t[2], t[3]]);
    assert(t.skip(1).skip(1) =~= seq![t[2], t[3]]);
    assert(t.skip(1).skip(1).skip(1) =~= seq![t[3]]);
    assert(t.skip(1).skip(1).skip(1).skip(1) =~= Seq::<RouteModel>::empty());
    assert(pattern_text(t[2].1) =~= "/static/*file"@) by {
        reveal_strlit("/static/");
        reveal_strlit("*");
        reveal_strlit("file");
        reveal_strlit("/static/*file");
    }
}

/// A `GET` of `/static/` followed by a non-empty rest goes to the embedded
/// files, with that rest captured as it is.
pub proof fn lemma_static_route(rest: Seq<char>)
    requires
        rest.len() > 0,
    ensures
        site_route_of(Method::Get, "/static/"@ + rest) == Some(
            (Handler::StaticFile, "/static/*file"@, rest),
        ),
{
    reveal_strlit("/style.css");
    reveal_strlit("/htmx.min.js");
    reveal_strlit("/static/");
    let path = "/static/"@ + rest;
    assert("/static/"@.is_prefix_of(path)) by {
        assert(path.subrange(0, 8) =~= "/static/"@);
    }
    assert(path[3] == 'a');
    assert(path[1] == 's');
    assert(path.skip(8) =~= rest);
}

/// No two routes of the site's table accept the same request.
pub proof fn law_site_routes_disjoint(method: Method, path: Seq<char>, i: int, j: int)
    requires
        0 <= i < site_routes_model().len(),
        0 <= j < site_routes_model().len(),
        site_routes_model()[i].0 == method,
        site_routes_model()[j].0 == method,
        capture_of(site_routes_model()[i].1, path) is Some,
        capture_of(site_routes_model()[j].1, path) is Some,
    ensures
        i == j,
{
    reveal_strlit("/style.css");
    reveal_strlit("/htmx.min.js");
    reveal_strlit("/static/");
    reveal_strlit("/");
    let t = site_routes_model();
    assert("/style.css"@.len() == 10 && "/htmx.min.js"@.len() == 12 && "/"@.len() == 1);
    if i != j {
        if i == 2 || j == 2 {
            let k = if i == 2 { j } else { i };
            assert(path.len() > 8);
            assert(path[1] == 's' && path[3] == 'a') by {
                assert(path[1] == "/static/"@[1] && path[3] == "/static/"@[3]);
            }
            if k == 0 {
                assert(path[3] == "/style.css"@[3]);
            } else if k == 1 {
                assert(path[1] == "/htmx.min.js"@[1]);
            }
        }
    }
}

/// Building the site's table twice gives tables that match every request alike.
pub proof fn law_route_table_rebuild(a: RouteTable, b: RouteTable, method: Method, path: Seq<char>)
    requires
        a@ == site_routes_model(),
        b@ == site_routes_model(),
    ensures
        first_match(a@, method, path) == first_match(b@, method, path),
        first_match(a@, method, path) == site_route_of(method, path),
{
    lemma_site_routes_match(method, path);
}

/// A fixed table of routes, tried in order.
pub struct RouteTable {
    routes: Vec<Route>,
}

impl View for RouteTable {
    type V = Seq<RouteModel>;

    closed spec fn view(&self) -> Seq<RouteModel> {
        self.routes@.map_values(|r: Route| r.model())
    }
}

impl RouteTable {
    /// A table without routes.
    pub fn new() -> (r: RouteTable)
        ensures
            r@ == Seq::<RouteModel>::empty(),
    {
        let r = RouteTable { routes: Vec::new() };
        assert(r@ =~= Seq::<RouteModel>::empty());
        r
    }

    /// Adds a route after the existing ones.
    pub fn add(&mut self, method: Method, pattern: Pattern, handler: Handler)
        ensures
            final(self)@ == old(self)@.push((method, pattern.model(), handler)),
    {
        let route = Route { method, pattern, handler };
        self.routes.push(route);
        assert(final(self)@ =~= old(self)@.push((method, pattern.model(), handler)));
    }

    /// The number of routes.
    pub fn len(&self) -> (r: usize)
        ensures
            r == self@.len(),
    {
        self.routes.len()
    }

    /// Matches a request against the routes, first accepting route first.
    pub fn find(&self, method: Method, path: &str) -> (r: Option<RouteMatch>)
        ensures
            match r {
                None => first_match(self@, method, path@) is None,
                Some(m) => first_match(self@, method, path@) == Some(m.model()),
            },
    {
        let n = self.routes.len();
        let mut i: usize = 0;
        assert(self@.skip(0) =~= self@);
        while i < n
            invariant
                n == self.routes@.len(),
                i <= n,
                first_match(self@, method, path@) == first_match(self@.skip(i as int), method, path@),
            decreases n - i,
        {
            let ghost rest = self@.skip(i as int);
            assert(rest[0] == self.routes@[i as int].model());
            assert(rest.skip(1) =~= self@.skip(i + 1));
            let route = &self.routes[i];
            if route.method == method {
                match &route.pattern {
                    Pattern::Exact(lit) => {
                        if same_text(lit.as_str(), path) {
                            let m = RouteMatch {
                                handler: route.handler,
                                pattern: lit.clone(),
                                capture: String::new(),
                            };
                            return Some(m);
                        }
                    },
                    Pattern::Rest { prefix, param } => {
                        let plen = prefix.as_str().unicode_len();
                        let len = path.unicode_len();
                        if starts_with(path, prefix.as_str()) && len > plen {
                            let capture = path.substring_char(plen, len).to_owned();
                            let text = prefix.clone().concat("*").concat(param.as_str());
                            proof {
                                assert(capture@ =~= path@.skip(plen as int));
                            }
                            let m = RouteMatch { handler: route.handler, pattern: text, capture };
                            return Some(m);
                        }
                    },
                }
            }
            i = i + 1;
        }
        assert(self@.skip(n as int).len() == 0);
        None
    }
}

/// The site's table: the stylesheet, the script, the embedded files under
/// `/static/`, and the greeting page at `/`, each for `GET` only.
pub fn site_routes() -> (r: RouteTable)
    ensures
        r@ == site_routes_model(),
{
    let mut t = RouteTable::new();
    t.add(Method::Get, Pattern::Exact(String::from_str("/style.css")), Handler::Stylesheet);
    t.add(Method::Get, Pattern::Exact(String::from_str("/htmx.min.js")), Handler::Script);
    t.add(
        Method::Get,
        Pattern::Rest { prefix: String::from_str("/static/"), param: String::from_str("file") },
        Handler::StaticFile,
    );
    t.add(Method::Get, Pattern::Exact(String::from_str("/")), Handler::Greeting);
    assert(t@ =~= site_routes_model());
    t
}

} // verus!
