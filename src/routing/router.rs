//! The pending router, which is built, and the compiled router, which
//! matches.
use vstd::prelude::*;
use crate::http::method::{all_methods, method_name, Method};
use crate::utils::{pad_with_dots, padded, truncated, TruncatableToFit};
use crate::http::request::{body_accepted, body_within_limit, not_found, payload_too_large};
use crate::http::response::Response;
use crate::routing::pattern::{bound_parameters, pairs, parameters, regex_finds};
use crate::routing::route::{
    all_accepted, compile_all, compile_nodes, concat_ids, leaf_routes, route_views, Builder, Config,
    Endpoint, Route, RouteView,
};

verus! {

/// A template whose pattern the regex engine rejected.
#[derive(Debug)]
pub struct PatternError {
    pattern: String,
}

impl View for PatternError {
    type V = Seq<char>;

    closed spec fn view(&self) -> Seq<char> {
        self.pattern@
    }
}

impl PatternError {
    /// An error for the rejected pattern `pattern`.
    pub fn new(pattern: String) -> (r: PatternError)
        ensures
            r@ == pattern@,
    {
        PatternError { pattern }
    }

    /// The rejected pattern.
    pub fn pattern(&self) -> (r: &str)
        ensures
            r@ == self@,
    {
        self.pattern.as_str()
    }
}

/// Whether `r` answers `method` on `path`.
pub open spec fn route_matches(r: RouteView, method: Method, path: Seq<char>) -> bool {
    r.method == method && regex_finds(r.source, path)
}

/// The index of the last route that answers `method` on `path`: routes are
/// tried from the most recently registered back.
pub open spec fn last_match(routes: Seq<RouteView>, method: Method, path: Seq<char>) -> Option<int>
    decreases routes.len(),
{
    if routes.len() == 0 {
        None
    } else if route_matches(routes.last(), method, path) {
        Some(routes.len() - 1)
    } else {
        last_match(routes.drop_last(), method, path)
    }
}

/// What `last_match` returns: a matching route with no matching route
/// after it, or nothing when no route matches.
pub proof fn lemma_last_match(routes: Seq<RouteView>, method: Method, path: Seq<char>)
    ensures
        match last_match(routes, method, path) {
            Some(i) => 0 <= i < routes.len() && route_matches(routes[i], method, path) && forall|
                j: int,
            |
                i < j < routes.len() ==> !route_matches(#[trigger] routes[j], method, path),
            None => forall|j: int|
                0 <= j < routes.len() ==> !route_matches(#[trigger] routes[j], method, path),
        },
    decreases routes.len(),
{
    if routes.len() > 0 && !route_matches(routes.last(), method, path) {
        lemma_last_match(routes.drop_last(), method, path);
        assert forall|j: int| 0 <= j < routes.len() - 1 implies routes[j] == routes.drop_last()[j] by {}
    }
}

/// Of the routes that answer `method` on `path`, the one registered last
/// serves the request: when route `j` matches, the route chosen is `j` or
/// one registered after it, and no route after the chosen one matches.
pub proof fn lemma_last_registered_wins(
    routes: Seq<RouteView>,
    method: Method,
    path: Seq<char>,
    j: int,
)
    requires
        0 <= j < routes.len(),
        route_matches(routes[j], method, path),
    ensures
        last_match(routes, method, path) matches Some(i) && j <= i < routes.len()
            && route_matches(routes[i], method, path) && forall|k: int|
            i < k < routes.len() ==> !route_matches(#[trigger] routes[k], method, path),
{
    lemma_last_match(routes, method, path);
}

/// A request that no route with a handler answers is served by a
/// not-found route or by no route at all; `dispatch` answers the latter
/// with 404, and a not-found route's endpoint is `not_found`'s 404.
pub proof fn lemma_unmatched_is_not_found(routes: Seq<RouteView>, method: Method, path: Seq<char>)
    requires
        forall|j: int|
            0 <= j < routes.len() && (#[trigger] routes[j]).endpoint is Handler ==> !route_matches(
                routes[j],
                method,
                path,
            ),
    ensures
        last_match(routes, method, path) matches Some(i) ==> routes[i].endpoint
            == Endpoint::NotFound,
{
    lemma_last_match(routes, method, path);
}

/// Two route lists with the same templates, methods, endpoints,
/// constraints, middleware and nesting.
pub open spec fn same_shape(a: Seq<Builder>, b: Seq<Builder>) -> bool
    decreases a,
{
    a.len() == b.len() && (a.len() > 0 ==> same_shape(a.drop_last(), b.drop_last()) && match (
        a.last(),
        b.last(),
    ) {
        (Builder::Data(x), Builder::Data(y)) => x.path@ == y.path@ && x.methods@ == y.methods@
            && x.endpoint == y.endpoint && pairs(x.parameters@) == pairs(y.parameters@)
            && x.middlewares@ == y.middlewares@,
        (Builder::Group(x), Builder::Group(y)) => x.config.middlewares@ == y.config.middlewares@
            && pairs(x.config.parameters@) == pairs(y.config.parameters@) && same_shape(
            x.routes@,
            y.routes@,
        ),
        _ => false,
    })
}

proof fn lemma_same_shape_compiles(
    a: Seq<Builder>,
    b: Seq<Builder>,
    mw: Seq<usize>,
    params: Seq<(Seq<char>, Seq<char>)>,
)
    requires
        same_shape(a, b),
    ensures
        compile_nodes(a, mw, params) == compile_nodes(b, mw, params),
    decreases a,
{
    if a.len() > 0 {
        lemma_same_shape_compiles(a.drop_last(), b.drop_last(), mw, params);
        match (a.last(), b.last()) {
            (Builder::Data(x), Builder::Data(y)) => {
                assert(leaf_routes(x, mw, params) =~= leaf_routes(y, mw, params));
            },
            (Builder::Group(x), Builder::Group(y)) => {
                lemma_same_shape_compiles(
                    x.routes@,
                    y.routes@,
                    mw + x.config.middlewares@,
                    params + pairs(x.config.parameters@),
                );
            },
            _ => {},
        }
    }
}

/// The sources of a list of routes, in order.
pub open spec fn sources(routes: Seq<RouteView>) -> Seq<Seq<char>> {
    routes.map_values(|r: RouteView| r.source)
}

/// Compiling two pending routers of the same shape gives the same routes,
/// hence the same pattern sources in the same order.
pub proof fn lemma_compile_deterministic(a: PendingView, b: PendingView)
    requires
        a.middlewares == b.middlewares,
        same_shape(a.routes, b.routes),
    ensures
        compiled_routes(a) == compiled_routes(b),
        sources(compiled_routes(a)) == sources(compiled_routes(b)),
        all_accepted(compiled_routes(a)) == all_accepted(compiled_routes(b)),
{
    lemma_same_shape_compiles(a.routes, b.routes, a.middlewares, Seq::empty());
}

/// What the handler step of a route answers by itself: a not-found route
/// answers 404 naming the method and path; a route with a handler leaves
/// the answer to that handler.
pub fn endpoint_response(endpoint: Endpoint, method: Method, path: &str) -> (r: Option<Response>)
    ensures
        endpoint == Endpoint::NotFound ==> (r matches Some(resp) && resp.status == 404
            && resp.body@ == "No route found for "@ + method_name(method) + " "@ + path@),
        endpoint is Handler ==> r is None,
{
    match endpoint {
        Endpoint::NotFound => Some(not_found(method, path)),
        Endpoint::Handler(_) => None,
    }
}

/// The summary line of a route.
pub open spec fn summary_line(r: RouteView) -> Seq<char> {
    padded(truncated(method_name(r.method), 7), 7) + " ⟶ "@ + padded(truncated(r.path, 34), 33)
        + " ⟶ "@ + padded(truncated(r.source, 34), 34)
}

/// A router being built: top-level middleware and the route tree, the
/// fallback route first.
pub struct Router {
    middlewares: Vec<usize>,
    routes: Vec<Builder>,
}

/// The route tree of a pending router and its top-level middleware.
pub struct PendingView {
    pub middlewares: Seq<usize>,
    pub routes: Seq<Builder>,
}

impl View for Router {
    type V = PendingView;

    closed spec fn view(&self) -> PendingView {
        PendingView { middlewares: self.middlewares@, routes: self.routes@ }
    }
}

/// The routes a pending router compiles to.
pub open spec fn compiled_routes(p: PendingView) -> Seq<RouteView> {
    compile_nodes(p.routes, p.middlewares, Seq::empty())
}

/// A compiled router: the flat route list, in registration order.
pub struct CompiledRouter {
    routes: Vec<Route>,
}

impl View for CompiledRouter {
    type V = Seq<RouteView>;

    closed spec fn view(&self) -> Seq<RouteView> {
        route_views(self.routes@)
    }
}

/// What to do with a request: answer it at once, or run the chosen route
/// with the parameters read from the path.
#[derive(Debug)]
pub enum Dispatch {
    Respond(Response),
    Run { route: usize, parameters: Vec<(String, String)> },
}

impl Router {
    /// A router over `routes`, with the fallback route placed before them.
    pub fn new(routes: Vec<Builder>) -> (r: Router)
        ensures
            r@.middlewares.len() == 0,
            r@.routes.len() == routes@.len() + 1,
            r@.routes.subrange(1, r@.routes.len() as int) == routes@,
            (r@.routes[0] matches Builder::Data(d) && d.path@ == ".*"@ && d.endpoint
                == Endpoint::NotFound && d.methods@ == all_methods() && d.middlewares@.len() == 0
                && d.parameters@.len() == 0),
    {
        let mut all = vec![Builder::fallback()];
        let mut rest = routes;
        all.append(&mut rest);
        let r = Router { middlewares: Vec::new(), routes: all };
        assert(r@.routes.subrange(1, r@.routes.len() as int) =~= routes@);
        r
    }

    /// Adds a `GET` route for `path` served by handler `handler`.
    pub fn get(&mut self, path: &str, handler: usize)
        ensures
            final(self)@.middlewares == old(self)@.middlewares,
            final(self)@.routes.len() == old(self)@.routes.len() + 1,
            final(self)@.routes.drop_last() == old(self)@.routes,
            (final(self)@.routes.last() matches Builder::Data(d) && d.path@ == path@ && d.methods@
                == seq![Method::Get] && d.endpoint == Endpoint::Handler(handler)),
    {
        self.routes.push(Builder::get(path.to_owned(), handler));
        assert(self@.routes.drop_last() =~= old(self)@.routes);
    }

    /// Whether a top-level leaf binds `path` to `method`.
    pub fn has_route(&self, path: &str, method: Method) -> (r: bool)
        ensures
            r == exists|i: int|
                0 <= i < self@.routes.len() && (#[trigger] self@.routes[i] matches Builder::Data(d)
                    && d.path@ == path@ && d.methods@.contains(method)),
    {
        let wanted = path.to_owned();
        let mut i: usize = 0;
        while i < self.routes.len()
            invariant
                i <= self.routes.len(),
                wanted@ == path@,
                forall|j: int|
                    0 <= j < i ==> !(#[trigger] self@.routes[j] matches Builder::Data(d) && d.path@
                        == path@ && d.methods@.contains(method)),
            decreases self.routes.len() - i,
        {
            match &self.routes[i] {
                Builder::Data(d) => {
                    if d.path.clone() == wanted {
                        let mut k: usize = 0;
                        while k < d.methods.len()
                            invariant
                                k <= d.methods.len(),
                                i < self.routes.len(),
                                self.routes@[i as int] == Builder::Data(*d),
                                d.path@ == path@,
                                forall|m: int| 0 <= m < k ==> d.methods@[m] != method,
                            decreases d.methods.len() - k,
                        {
                            if d.methods[k] == method {
                                assert(d.methods@.contains(method));
                                assert(self@.routes[i as int] matches Builder::Data(d)
                                    && d.path@ == path@ && d.methods@.contains(method));
                                return true;
                            }
                            k = k + 1;
                        }
                    }
                },
                Builder::Group(_) => {},
            }
            i = i + 1;
        }
        false
    }

    /// The route tree.
    pub fn routes(&self) -> (r: &Vec<Builder>)
        ensures
            r@ == self@.routes,
    {
        &self.routes
    }

    /// Adds `middleware` innermost of the top-level middleware, which wraps
    /// every route.
    pub fn middleware(self, middleware: usize) -> (r: Router)
        ensures
            r@.middlewares == self@.middlewares.push(middleware),
            r@.routes == self@.routes,
    {
        let mut middlewares = self.middlewares;
        middlewares.push(middleware);
        Router { middlewares, routes: self.routes }
    }

    /// Compiles every route; fails on the first pattern the regex engine
    /// rejects.
    pub fn compile(self) -> (r: Result<CompiledRouter, PatternError>)
        ensures
            r is Ok <==> all_accepted(compiled_routes(self@)),
            r matches Ok(c) ==> c@ == compiled_routes(self@),
            r matches Err(e) ==> exists|i: int|
                0 <= i < compiled_routes(self@).len() && compiled_routes(self@)[i].source == e@
                    && !crate::routing::pattern::regex_accepts(e@),
    {
        let config = Config::from_middlewares(concat_ids(&self.middlewares, &Vec::new()));
        assert(config.parameters@ =~= Seq::<(String, String)>::empty());
        assert(pairs(config.parameters@) =~= Seq::<(Seq<char>, Seq<char>)>::empty());
        assert(config.middlewares@ =~= self.middlewares@);
        match compile_all(&self.routes, &config) {
            Ok(routes) => Ok(CompiledRouter { routes }),
            Err(e) => Err(e),
        }
    }
}

impl Default for Router {
    /// A router with no routes and no middleware, not even the fallback.
    fn default() -> (r: Router)
        ensures
            r@.middlewares.len() == 0,
            r@.routes.len() == 0,
    {
        Router { middlewares: Vec::new(), routes: Vec::new() }
    }
}

impl CompiledRouter {
    /// The compiled routes, in registration order.
    pub fn routes(&self) -> (r: &Vec<Route>)
        ensures
            route_views(r@) == self@,
    {
        &self.routes
    }

    /// The number of compiled routes.
    pub fn len(&self) -> (r: usize)
        ensures
            r == self@.len(),
    {
        self.routes.len()
    }

    /// The pattern sources, in registration order.
    pub fn pattern_sources(&self) -> (r: Vec<String>)
        ensures
            r@.len() == self@.len(),
            forall|i: int| 0 <= i < r@.len() ==> #[trigger] r@[i]@ == self@[i].source,
    {
        let mut r: Vec<String> = Vec::new();
        let mut i: usize = 0;
        while i < self.routes.len()
            invariant
                i <= self.routes.len(),
                r@.len() == i,
                forall|j: int| 0 <= j < i ==> #[trigger] r@[j]@ == self@[j].source,
            decreases self.routes.len() - i,
        {
            r.push(self.routes[i].pattern().as_str().to_owned());
            i = i + 1;
        }
        r
    }

    /// Whether a route was declared with template `path` for `method`.
    pub fn has_route(&self, path: &str, method: Method) -> (r: bool)
        ensures
            r == exists|i: int|
                0 <= i < self@.len() && #[trigger] self@[i].path == path@ && self@[i].method
                    == method,
    {
        let wanted = path.to_owned();
        let mut i = self.routes.len();
        while i > 0
            invariant
                i <= self.routes.len(),
                wanted@ == path@,
                forall|j: int|
                    i <= j < self@.len() ==> !(#[trigger] self@[j].path == path@ && self@[j].method
                        == method),
            decreases i,
        {
            let route = &self.routes[i - 1];
            assert(self@[i - 1] == self.routes@[i - 1]@);
            if route.method() == method && route.path.clone() == wanted {
                assert(self@[i - 1].path == path@ && self@[i - 1].method == method);
                return true;
            }
            i = i - 1;
        }
        false
    }

    /// The route serving `method` on `path`: of the routes that match, the
    /// one registered last.
    pub fn find(&self, method: Method, path: &str) -> (r: Option<usize>)
        ensures
            match r {
                Some(i) => last_match(self@, method, path@) == Some(i as int),
                None => last_match(self@, method, path@) is None,
            },
    {
        let mut i = self.routes.len();
        assert(self@.subrange(0, i as int) =~= self@);
        while i > 0
            invariant
                i <= self.routes.len(),
                last_match(self@, method, path@) == last_match(
                    self@.subrange(0, i as int),
                    method,
                    path@,
                ),
            decreases i,
        {
            assert(self@.subrange(0, i as int).drop_last() =~= self@.subrange(0, i - 1));
            assert(self@[i - 1] == self.routes@[i - 1]@);
            if self.routes[i - 1].matches(method, path) {
                return Some(i - 1);
            }
            i = i - 1;
        }
        None
    }

    /// One line per route, the most recently registered first: method,
    /// template and pattern, each cut and dotted to a column.
    pub fn summary(&self) -> (r: Vec<String>)
        ensures
            r@.len() == self@.len(),
            forall|i: int|
                0 <= i < r@.len() ==> #[trigger] r@[i]@ == summary_line(self@[self@.len() - 1 - i]),
    {
        let mut r: Vec<String> = Vec::new();
        let mut i = self.routes.len();
        while i > 0
            invariant
                i <= self.routes.len(),
                r@.len() == self.routes.len() - i,
                forall|j: int|
                    0 <= j < r@.len() ==> #[trigger] r@[j]@ == summary_line(self@[self@.len() - 1 - j]),
            decreases i,
        {
            let route = &self.routes[i - 1];
            assert(self@[i - 1] == route@);
            let mut line = pad_with_dots(route.method().as_str().truncate_to_fit(7), 7);
            line.append(" ⟶ ");
            line.append(pad_with_dots(route.path().truncate_to_fit(34), 33).as_str());
            line.append(" ⟶ ");
            line.append(pad_with_dots(route.pattern().as_str().truncate_to_fit(34), 34).as_str());
            r.push(line);
            i = i - 1;
        }
        r
    }

    /// The route at `index`.
    pub fn route(&self, index: usize) -> (r: &Route)
        requires
            index < self@.len(),
        ensures
            r@ == self@[index as int],
    {
        &self.routes[index]
    }

    /// Decides what happens to a request for `method` on `path` whose body
    /// is bounded by `size_hint_upper`: a body over the cap is answered
    /// with 413; otherwise the last registered matching route runs, with
    /// the parameters its template binds; with no match the answer is 404.
    pub fn dispatch(&self, method: Method, path: &str, size_hint_upper: Option<u64>) -> (r:
        Dispatch)
        ensures
            !body_accepted(size_hint_upper) ==> (r matches Dispatch::Respond(resp) && resp.status
                == 413 && resp.body@ == "Request body too large"@),
            body_accepted(size_hint_upper) ==> match last_match(self@, method, path@) {
                Some(i) => (r matches Dispatch::Run { route, parameters } && route == i && pairs(
                    parameters@,
                ) == bound_parameters(self@[i].path, path@)),
                None => (r matches Dispatch::Respond(resp) && resp.status == 404 && resp.body@
                    == "No route found for "@ + method_name(method) + " "@ + path@),
            },
    {
        if !body_within_limit(size_hint_upper) {
            return Dispatch::Respond(payload_too_large());
        }
        proof {
            lemma_last_match(self@, method, path@);
        }
        match self.find(method, path) {
            Some(i) => {
                assert(self@[i as int] == self.routes@[i as int]@);
                let parameters = parameters(self.routes[i].path(), path);
                Dispatch::Run { route: i, parameters }
            },
            None => Dispatch::Respond(not_found(method, path)),
        }
    }
}

} // verus!
