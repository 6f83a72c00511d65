//! The route tree: leaves bound to methods and an endpoint, and groups that
//! pass middleware and parameter constraints down to their children.
use vstd::prelude::*;
use crate::http::method::{all_methods, Method};
use crate::routing::pattern::{
    pairs, pattern_source, regex_accepts, to_pattern_source, RoutePattern,
};
use crate::routing::router::PatternError;

verus! {

/// What a route runs when it is chosen: the built-in not-found answer of the
/// fallback route, or the handler registered under an index.
#[derive(Clone, Copy, Debug, PartialEq, Eq, Structural)]
pub enum Endpoint {
    NotFound,
    Handler(usize),
}

/// Configuration inherited down the tree: middleware indices in execution
/// order, and parameter constraints where a later binding overrides an
/// earlier one of the same name.
pub struct Config {
    pub middlewares: Vec<usize>,
    pub parameters: Vec<(String, String)>,
}

/// A leaf: a template bound to methods and an endpoint, with its own
/// middleware and constraints.
pub struct Data {
    pub path: String,
    pub methods: Vec<Method>,
    pub endpoint: Endpoint,
    pub parameters: Vec<(String, String)>,
    pub middlewares: Vec<usize>,
}

/// A group of nodes sharing a configuration.
pub struct Group {
    pub config: Config,
    pub routes: Vec<Builder>,
}

/// A node of the route tree.
pub enum Builder {
    Data(Data),
    Group(Group),
}

/// What a compiled route is, as values.
pub struct RouteView {
    pub source: Seq<char>,
    pub path: Seq<char>,
    pub method: Method,
    pub endpoint: Endpoint,
    pub middlewares: Seq<usize>,
}

/// A route compiled for one method: its pattern and its full middleware
/// chain, outermost first.
pub struct Route {
    pub pattern: RoutePattern,
    pub path: String,
    pub method: Method,
    pub endpoint: Endpoint,
    pub middlewares: Vec<usize>,
}

impl View for Route {
    type V = RouteView;

    open spec fn view(&self) -> RouteView {
        RouteView {
            source: self.pattern@,
            path: self.path@,
            method: self.method,
            endpoint: self.endpoint,
            middlewares: self.middlewares@,
        }
    }
}

/// The views of a list of routes.
pub open spec fn route_views(v: Seq<Route>) -> Seq<RouteView> {
    v.map_values(|r: Route| r@)
}

/// The routes a leaf compiles to under inherited middleware `mw` and
/// constraints `params`: one per method, in the leaf's method order.
pub open spec fn leaf_routes(
    d: Data,
    mw: Seq<usize>,
    params: Seq<(Seq<char>, Seq<char>)>,
) -> Seq<RouteView> {
    d.methods@.map_values(
        |m: Method|
            RouteView {
                source: pattern_source(d.path@, params + pairs(d.parameters@)),
                path: d.path@,
                method: m,
                endpoint: d.endpoint,
                middlewares: mw + d.middlewares@,
            },
    )
}

/// The routes a list of nodes compiles to, in order; a group passes its
/// configuration, appended to what it inherited, to its children.
pub open spec fn compile_nodes(
    bs: Seq<Builder>,
    mw: Seq<usize>,
    params: Seq<(Seq<char>, Seq<char>)>,
) -> Seq<RouteView>
    decreases bs,
{
    if bs.len() == 0 {
        Seq::empty()
    } else {
        compile_nodes(bs.drop_last(), mw, params) + match bs.last() {
            Builder::Data(d) => leaf_routes(d, mw, params),
            Builder::Group(g) => compile_nodes(
                g.routes@,
                mw + g.config.middlewares@,
                params + pairs(g.config.parameters@),
            ),
        }
    }
}

/// Every route's pattern is accepted by the regex engine.
pub open spec fn all_accepted(routes: Seq<RouteView>) -> bool {
    forall|i: int| 0 <= i < routes.len() ==> regex_accepts(#[trigger] routes[i].source)
}

pub proof fn lemma_compile_nodes_append(
    a: Seq<Builder>,
    b: Seq<Builder>,
    mw: Seq<usize>,
    params: Seq<(Seq<char>, Seq<char>)>,
)
    ensures
        compile_nodes(a + b, mw, params) == compile_nodes(a, mw, params) + compile_nodes(
            b,
            mw,
            params,
        ),
    decreases b.len(),
{
    if b.len() == 0 {
        assert(a + b =~= a);
        assert(compile_nodes(a, mw, params) + compile_nodes(b, mw, params) =~= compile_nodes(
            a,
            mw,
            params,
        ));
    } else {
        assert((a + b).drop_last() =~= a + b.drop_last());
        lemma_compile_nodes_append(a, b.drop_last(), mw, params);
        let tail = compile_nodes(seq![b.last()], mw, params);
        assert(seq![b.last()].drop_last() =~= Seq::<Builder>::empty());
        assert(compile_nodes(seq![b.last()], mw, params) =~= Seq::<RouteView>::empty() + tail);
        assert(compile_nodes(a + b, mw, params) =~= compile_nodes(a, mw, params) + compile_nodes(
            b,
            mw,
            params,
        ));
    }
}

pub proof fn lemma_compile_single(
    b: Builder,
    mw: Seq<usize>,
    params: Seq<(Seq<char>, Seq<char>)>,
)
    ensures
        compile_nodes(seq![b], mw, params) == match b {
            Builder::Data(d) => leaf_routes(d, mw, params),
            Builder::Group(g) => compile_nodes(
                g.routes@,
                mw + g.config.middlewares@,
                params + pairs(g.config.parameters@),
            ),
        },
{
    assert(seq![b].drop_last() =~= Seq::<Builder>::empty());
    let tail = match b {
        Builder::Data(d) => leaf_routes(d, mw, params),
        Builder::Group(g) => compile_nodes(
            g.routes@,
            mw + g.config.middlewares@,
            params + pairs(g.config.parameters@),
        ),
    };
    assert(seq![b].len() == 1 && seq![b].last() == b);
    assert(compile_nodes(Seq::<Builder>::empty(), mw, params) =~= Seq::<RouteView>::empty());
    assert(compile_nodes(seq![b], mw, params) == compile_nodes(Seq::<Builder>::empty(), mw, params)
        + tail);
    assert(Seq::<RouteView>::empty() + tail =~= tail);
}

/// Splits the routes of `nodes` at node `i`: those before it, its own, and
/// those after it.
proof fn lemma_compile_at(
    nodes: Seq<Builder>,
    i: int,
    mw: Seq<usize>,
    params: Seq<(Seq<char>, Seq<char>)>,
)
    requires
        0 <= i < nodes.len(),
    ensures
        compile_nodes(nodes.subrange(0, i + 1), mw, params) == compile_nodes(
            nodes.subrange(0, i),
            mw,
            params,
        ) + compile_nodes(seq![nodes[i]], mw, params),
        compile_nodes(nodes, mw, params) == compile_nodes(nodes.subrange(0, i + 1), mw, params)
            + compile_nodes(nodes.subrange(i + 1, nodes.len() as int), mw, params),
{
    lemma_compile_nodes_append(nodes.subrange(0, i), seq![nodes[i]], mw, params);
    assert(nodes.subrange(0, i) + seq![nodes[i]] =~= nodes.subrange(0, i + 1));
    lemma_compile_nodes_append(
        nodes.subrange(0, i + 1),
        nodes.subrange(i + 1, nodes.len() as int),
        mw,
        params,
    );
    assert(nodes.subrange(0, i + 1) + nodes.subrange(i + 1, nodes.len() as int) =~= nodes);
}

/// `a` followed by `b`.
pub fn concat_ids(a: &Vec<usize>, b: &Vec<usize>) -> (r: Vec<usize>)
    ensures
        r@ == a@ + b@,
{
    let mut r: Vec<usize> = Vec::new();
    let mut i: usize = 0;
    while i < a.len()
        invariant
            i <= a.len(),
            r@ == a@.subrange(0, i as int),
        decreases a.len() - i,
    {
        r.push(a[i]);
        i = i + 1;
        assert(r@ =~= a@.subrange(0, i as int));
    }
    let mut j: usize = 0;
    while j < b.len()
        invariant
            j <= b.len(),
            i == a.len(),
            r@ == a@ + b@.subrange(0, j as int),
        decreases b.len() - j,
    {
        r.push(b[j]);
        j = j + 1;
        assert(r@ =~= a@ + b@.subrange(0, j as int));
    }
    assert(b@.subrange(0, j as int) =~= b@);
    r
}

/// The bindings of `a` followed by those of `b`.
pub fn concat_pairs(a: &Vec<(String, String)>, b: &Vec<(String, String)>) -> (r: Vec<(String, String)>)
    ensures
        pairs(r@) == pairs(a@) + pairs(b@),
{
    let mut r: Vec<(String, String)> = Vec::new();
    let mut i: usize = 0;
    while i < a.len()
        invariant
            i <= a.len(),
            pairs(r@) == pairs(a@.subrange(0, i as int)),
        decreases a.len() - i,
    {
        let ghost before = pairs(r@);
        let entry = (a[i].0.clone(), a[i].1.clone());
        r.push(entry);
        assert(pairs(r@) =~= before.push((a@[i as int].0@, a@[i as int].1@)));
        i = i + 1;
        assert(pairs(r@) =~= pairs(a@.subrange(0, i as int)));
    }
    assert(a@.subrange(0, i as int) =~= a@);
    let mut j: usize = 0;
    while j < b.len()
        invariant
            j <= b.len(),
            pairs(r@) == pairs(a@) + pairs(b@.subrange(0, j as int)),
        decreases b.len() - j,
    {
        let ghost before = pairs(r@);
        let entry = (b[j].0.clone(), b[j].1.clone());
        r.push(entry);
        assert(pairs(r@) =~= before.push((b@[j as int].0@, b@[j as int].1@)));
        j = j + 1;
        assert(pairs(r@) =~= pairs(a@) + pairs(b@.subrange(0, j as int)));
    }
    assert(b@.subrange(0, j as int) =~= b@);
    r
}

impl Config {
    /// An empty configuration.
    pub fn new() -> (r: Config)
        ensures
            r.middlewares@ == Seq::<usize>::empty(),
            r.parameters@ == Seq::<(String, String)>::empty(),
    {
        Config { middlewares: Vec::new(), parameters: Vec::new() }
    }

    /// A configuration carrying only `middlewares`.
    pub fn from_middlewares(middlewares: Vec<usize>) -> (r: Config)
        ensures
            r.middlewares@ == middlewares@,
            r.parameters@ == Seq::<(String, String)>::empty(),
    {
        Config { middlewares, parameters: Vec::new() }
    }

    /// This configuration, then `inner`: middleware concatenated, `inner`'s
    /// constraints taking precedence.
    pub fn merge(&self, inner: &Config) -> (r: Config)
        ensures
            r.middlewares@ == self.middlewares@ + inner.middlewares@,
            pairs(r.parameters@) == pairs(self.parameters@) + pairs(inner.parameters@),
    {
        Config {
            middlewares: concat_ids(&self.middlewares, &inner.middlewares),
            parameters: concat_pairs(&self.parameters, &inner.parameters),
        }
    }
}

impl Route {
    /// The method the route answers.
    pub fn method(&self) -> (r: Method)
        ensures
            r == self.method,
    {
        self.method
    }

    /// The template the route was declared with.
    pub fn path(&self) -> (r: &str)
        ensures
            r@ == self.path@,
    {
        self.path.as_str()
    }

    /// The compiled pattern.
    pub fn pattern(&self) -> (r: &RoutePattern)
        ensures
            r@ == self.pattern@,
    {
        &self.pattern
    }

    /// What the route runs.
    pub fn endpoint(&self) -> (r: Endpoint)
        ensures
            r == self.endpoint,
    {
        self.endpoint
    }

    /// The middleware chain, outermost first.
    pub fn middlewares(&self) -> (r: &Vec<usize>)
        ensures
            r@ == self.middlewares@,
    {
        &self.middlewares
    }

    /// Whether the route answers `method` on `path`.
    pub fn matches(&self, method: Method, path: &str) -> (r: bool)
        ensures
            r == (self.method == method && crate::routing::pattern::regex_finds(
                self.pattern@,
                path@,
            )),
    {
        self.pattern.is_match(path) && self.method == method
    }
}

impl Data {
    /// Compiles the leaf under `config`: one route per method, each with its
    /// own compiled pattern and the merged middleware chain.
    pub fn compile(&self, config: &Config) -> (r: Result<Vec<Route>, PatternError>)
        ensures
            r is Ok <==> all_accepted(
                leaf_routes(*self, config.middlewares@, pairs(config.parameters@)),
            ),
            r is Ok ==> route_views(r->Ok_0@) == leaf_routes(
                *self,
                config.middlewares@,
                pairs(config.parameters@),
            ),
            r is Err ==> !regex_accepts(r->Err_0@) && self.methods@.len() > 0 && r->Err_0@
                == pattern_source(self.path@, pairs(config.parameters@) + pairs(self.parameters@)),
    {
        let params = concat_pairs(&config.parameters, &self.parameters);
        let middlewares = concat_ids(&config.middlewares, &self.middlewares);
        let source = to_pattern_source(self.path.as_str(), &params);
        let ghost expected = leaf_routes(*self, config.middlewares@, pairs(config.parameters@));
        let mut routes: Vec<Route> = Vec::new();
        let mut i: usize = 0;
        while i < self.methods.len()
            invariant
                i <= self.methods.len(),
                source@ == pattern_source(self.path@, pairs(config.parameters@) + pairs(self.parameters@)),
                middlewares@ == config.middlewares@ + self.middlewares@,
                expected == leaf_routes(*self, config.middlewares@, pairs(config.parameters@)),
                expected.len() == self.methods.len(),
                route_views(routes@) == expected.subrange(0, i as int),
                i > 0 ==> regex_accepts(source@),
            decreases self.methods.len() - i,
        {
            match RoutePattern::new(source.clone()) {
                Some(pattern) => {
                    let ghost before = route_views(routes@);
                    let route = Route {
                        pattern,
                        path: self.path.clone(),
                        method: self.methods[i],
                        endpoint: self.endpoint,
                        middlewares: concat_ids(&middlewares, &Vec::new()),
                    };
                    assert(route.middlewares@ =~= middlewares@);
                    routes.push(route);
                    i = i + 1;
                    assert(route_views(routes@) =~= before.push(route@));
                    assert(route_views(routes@) =~= expected.subrange(0, i as int));
                },
                None => {
                    assert(!regex_accepts(expected[i as int].source));
                    return Err(PatternError::new(source));
                },
            }
        }
        assert(expected.subrange(0, i as int) =~= expected);
        Ok(routes)
    }
}

/// Compiles each node of `nodes` under `config`, in order.
pub fn compile_all(nodes: &Vec<Builder>, config: &Config) -> (r: Result<Vec<Route>, PatternError>)
    ensures
        r is Ok <==> all_accepted(
            compile_nodes(nodes@, config.middlewares@, pairs(config.parameters@)),
        ),
        r is Ok ==> route_views(r->Ok_0@) == compile_nodes(
            nodes@,
            config.middlewares@,
            pairs(config.parameters@),
        ),
        r is Err ==> exists|i: int|
            0 <= i < compile_nodes(nodes@, config.middlewares@, pairs(config.parameters@)).len()
                && compile_nodes(nodes@, config.middlewares@, pairs(config.parameters@))[i].source
                == r->Err_0@ && !regex_accepts(r->Err_0@),
    decreases nodes@,
{
    let ghost mw = config.middlewares@;
    let ghost params = pairs(config.parameters@);
    let mut routes: Vec<Route> = Vec::new();
    let mut i: usize = 0;
    while i < nodes.len()
        invariant
            i <= nodes.len(),
            mw == config.middlewares@,
            params == pairs(config.parameters@),
            route_views(routes@) == compile_nodes(nodes@.subrange(0, i as int), mw, params),
            all_accepted(route_views(routes@)),
        decreases nodes.len() - i,
    {
        proof {
            lemma_compile_at(nodes@, i as int, mw, params);
            lemma_compile_single(nodes@[i as int], mw, params);
        }
        let ghost here = compile_nodes(seq![nodes@[i as int]], mw, params);
        let part = match &nodes[i] {
            Builder::Data(d) => d.compile(config),
            Builder::Group(g) => {
                assert(decreases_to!(nodes@ => nodes@[i as int]));
                let merged = config.merge(&g.config);
                compile_all(&g.routes, &merged)
            },
        };
        match part {
            Ok(mut more) => {
                let ghost before = route_views(routes@);
                let ghost added = route_views(more@);
                assert(added == here);
                routes.append(&mut more);
                assert(route_views(routes@) =~= before + added);
                i = i + 1;
            },
            Err(e) => {
                let ghost whole = compile_nodes(nodes@, mw, params);
                let ghost k = choose|k: int|
                    0 <= k < here.len() && here[k].source == e@ && !regex_accepts(e@);
                assert(whole[route_views(routes@).len() + k] == here[k]);
                return Err(e);
            },
        }
    }
    assert(nodes@.subrange(0, i as int) =~= nodes@);
    Ok(routes)
}

impl Builder {
    /// The catch-all route placed before every declared route: any path,
    /// every method, answered with not-found.
    pub fn fallback() -> (r: Builder)
        ensures
            r matches Builder::Data(d) && d.path@ == ".*"@ && d.methods@ == all_methods()
                && d.endpoint == Endpoint::NotFound && d.parameters@.len() == 0
                && d.middlewares@.len() == 0,
    {
        Builder::Data(
            Data {
                path: ".*".to_owned(),
                methods: Method::all(),
                endpoint: Endpoint::NotFound,
                parameters: Vec::new(),
                middlewares: Vec::new(),
            },
        )
    }

    /// A group of `routes` with an empty configuration of its own.
    pub fn group(routes: Vec<Builder>) -> (r: Builder)
        ensures
            r matches Builder::Group(g) && g.routes@ == routes@ && g.config.middlewares@.len()
                == 0 && g.config.parameters@.len() == 0,
    {
        Builder::Group(Group { config: Config::new(), routes })
    }

    /// A leaf binding `path` and `method` to the handler registered under
    /// `handler`.
    pub fn leaf(path: String, method: Method, handler: usize) -> (r: Builder)
        ensures
            r matches Builder::Data(d) && d.path@ == path@ && d.methods@ == seq![method]
                && d.endpoint == Endpoint::Handler(handler) && d.parameters@.len() == 0
                && d.middlewares@.len() == 0,
    {
        let methods = vec![method];
        Builder::Data(
            Data {
                path,
                methods,
                endpoint: Endpoint::Handler(handler),
                parameters: Vec::new(),
                middlewares: Vec::new(),
            },
        )
    }

    /// A `GET` leaf.
    pub fn get(path: String, handler: usize) -> (r: Builder)
        ensures
            r matches Builder::Data(d) && d.path@ == path@ && d.methods@ == seq![Method::Get]
                && d.endpoint == Endpoint::Handler(handler) && d.parameters@.len() == 0
                && d.middlewares@.len() == 0,
    {
        Builder::leaf(path, Method::Get, handler)
    }

    /// A leaf bound to every method.
    pub fn any(path: String, handler: usize) -> (r: Builder)
        ensures
            r matches Builder::Data(d) && d.path@ == path@ && d.methods@ == all_methods()
                && d.endpoint == Endpoint::Handler(handler) && d.parameters@.len() == 0
                && d.middlewares@.len() == 0,
    {
        Builder::Data(
            Data {
                path,
                methods: Method::all(),
                endpoint: Endpoint::Handler(handler),
                parameters: Vec::new(),
                middlewares: Vec::new(),
            },
        )
    }

    /// Appends `middleware` to the node's own middleware list.
    pub fn middleware(self, middleware: usize) -> (r: Builder)
        ensures
            match (self, r) {
                (Builder::Data(a), Builder::Data(b)) => b.middlewares@ == a.middlewares@.push(
                    middleware,
                ) && b.path == a.path && b.methods == a.methods && b.endpoint == a.endpoint
                    && b.parameters == a.parameters,
                (Builder::Group(a), Builder::Group(b)) => b.config.middlewares@
                    == a.config.middlewares@.push(middleware) && b.config.parameters
                    == a.config.parameters && b.routes == a.routes,
                _ => false,
            },
    {
        match self {
            Builder::Data(mut d) => {
                d.middlewares.push(middleware);
                Builder::Data(d)
            },
            Builder::Group(mut g) => {
                g.config.middlewares.push(middleware);
                Builder::Group(g)
            },
        }
    }

    /// Constrains parameter `name` to `fragment` on this node, overriding an
    /// earlier constraint of the same name.
    pub fn where_parameter(self, name: String, fragment: String) -> (r: Builder)
        ensures
            match (self, r) {
                (Builder::Data(a), Builder::Data(b)) => pairs(b.parameters@) == pairs(
                    a.parameters@,
                ).push((name@, fragment@)) && b.path == a.path && b.methods == a.methods
                    && b.endpoint == a.endpoint && b.middlewares == a.middlewares,
                (Builder::Group(a), Builder::Group(b)) => pairs(b.config.parameters@) == pairs(
                    a.config.parameters@,
                ).push((name@, fragment@)) && b.config.middlewares == a.config.middlewares
                    && b.routes == a.routes,
                _ => false,
            },
    {
        match self {
            Builder::Data(mut d) => {
                let ghost before = pairs(d.parameters@);
                d.parameters.push((name, fragment));
                assert(pairs(d.parameters@) =~= before.push((name@, fragment@)));
                Builder::Data(d)
            },
            Builder::Group(mut g) => {
                let ghost before = pairs(g.config.parameters@);
                g.config.parameters.push((name, fragment));
                assert(pairs(g.config.parameters@) =~= before.push((name@, fragment@)));
                Builder::Group(g)
            },
        }
    }

    /// Compiles the node under the inherited `config`.
    pub fn compile(self, config: Config) -> (r: Result<Vec<Route>, PatternError>)
        ensures
            r is Ok <==> all_accepted(
                compile_nodes(seq![self], config.middlewares@, pairs(config.parameters@)),
            ),
            r is Ok ==> route_views(r->Ok_0@) == compile_nodes(
                seq![self],
                config.middlewares@,
                pairs(config.parameters@),
            ),
    {
        let nodes = vec![self];
        assert(nodes@ =~= seq![self]);
        compile_all(&nodes, &config)
    }
}

} // verus!
