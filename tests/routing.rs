use valar::http::method::Method;
use valar::routing::middleware::{trace_of, Chain, Outcome, Step};
use valar::routing::pattern::{parameters, to_pattern_source};
use valar::routing::route::{Builder, Endpoint};
use valar::routing::router::{endpoint_response, CompiledRouter, Dispatch, Router};

fn get(path: &str, handler: usize) -> Builder {
    Builder::get(path.to_string(), handler)
}

fn handled_by(router: &CompiledRouter, method: Method, path: &str) -> Option<usize> {
    match router.find(method, path) {
        Some(i) => match router.route(i).endpoint() {
            Endpoint::Handler(h) => Some(h),
            Endpoint::NotFound => None,
        },
        None => None,
    }
}

#[test]
fn matcher_it_can_match_router_routes() {
    let mut router = Router::default();

    router.get("/", 0);
    router.get("/foo", 0);
    router.get("/foo/:bar", 0);
    router.get("/foo/bar/", 0);

    let matcher = router.compile().unwrap();
    let matches = |path: &str| matcher.find(Method::Get, path).is_some();

    assert!(matches("/"));
    assert!(matches("/foo"));
    assert!(matches("/foo/bar"));
    assert!(matches("/foo/bar/"));
    assert!(matches("/foo/asd123"));
    assert!(!matches("/bar"));
    assert!(!matches("/bar/"));
    assert!(!matches("/bar/baz"));
    assert!(!matches("/bar/baz/"));
}

#[test]
fn router_it_can_match_router_routes() {
    let router = Router::new(vec![get("/", 1), get("/foo", 2), get("/foo/:bar", 3), get("/foo/bar", 4)]);
    let router = router.compile().unwrap();

    assert_eq!(handled_by(&router, Method::Get, "/"), Some(1));
    assert_eq!(handled_by(&router, Method::Get, "/foo"), Some(2));
    assert_eq!(handled_by(&router, Method::Get, "/foo/bar"), Some(4));
    assert_eq!(handled_by(&router, Method::Get, "/foo/bar/"), Some(4));
    assert_eq!(handled_by(&router, Method::Get, "/foo/asd123"), Some(3));

    for path in ["/bar", "/bar/", "/bar/baz", "/bar/baz/"] {
        assert_eq!(handled_by(&router, Method::Get, path), None);
        match router.dispatch(Method::Get, path, Some(0)) {
            Dispatch::Run { route, .. } => {
                assert_eq!(router.route(route).endpoint(), Endpoint::NotFound)
            }
            Dispatch::Respond(response) => assert_eq!(response.status(), 404),
        }
    }
}

#[test]
fn it_can_parametrize_routes() {
    let mut router = Router::default();

    router.get("/foo/:bar", 0);

    let matcher = router.compile().unwrap();
    let path = "/foo/asd123";

    assert!(matcher.find(Method::Get, path).is_some());

    let route = matcher.find(Method::Get, path);

    assert!(route.is_some());

    let params = parameters(matcher.route(route.unwrap()).path(), path);

    assert_eq!(params.len(), 1);
    assert_eq!(params[0], ("bar".to_string(), "asd123".to_string()));
}

#[test]
fn it_can_create_routers() {
    let router = Router::default();

    assert_eq!(router.routes().len(), 0);
}

#[test]
fn it_can_create_routers_with_routes() {
    let mut router = Router::default();

    router.get("/", 0);

    assert_eq!(router.routes().len(), 1);
    assert!(router.has_route("/", Method::Get));
    assert!(!router.has_route("/", Method::Post));
}

#[test]
fn the_fallback_comes_first() {
    let router = Router::new(vec![get("/", 0)]);

    assert_eq!(router.routes().len(), 2);

    let compiled = router.compile().unwrap();

    // the fallback is bound to every method, then the declared route
    assert_eq!(compiled.len(), 10);
    assert_eq!(compiled.route(0).path(), ".*");
    assert_eq!(compiled.route(0).pattern().as_str(), "^/.*/?$");
    assert_eq!(compiled.route(9).path(), "/");
    assert!(compiled.has_route("/", Method::Get));
    assert!(!compiled.has_route("/", Method::Post));
}

#[test]
fn patterns_are_anchored_and_constrained() {
    let none: Vec<(String, String)> = Vec::new();
    let id = vec![("id".to_string(), "[0-9]+".to_string())];

    assert_eq!(to_pattern_source("/", &none), "^/$");
    assert_eq!(to_pattern_source("", &none), "^/$");
    assert_eq!(to_pattern_source("/foo/bar/", &none), "^/foo/bar/?$");
    assert_eq!(to_pattern_source("/users/:id", &none), "^/users/[a-zA-Z0-9-_]+/?$");
    assert_eq!(to_pattern_source("/users/:id", &id), "^/users/[0-9]+/?$");
    assert_eq!(to_pattern_source("users/:id/posts", &id), "^/users/[0-9]+/posts/?$");

    let twice = vec![
        ("id".to_string(), "[0-9]+".to_string()),
        ("id".to_string(), "[a-z]+".to_string()),
    ];
    assert_eq!(to_pattern_source("/:id", &twice), "^/[a-z]+/?$");
}

#[test]
fn parameters_pair_template_and_path_segments() {
    let params = parameters("/users/:id/posts/:post", "/users/7/posts/12/");

    assert_eq!(
        params,
        vec![
            ("id".to_string(), "7".to_string()),
            ("post".to_string(), "12".to_string())
        ]
    );
    assert!(parameters("/about", "/about").is_empty());
}

#[test]
fn constrained_parameters_are_extracted() {
    let route = get("/users/:id", 5).where_parameter("id".to_string(), "[0-9]+".to_string());
    let router = Router::new(vec![route]).compile().unwrap();

    match router.dispatch(Method::Get, "/users/42", Some(0)) {
        Dispatch::Run { route, parameters } => {
            assert_eq!(router.route(route).endpoint(), Endpoint::Handler(5));
            assert_eq!(parameters, vec![("id".to_string(), "42".to_string())]);
        }
        Dispatch::Respond(_) => panic!("expected the route to run"),
    }

    assert_eq!(handled_by(&router, Method::Get, "/users/abc"), None);
}

#[test]
fn the_last_registered_route_wins() {
    let router = Router::new(vec![get("/foo", 1), get("/foo/:bar", 2), get(".*", 3)]);
    let router = router.compile().unwrap();

    assert_eq!(handled_by(&router, Method::Get, "/foo"), Some(3));
    assert_eq!(handled_by(&router, Method::Get, "/foo/x"), Some(3));

    let router = Router::new(vec![get(".*", 3), get("/foo", 1)]).compile().unwrap();
    assert_eq!(handled_by(&router, Method::Get, "/foo"), Some(1));
    assert_eq!(handled_by(&router, Method::Get, "/other"), Some(3));
}

#[test]
fn unmatched_requests_get_not_found() {
    let router = Router::new(vec![get("/foo", 1)]).compile().unwrap();

    assert_eq!(handled_by(&router, Method::Post, "/foo"), None);
    match router.dispatch(Method::Post, "/foo", Some(0)) {
        Dispatch::Run { route, .. } => {
            assert_eq!(router.route(route).endpoint(), Endpoint::NotFound)
        }
        Dispatch::Respond(response) => assert_eq!(response.status(), 404),
    }

    let empty = Router::default().compile().unwrap();
    match empty.dispatch(Method::Get, "/anything", Some(0)) {
        Dispatch::Respond(response) => {
            assert_eq!(response.status(), 404);
            assert_eq!(response.body(), "No route found for GET /anything");
        }
        Dispatch::Run { .. } => panic!("nothing to run"),
    }
}

#[test]
fn the_not_found_endpoint_answers_404() {
    let response = endpoint_response(Endpoint::NotFound, Method::Put, "/nope").unwrap();

    assert_eq!(response.status(), 404);
    assert_eq!(response.body(), "No route found for PUT /nope");
    assert!(endpoint_response(Endpoint::Handler(0), Method::Put, "/nope").is_none());
}

#[test]
fn the_fallback_answers_every_method() {
    let router = Router::new(Vec::new()).compile().unwrap();

    for method in [Method::Options, Method::Get, Method::Post, Method::Put, Method::Delete,
        Method::Head, Method::Trace, Method::Connect, Method::Patch]
    {
        let i = router.find(method, "/any/path").unwrap();
        assert_eq!(router.route(i).endpoint(), Endpoint::NotFound);
    }
}

#[test]
fn oversized_bodies_are_refused_before_routing() {
    let router = Router::new(vec![get("/count", 1)]).compile().unwrap();

    match router.dispatch(Method::Get, "/count", Some(2_097_153)) {
        Dispatch::Respond(response) => {
            assert_eq!(response.status(), 413);
            assert_eq!(response.body(), "Request body too large");
        }
        Dispatch::Run { .. } => panic!("the handler must not run"),
    }
    match router.dispatch(Method::Get, "/count", None) {
        Dispatch::Respond(response) => assert_eq!(response.status(), 413),
        Dispatch::Run { .. } => panic!("the handler must not run"),
    }
    match router.dispatch(Method::Get, "/count", Some(2_097_152)) {
        Dispatch::Run { route, .. } => {
            assert_eq!(router.route(route).endpoint(), Endpoint::Handler(1))
        }
        Dispatch::Respond(_) => panic!("a body at the cap is accepted"),
    }
}

#[test]
fn middleware_runs_as_an_onion() {
    assert_eq!(
        trace_of(2, None),
        vec![Step::Before(0), Step::Before(1), Step::Handler, Step::After(1), Step::After(0)]
    );
    assert_eq!(trace_of(0, None), vec![Step::Handler]);
}

#[test]
fn a_middleware_can_answer_by_itself() {
    assert_eq!(
        trace_of(2, Some(1)),
        vec![Step::Before(0), Step::Before(1), Step::After(0)]
    );
    assert_eq!(trace_of(2, Some(0)), vec![Step::Before(0)]);
}

#[test]
fn a_chain_is_driven_step_by_step() {
    let mut chain = Chain::new(1);

    assert_eq!(chain.step(), Step::Before(0));
    chain.advance(Outcome::Next);
    assert_eq!(chain.step(), Step::Handler);
    chain.advance(Outcome::Next);
    assert_eq!(chain.step(), Step::After(0));
    chain.advance(Outcome::Next);
    assert_eq!(chain.step(), Step::Done);
}

#[test]
fn middleware_is_merged_outer_first() {
    let inner = get("/a", 1).middleware(20);
    let group = Builder::group(vec![inner]).middleware(10);
    let router = Router::new(vec![group]).middleware(1).compile().unwrap();

    let i = router.find(Method::Get, "/a").unwrap();
    assert_eq!(router.route(i).middlewares(), &vec![1, 10, 20]);
    assert_eq!(router.route(0).middlewares(), &vec![1]);
}

#[test]
fn group_constraints_are_inherited_and_overridden() {
    let leaf = get("/:id", 1).where_parameter("id".to_string(), "[a-z]+".to_string());
    let group = Builder::group(vec![leaf, get("/n/:id", 2)])
        .where_parameter("id".to_string(), "[0-9]+".to_string());
    let router = Router::new(vec![group]).compile().unwrap();

    let sources = router.pattern_sources();
    assert!(sources.contains(&"^/[a-z]+/?$".to_string()));
    assert!(sources.contains(&"^/n/[0-9]+/?$".to_string()));
}

#[test]
fn compiling_twice_gives_the_same_patterns() {
    let build = || {
        Router::new(vec![
            get("/users/:id", 1).where_parameter("id".to_string(), "[0-9]+".to_string()),
            Builder::group(vec![get("/a", 2), Builder::any("/b".to_string(), 3)]),
        ])
    };
    let first = build().compile().unwrap();
    let second = build().compile().unwrap();

    assert_eq!(first.pattern_sources(), second.pattern_sources());
    assert_eq!(first.len(), 1 * 9 + 1 + 1 + 9);
}

#[test]
fn invalid_constraints_fail_compilation() {
    let route = get("/users/:id", 1).where_parameter("id".to_string(), "[0-9".to_string());
    let error = Router::new(vec![route]).compile().err().unwrap();

    assert_eq!(error.pattern(), "^/users/[0-9/?$");
}

#[test]
fn summary_lists_routes_newest_first() {
    let router = Router::new(vec![get("/foo", 1)]).compile().unwrap();
    let summary = router.summary();

    assert_eq!(summary.len(), 10);
    assert_eq!(
        summary[0],
        "GET.... ⟶ /foo............................. ⟶ ^/foo/?$.........................."
    );
}
