//! The request shape the router works on, and what is decided about a
//! request before any route runs: the body size cap, the query string,
//! content negotiation.
use vstd::prelude::*;
use crate::http::headers::{lower_of, values_of, Headers};
use crate::http::method::{method_name, Method};
use crate::http::response::Response;
use crate::routing::pattern::{find_constraint, lookup, pairs};
use crate::text::{is_infix, split_char, split_on, views};

verus! {

/// The largest body accepted, in bytes: 2 MiB.
pub const MAX_BODY_SIZE: u64 = 1024 * 1024 * 2;

/// A body is accepted when the transport bounds its size by at most
/// `MAX_BODY_SIZE`; a body of unknown size is refused.
pub open spec fn body_accepted(size_hint_upper: Option<u64>) -> bool {
    size_hint_upper matches Some(n) && n <= MAX_BODY_SIZE
}

/// Whether a body whose size is bounded by `size_hint_upper` is accepted.
pub fn body_within_limit(size_hint_upper: Option<u64>) -> (r: bool)
    ensures
        r == body_accepted(size_hint_upper),
{
    match size_hint_upper {
        Some(n) => n <= MAX_BODY_SIZE,
        None => false,
    }
}

/// The answer to a body over the cap: status 413.
pub fn payload_too_large() -> (r: Response)
    ensures
        r.status == 413,
        r.body@ == "Request body too large"@,
{
    let mut r = Response::new(413);
    r.body = "Request body too large".to_owned();
    r
}

/// The answer when no route serves a request: status 404, naming the
/// method and path.
pub fn not_found(method: Method, path: &str) -> (r: Response)
    ensures
        r.status == 404,
        r.body@ == "No route found for "@ + method_name(method) + " "@ + path@,
{
    let mut body = "No route found for ".to_owned();
    body.append(method.as_str());
    body.append(" ");
    body.append(path);
    let mut r = Response::new(404);
    r.body = body;
    r
}

/// The pairs of a query string: split on `&`, each piece split on `=`,
/// pieces without `=` dropped; nothing is percent-decoded.
pub open spec fn query_pairs_of(pieces: Seq<Seq<char>>) -> Seq<(Seq<char>, Seq<char>)>
    decreases pieces.len(),
{
    if pieces.len() == 0 {
        Seq::empty()
    } else {
        let init = query_pairs_of(pieces.drop_last());
        let kv = split_on(pieces.last(), '=');
        if kv.len() >= 2 {
            init.push((kv[0], kv[1]))
        } else {
            init
        }
    }
}

/// The parameters of the query string `q`.
pub open spec fn query_pairs(q: Seq<char>) -> Seq<(Seq<char>, Seq<char>)> {
    query_pairs_of(split_on(q, '&'))
}

/// Splits the query string `query` (without its `?`) into name/value pairs.
pub fn query_parameters(query: &str) -> (r: Vec<(String, String)>)
    ensures
        pairs(r@) == query_pairs(query@),
{
    let pieces = split_char(query, '&');
    let ghost ps = views(pieces@);
    let mut r: Vec<(String, String)> = Vec::new();
    let mut i: usize = 0;
    while i < pieces.len()
        invariant
            i <= pieces.len(),
            ps == views(pieces@),
            ps == split_on(query@, '&'),
            pairs(r@) == query_pairs_of(ps.subrange(0, i as int)),
        decreases pieces.len() - i,
    {
        let kv = split_char(pieces[i].as_str(), '=');
        assert(ps.subrange(0, i + 1).drop_last() =~= ps.subrange(0, i as int));
        assert(views(kv@).len() == kv@.len());
        if kv.len() >= 2 {
            let ghost before = pairs(r@);
            assert(views(kv@)[0] == kv@[0]@ && views(kv@)[1] == kv@[1]@);
            r.push((kv[0].clone(), kv[1].clone()));
            assert(pairs(r@) =~= before.push((kv@[0]@, kv@[1]@)));
        }
        i = i + 1;
    }
    assert(ps.subrange(0, i as int) =~= ps);
    r
}

/// Whether the first `Accept` value asks for JSON.
pub open spec fn asks_for_json(headers: Seq<(Seq<char>, Seq<Seq<char>>)>) -> bool {
    values_of(headers, lower_of("Accept"@)) matches Some(vs) && vs.len() > 0 && is_infix(
        "application/json"@,
        vs[0],
    )
}

/// Whether the response should be JSON: the `Accept` header contains
/// `application/json`.
pub fn wants_json(headers: &Headers) -> (r: bool)
    ensures
        r == asks_for_json(headers@),
{
    headers.contains("Accept", "application/json")
}

/// A request as the router sees it.
pub struct Request {
    pub method: Method,
    pub path: String,
    pub query: String,
    pub headers: Headers,
    pub body: String,
    pub query_parameters: Vec<(String, String)>,
    pub route_parameters: Vec<(String, String)>,
}

impl Request {
    /// A request whose query parameters are read from `query`; route
    /// parameters are filled once a route is chosen.
    pub fn new(method: Method, path: String, query: String, headers: Headers, body: String) -> (r:
        Request)
        ensures
            r.method == method,
            r.path@ == path@,
            r.query@ == query@,
            r.headers@ == headers@,
            r.body@ == body@,
            pairs(r.query_parameters@) == query_pairs(query@),
            r.route_parameters@.len() == 0,
    {
        let query_parameters = query_parameters(query.as_str());
        Request {
            method,
            path,
            query,
            headers,
            body,
            query_parameters,
            route_parameters: Vec::new(),
        }
    }

    /// The request with `parameters` as its route parameters.
    pub fn parametrized(self, parameters: Vec<(String, String)>) -> (r: Request)
        ensures
            r.route_parameters@ == parameters@,
            r.method == self.method,
            r.path == self.path,
            r.query == self.query,
            r.headers == self.headers,
            r.body == self.body,
            r.query_parameters == self.query_parameters,
    {
        Request { route_parameters: parameters, ..self }
    }

    /// The value of route parameter `name`; a later binding of the same
    /// name wins.
    pub fn route_parameter(&self, name: &str) -> (r: Option<&str>)
        ensures
            match r {
                Some(v) => lookup(pairs(self.route_parameters@), name@) == Some(v@),
                None => lookup(pairs(self.route_parameters@), name@) is None,
            },
    {
        let key = name.to_owned();
        match find_constraint(&self.route_parameters, &key) {
            Some(i) => Some(self.route_parameters[i].1.as_str()),
            None => None,
        }
    }

    /// The value of query parameter `name`; a later binding of the same
    /// name wins.
    pub fn query(&self, name: &str) -> (r: Option<&str>)
        ensures
            match r {
                Some(v) => lookup(pairs(self.query_parameters@), name@) == Some(v@),
                None => lookup(pairs(self.query_parameters@), name@) is None,
            },
    {
        let key = name.to_owned();
        match find_constraint(&self.query_parameters, &key) {
            Some(i) => Some(self.query_parameters[i].1.as_str()),
            None => None,
        }
    }

    /// Whether the client asked for JSON.
    pub fn wants_json(&self) -> (r: bool)
        ensures
            r == asks_for_json(self.headers@),
    {
        wants_json(&self.headers)
    }
}

} // verus!
