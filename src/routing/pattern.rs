//! Compiles a path template and its parameter constraints into an anchored
//! regular expression, and reads the parameters back out of a matched path.
use vstd::prelude::*;
use crate::text::{
    split_char, split_on, substring, trim_char, trim_matches_char, trim_start_char,
    trim_start_matches_char, views,
};

verus! {

#[verifier::external_type_specification]
#[verifier::external_body]
pub struct ExRegex(regex::Regex);

#[verifier::external_type_specification]
#[verifier::external_body]
pub struct ExRegexError(regex::Error);

/// Whether `regex::Regex::new` accepts `pattern` (its syntax and the default
/// size limit decide).
pub uninterp spec fn regex_accepts(pattern: Seq<char>) -> bool;

/// Whether the regex compiled from `pattern` matches somewhere in `haystack`.
pub uninterp spec fn regex_finds(pattern: Seq<char>, haystack: Seq<char>) -> bool;

/// The fragment an unconstrained parameter must match.
pub open spec fn default_fragment() -> Seq<char> {
    "[a-zA-Z0-9-_]+"@
}

/// The views of a list of name/value pairs.
pub open spec fn pairs(v: Seq<(String, String)>) -> Seq<(Seq<char>, Seq<char>)> {
    v.map_values(|p: (String, String)| (p.0@, p.1@))
}

/// The value bound to `name` in an association list; a later binding
/// overrides an earlier one.
pub open spec fn lookup(list: Seq<(Seq<char>, Seq<char>)>, name: Seq<char>) -> Option<Seq<char>>
    decreases list.len(),
{
    if list.len() == 0 {
        None
    } else if list.last().0 == name {
        Some(list.last().1)
    } else {
        lookup(list.drop_last(), name)
    }
}

/// Whether a template segment names a parameter.
pub open spec fn is_parameter(segment: Seq<char>) -> bool {
    segment.len() > 0 && segment[0] == ':'
}

/// What a template segment becomes in the pattern.
pub open spec fn segment_pattern(
    segment: Seq<char>,
    constraints: Seq<(Seq<char>, Seq<char>)>,
) -> Seq<char> {
    if is_parameter(segment) {
        match lookup(constraints, trim_char(segment, ':')) {
            Some(fragment) => fragment,
            None => default_fragment(),
        }
    } else {
        segment
    }
}

/// The pieces of `segments` joined by `/`.
pub open spec fn join_slash(segments: Seq<Seq<char>>) -> Seq<char>
    decreases segments.len(),
{
    if segments.len() == 0 {
        Seq::<char>::empty()
    } else if segments.len() == 1 {
        segments[0]
    } else {
        join_slash(segments.drop_last()) + seq!['/'] + segments.last()
    }
}

/// The segments of a template or a path, without its outer slashes.
pub open spec fn segments(path: Seq<char>) -> Seq<Seq<char>> {
    split_on(trim_char(path, '/'), '/')
}

/// The body of the pattern: each segment turned into its pattern.
pub open spec fn pattern_body(
    template: Seq<char>,
    constraints: Seq<(Seq<char>, Seq<char>)>,
) -> Seq<char> {
    join_slash(segments(template).map_values(|s: Seq<char>| segment_pattern(s, constraints)))
}

/// The anchored pattern a template compiles to.
pub open spec fn pattern_source(
    template: Seq<char>,
    constraints: Seq<(Seq<char>, Seq<char>)>,
) -> Seq<char> {
    let body = pattern_body(template, constraints);
    if body.len() == 0 {
        "^/$"@
    } else {
        "^/"@ + body + "/?$"@
    }
}

/// The parameters of a template read from the first `n` segment pairs.
pub open spec fn bound_upto(ts: Seq<Seq<char>>, ps: Seq<Seq<char>>, n: int) -> Seq<(Seq<char>, Seq<char>)>
    decreases n,
{
    if n <= 0 {
        Seq::empty()
    } else {
        let prev = bound_upto(ts, ps, n - 1);
        if is_parameter(ts[n - 1]) {
            prev.push((trim_start_char(ts[n - 1], ':'), ps[n - 1]))
        } else {
            prev
        }
    }
}

/// The parameters that `path` binds against `template`: template and path
/// segments paired in order, kept where the template segment is a parameter.
pub open spec fn bound_parameters(template: Seq<char>, path: Seq<char>) -> Seq<(Seq<char>, Seq<char>)> {
    let ts = segments(template);
    let ps = segments(path);
    bound_upto(ts, ps, if ts.len() < ps.len() { ts.len() as int } else { ps.len() as int })
}

/// A compiled anchored pattern together with the source it was compiled from.
pub struct RoutePattern {
    source: String,
    regex: regex::Regex,
}

impl View for RoutePattern {
    type V = Seq<char>;

    closed spec fn view(&self) -> Seq<char> {
        self.source@
    }
}

/// Relies on `regex::Regex::new`: compiles `source`, and fails exactly when
/// the pattern is rejected. The pattern keeps `source` beside its regex.
#[verifier::external_body]
fn compile_regex(source: String) -> (r: Result<RoutePattern, regex::Error>)
    ensures
        r is Ok <==> regex_accepts(source@),
        r is Ok ==> r->Ok_0@ == source@,
{
    match regex::Regex::new(&source) {
        Ok(regex) => Ok(RoutePattern { source, regex }),
        Err(error) => Err(error),
    }
}

impl RoutePattern {
    /// Compiles `source`; `None` when the regex engine rejects it.
    pub fn new(source: String) -> (r: Option<RoutePattern>)
        ensures
            r is Some <==> regex_accepts(source@),
            r is Some ==> r->Some_0@ == source@,
    {
        match compile_regex(source) {
            Ok(p) => Some(p),
            Err(_) => None,
        }
    }

    /// The source the pattern was compiled from.
    pub fn as_str(&self) -> (r: &str)
        ensures
            r@ == self@,
    {
        self.source.as_str()
    }

    /// Relies on `regex::Regex::is_match`: whether the pattern matches
    /// somewhere in `haystack`. The regex was compiled from `self.source` by
    /// `compile_regex`, the only place a `RoutePattern` is made.
    #[verifier::external_body]
    pub(crate) fn is_match(&self, haystack: &str) -> (r: bool)
        ensures
            r == regex_finds(self@, haystack@),
    {
        self.regex.is_match(haystack)
    }
}

/// The index of the binding of `name` that counts: the last one.
pub fn find_constraint(constraints: &Vec<(String, String)>, name: &String) -> (r: Option<usize>)
    ensures
        match r {
            Some(i) => i < constraints.len() && lookup(pairs(constraints@), name@) == Some(
                constraints@[i as int].1@,
            ),
            None => lookup(pairs(constraints@), name@) is None,
        },
{
    let mut i = constraints.len();
    assert(constraints@.subrange(0, i as int) =~= constraints@);
    while i > 0
        invariant
            i <= constraints.len(),
            lookup(pairs(constraints@), name@) == lookup(pairs(constraints@.subrange(0, i as int)), name@),
        decreases i,
    {
        assert(pairs(constraints@.subrange(0, i as int)).drop_last() =~= pairs(
            constraints@.subrange(0, i - 1),
        ));
        if constraints[i - 1].0 == *name {
            return Some(i - 1);
        }
        i = i - 1;
    }
    None
}

/// What one template segment becomes in the pattern.
fn segment_to_pattern(segment: &String, constraints: &Vec<(String, String)>) -> (r: String)
    ensures
        r@ == segment_pattern(segment@, pairs(constraints@)),
{
    let text = segment.as_str();
    if text.unicode_len() > 0 && text.get_char(0) == ':' {
        let name = trim_matches_char(text, ':');
        match find_constraint(constraints, &name) {
            Some(i) => constraints[i].1.clone(),
            None => "[a-zA-Z0-9-_]+".to_owned(),
        }
    } else {
        segment.clone()
    }
}

/// The pattern source for `template` under `constraints`: literal segments
/// as they are, parameters replaced by their fragment, anchored at both ends
/// and with an optional trailing slash.
pub fn to_pattern_source(template: &str, constraints: &Vec<(String, String)>) -> (r: String)
    ensures
        r@ == pattern_source(template@, pairs(constraints@)),
{
    let trimmed = trim_matches_char(template, '/');
    let segs = split_char(trimmed.as_str(), '/');
    let ghost mapped = views(segs@).map_values(
        |s: Seq<char>| segment_pattern(s, pairs(constraints@)),
    );
    let mut body = String::new();
    let mut i: usize = 0;
    while i < segs.len()
        invariant
            i <= segs.len(),
            views(segs@) == segments(template@),
            mapped == views(segs@).map_values(
                |s: Seq<char>| segment_pattern(s, pairs(constraints@)),
            ),
            body@ == join_slash(mapped.subrange(0, i as int)),
        decreases segs.len() - i,
    {
        let piece = segment_to_pattern(&segs[i], constraints);
        assert(mapped.subrange(0, i + 1).drop_last() =~= mapped.subrange(0, i as int));
        if i > 0 {
            body.append("/");
            proof {
                reveal_strlit("/");
            }
        }
        body.append(piece.as_str());
        i = i + 1;
        assert(body@ =~= join_slash(mapped.subrange(0, i as int)));
    }
    assert(mapped.subrange(0, segs.len() as int) =~= mapped);
    if body.unicode_len() == 0 {
        "^/$".to_owned()
    } else {
        let mut r = "^/".to_owned();
        r.append(body.as_str());
        r.append("/?$");
        r
    }
}

/// The parameters that `path` binds against `template`, in template order.
pub fn parameters(template: &str, path: &str) -> (r: Vec<(String, String)>)
    ensures
        pairs(r@) == bound_parameters(template@, path@),
{
    let tt = trim_matches_char(template, '/');
    let ts = split_char(tt.as_str(), '/');
    let pt = trim_matches_char(path, '/');
    let ps = split_char(pt.as_str(), '/');
    let n = if ts.len() < ps.len() { ts.len() } else { ps.len() };
    let mut r: Vec<(String, String)> = Vec::new();
    let mut i: usize = 0;
    while i < n
        invariant
            n <= ts.len(),
            n <= ps.len(),
            i <= n,
            views(ts@) == segments(template@),
            views(ps@) == segments(path@),
            pairs(r@) == bound_upto(views(ts@), views(ps@), i as int),
        decreases n - i,
    {
        let t = ts[i].as_str();
        if t.unicode_len() > 0 && t.get_char(0) == ':' {
            let name = trim_start_matches_char(t, ':');
            let value = ps[i].clone();
            let ghost before = pairs(r@);
            r.push((name, value));
            assert(pairs(r@) =~= before.push((name@, value@)));
        }
        i = i + 1;
    }
    r
}

} // verus!
