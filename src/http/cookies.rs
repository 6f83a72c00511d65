//! Cookies sent by clients (`name=value` pairs of the `Cookie` header) and
//! cookies set by responses, with their attributes.
use vstd::prelude::*;
use crate::http::headers::{lower_of, values_of, Headers};
use crate::text::{decimal, decimal_string, split_char, split_on, trim, trim_white, views};

verus! {

/// A cookie string that does not have the `name=value` shape.
#[derive(Debug, Clone, Copy, PartialEq, Eq, Structural)]
pub struct CookieParseError;

/// The `SameSite` attribute of a cookie.
#[derive(Debug, Clone, Copy, PartialEq, Eq, Structural)]
pub enum SameSite {
    Strict,
    Lax,
    /// Sent with cross-site requests too; written `None`.
    CrossSite,
}

/// How `SameSite` values are written.
pub open spec fn same_site_text(s: SameSite) -> Seq<char> {
    match s {
        SameSite::Strict => "Strict"@,
        SameSite::Lax => "Lax"@,
        SameSite::CrossSite => "None"@,
    }
}

impl SameSite {
    /// The attribute value as written in a `Set-Cookie` header.
    pub fn as_str(&self) -> (r: &'static str)
        ensures
            r@ == same_site_text(*self),
    {
        match self {
            SameSite::Strict => "Strict",
            SameSite::Lax => "Lax",
            SameSite::CrossSite => "None",
        }
    }
}

/// Access to a cookie's name and value.
pub trait Cookie {
    spec fn name_view(&self) -> Seq<char>;

    spec fn value_view(&self) -> Seq<char>;

    fn name(&self) -> (r: &str)
        ensures
            r@ == self.name_view(),
    ;

    fn value(&self) -> (r: &str)
        ensures
            r@ == self.value_view(),
    ;
}

/// A cookie as a client sends it.
#[derive(Debug)]
pub struct RequestCookie {
    name: String,
    value: String,
}

/// The name and value `s` parses to as a request cookie: the text before
/// the first `=` and the text between it and the next `=`.
pub open spec fn parse_request_cookie(s: Seq<char>) -> Option<(Seq<char>, Seq<char>)> {
    let parts = split_on(s, '=');
    if parts.len() < 2 {
        None
    } else {
        Some((parts[0], parts[1]))
    }
}

/// The cookies of one `Cookie` header value: `;`-separated, each trimmed;
/// `None` when one of them does not parse.
pub open spec fn parse_cookie_list(pieces: Seq<Seq<char>>) -> Option<Seq<(Seq<char>, Seq<char>)>>
    decreases pieces.len(),
{
    if pieces.len() == 0 {
        Some(Seq::empty())
    } else {
        match (parse_cookie_list(pieces.drop_last()), parse_request_cookie(
            trim_white(pieces.last()),
        )) {
            (Some(init), Some(c)) => Some(init.push(c)),
            _ => None,
        }
    }
}

/// The cookies of every value, in order; a value with a piece that does not
/// parse contributes no cookie.
pub open spec fn parse_cookie_values(values: Seq<Seq<char>>) -> Seq<(Seq<char>, Seq<char>)>
    decreases values.len(),
{
    if values.len() == 0 {
        Seq::empty()
    } else {
        parse_cookie_values(values.drop_last()) + match parse_cookie_list(
            split_on(values.last(), ';'),
        ) {
            Some(more) => more,
            None => Seq::empty(),
        }
    }
}

/// The views of a list of request cookies.
pub open spec fn cookie_views(v: Seq<RequestCookie>) -> Seq<(Seq<char>, Seq<char>)> {
    v.map_values(|c: RequestCookie| (c.name_view(), c.value_view()))
}

impl RequestCookie {
    /// A cookie `name=value`.
    pub fn new(name: &str, value: &str) -> (r: RequestCookie)
        ensures
            r.name_view() == name@,
            r.value_view() == value@,
    {
        RequestCookie { name: name.to_owned(), value: value.to_owned() }
    }

    /// Parses `name=value`; text after a second `=` is ignored.
    pub fn parse(s: &str) -> (r: Result<RequestCookie, CookieParseError>)
        ensures
            match r {
                Ok(c) => parse_request_cookie(s@) == Some((c.name_view(), c.value_view())),
                Err(_) => parse_request_cookie(s@) is None,
            },
    {
        let parts = split_char(s, '=');
        proof {
            assert(views(parts@).len() == parts@.len());
        }
        if parts.len() < 2 {
            return Err(CookieParseError);
        }
        proof {
            assert(views(parts@)[0] == parts@[0]@);
            assert(views(parts@)[1] == parts@[1]@);
        }
        Ok(RequestCookie { name: parts[0].clone(), value: parts[1].clone() })
    }

    /// Parses every `;`-separated cookie of `s`.
    pub fn many_from_str(s: &str) -> (r: Result<Vec<RequestCookie>, CookieParseError>)
        ensures
            match r {
                Ok(v) => parse_cookie_list(split_on(s@, ';')) == Some(cookie_views(v@)),
                Err(_) => parse_cookie_list(split_on(s@, ';')) is None,
            },
    {
        let pieces = split_char(s, ';');
        let ghost ps = views(pieces@);
        let mut cookies: Vec<RequestCookie> = Vec::new();
        let mut i: usize = 0;
        while i < pieces.len()
            invariant
                i <= pieces.len(),
                ps == views(pieces@),
                ps == split_on(s@, ';'),
                parse_cookie_list(ps.subrange(0, i as int)) == Some(cookie_views(cookies@)),
            decreases pieces.len() - i,
        {
            let piece = trim(pieces[i].as_str());
            assert(ps.subrange(0, i + 1).drop_last() =~= ps.subrange(0, i as int));
            match RequestCookie::parse(piece.as_str()) {
                Ok(c) => {
                    let ghost before = cookie_views(cookies@);
                    cookies.push(c);
                    assert(cookie_views(cookies@) =~= before.push(
                        (c.name_view(), c.value_view()),
                    ));
                },
                Err(e) => {
                    proof {
                        lemma_cookie_list_fails(ps, i as int);
                    }
                    return Err(e);
                },
            }
            i = i + 1;
        }
        assert(ps.subrange(0, i as int) =~= ps);
        Ok(cookies)
    }

    /// The cookie written as `name=value`.
    pub fn to_string(&self) -> (r: String)
        ensures
            r@ == self.name_view() + "="@ + self.value_view(),
    {
        let mut r = self.name.clone();
        r.append("=");
        r.append(self.value.as_str());
        r
    }
}

/// Once a piece fails, the whole list fails.
proof fn lemma_cookie_list_fails(ps: Seq<Seq<char>>, i: int)
    requires
        0 <= i < ps.len(),
        parse_request_cookie(trim_white(ps[i])) is None,
    ensures
        parse_cookie_list(ps) is None,
    decreases ps.len(),
{
    if i < ps.len() - 1 {
        lemma_cookie_list_fails(ps.drop_last(), i);
    }
}

impl Cookie for RequestCookie {
    closed spec fn name_view(&self) -> Seq<char> {
        self.name@
    }

    closed spec fn value_view(&self) -> Seq<char> {
        self.value@
    }

    fn name(&self) -> (r: &str) {
        self.name.as_str()
    }

    fn value(&self) -> (r: &str) {
        self.value.as_str()
    }
}

impl std::str::FromStr for RequestCookie {
    type Err = CookieParseError;

    fn from_str(s: &str) -> Result<RequestCookie, CookieParseError> {
        RequestCookie::parse(s)
    }
}

/// A cookie's contents, as values.
pub struct CookieView {
    pub name: Seq<char>,
    pub value: Seq<char>,
    pub path: Option<Seq<char>>,
    pub domain: Option<Seq<char>>,
    pub max_age: Option<u64>,
    pub secure: bool,
    pub http_only: bool,
    pub same_site: Option<SameSite>,
}

/// The view of an optional string.
pub open spec fn opt_view(o: Option<String>) -> Option<Seq<char>> {
    match o {
        Some(s) => Some(s@),
        None => None,
    }
}

/// The `Path` attribute as written, if set.
pub open spec fn path_part(c: CookieView) -> Seq<char> {
    match c.path {
        Some(p) => "; Path="@ + p,
        None => Seq::empty(),
    }
}

/// The `Domain` attribute as written, if set.
pub open spec fn domain_part(c: CookieView) -> Seq<char> {
    match c.domain {
        Some(d) => "; Domain="@ + d,
        None => Seq::empty(),
    }
}

/// The `Max-Age` attribute as written, if set.
pub open spec fn max_age_part(c: CookieView) -> Seq<char> {
    match c.max_age {
        Some(a) => "; Max-Age="@ + decimal(a as nat),
        None => Seq::empty(),
    }
}

/// The `Secure` flag as written, if set.
pub open spec fn secure_part(c: CookieView) -> Seq<char> {
    if c.secure {
        "; Secure"@
    } else {
        Seq::empty()
    }
}

/// The `HttpOnly` flag as written, if set.
pub open spec fn http_only_part(c: CookieView) -> Seq<char> {
    if c.http_only {
        "; HttpOnly"@
    } else {
        Seq::empty()
    }
}

/// The `SameSite` attribute as written, if set.
pub open spec fn same_site_part(c: CookieView) -> Seq<char> {
    match c.same_site {
        Some(s) => "; SameSite="@ + same_site_text(s),
        None => Seq::empty(),
    }
}

/// How a response cookie is written in a `Set-Cookie` header.
pub open spec fn cookie_text(c: CookieView) -> Seq<char> {
    c.name + "="@ + c.value + path_part(c) + domain_part(c) + max_age_part(c) + secure_part(c)
        + http_only_part(c) + same_site_part(c)
}

/// The name and value `s` parses to as a response cookie: the trimmed text
/// before the first `=`, and what follows it up to the first `;`, trimmed.
pub open spec fn parse_response_cookie(s: Seq<char>) -> Option<(Seq<char>, Seq<char>)> {
    let parts = split_on(trim_white(s), '=');
    if parts.len() < 2 {
        None
    } else {
        Some((parts[0], split_on(trim_white(trim_white(parts[1])), ';')[0]))
    }
}

/// A cookie as a response sets it.
#[derive(Debug)]
pub struct ResponseCookie {
    name: String,
    value: String,
    path: Option<String>,
    domain: Option<String>,
    max_age: Option<u64>,
    secure: bool,
    http_only: bool,
    same_site: Option<SameSite>,
}

impl View for ResponseCookie {
    type V = CookieView;

    closed spec fn view(&self) -> CookieView {
        CookieView {
            name: self.name@,
            value: self.value@,
            path: opt_view(self.path),
            domain: opt_view(self.domain),
            max_age: self.max_age,
            secure: self.secure,
            http_only: self.http_only,
            same_site: self.same_site,
        }
    }
}

/// A response cookie under construction.
pub struct ResponseCookieBuilder {
    name: String,
    value: String,
    path: Option<String>,
    domain: Option<String>,
    max_age: Option<u64>,
    secure: bool,
    http_only: bool,
    same_site: Option<SameSite>,
}

impl View for ResponseCookieBuilder {
    type V = CookieView;

    closed spec fn view(&self) -> CookieView {
        CookieView {
            name: self.name@,
            value: self.value@,
            path: opt_view(self.path),
            domain: opt_view(self.domain),
            max_age: self.max_age,
            secure: self.secure,
            http_only: self.http_only,
            same_site: self.same_site,
        }
    }
}

fn copy_opt(o: Option<&str>) -> (r: Option<String>)
    ensures
        opt_view(r) == match o {
            Some(s) => Some(s@),
            None => None::<Seq<char>>,
        },
{
    match o {
        Some(s) => Some(s.to_owned()),
        None => None,
    }
}

fn opt_str(o: &Option<String>) -> (r: Option<&str>)
    ensures
        match r {
            Some(s) => opt_view(*o) == Some(s@),
            None => opt_view(*o) is None,
        },
{
    match o {
        Some(s) => Some(s.as_str()),
        None => None,
    }
}

impl ResponseCookie {
    /// Starts a cookie `name=value` with no attributes.
    pub fn builder(name: &str, value: &str) -> (r: ResponseCookieBuilder)
        ensures
            r@ == (CookieView {
                name: name@,
                value: value@,
                path: None,
                domain: None,
                max_age: None,
                secure: false,
                http_only: false,
                same_site: None,
            }),
    {
        ResponseCookieBuilder::new(name, value)
    }

    /// The `Path` attribute.
    pub fn path(&self) -> (r: Option<&str>)
        ensures
            match r {
                Some(s) => self@.path == Some(s@),
                None => self@.path is None,
            },
    {
        opt_str(&self.path)
    }

    /// The `Domain` attribute.
    pub fn domain(&self) -> (r: Option<&str>)
        ensures
            match r {
                Some(s) => self@.domain == Some(s@),
                None => self@.domain is None,
            },
    {
        opt_str(&self.domain)
    }

    /// The `Max-Age` attribute, in seconds.
    pub fn max_age(&self) -> (r: Option<&u64>)
        ensures
            match r {
                Some(a) => self@.max_age == Some(*a),
                None => self@.max_age is None,
            },
    {
        match &self.max_age {
            Some(a) => Some(a),
            None => None,
        }
    }

    /// The `Secure` flag.
    pub fn secure(&self) -> (r: bool)
        ensures
            r == self@.secure,
    {
        self.secure
    }

    /// The `HttpOnly` flag.
    pub fn http_only(&self) -> (r: bool)
        ensures
            r == self@.http_only,
    {
        self.http_only
    }

    /// The `SameSite` attribute.
    pub fn same_site(&self) -> (r: Option<&SameSite>)
        ensures
            match r {
                Some(s) => self@.same_site == Some(*s),
                None => self@.same_site is None,
            },
    {
        match &self.same_site {
            Some(s) => Some(s),
            None => None,
        }
    }

    /// Parses a `Set-Cookie` value; only its name and value are read.
    pub fn parse(s: &str) -> (r: Result<ResponseCookie, CookieParseError>)
        ensures
            match r {
                Ok(c) => parse_response_cookie(s@) == Some((c@.name, c@.value)) && c@.path
                    is None && c@.domain is None && c@.max_age is None && !c@.secure
                    && !c@.http_only && c@.same_site is None,
                Err(_) => parse_response_cookie(s@) is None,
            },
    {
        let trimmed = trim(s);
        let parts = split_char(trimmed.as_str(), '=');
        proof {
            assert(views(parts@).len() == parts@.len());
        }
        if parts.len() < 2 {
            return Err(CookieParseError);
        }
        proof {
            assert(views(parts@)[0] == parts@[0]@);
            assert(views(parts@)[1] == parts@[1]@);
        }
        let value = trim(parts[1].as_str());
        let value = trim(value.as_str());
        let pieces = split_char(value.as_str(), ';');
        proof {
            crate::text::lemma_split_on_len(value@, ';');
            assert(views(pieces@)[0] == pieces@[0]@);
        }
        Ok(ResponseCookie::builder(parts[0].as_str(), pieces[0].as_str()).build())
    }

    /// The cookie as written in a `Set-Cookie` header.
    pub fn to_string(&self) -> (r: String)
        ensures
            r@ == cookie_text(self@),
    {
        let mut r = self.name.clone();
        r.append("=");
        r.append(self.value.as_str());
        self.write_path(&mut r);
        self.write_domain(&mut r);
        self.write_max_age(&mut r);
        self.write_flags(&mut r);
        self.write_same_site(&mut r);
        r
    }

    fn write_path(&self, r: &mut String)
        ensures
            final(r)@ == old(r)@ + path_part(self@),
    {
        match &self.path {
            Some(p) => {
                r.append("; Path=");
                r.append(p.as_str());
            },
            None => {},
        }
        assert(r@ =~= old(r)@ + path_part(self@));
    }

    fn write_domain(&self, r: &mut String)
        ensures
            final(r)@ == old(r)@ + domain_part(self@),
    {
        match &self.domain {
            Some(d) => {
                r.append("; Domain=");
                r.append(d.as_str());
            },
            None => {},
        }
        assert(r@ =~= old(r)@ + domain_part(self@));
    }

    fn write_max_age(&self, r: &mut String)
        ensures
            final(r)@ == old(r)@ + max_age_part(self@),
    {
        match self.max_age {
            Some(a) => {
                r.append("; Max-Age=");
                let digits = decimal_string(a);
                r.append(digits.as_str());
            },
            None => {},
        }
        assert(r@ =~= old(r)@ + max_age_part(self@));
    }

    fn write_flags(&self, r: &mut String)
        ensures
            final(r)@ == old(r)@ + secure_part(self@) + http_only_part(self@),
    {
        if self.secure {
            r.append("; Secure");
        }
        if self.http_only {
            r.append("; HttpOnly");
        }
        assert(r@ =~= old(r)@ + secure_part(self@) + http_only_part(self@));
    }

    fn write_same_site(&self, r: &mut String)
        ensures
            final(r)@ == old(r)@ + same_site_part(self@),
    {
        match self.same_site {
            Some(s) => {
                r.append("; SameSite=");
                r.append(s.as_str());
            },
            None => {},
        }
        assert(r@ =~= old(r)@ + same_site_part(self@));
    }
}

impl Cookie for ResponseCookie {
    open spec fn name_view(&self) -> Seq<char> {
        self@.name
    }

    open spec fn value_view(&self) -> Seq<char> {
        self@.value
    }

    fn name(&self) -> (r: &str) {
        self.name.as_str()
    }

    fn value(&self) -> (r: &str) {
        self.value.as_str()
    }
}

impl std::str::FromStr for ResponseCookie {
    type Err = CookieParseError;

    fn from_str(s: &str) -> Result<ResponseCookie, CookieParseError> {
        ResponseCookie::parse(s)
    }
}

impl ResponseCookieBuilder {
    /// A cookie `name=value` with no attributes.
    pub fn new(name: &str, value: &str) -> (r: ResponseCookieBuilder)
        ensures
            r@ == (CookieView {
                name: name@,
                value: value@,
                path: None,
                domain: None,
                max_age: None,
                secure: false,
                http_only: false,
                same_site: None,
            }),
    {
        ResponseCookieBuilder {
            name: name.to_owned(),
            value: value.to_owned(),
            path: None,
            domain: None,
            max_age: None,
            secure: false,
            http_only: false,
            same_site: None,
        }
    }

    /// Sets or clears the `Path` attribute.
    pub fn path(self, path: Option<&str>) -> (r: ResponseCookieBuilder)
        ensures
            r@ == (CookieView {
                path: match path {
                    Some(p) => Some(p@),
                    None => None,
                },
                ..self@
            }),
    {
        ResponseCookieBuilder { path: copy_opt(path), ..self }
    }

    /// Sets or clears the `Domain` attribute.
    pub fn domain(self, domain: Option<&str>) -> (r: ResponseCookieBuilder)
        ensures
            r@ == (CookieView {
                domain: match domain {
                    Some(d) => Some(d@),
                    None => None,
                },
                ..self@
            }),
    {
        ResponseCookieBuilder { domain: copy_opt(domain), ..self }
    }

    /// Sets or clears the `Max-Age` attribute.
    pub fn max_age(self, max_age: Option<u64>) -> (r: ResponseCookieBuilder)
        ensures
            r@ == (CookieView { max_age, ..self@ }),
    {
        ResponseCookieBuilder { max_age, ..self }
    }

    /// Sets the `Secure` flag.
    pub fn secure(self, secure: bool) -> (r: ResponseCookieBuilder)
        ensures
            r@ == (CookieView { secure, ..self@ }),
    {
        ResponseCookieBuilder { secure, ..self }
    }

    /// Sets the `HttpOnly` flag.
    pub fn http_only(self, http_only: bool) -> (r: ResponseCookieBuilder)
        ensures
            r@ == (CookieView { http_only, ..self@ }),
    {
        ResponseCookieBuilder { http_only, ..self }
    }

    /// Sets or clears the `SameSite` attribute.
    pub fn same_site(self, same_site: Option<SameSite>) -> (r: ResponseCookieBuilder)
        ensures
            r@ == (CookieView { same_site, ..self@ }),
    {
        ResponseCookieBuilder { same_site, ..self }
    }

    /// Replaces the name.
    pub fn name(self, name: &str) -> (r: ResponseCookieBuilder)
        ensures
            r@ == (CookieView { name: name@, ..self@ }),
    {
        ResponseCookieBuilder { name: name.to_owned(), ..self }
    }

    /// Replaces the value.
    pub fn value(self, value: &str) -> (r: ResponseCookieBuilder)
        ensures
            r@ == (CookieView { value: value@, ..self@ }),
    {
        ResponseCookieBuilder { value: value.to_owned(), ..self }
    }

    /// The finished cookie.
    pub fn build(self) -> (r: ResponseCookie)
        ensures
            r@ == self@,
    {
        ResponseCookie {
            name: self.name,
            value: self.value,
            path: self.path,
            domain: self.domain,
            max_age: self.max_age,
            secure: self.secure,
            http_only: self.http_only,
            same_site: self.same_site,
        }
    }
}

impl Headers {
    /// The cookies of every `Cookie` header value, in order; a value that
    /// does not parse is skipped.
    pub fn cookies(&self) -> (r: Vec<RequestCookie>)
        ensures
            cookie_views(r@) == sent_cookies(self@),
    {
        match self.get("Cookie") {
            Some(values) => {
                let ghost vs = views(values@);
                assert(values_of(self@, lower_of("Cookie"@)) == Some(vs));
                let mut cookies: Vec<RequestCookie> = Vec::new();
                let mut i: usize = 0;
                assert(cookie_views(cookies@) =~= Seq::empty());
                while i < values.len()
                    invariant
                        i <= values.len(),
                        vs == views(values@),
                        values_of(self@, lower_of("Cookie"@)) == Some(vs),
                        parse_cookie_values(vs.subrange(0, i as int)) == cookie_views(cookies@),
                    decreases values.len() - i,
                {
                    assert(vs.subrange(0, i + 1).drop_last() =~= vs.subrange(0, i as int));
                    assert(vs[i as int] == values@[i as int]@);
                    let ghost before = cookie_views(cookies@);
                    match RequestCookie::many_from_str(values[i].as_str()) {
                        Ok(mut more) => {
                            let ghost added = cookie_views(more@);
                            cookies.append(&mut more);
                            assert(cookie_views(cookies@) =~= before + added);
                        },
                        Err(_) => {
                            assert(before + Seq::empty() =~= before);
                        },
                    }
                    i = i + 1;
                }
                assert(vs.subrange(0, i as int) =~= vs);
                cookies
            },
            None => {
                assert(cookie_views(Seq::<RequestCookie>::empty()) =~= Seq::empty());
                Vec::new()
            },
        }
    }

    /// The first cookie named `name` among those sent.
    pub fn cookie(&self, name: &str) -> (r: Option<RequestCookie>)
        ensures
            match r {
                Some(c) => c.name_view() == name@ && first_named(sent_cookies(self@), name@)
                    == Some(c.value_view()),
                None => first_named(sent_cookies(self@), name@) is None,
            },
    {
        let cookies = self.cookies();
        let key = name.to_owned();
        let mut i: usize = 0;
        let ghost cs = cookie_views(cookies@);
        assert(cs.subrange(0, cs.len() as int) =~= cs);
        while i < cookies.len()
            invariant
                i <= cookies.len(),
                cs == cookie_views(cookies@),
                sent_cookies(self@) == cs,
                key@ == name@,
                first_named(cs, name@) == first_named(cs.subrange(i as int, cs.len() as int), name@),
            decreases cookies.len() - i,
        {
            assert(cs.subrange(i as int, cs.len() as int)[0] == cs[i as int]);
            if cookies[i].name == key {
                let mut cookies = cookies;
                let c = cookies.remove(i);
                assert(cs[i as int] == (c.name_view(), c.value_view()));
                assert(first_named(cs, name@) == Some(c.value_view()));
                return Some(c);
            }
            assert(cs.subrange(i as int, cs.len() as int).drop_first() =~= cs.subrange(
                i + 1,
                cs.len() as int,
            ));
            i = i + 1;
        }
        assert(cs.subrange(i as int, cs.len() as int) =~= Seq::<(Seq<char>, Seq<char>)>::empty());
        None
    }

    /// Whether a cookie named `name` is sent.
    pub fn has_cookie(&self, name: &str) -> (r: bool)
        ensures
            r == (first_named(sent_cookies(self@), name@) is Some),
    {
        self.cookie(name).is_some()
    }

    /// Adds `cookie` to the `Cookie` header.
    pub fn set_cookie(&mut self, cookie: &RequestCookie)
        ensures
            values_of(final(self)@, lower_of("Cookie"@)) == Some(
                match values_of(old(self)@, lower_of("Cookie"@)) {
                    Some(vs) => vs,
                    None => Seq::<Seq<char>>::empty(),
                }.push(cookie.name_view() + "="@ + cookie.value_view()),
            ),
            crate::http::headers::others_unchanged(old(self)@, final(self)@, lower_of("Cookie"@)),
    {
        self.append("Cookie", cookie.to_string());
    }
}

/// The cookies sent in the `Cookie` header values of `h`.
pub open spec fn sent_cookies(h: Seq<(Seq<char>, Seq<Seq<char>>)>) -> Seq<(Seq<char>, Seq<char>)> {
    parse_cookie_values(
        match values_of(h, lower_of("Cookie"@)) {
            Some(vs) => vs,
            None => Seq::empty(),
        },
    )
}

/// The value of the first cookie named `name`.
pub open spec fn first_named(cs: Seq<(Seq<char>, Seq<char>)>, name: Seq<char>) -> Option<Seq<char>>
    decreases cs.len(),
{
    if cs.len() == 0 {
        None
    } else if cs[0].0 == name {
        Some(cs[0].1)
    } else {
        first_named(cs.drop_first(), name)
    }
}

} // verus!
