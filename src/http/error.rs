//! Structured error responses and how they are rendered, as plain text or
//! as JSON.
use vstd::prelude::*;
use crate::http::headers::{collected, flatten_entries, lemma_collected_first, lower_of, values_of, Headers};
use crate::text::digit_char;
use crate::http::response::Response;
use crate::routing::pattern::pairs;

verus! {

/// The reason phrase `http::StatusCode::canonical_reason` gives for `status`.
pub uninterp spec fn canonical_reason_of(status: u16) -> Option<Seq<char>>;

/// Relies on `http::StatusCode::from_u16` and `canonical_reason`: the
/// registered reason phrase of a code; none outside 100..=999, which
/// `from_u16` rejects.
#[verifier::external_body]
fn reason_phrase(status: u16) -> (r: Option<&'static str>)
    ensures
        match r {
            Some(s) => canonical_reason_of(status) == Some(s@),
            None => canonical_reason_of(status) is None,
        },
        status < 100 || status > 999 ==> r is None,
{
    match http::StatusCode::from_u16(status) {
        Ok(code) => code.canonical_reason(),
        Err(_) => None,
    }
}

/// The lowercase hexadecimal digit for `d < 16`.
pub open spec fn hex_char(d: nat) -> char {
    if d < 10 {
        digit_char(d)
    } else if d == 10 {
        'a'
    } else if d == 11 {
        'b'
    } else if d == 12 {
        'c'
    } else if d == 13 {
        'd'
    } else if d == 14 {
        'e'
    } else {
        'f'
    }
}

/// How one character stands inside a JSON string: quote and backslash
/// escaped, the usual control characters by their short escapes, the other
/// control characters as `\u00XX`, everything else as it is.
pub open spec fn json_escape_char(c: char) -> Seq<char> {
    if c == '"' {
        seq!['\\', '"']
    } else if c == '\\' {
        seq!['\\', '\\']
    } else if c == '\u{8}' {
        seq!['\\', 'b']
    } else if c == '\t' {
        seq!['\\', 't']
    } else if c == '\n' {
        seq!['\\', 'n']
    } else if c == '\u{c}' {
        seq!['\\', 'f']
    } else if c == '\r' {
        seq!['\\', 'r']
    } else if (c as u32) < 0x20 {
        seq!['\\', 'u', '0', '0', hex_char((c as u32 / 16) as nat), hex_char((c as u32 % 16) as nat)]
    } else {
        seq![c]
    }
}

/// The characters of `s`, each escaped for a JSON string.
pub open spec fn json_escaped(s: Seq<char>) -> Seq<char>
    decreases s.len(),
{
    if s.len() == 0 {
        Seq::empty()
    } else {
        json_escaped(s.drop_last()) + json_escape_char(s.last())
    }
}

/// The JSON string literal for `s`: its escaped characters between quotes.
pub open spec fn json_quoted(s: Seq<char>) -> Seq<char> {
    seq!['"'] + json_escaped(s) + seq!['"']
}

/// Relies on `serde_json::to_string` applied to a `str`: it writes the
/// quoted, escaped string into a `Vec`, which does not fail.
#[verifier::external_body]
fn json_string(s: &str) -> (r: Option<String>)
    ensures
        r is Some,
        r matches Some(j) ==> j@ == json_quoted(s@),
{
    serde_json::to_string(s).ok()
}

/// The message used when the status has no reason phrase.
pub open spec fn generic_message() -> Seq<char> {
    "Whops, there was an error."@
}

/// An error on its way to becoming a response.
pub struct ErrorResponse {
    status: u16,
    message: Option<String>,
    headers: Option<Headers>,
}

/// An error's contents, as values.
pub struct ErrorView {
    pub status: u16,
    pub message: Option<Seq<char>>,
    pub headers: Option<Seq<(Seq<char>, Seq<Seq<char>>)>>,
}

impl View for ErrorResponse {
    type V = ErrorView;

    closed spec fn view(&self) -> ErrorView {
        ErrorView {
            status: self.status,
            message: match self.message {
                Some(m) => Some(m@),
                None => None,
            },
            headers: match self.headers {
                Some(h) => Some(h@),
                None => None,
            },
        }
    }
}

/// The text an error carries: its message, else the status's reason
/// phrase, else a generic sentence.
pub open spec fn error_text(e: ErrorView) -> Seq<char> {
    match e.message {
        Some(m) => m,
        None => match canonical_reason_of(e.status) {
            Some(r) => r,
            None => generic_message(),
        },
    }
}

/// The JSON body of an error: an object with one `message` member.
pub open spec fn json_body(text: Seq<char>) -> Seq<char> {
    "{\"message\":"@ + json_quoted(text) + "}"@
}

/// The header pairs of a JSON error response: `Content-Type:
/// application/json`, then the error's own headers in order.
pub open spec fn json_header_pairs(h: Option<Seq<(Seq<char>, Seq<Seq<char>>)>>) -> Seq<
    (Seq<char>, Seq<char>),
> {
    seq![("Content-Type"@, "application/json"@)] + match h {
        Some(h) => flatten_entries(h),
        None => Seq::empty(),
    }
}

/// The JSON response headers hold the pairs of `json_header_pairs`, and
/// `Content-Type` starts with `application/json`.
pub open spec fn json_headers(
    r: Seq<(Seq<char>, Seq<Seq<char>>)>,
    h: Option<Seq<(Seq<char>, Seq<Seq<char>>)>>,
) -> bool {
    &&& forall|k: Seq<char>| #[trigger] values_of(r, k) == collected(json_header_pairs(h), k)
    &&& values_of(r, lower_of("Content-Type"@)) matches Some(vs) && vs.len() > 0 && vs[0]
        == "application/json"@
}

/// The plain response headers: the error's own, or none.
pub open spec fn plain_headers(h: Option<Seq<(Seq<char>, Seq<Seq<char>>)>>) -> Seq<
    (Seq<char>, Seq<Seq<char>>),
> {
    match h {
        Some(h) => h,
        None => Seq::empty(),
    }
}

impl ErrorResponse {
    /// An internal server error with no message and no headers.
    pub fn new() -> (r: ErrorResponse)
        ensures
            r@ == (ErrorView { status: 500, message: None, headers: None }),
    {
        ErrorResponse { status: 500, message: None, headers: None }
    }

    /// Replaces the status code.
    pub fn status(self, status: u16) -> (r: ErrorResponse)
        ensures
            r@ == (ErrorView { status, ..self@ }),
    {
        ErrorResponse { status, ..self }
    }

    /// Sets the message.
    pub fn message(self, message: &str) -> (r: ErrorResponse)
        ensures
            r@ == (ErrorView { message: Some(message@), ..self@ }),
    {
        ErrorResponse { message: Some(message.to_owned()), ..self }
    }

    /// Sets headers to send with the response.
    pub fn headers(self, headers: Headers) -> (r: ErrorResponse)
        ensures
            r@ == (ErrorView { headers: Some(headers@), ..self@ }),
    {
        ErrorResponse { headers: Some(headers), ..self }
    }

    /// The error's status code.
    pub fn status_code(&self) -> (r: u16)
        ensures
            r == self@.status,
    {
        self.status
    }

    fn text(&self) -> (r: String)
        ensures
            r@ == error_text(self@),
    {
        match &self.message {
            Some(m) => m.clone(),
            None => match reason_phrase(self.status) {
                Some(reason) => reason.to_owned(),
                None => "Whops, there was an error.".to_owned(),
            },
        }
    }

    /// A plain response: the error's status and headers, its text as body.
    pub fn into_response(self) -> (r: Response)
        ensures
            r.status == self@.status,
            r.body@ == error_text(self@),
            r.headers@ == match self@.headers {
                Some(h) => h,
                None => Seq::empty(),
            },
    {
        let body = self.text();
        let headers = match self.headers {
            Some(h) => h,
            None => Headers::empty(),
        };
        Response { status: self.status, headers, body }
    }

    /// A JSON response: the error's status, `Content-Type:
    /// application/json` followed by the error's headers, and an object
    /// holding the error's text as body.
    pub fn into_json_response(self) -> (r: Response)
        ensures
            r.status == self@.status,
            r.body@ == json_body(error_text(self@)),
            json_headers(r.headers@, self@.headers),
    {
        let text = self.text();
        let mut list: Vec<(String, String)> = Vec::new();
        list.push(("Content-Type".to_owned(), "application/json".to_owned()));
        let ghost first = pairs(list@);
        assert(first =~= seq![("Content-Type"@, "application/json"@)]);
        match &self.headers {
            Some(other) => {
                let mut extra = other.iter();
                let ghost more = pairs(extra@);
                list.append(&mut extra);
                assert(pairs(list@) =~= first + more);
            },
            None => {
                assert(first + Seq::<(Seq<char>, Seq<char>)>::empty() =~= first);
            },
        }
        let headers = Headers::new(list);
        proof {
            let ps = json_header_pairs(self@.headers);
            assert(ps[0] == ("Content-Type"@, "application/json"@));
            lemma_collected_first(ps, lower_of("Content-Type"@));
            assert(values_of(headers@, lower_of("Content-Type"@)) == collected(
                ps,
                lower_of("Content-Type"@),
            ));
        }
        let body = match json_string(text.as_str()) {
            Some(quoted) => {
                let mut b = "{\"message\":".to_owned();
                b.append(quoted.as_str());
                b.append("}");
                b
            },
            None => text,
        };
        Response { status: self.status, headers, body }
    }

    /// Renders as JSON when `json` holds, else as plain text.
    pub fn render(self, json: bool) -> (r: Response)
        ensures
            r.status == self@.status,
            json ==> r.body@ == json_body(error_text(self@)) && json_headers(
                r.headers@,
                self@.headers,
            ),
            !json ==> r.body@ == error_text(self@) && r.headers@ == plain_headers(self@.headers),
    {
        if json {
            self.into_json_response()
        } else {
            self.into_response()
        }
    }
}

/// What a handler or middleware failed with: an error that says how to
/// answer, or any other error, known by its description.
pub enum HandlerError {
    Structured(ErrorResponse),
    Other(String),
}

/// The error a handler failure is answered with: a structured error as it
/// is, anything else as an internal server error carrying its description.
pub open spec fn error_of(e: HandlerError) -> ErrorView {
    match e {
        HandlerError::Structured(r) => r@,
        HandlerError::Other(d) => ErrorView { status: 500, message: Some(d@), headers: None },
    }
}

/// Turns a handler failure into a response, as JSON when `json` holds.
pub fn error_response(error: HandlerError, json: bool) -> (r: Response)
    ensures
        r.status == error_of(error).status,
        json ==> r.body@ == json_body(error_text(error_of(error))) && json_headers(
            r.headers@,
            error_of(error).headers,
        ),
        !json ==> r.body@ == error_text(error_of(error)) && r.headers@ == plain_headers(
            error_of(error).headers,
        ),
{
    let e = match error {
        HandlerError::Structured(r) => r,
        HandlerError::Other(description) => ErrorResponse::new().status(500).message(
            description.as_str(),
        ),
    };
    e.render(json)
}

/// The response for a handler's outcome: its response, or its failure
/// turned into one.
pub fn into_response(outcome: Result<Response, HandlerError>, json: bool) -> (r: Response)
    ensures
        outcome matches Ok(resp) ==> r == resp,
        outcome matches Err(e) ==> r.status == error_of(e).status && (json ==> r.body@
            == json_body(error_text(error_of(e))) && json_headers(r.headers@, error_of(e).headers))
            && (!json ==> r.body@ == error_text(error_of(e)) && r.headers@ == plain_headers(
            error_of(e).headers,
        )),
{
    match outcome {
        Ok(resp) => resp,
        Err(e) => error_response(e, json),
    }
}

} // verus!
