//! What the proxy reads of a request and what it sends back by itself.

use vstd::prelude::*;
use vstd::string::StrSliceExecFns;
use vstd::utf8::encode_utf8;

use crate::text::{lemma_pair_views_push, option_view, pair_views};

verus! {

/// The parts of a request head on which decisions rest.
pub struct Request {
    pub method: String,
    pub path: String,
    pub query: Option<String>,
    /// The `Host` header, if there is one and it is text.
    pub host: Option<String>,
    /// The first `Cookie` header, if there is one and it is text.
    pub cookie: Option<String>,
}

impl Request {
    /// Whether this is a `GET` of exactly `path`.
    pub open spec fn is_get(self, path: Seq<char>) -> bool {
        self.method@ == "GET"@ && self.path@ == path
    }

    /// Whether this is a `POST` to exactly `path`.
    pub open spec fn is_post(self, path: Seq<char>) -> bool {
        self.method@ == "POST"@ && self.path@ == path
    }

    /// The query, empty if there is none.
    pub open spec fn query_view(self) -> Seq<char> {
        match self.query {
            Some(q) => q@,
            None => Seq::empty(),
        }
    }
}

/// A response that the proxy gives without asking a backend.
pub struct Response {
    pub status: u16,
    pub headers: Vec<(String, String)>,
    /// The body; `None` ends the response with its header.
    pub body: Option<Vec<u8>>,
}

/// The mathematical content of a `Response`.
#[verifier::ext_equal]
pub struct ResponseView {
    pub status: u16,
    pub headers: Seq<(Seq<char>, Seq<char>)>,
    pub body: Option<Seq<u8>>,
}

impl View for Response {
    type V = ResponseView;

    open spec fn view(&self) -> ResponseView {
        ResponseView {
            status: self.status,
            headers: pair_views(self.headers@),
            body: match self.body {
                Some(b) => Some(b@),
                None => None,
            },
        }
    }
}

/// A response of one `Content-Type` header and a body.
pub open spec fn typed_reply(status: u16, content_type: Seq<char>, body: Seq<u8>) -> ResponseView {
    ResponseView {
        status,
        headers: seq![("Content-Type"@, content_type)],
        body: Some(body),
    }
}

/// A plain-text response.
pub open spec fn text_reply(status: u16, body: Seq<char>) -> ResponseView {
    typed_reply(status, "text/plain"@, encode_utf8(body))
}

/// A JSON response.
pub open spec fn json_reply(status: u16, body: Seq<char>) -> ResponseView {
    typed_reply(status, "application/json"@, encode_utf8(body))
}

/// A temporary redirect to `location` with an empty body, and a cookie where one is given.
pub open spec fn found(location: Seq<char>, cookie: Option<Seq<char>>) -> ResponseView {
    let plain = seq![("Location"@, location), ("Content-Length"@, "0"@)];
    ResponseView {
        status: 302,
        headers: match cookie {
            Some(c) => plain.push(("Set-Cookie"@, c)),
            None => plain,
        },
        body: Some(Seq::empty()),
    }
}

/// A permanent redirect to `location`, without a body.
pub open spec fn moved(location: Seq<char>) -> ResponseView {
    ResponseView { status: 301, headers: seq![("Location"@, location)], body: None }
}

/// One header as a list.
fn single_header(name: &str, value: &str) -> (r: Vec<(String, String)>)
    ensures
        pair_views(r@) == seq![(name@, value@)],
{
    let mut headers: Vec<(String, String)> = Vec::new();
    headers.push((name.to_owned(), value.to_owned()));
    headers
}

/// Adds one header at the end of a list.
fn push_header(headers: &mut Vec<(String, String)>, name: &str, value: &str)
    ensures
        pair_views(final(headers)@) == pair_views(old(headers)@).push((name@, value@)),
{
    let header: (String, String) = (name.to_owned(), value.to_owned());
    proof {
        lemma_pair_views_push(headers@, header);
    }
    headers.push(header);
}

/// Builds a `typed_reply`.
pub fn typed_response(status: u16, content_type: &str, body: Vec<u8>) -> (r: Response)
    ensures
        r@ == typed_reply(status, content_type@, body@),
{
    Response { status, headers: single_header("Content-Type", content_type), body: Some(body) }
}

/// Builds a `text_reply`.
pub fn text_response(status: u16, body: &str) -> (r: Response)
    ensures
        r@ == text_reply(status, body@),
{
    typed_response(status, "text/plain", body.as_bytes_vec())
}

/// Builds a `json_reply`.
pub fn json_response(status: u16, body: &str) -> (r: Response)
    ensures
        r@ == json_reply(status, body@),
{
    typed_response(status, "application/json", body.as_bytes_vec())
}

/// Builds a `found` redirect.
pub fn redirect_response(location: &str, cookie: Option<String>) -> (r: Response)
    ensures
        r@ == found(location@, option_view(cookie)),
{
    let mut headers: Vec<(String, String)> = single_header("Location", location);
    push_header(&mut headers, "Content-Length", "0");
    assert(pair_views(headers@) == seq![("Location"@, location@), ("Content-Length"@, "0"@)]);
    if let Some(c) = cookie {
        push_header(&mut headers, "Set-Cookie", c.as_str());
    }
    Response { status: 302, headers, body: Some(Vec::new()) }
}

/// Builds a `moved` redirect.
pub fn moved_response(location: &str) -> (r: Response)
    ensures
        r@ == moved(location@),
{
    Response { status: 301, headers: single_header("Location", location), body: None }
}

/// The content of a response is its status, its headers one by one, and its body.
pub proof fn law_response_content(response: Response, i: int)
    ensures
        response@.status == response.status,
        response@.headers.len() == response.headers@.len(),
        0 <= i < response.headers@.len() ==> response@.headers[i].0 == response.headers@[i].0@
            && response@.headers[i].1 == response.headers@[i].1@,
        response.body is None <==> response@.body is None,
        response.body is Some ==> response@.body->0 == (response.body->0)@,
{
}

/// A request is a `GET` or a `POST` of a path if that is its method and the path is its whole
/// path, letter for letter.
pub proof fn law_requests_are_told_by_method_and_path(request: Request, path: Seq<char>)
    ensures
        request.is_get(path) <==> request.method@ == "GET"@ && request.path@ == path,
        request.is_post(path) <==> request.method@ == "POST"@ && request.path@ == path,
        request.query is None ==> request.query_view().len() == 0,
        request.query is Some ==> request.query_view() == (request.query->0)@,
{
}

/// A typed reply has its status, one header and its whole body.
pub proof fn law_typed_replies(status: u16, content_type: Seq<char>, body: Seq<u8>)
    ensures
        typed_reply(status, content_type, body).status == status,
        typed_reply(status, content_type, body).headers == seq![("Content-Type"@, content_type)],
        typed_reply(status, content_type, body).body == Some(body),
{
}

/// A text reply and a JSON reply have their status, their type and the UTF-8 form of the whole
/// text.
pub proof fn law_text_and_json_replies(status: u16, body: Seq<char>)
    ensures
        text_reply(status, body).status == status,
        text_reply(status, body).headers == seq![("Content-Type"@, "text/plain"@)],
        text_reply(status, body).body == Some(encode_utf8(body)),
        json_reply(status, body).status == status,
        json_reply(status, body).headers == seq![("Content-Type"@, "application/json"@)],
        json_reply(status, body).body == Some(encode_utf8(body)),
{
}

/// A temporary redirect goes to the location as given, with an empty body, and sets the cookie
/// as given, if one is.
pub proof fn law_temporary_redirects(location: Seq<char>, cookie: Seq<char>)
    ensures
        found(location, None).status == 302,
        found(location, None).headers == seq![("Location"@, location), ("Content-Length"@, "0"@)],
        found(location, None).body == Some(Seq::<u8>::empty()),
        found(location, Some(cookie)).status == 302,
        found(location, Some(cookie)).headers == seq![
            ("Location"@, location),
            ("Content-Length"@, "0"@),
            ("Set-Cookie"@, cookie),
        ],
        found(location, Some(cookie)).body == Some(Seq::<u8>::empty()),
{
}

/// A permanent redirect goes to the location as given, without a body.
pub proof fn law_permanent_redirects(location: Seq<char>)
    ensures
        moved(location).status == 301,
        moved(location).headers == seq![("Location"@, location)],
        moved(location).body is None,
{
}

} // verus!
