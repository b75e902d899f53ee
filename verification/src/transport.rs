//! The requests that a lookup asks the caller to send, and the responses
//! that the caller hands back.

use vstd::prelude::*;

verus! {

/// How a request is made.
#[derive(Debug, Clone, Copy, PartialEq, Eq, Structural)]
pub enum Method {
    /// Asks for the headers only.
    Head,
    /// Asks for the body.
    Get,
    /// Sends a body along.
    Post,
}

/// A request that the caller is to send.
#[derive(Debug, Clone, PartialEq, Eq)]
pub struct Request {
    pub method: Method,
    /// The address, without the query.
    pub url: String,
    /// The query, as pairs of name and value that are not yet encoded.
    pub query: Vec<(String, String)>,
    /// Headers to send along, as pairs of name and value.
    pub headers: Vec<(String, String)>,
    /// After how many seconds to give up, where a limit is mandated.
    pub timeout_seconds: Option<u64>,
    /// The bytes of an image to send along, as the form part `image`.
    pub image: Option<Vec<u8>>,
}

/// Mathematical content of a [`Request`].
pub struct RequestView {
    pub method: Method,
    pub url: Seq<char>,
    pub query: Seq<(Seq<char>, Seq<char>)>,
    pub headers: Seq<(Seq<char>, Seq<char>)>,
    pub timeout_seconds: Option<u64>,
    pub image: Option<Seq<u8>>,
}

impl View for Request {
    type V = RequestView;

    open spec fn view(&self) -> RequestView {
        RequestView {
            method: self.method,
            url: self.url@,
            query: self.query.deep_view(),
            headers: self.headers.deep_view(),
            timeout_seconds: self.timeout_seconds,
            image: self.image.deep_view(),
        }
    }
}

/// A pair of name and value.
pub fn pair(name: &str, value: &str) -> (p: (String, String))
    ensures
        p.deep_view() == (name@, value@),
{
    (String::from_str(name), String::from_str(value))
}

/// A response, as the caller hands it over.
#[derive(Debug, Clone, PartialEq, Eq)]
pub struct Response {
    /// The status code.
    pub status: u16,
    /// The bytes of the `Content-Type` header, where the response has one.
    pub content_type: Option<Vec<u8>>,
    /// The body, as text.
    pub body: String,
}

/// Mathematical content of a [`Response`].
pub struct ResponseView {
    pub status: u16,
    pub content_type: Option<Seq<u8>>,
    pub body: Seq<char>,
}

impl View for Response {
    type V = ResponseView;

    open spec fn view(&self) -> ResponseView {
        ResponseView {
            status: self.status,
            content_type: match self.content_type {
                Some(bytes) => Some(bytes@),
                None => None,
            },
            body: self.body@,
        }
    }
}

/// The request for the headers of the image at `url`.
pub open spec fn head_request_for(url: Seq<char>) -> RequestView {
    RequestView {
        method: Method::Head,
        url,
        query: Seq::empty(),
        headers: Seq::empty(),
        timeout_seconds: None,
        image: None,
    }
}

/// A request without query, headers or limit.
pub fn plain_request(method: Method, url: String) -> (request: Request)
    ensures
        request@ == (RequestView {
            method,
            url: url@,
            query: Seq::empty(),
            headers: Seq::empty(),
            timeout_seconds: None,
            image: None,
        }),
{
    let query: Vec<(String, String)> = Vec::new();
    let headers: Vec<(String, String)> = Vec::new();
    assert(query.deep_view() =~= Seq::<(Seq<char>, Seq<char>)>::empty());
    assert(headers.deep_view() =~= Seq::<(Seq<char>, Seq<char>)>::empty());
    Request { method, url, query, headers, timeout_seconds: None, image: None }
}

/// The content of a reply.
pub open spec fn reply_view(reply: Option<Response>) -> Option<ResponseView> {
    match reply {
        Some(response) => Some(response@),
        None => None,
    }
}

} // verus!
