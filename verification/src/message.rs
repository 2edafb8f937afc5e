use vstd::prelude::*;

verus! {

/// One header line of a request.
#[derive(Clone)]
pub struct Header {
    pub name: String,
    pub value: String,
}

/// A parsed request head.
#[derive(Clone)]
pub struct Request {
    /// The minor HTTP version: `0` for HTTP/1.0, `1` for HTTP/1.1.
    pub version: u8,
    pub method: String,
    pub path: String,
    pub headers: Vec<Header>,
}

/// What a handler answers with; it is always sent as `200 OK`.
#[derive(Clone)]
pub struct Response {
    pub content_type: String,
    pub body: String,
}

/// The mathematical value of a [`Header`].
pub struct HeaderView {
    pub name: Seq<char>,
    pub value: Seq<char>,
}

/// The mathematical value of a [`Request`].
pub struct RequestView {
    pub version: u8,
    pub method: Seq<char>,
    pub path: Seq<char>,
    pub headers: Seq<HeaderView>,
}

/// The mathematical value of a [`Response`].
pub struct ResponseView {
    pub content_type: Seq<char>,
    pub body: Seq<char>,
}

impl View for Header {
    type V = HeaderView;

    open spec fn view(&self) -> HeaderView {
        HeaderView { name: self.name@, value: self.value@ }
    }
}

impl View for Request {
    type V = RequestView;

    open spec fn view(&self) -> RequestView {
        RequestView {
            version: self.version,
            method: self.method@,
            path: self.path@,
            headers: self.headers@.map_values(|h: Header| h@),
        }
    }
}

impl View for Response {
    type V = ResponseView;

    open spec fn view(&self) -> ResponseView {
        ResponseView { content_type: self.content_type@, body: self.body@ }
    }
}

} // verus!
