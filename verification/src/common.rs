use vstd::prelude::*;

verus! {

/// The identifier that ties a request to its reply across the topics.
#[derive(Debug, Clone, PartialEq, Eq, Hash)]
pub struct RequestId(pub String);

impl RequestId {
    /// A copy of this identifier.
    pub fn duplicate(&self) -> (r: RequestId)
        ensures
            r == *self,
    {
        RequestId(self.0.clone())
    }

    /// Whether both identifiers hold the same text.
    pub fn same_as(&self, other: &RequestId) -> (b: bool)
        ensures
            b == (self.0@ == other.0@),
    {
        self.0 == other.0
    }
}

/// An HTTP request on its way through the proxies: the identifier it was
/// given, the path it was posted to and its body.
#[derive(Debug, Clone)]
pub struct Request {
    pub request_id: RequestId,
    pub path: String,
    pub body: String,
}

/// A request as text: its identifier, path and body.
pub struct RequestView {
    pub request_id: Seq<char>,
    pub path: Seq<char>,
    pub body: Seq<char>,
}

impl View for Request {
    type V = RequestView;

    open spec fn view(&self) -> RequestView {
        RequestView { request_id: self.request_id.0@, path: self.path@, body: self.body@ }
    }
}

impl Request {
    /// A copy of this request.
    pub fn duplicate(&self) -> (r: Request)
        ensures
            r == *self,
    {
        Request {
            request_id: self.request_id.duplicate(),
            path: self.path.clone(),
            body: self.body.clone(),
        }
    }
}

/// A reply tied to the request it answers; `data` is absent when there is none.
#[derive(Debug, Clone)]
pub struct Response {
    pub request_id: RequestId,
    pub data: Option<String>,
}

} // verus!
