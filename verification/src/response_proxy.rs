use vstd::prelude::*;

use crate::common::{Request, RequestView};
use vstd::string::StringExecFns;

verus! {

/// The address that a request is posted to: the REST API's base address
/// followed by the request's path.
pub fn rest_url(base: &str, path: &str) -> (url: String)
    ensures
        url@ == base@ + path@,
{
    let mut url = base.to_owned();
    url.append(path);
    url
}

/// The reply, as text, that goes back for a request: its identifier and
/// path, with `answer` as body.
pub open spec fn reply_view(request: RequestView, answer: Seq<char>) -> RequestView {
    RequestView { body: answer, ..request }
}

/// The reply that goes back for `request`: the same identifier and path,
/// with the REST API's answer as body, or an empty body when the call failed.
pub fn reply_for(request: Request, answer: Option<String>) -> (r: Request)
    ensures
        r.request_id == request.request_id,
        r.path == request.path,
        r@ == reply_view(
            request@,
            match answer {
                Some(a) => a@,
                None => Seq::<char>::empty(),
            },
        ),
{
    let body = match answer {
        Some(a) => a,
        None => String::new(),
    };
    Request { body, ..request }
}

} // verus!
