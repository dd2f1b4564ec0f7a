use vstd::prelude::*;

use crate::common::{Request, RequestId};
use crate::sync_2::Response;

verus! {

/// Whether `c` is a lower-case hexadecimal digit.
pub open spec fn is_lower_hex(c: char) -> bool {
    ('0' <= c && c <= '9') || ('a' <= c && c <= 'f')
}

/// Whether `s` is the hyphenated lower-case text of a random (version 4,
/// RFC 4122 variant) UUID, such as `67e55044-10b1-426f-9247-bb680e5fe0c8`.
pub open spec fn is_uuid_v4_text(s: Seq<char>) -> bool {
    &&& s.len() == 36
    &&& forall|i: int|
        0 <= i < 36 ==> if i == 8 || i == 13 || i == 18 || i == 23 {
            s[i] == '-'
        } else {
            is_lower_hex(#[trigger] s[i])
        }
    &&& s[14] == '4'
    &&& (s[19] == '8' || s[19] == '9' || s[19] == 'a' || s[19] == 'b')
}

/// `uuid::Uuid::new_v4`, written with `to_string`. The identifier is
/// random; its text is hyphenated lower-case hexadecimal with the version
/// and variant digits that `new_v4` sets.
#[verifier::external_body]
fn random_uuid_text() -> (s: String)
    ensures
        is_uuid_v4_text(s@),
{
    uuid::Uuid::new_v4().to_string()
}

/// A request that came in over HTTP, under a fresh random identifier.
pub fn fresh_request(path: String, body: String) -> (r: Request)
    ensures
        is_uuid_v4_text(r.request_id.0@),
        r.path == path,
        r.body == body,
{
    Request { request_id: RequestId(random_uuid_text()), path, body }
}

/// What the HTTP side answers: the status, and the body or an empty text.
pub fn http_reply(response: Response) -> (r: (u16, String))
    ensures
        r.0 == response.status,
        r.1@ == match response.body {
            Some(b) => b@,
            None => Seq::<char>::empty(),
        },
{
    let body = match response.body {
        Some(b) => b,
        None => String::new(),
    };
    (response.status, body)
}

} // verus!
