use vstd::prelude::*;

use crate::common::{Request, RequestView};
use crate::kafka::{decoded_request, law_record_roundtrip, record_carries, Header};
use crate::response_proxy::reply_view;
use crate::sync_2::{
    action_at, closes, law_paired_across_events, message_key, Response, SyncAction, SyncMessage,
    STATUS_OK,
};

verus! {

/// The whole way of a request, whatever other events the pairing task takes
/// in between: the request proxy publishes the request; the response proxy
/// reads it back as the same path and body (what it posts to the REST API),
/// and publishes the REST API's `answer` under the same identifier and path;
/// the request proxy reads that reply back and the request's channel gets
/// status 200 with exactly `answer` as body.
pub proof fn law_request_gets_far_side_answer<T>(
    msgs: Seq<SyncMessage<T>>,
    i: int,
    j: int,
    request: Request,
    channel: T,
    out_headers: Seq<Header>,
    out_payload: Seq<u8>,
    far: RequestView,
    answer: Seq<char>,
    back_headers: Seq<Header>,
    back_payload: Seq<u8>,
    read_back: Request,
)
    requires
        0 <= i < j < msgs.len(),
        msgs[i] == SyncMessage::Request(request, channel),
        msgs[j] == SyncMessage::<T>::Response(read_back),
        forall|k: int| i < k < j ==> message_key(#[trigger] msgs[k]) != request.request_id.0@,
        record_carries(request@, out_headers, out_payload),
        decoded_request(Some(out_headers), Some(out_payload)) == Some(far),
        record_carries(reply_view(far, answer), back_headers, back_payload),
        decoded_request(Some(back_headers), Some(back_payload)) == Some(read_back@),
    ensures
        far == request@,
        read_back@ == reply_view(request@, answer),
        read_back.body@ == answer,
        action_at(msgs, j) == (SyncAction::Reply {
            reply: channel,
            response: Response { status: STATUS_OK, body: Some(read_back.body) },
        }),
{
    law_record_roundtrip(request@, out_headers, out_payload);
    law_record_roundtrip(reply_view(far, answer), back_headers, back_payload);
    assert(closes(msgs, j, i));
    law_paired_across_events(msgs, j, i);
}

} // verus!
