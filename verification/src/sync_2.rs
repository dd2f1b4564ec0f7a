use vstd::prelude::*;

use crate::common::{Request, RequestId};
use crate::pending::PendingTable;

verus! {

/// HTTP status of a request whose reply came back.
pub const STATUS_OK: u16 = 200;

/// HTTP status of a request whose reply did not come back in time.
pub const STATUS_REQUEST_TIMEOUT: u16 = 408;

/// HTTP status of a request whose waiting side was dropped before a reply.
pub const STATUS_INTERNAL_SERVER_ERROR: u16 = 500;

/// The wait, in seconds, that the HTTP handler of a request sets for the
/// `Timeout` event it sends.
pub const REQUEST_TIMEOUT_SECS: u64 = 10;

/// What the HTTP side answers a request with.
#[derive(Debug)]
pub struct Response {
    pub status: u16,
    pub body: Option<String>,
}

/// An event for the task that pairs requests with replies. `T` is what the
/// waiting HTTP handler is answered through (its reply channel).
pub enum SyncMessage<T> {
    /// A new request, with the channel its handler waits on.
    Request(Request, T),
    /// A reply that came back from the far side, under the request's identifier.
    Response(Request),
    /// The wait for this request is over.
    Timeout(RequestId),
}

/// What the pairing task does after an event.
pub enum SyncAction<T> {
    /// Publish `request`. `displaced` is the channel of an earlier request
    /// with the same identifier, which is dropped unanswered.
    Publish { request: Request, displaced: Option<T> },
    /// Answer through `reply` with `response`.
    Reply { reply: T, response: Response },
    /// Nothing to do: no request with that identifier is waiting.
    Ignore,
}

/// The identifier text an event is about.
pub open spec fn message_key<T>(msg: SyncMessage<T>) -> Seq<char> {
    match msg {
        SyncMessage::Request(r, _) => r.request_id.0@,
        SyncMessage::Response(r) => r.request_id.0@,
        SyncMessage::Timeout(id) => id.0@,
    }
}

/// The waiting requests after `msg`.
pub open spec fn next_pending<T>(pending: Map<Seq<char>, T>, msg: SyncMessage<T>) -> Map<
    Seq<char>,
    T,
> {
    match msg {
        SyncMessage::Request(r, reply) => pending.insert(r.request_id.0@, reply),
        SyncMessage::Response(r) => pending.remove(r.request_id.0@),
        SyncMessage::Timeout(id) => pending.remove(id.0@),
    }
}

/// The answer that a waiting request gets when it is closed by `msg`.
pub open spec fn closing_response<T>(msg: SyncMessage<T>) -> Response {
    match msg {
        SyncMessage::Response(r) => Response { status: STATUS_OK, body: Some(r.body) },
        _ => Response { status: STATUS_REQUEST_TIMEOUT, body: None },
    }
}

/// What the pairing task does on `msg` while `pending` wait.
pub open spec fn next_action<T>(pending: Map<Seq<char>, T>, msg: SyncMessage<T>) -> SyncAction<
    T,
> {
    match msg {
        SyncMessage::Request(r, _) => SyncAction::Publish {
            request: r,
            displaced: if pending.contains_key(r.request_id.0@) {
                Some(pending[r.request_id.0@])
            } else {
                None
            },
        },
        _ => if pending.contains_key(message_key(msg)) {
            SyncAction::Reply { reply: pending[message_key(msg)], response: closing_response(msg) }
        } else {
            SyncAction::Ignore
        },
    }
}

/// The state of the task that pairs each reply with the request that waits
/// for it.
pub struct SyncState<T> {
    pending: PendingTable<T>,
}

impl<T> SyncState<T> {
    /// The requests that wait, by identifier text.
    pub closed spec fn pending(&self) -> Map<Seq<char>, T> {
        self.pending@
    }

    /// Nothing waits yet.
    pub fn new() -> (s: Self)
        ensures
            s.pending() == Map::<Seq<char>, T>::empty(),
    {
        SyncState { pending: PendingTable::new() }
    }

    /// Whether a request with this identifier waits.
    pub fn is_pending(&self, id: &RequestId) -> (b: bool)
        ensures
            b == self.pending().contains_key(id.0@),
    {
        self.pending.contains_key(id)
    }

    /// Takes in one event and says what to do about it.
    pub fn handle(&mut self, msg: SyncMessage<T>) -> (action: SyncAction<T>)
        ensures
            final(self).pending() == next_pending(old(self).pending(), msg),
            action == next_action(old(self).pending(), msg),
    {
        match msg {
            SyncMessage::Request(request, reply) => {
                let id = request.request_id.duplicate();
                let displaced = self.pending.insert(id, reply);
                SyncAction::Publish { request, displaced }
            },
            SyncMessage::Response(res) => {
                match self.pending.remove(&res.request_id) {
                    Some(reply) => SyncAction::Reply {
                        reply,
                        response: Response { status: STATUS_OK, body: Some(res.body) },
                    },
                    None => SyncAction::Ignore,
                }
            },
            SyncMessage::Timeout(request_id) => {
                match self.pending.remove(&request_id) {
                    Some(reply) => SyncAction::Reply {
                        reply,
                        response: Response { status: STATUS_REQUEST_TIMEOUT, body: None },
                    },
                    None => SyncAction::Ignore,
                }
            },
        }
    }
}

/// A reply that comes back for a waiting request is handed to that request's
/// channel with status 200 and the reply's body, and the request no longer waits.
pub proof fn law_reply_answers_waiting_request<T>(
    pending: Map<Seq<char>, T>,
    request: Request,
    reply: T,
    res: Request,
)
    requires
        res.request_id.0@ == request.request_id.0@,
    ensures
        ({
            let waiting = next_pending(pending, SyncMessage::Request(request, reply));
            &&& next_action(waiting, SyncMessage::Response(res)) == (SyncAction::Reply {
                reply,
                response: Response { status: STATUS_OK, body: Some(res.body) },
            })
            &&& !next_pending(waiting, SyncMessage::Response(res)).contains_key(request.request_id.0@)
        }),
{
}

/// When the wait of a waiting request ends first, its channel gets status 408
/// with no body, and the request no longer waits.
pub proof fn law_timeout_answers_waiting_request<T>(
    pending: Map<Seq<char>, T>,
    request: Request,
    reply: T,
    id: RequestId,
)
    requires
        id.0@ == request.request_id.0@,
    ensures
        ({
            let waiting = next_pending(pending, SyncMessage::Request(request, reply));
            &&& next_action(waiting, SyncMessage::Timeout(id)) == (SyncAction::Reply {
                reply,
                response: Response { status: STATUS_REQUEST_TIMEOUT, body: None },
            })
            &&& !next_pending(waiting, SyncMessage::Timeout(id)).contains_key(id.0@)
        }),
{
}

/// A request is answered at most once: after a reply or a timeout closed it,
/// a later reply or timeout under the same identifier is ignored.
pub proof fn law_answered_at_most_once<T>(
    pending: Map<Seq<char>, T>,
    first: SyncMessage<T>,
    second: SyncMessage<T>,
)
    requires
        !(first is Request),
        !(second is Request),
        message_key(first) == message_key(second),
    ensures
        next_action(next_pending(pending, first), second) == SyncAction::<T>::Ignore,
        next_pending(next_pending(pending, first), second) == next_pending(pending, first),
{
    assert(next_pending(next_pending(pending, first), second) =~= next_pending(pending, first));
}

/// A reply or timeout for an identifier that does not wait changes nothing
/// and is ignored.
pub proof fn law_unknown_identifier_ignored<T>(pending: Map<Seq<char>, T>, msg: SyncMessage<T>)
    requires
        !(msg is Request),
        !pending.contains_key(message_key(msg)),
    ensures
        next_action(pending, msg) == SyncAction::<T>::Ignore,
        next_pending(pending, msg) == pending,
{
    assert(next_pending(pending, msg) =~= pending);
}

/// Every request that comes in is published, as it came.
pub proof fn law_request_published<T>(pending: Map<Seq<char>, T>, request: Request, reply: T)
    ensures
        next_action(pending, SyncMessage::Request(request, reply)) matches SyncAction::Publish {
            request: published,
            ..
        } && published == request,
        next_pending(pending, SyncMessage::Request(request, reply)).contains_key(
            request.request_id.0@,
        ),
{
}

/// An event leaves every other waiting request as it was.
pub proof fn law_other_requests_untouched<T>(
    pending: Map<Seq<char>, T>,
    msg: SyncMessage<T>,
    k: Seq<char>,
)
    requires
        k != message_key(msg),
    ensures
        next_pending(pending, msg).contains_key(k) == pending.contains_key(k),
        pending.contains_key(k) ==> next_pending(pending, msg)[k] == pending[k],
{
}

/// The requests that wait after the events `msgs`, when none waited before.
pub open spec fn pending_after<T>(msgs: Seq<SyncMessage<T>>) -> Map<Seq<char>, T>
    decreases msgs.len(),
{
    if msgs.len() == 0 {
        Map::empty()
    } else {
        next_pending(pending_after(msgs.drop_last()), msgs.last())
    }
}

/// What the pairing task does on event `n` of `msgs`, when none waited
/// before the first.
pub open spec fn action_at<T>(msgs: Seq<SyncMessage<T>>, n: int) -> SyncAction<T> {
    next_action(pending_after(msgs.take(n)), msgs[n])
}

/// The reply channel that a request event carries.
pub open spec fn channel_of<T>(msg: SyncMessage<T>) -> T
    recommends
        msg is Request,
{
    msg->Request_1
}

/// Whether event `i` of `msgs` is a request for `k` that no event before
/// event `n` has touched since: no reply, timeout or request for `k`.
pub open spec fn still_waiting<T>(msgs: Seq<SyncMessage<T>>, i: int, n: int, k: Seq<char>) -> bool {
    &&& 0 <= i < n <= msgs.len()
    &&& msgs[i] is Request
    &&& message_key(msgs[i]) == k
    &&& forall|j: int| i < j < n ==> message_key(#[trigger] msgs[j]) != k
}

/// Whether event `j` is a reply or timeout that closes request event `i`.
pub open spec fn closes<T>(msgs: Seq<SyncMessage<T>>, j: int, i: int) -> bool {
    &&& j < msgs.len()
    &&& !(msgs[j] is Request)
    &&& still_waiting(msgs, i, j, message_key(msgs[j]))
}

/// After the first `n` events, the requests that wait are exactly those
/// still waiting, each with the channel it came with.
proof fn lemma_pending_after<T>(msgs: Seq<SyncMessage<T>>, n: int)
    requires
        0 <= n <= msgs.len(),
    ensures
        forall|k: Seq<char>|
            #![trigger pending_after(msgs.take(n)).contains_key(k)]
            pending_after(msgs.take(n)).contains_key(k) <==> exists|i: int|
                still_waiting(msgs, i, n, k),
        forall|k: Seq<char>, i: int|
            #![trigger still_waiting(msgs, i, n, k)]
            still_waiting(msgs, i, n, k) ==> pending_after(msgs.take(n))[k] == channel_of(msgs[i]),
    decreases n,
{
    if n == 0 {
        assert forall|k: Seq<char>|
            #![trigger pending_after(msgs.take(0)).contains_key(k)]
            !pending_after(msgs.take(0)).contains_key(k) by {}
    } else {
        let p = n - 1;
        lemma_pending_after(msgs, p);
        let before = pending_after(msgs.take(n - 1));
        let m = msgs[n - 1];
        assert(msgs.take(n).drop_last() =~= msgs.take(n - 1));
        assert(msgs.take(n).last() == m);
        assert(pending_after(msgs.take(n)) == next_pending(before, m));
        assert forall|k: Seq<char>|
            #![trigger pending_after(msgs.take(n)).contains_key(k)]
            pending_after(msgs.take(n)).contains_key(k) <==> exists|i: int|
                still_waiting(msgs, i, n, k) by {
            if message_key(m) == k {
                if m is Request {
                    assert(still_waiting(msgs, n - 1, n, k));
                } else {
                    assert forall|i: int| !still_waiting(msgs, i, n, k) by {
                        if 0 <= i < n - 1 {
                            assert(message_key(msgs[n - 1]) == k);
                        }
                    }
                }
            } else {
                if exists|i: int| still_waiting(msgs, i, n, k) {
                    let i = choose|i: int| still_waiting(msgs, i, n, k);
                    assert(still_waiting(msgs, i, p, k));
                }
                if exists|i: int| still_waiting(msgs, i, p, k) {
                    let i = choose|i: int| still_waiting(msgs, i, p, k);
                    assert(still_waiting(msgs, i, n, k));
                }
            }
        }
        assert forall|k: Seq<char>, i: int|
            #![trigger still_waiting(msgs, i, n, k)]
            still_waiting(msgs, i, n, k) implies pending_after(msgs.take(n))[k] == channel_of(
                msgs[i],
            ) by {
            if i == n - 1 {
            } else {
                assert(message_key(msgs[n - 1]) != k);
                assert(still_waiting(msgs, i, p, k));
            }
        }
    }
}

/// A reply or timeout is paired with the request it closes, whatever other
/// events came in between: that request's channel gets status 200 and the
/// reply's body, or status 408 and no body.
pub proof fn law_paired_across_events<T>(msgs: Seq<SyncMessage<T>>, j: int, i: int)
    requires
        closes(msgs, j, i),
    ensures
        action_at(msgs, j) == (SyncAction::Reply {
            reply: channel_of(msgs[i]),
            response: closing_response(msgs[j]),
        }),
{
    lemma_pending_after(msgs, j);
}

/// A reply channel is only ever answered for the request it came with, and
/// only by a reply or timeout that closes that request.
pub proof fn law_reply_only_when_closing<T>(msgs: Seq<SyncMessage<T>>, j: int)
    requires
        0 <= j < msgs.len(),
        action_at(msgs, j) is Reply,
    ensures
        exists|i: int| #[trigger] closes(msgs, j, i),
{
    lemma_pending_after(msgs, j);
    let k = message_key(msgs[j]);
    assert(pending_after(msgs.take(j)).contains_key(k));
    let i = choose|i: int| still_waiting(msgs, i, j, k);
    assert(closes(msgs, j, i));
}

/// Over any run, the channel of each request is answered at most once: no
/// two events close the same request.
pub proof fn law_each_channel_answered_once<T>(msgs: Seq<SyncMessage<T>>, i: int, j1: int, j2: int)
    requires
        closes(msgs, j1, i),
        closes(msgs, j2, i),
    ensures
        j1 == j2,
{
    if j1 < j2 {
        assert(message_key(msgs[j1]) == message_key(msgs[i]));
    } else if j2 < j1 {
        assert(message_key(msgs[j2]) == message_key(msgs[i]));
    }
}

/// A reply or timeout that closes no request is ignored.
pub proof fn law_unclosing_event_ignored<T>(msgs: Seq<SyncMessage<T>>, j: int)
    requires
        0 <= j < msgs.len(),
        !(msgs[j] is Request),
        forall|i: int| !#[trigger] closes(msgs, j, i),
    ensures
        action_at(msgs, j) == SyncAction::<T>::Ignore,
{
    lemma_pending_after(msgs, j);
    let k = message_key(msgs[j]);
    if pending_after(msgs.take(j)).contains_key(k) {
        let i = choose|i: int| still_waiting(msgs, i, j, k);
        assert(closes(msgs, j, i));
    }
}

/// The HTTP handler of a request whose reply comes back before any timeout,
/// with no other request under its identifier in between, answers status
/// 200 with the reply's body, whatever other events came in between.
pub proof fn law_handler_gets_reply<T>(
    msgs: Seq<SyncMessage<T>>,
    i: int,
    j: int,
    request: Request,
    channel: T,
    res: Request,
)
    requires
        0 <= i < j < msgs.len(),
        msgs[i] == SyncMessage::Request(request, channel),
        msgs[j] == SyncMessage::<T>::Response(res),
        res.request_id.0@ == request.request_id.0@,
        forall|k: int| i < k < j ==> message_key(#[trigger] msgs[k]) != request.request_id.0@,
    ensures
        action_at(msgs, j) == (SyncAction::Reply {
            reply: channel,
            response: Response { status: STATUS_OK, body: Some(res.body) },
        }),
        handler_answer(Some(Response { status: STATUS_OK, body: Some(res.body) })) == (Response {
            status: STATUS_OK,
            body: Some(res.body),
        }),
{
    assert(closes(msgs, j, i));
    law_paired_across_events(msgs, j, i);
}

/// What the HTTP handler answers once its wait ends: what came through its
/// channel, or an internal error when the channel closed without a reply.
pub open spec fn handler_answer(received: Option<Response>) -> Response {
    match received {
        Some(res) => res,
        None => Response { status: STATUS_INTERNAL_SERVER_ERROR, body: None },
    }
}

/// The HTTP handler answers exactly what came through its channel, status
/// and body alike, whatever they are (a timeout's 408 without a body stays
/// 408 without a body); only a channel closed without any answer gives 500
/// with no body.
pub proof fn law_handler_answers_what_it_received(res: Response)
    ensures
        handler_answer(Some(res)) == res,
        handler_answer(Some(res)).status == res.status,
        handler_answer(Some(res)).body == res.body,
        handler_answer(Some(Response { status: STATUS_REQUEST_TIMEOUT, body: None })) == (Response {
            status: STATUS_REQUEST_TIMEOUT,
            body: None,
        }),
        handler_answer(None) == (Response { status: STATUS_INTERNAL_SERVER_ERROR, body: None }),
        res.status != STATUS_INTERNAL_SERVER_ERROR ==> handler_answer(Some(res)).status
            != STATUS_INTERNAL_SERVER_ERROR,
{
}

/// What the HTTP handler answers once its wait ends.
pub fn received_or_error(received: Option<Response>) -> (r: Response)
    ensures
        r == handler_answer(received),
        received matches Some(res) ==> r == res,
        received is None ==> r.status == STATUS_INTERNAL_SERVER_ERROR && r.body is None,
{
    match received {
        Some(res) => res,
        None => Response { status: STATUS_INTERNAL_SERVER_ERROR, body: None },
    }
}

} // verus!
