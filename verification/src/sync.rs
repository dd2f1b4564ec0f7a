use std::sync::Arc;
use std::sync::Mutex;
use std::task::Waker;

use vstd::prelude::*;

use crate::common::{Request, RequestId};
use crate::pending::PendingTable;

verus! {

/// `std::task::Waker`, carried through unopened.
#[verifier::external_type_specification]
#[verifier::external_body]
pub struct ExWaker(Waker);

/// `std::sync::Mutex`, carried through unopened.
#[verifier::external_type_specification]
#[verifier::external_body]
#[verifier::reject_recursive_types(T)]
pub struct ExMutex<T: ?Sized>(Mutex<T>);

/// `Mutex::new`: nothing is stated of the lock it makes.
pub assume_specification<T>[ Mutex::<T>::new ](t: T) -> Mutex<T>;

/// `Arc::clone`: another handle on the same shared value.
#[verifier::external_body]
pub(crate) fn share_handle(handle: &FutureHandle) -> (r: FutureHandle)
    ensures
        r == *handle,
{
    Arc::clone(handle)
}

/// What a waiting request shares with the pairing task: the reply, once it
/// came, and how to wake the task that waits for it.
pub struct FutureHandleData {
    pub data: Option<Request>,
    pub waker: Option<Waker>,
}

/// The shared state of one waiting request.
pub type FutureHandle = Arc<Mutex<FutureHandleData>>;

/// The shared state after a poll that left `waker`.
pub open spec fn after_poll(d: FutureHandleData, waker: Waker) -> FutureHandleData {
    FutureHandleData { data: d.data, waker: Some(waker) }
}

/// The shared state after `response` was handed over.
pub open spec fn after_delivery(d: FutureHandleData, response: Request) -> FutureHandleData {
    FutureHandleData { data: Some(response), waker: d.waker }
}

/// Whether a request submitted while `pending` are recorded is published.
pub open spec fn publishes(pending: Map<Seq<char>, FutureHandle>, id: Seq<char>) -> bool {
    !pending.contains_key(id)
}

impl FutureHandleData {
    /// Nothing came back yet, and nobody waits.
    pub fn new() -> (d: Self)
        ensures
            d.data is None,
            d.waker is None,
    {
        FutureHandleData { data: None, waker: None }
    }

    /// A poll of the waiting request: remembers `waker`, and gives the reply
    /// if it came.
    pub fn poll_reply(&mut self, waker: Waker) -> (r: Option<Request>)
        ensures
            *final(self) == after_poll(*old(self), waker),
            r == old(self).data,
    {
        self.waker = Some(waker);
        match &self.data {
            Some(d) => Some(d.duplicate()),
            None => None,
        }
    }

    /// Hands the reply over, and gives the waker of the latest poll: the
    /// one to wake, or nothing when no poll came yet.
    pub fn deliver(&mut self, response: Request) -> (to_wake: Option<&Waker>)
        ensures
            *final(self) == after_delivery(*old(self), response),
            match to_wake {
                Some(w) => old(self).waker == Some(*w),
                None => old(self).waker is None,
            },
    {
        self.data = Some(response);
        match &self.waker {
            Some(w) => Some(w),
            None => None,
        }
    }
}

/// An event for the pairing task.
pub enum Message {
    /// A request to send, with the shared state of the one that waits for it.
    Request(RequestId, FutureHandle, Request),
    /// A reply that came back.
    Response(Request),
}

/// The state of the pairing task: the shared state of each request that
/// was submitted, by identifier.
pub struct SyncState {
    pending: PendingTable<FutureHandle>,
}

impl SyncState {
    /// The shared state of each submitted request, by identifier text.
    pub closed spec fn pending(&self) -> Map<Seq<char>, FutureHandle> {
        self.pending@
    }

    /// Nothing submitted yet.
    pub fn new() -> (s: Self)
        ensures
            s.pending() == Map::<Seq<char>, FutureHandle>::empty(),
    {
        SyncState { pending: PendingTable::new() }
    }

    /// A request is submitted (each poll submits it again): its shared state
    /// is recorded, and it is to be published only the first time.
    pub fn on_request(&mut self, request_id: RequestId, handle: FutureHandle, request: Request) -> (r:
        Option<Request>)
        ensures
            final(self).pending() == old(self).pending().insert(request_id.0@, handle),
            r == (if publishes(old(self).pending(), request_id.0@) {
                Some(request)
            } else {
                None
            }),
    {
        let already_submitted = self.pending.contains_key(&request_id);
        self.pending.insert(request_id, handle);
        if !already_submitted {
            Some(request)
        } else {
            None
        }
    }

    /// The shared state that a reply is for, if its request was submitted.
    pub fn on_response(&self, response: &Request) -> (r: Option<&FutureHandle>)
        ensures
            match r {
                Some(h) => self.pending().contains_key(response.request_id.0@) && *h
                    == self.pending()[response.request_id.0@],
                None => !self.pending().contains_key(response.request_id.0@),
            },
    {
        self.pending.get(&response.request_id)
    }
}

/// The identifier text an event is about.
pub open spec fn message_id(msg: Message) -> Seq<char> {
    match msg {
        Message::Request(id, _, _) => id.0@,
        Message::Response(r) => r.request_id.0@,
    }
}

/// The shared states recorded after the events `msgs`, when none was
/// recorded before: each submission records its handle, a reply changes
/// nothing.
pub open spec fn submitted_after(msgs: Seq<Message>) -> Map<Seq<char>, FutureHandle>
    decreases msgs.len(),
{
    if msgs.len() == 0 {
        Map::empty()
    } else {
        match msgs.last() {
            Message::Request(id, handle, _) => submitted_after(msgs.drop_last()).insert(
                id.0@,
                handle,
            ),
            Message::Response(_) => submitted_after(msgs.drop_last()),
        }
    }
}

/// Whether event `n` of `msgs` makes the pairing task publish.
pub open spec fn published_at(msgs: Seq<Message>, n: int) -> bool {
    msgs[n] is Request && publishes(submitted_after(msgs.take(n)), message_id(msgs[n]))
}

/// Whether some event before event `n` submitted a request for `k`.
pub open spec fn submitted_before(msgs: Seq<Message>, n: int, k: Seq<char>) -> bool {
    exists|i: int| 0 <= i < n && msgs[i] is Request && #[trigger] message_id(msgs[i]) == k
}

proof fn lemma_submitted_after(msgs: Seq<Message>, n: int)
    requires
        0 <= n <= msgs.len(),
    ensures
        forall|k: Seq<char>|
            #![trigger submitted_after(msgs.take(n)).contains_key(k)]
            submitted_after(msgs.take(n)).contains_key(k) <==> submitted_before(msgs, n, k),
    decreases n,
{
    if n > 0 {
        let p = n - 1;
        lemma_submitted_after(msgs, p);
        assert(msgs.take(n).drop_last() =~= msgs.take(p));
        assert(msgs.take(n).last() == msgs[p]);
        match msgs[p] {
            Message::Request(id, h, _) => {
                assert(submitted_after(msgs.take(n)) == submitted_after(msgs.take(p)).insert(
                    id.0@,
                    h,
                ));
            },
            Message::Response(_) => {
                assert(submitted_after(msgs.take(n)) == submitted_after(msgs.take(p)));
            },
        }
        assert forall|k: Seq<char>|
            #![trigger submitted_after(msgs.take(n)).contains_key(k)]
            submitted_after(msgs.take(n)).contains_key(k) <==> submitted_before(msgs, n, k) by {
            if submitted_before(msgs, n, k) {
                let i = choose|i: int| 0 <= i < n && msgs[i] is Request && #[trigger] message_id(msgs[i]) == k;
                if i < p {
                    assert(submitted_before(msgs, p, k));
                }
            }
            if submitted_before(msgs, p, k) {
                let i = choose|i: int| 0 <= i < p && msgs[i] is Request && #[trigger] message_id(msgs[i]) == k;
                assert(0 <= i < n && msgs[i] is Request && message_id(msgs[i]) == k);
            }
            if msgs[p] is Request && message_id(msgs[p]) == k {
                assert(0 <= p < n && msgs[p] is Request && message_id(msgs[p]) == k);
            }
        }
    } else {
        assert forall|k: Seq<char>|
            #![trigger submitted_after(msgs.take(n)).contains_key(k)]
            !submitted_after(msgs.take(n)).contains_key(k) by {}
    }
}

/// Over any run, a submission is published exactly when no earlier event
/// submitted a request under its identifier: each identifier is published
/// at most once, for its first submission.
pub proof fn law_published_once_per_identifier(msgs: Seq<Message>, n1: int, n2: int)
    requires
        0 <= n1 < msgs.len(),
        0 <= n2 < msgs.len(),
    ensures
        published_at(msgs, n1) <==> (msgs[n1] is Request && !submitted_before(
            msgs,
            n1,
            message_id(msgs[n1]),
        )),
        published_at(msgs, n1) && published_at(msgs, n2) && message_id(msgs[n1]) == message_id(
            msgs[n2],
        ) ==> n1 == n2,
{
    lemma_submitted_after(msgs, n1);
    lemma_submitted_after(msgs, n2);
    if published_at(msgs, n1) && published_at(msgs, n2) && message_id(msgs[n1]) == message_id(
        msgs[n2],
    ) {
        if n1 < n2 {
            assert(submitted_before(msgs, n2, message_id(msgs[n2])));
        } else if n2 < n1 {
            assert(submitted_before(msgs, n1, message_id(msgs[n1])));
        }
    }
}

/// Over any run, a submitted identifier is never forgotten.
pub proof fn law_submissions_kept(msgs: Seq<Message>, n: int, m: int, k: Seq<char>)
    requires
        0 <= n <= m <= msgs.len(),
        submitted_after(msgs.take(n)).contains_key(k),
    ensures
        submitted_after(msgs.take(m)).contains_key(k),
{
    lemma_submitted_after(msgs, n);
    lemma_submitted_after(msgs, m);
    let i = choose|i: int| 0 <= i < n && msgs[i] is Request && #[trigger] message_id(msgs[i]) == k;
    assert(0 <= i < m && msgs[i] is Request && message_id(msgs[i]) == k);
}

/// Over any run, the shared state that a reply is handed to is the one of
/// the latest submission under its identifier.
pub proof fn law_reply_goes_to_latest_submission(msgs: Seq<Message>, i: int, n: int)
    requires
        0 <= i < n <= msgs.len(),
        msgs[i] is Request,
        forall|j: int|
            i < j < n ==> !(#[trigger] msgs[j] is Request && message_id(msgs[j]) == message_id(
                msgs[i],
            )),
    ensures
        submitted_after(msgs.take(n)).contains_key(message_id(msgs[i])),
        submitted_after(msgs.take(n))[message_id(msgs[i])] == msgs[i]->Request_1,
    decreases n,
{
    let p = n - 1;
    assert(msgs.take(n).drop_last() =~= msgs.take(p));
    assert(msgs.take(n).last() == msgs[p]);
    if p > i {
        law_reply_goes_to_latest_submission(msgs, i, p);
    }
}

/// A request that was submitted is not published again when it is
/// submitted again, whatever shared state comes with it.
pub proof fn law_submitted_once(
    pending: Map<Seq<char>, FutureHandle>,
    id: Seq<char>,
    first: FutureHandle,
    again: FutureHandle,
)
    ensures
        !publishes(pending.insert(id, first), id),
        pending.insert(id, first).insert(id, again)[id] == again,
{
}

/// A reply handed over after a poll hands back that poll's waker to wake,
/// and the next poll is given the reply.
pub proof fn law_delivery_after_poll(d: FutureHandleData, waker: Waker, next: Waker, response: Request)
    ensures
        after_poll(d, waker).waker == Some(waker),
        after_poll(after_delivery(after_poll(d, waker), response), next).data == Some(response),
{
}

} // verus!
