use std::sync::mpsc::Sender;
use std::sync::Arc;
use std::sync::Mutex;

use vstd::prelude::*;

use crate::common::Request;
use crate::sync::{share_handle, FutureHandle, FutureHandleData, Message};

verus! {

/// `std::sync::mpsc::Sender`, carried through unopened.
#[verifier::external_type_specification]
#[verifier::external_body]
#[verifier::reject_recursive_types(T)]
pub struct ExSender<T>(Sender<T>);

/// A request that waits for its reply: the channel to the pairing task,
/// the request, and the state it shares with that task.
pub struct ReqResFuture {
    pub sync_tx: Sender<Message>,
    pub request: Request,
    pub state: FutureHandle,
}

impl ReqResFuture {
    /// A request that has not been submitted: its shared state holds no
    /// reply and no waker.
    pub fn new(request: Request, sync_tx: Sender<Message>) -> (f: Self)
        ensures
            f.request == request,
            f.sync_tx == sync_tx,
    {
        ReqResFuture {
            sync_tx,
            request,
            state: Arc::new(Mutex::new(FutureHandleData::new())),
        }
    }

    /// What a poll that found no reply sends to the pairing task: the
    /// request's identifier, its shared state and the request.
    pub fn submission(&self) -> (m: Message)
        ensures
            m matches Message::Request(id, handle, req) && id == self.request.request_id && handle
                == self.state && req == self.request,
    {
        Message::Request(
            self.request.request_id.duplicate(),
            share_handle(&self.state),
            self.request.duplicate(),
        )
    }
}

} // verus!
