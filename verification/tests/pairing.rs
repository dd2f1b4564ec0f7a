use std::sync::atomic::{AtomicUsize, Ordering};
use std::sync::{mpsc, Arc};
use std::task::{Wake, Waker};

use reqres_kafka::common::{Request, RequestId};
use reqres_kafka::future::ReqResFuture;
use reqres_kafka::pending::PendingTable;
use reqres_kafka::sync::{FutureHandleData, Message, SyncState as FutureSync};
use reqres_kafka::sync_2::{
    received_or_error, Response, SyncAction, SyncMessage, SyncState, REQUEST_TIMEOUT_SECS,
    STATUS_INTERNAL_SERVER_ERROR, STATUS_OK, STATUS_REQUEST_TIMEOUT,
};

fn request(id: &str, path: &str, body: &str) -> Request {
    Request { request_id: RequestId(id.to_string()), path: path.to_string(), body: body.to_string() }
}

fn id(s: &str) -> RequestId {
    RequestId(s.to_string())
}

#[test]
fn pending_table_behaves_as_a_map() {
    let mut t: PendingTable<u32> = PendingTable::new();
    assert!(!t.contains_key(&id("a")));
    assert_eq!(t.insert(id("a"), 1), None);
    assert_eq!(t.insert(id("b"), 2), None);
    assert_eq!(t.insert(id("a"), 3), Some(1));
    assert_eq!(t.get(&id("a")), Some(&3));
    assert_eq!(t.get(&id("b")), Some(&2));
    assert_eq!(t.remove(&id("a")), Some(3));
    assert_eq!(t.remove(&id("a")), None);
    assert!(!t.contains_key(&id("a")));
    assert!(t.contains_key(&id("b")));
}

#[test]
fn reply_answers_waiting_request() {
    let mut s: SyncState<&str> = SyncState::new();
    match s.handle(SyncMessage::Request(request("r1", "/upper", "hi"), "tx1")) {
        SyncAction::Publish { request, displaced } => {
            assert_eq!(request.request_id, id("r1"));
            assert_eq!(request.body, "hi");
            assert!(displaced.is_none());
        }
        _ => panic!("a request is published"),
    }
    assert!(s.is_pending(&id("r1")));
    match s.handle(SyncMessage::Response(request("r1", "/upper", "HI"))) {
        SyncAction::Reply { reply, response } => {
            assert_eq!(reply, "tx1");
            assert_eq!(response.status, STATUS_OK);
            assert_eq!(response.status, 200);
            assert_eq!(response.body, Some("HI".to_string()));
        }
        _ => panic!("the reply goes to the waiting request"),
    }
    assert!(!s.is_pending(&id("r1")));
}

#[test]
fn timeout_answers_waiting_request() {
    let mut s: SyncState<u8> = SyncState::new();
    let _ = s.handle(SyncMessage::Request(request("r2", "/reverse", "x"), 7));
    match s.handle(SyncMessage::Timeout(id("r2"))) {
        SyncAction::Reply { reply, response } => {
            assert_eq!(reply, 7);
            assert_eq!(response.status, STATUS_REQUEST_TIMEOUT);
            assert_eq!(response.status, 408);
            assert_eq!(response.body, None);
        }
        _ => panic!("the timeout goes to the waiting request"),
    }
    assert_eq!(REQUEST_TIMEOUT_SECS, 10);
}

#[test]
fn answered_at_most_once() {
    let mut s: SyncState<u8> = SyncState::new();
    let _ = s.handle(SyncMessage::Request(request("r3", "/", ""), 1));
    assert!(matches!(s.handle(SyncMessage::Response(request("r3", "/", "a"))), SyncAction::Reply { .. }));
    assert!(matches!(s.handle(SyncMessage::Timeout(id("r3"))), SyncAction::Ignore));
    assert!(matches!(s.handle(SyncMessage::Response(request("r3", "/", "b"))), SyncAction::Ignore));
}

#[test]
fn unknown_identifier_ignored_and_others_untouched() {
    let mut s: SyncState<u8> = SyncState::new();
    let _ = s.handle(SyncMessage::Request(request("keep", "/", ""), 1));
    assert!(matches!(s.handle(SyncMessage::Response(request("other", "/", "a"))), SyncAction::Ignore));
    assert!(matches!(s.handle(SyncMessage::Timeout(id("other"))), SyncAction::Ignore));
    assert!(s.is_pending(&id("keep")));
}

#[test]
fn duplicate_request_displaces_earlier_channel() {
    let mut s: SyncState<u8> = SyncState::new();
    let _ = s.handle(SyncMessage::Request(request("d", "/", ""), 1));
    match s.handle(SyncMessage::Request(request("d", "/", ""), 2)) {
        SyncAction::Publish { displaced, .. } => assert_eq!(displaced, Some(1)),
        _ => panic!("a request is published"),
    }
    match s.handle(SyncMessage::Response(request("d", "/", "ok"))) {
        SyncAction::Reply { reply, .. } => assert_eq!(reply, 2),
        _ => panic!("the latest channel is answered"),
    }
}

#[test]
fn closed_channel_is_internal_error() {
    let r = received_or_error(None);
    assert_eq!(r.status, STATUS_INTERNAL_SERVER_ERROR);
    assert_eq!(r.status, 500);
    assert_eq!(r.body, None);
    let r = received_or_error(Some(Response { status: 200, body: Some("b".to_string()) }));
    assert_eq!(r.status, 200);
    assert_eq!(r.body, Some("b".to_string()));
}

struct Counter(AtomicUsize);

impl Wake for Counter {
    fn wake(self: Arc<Self>) {
        self.0.fetch_add(1, Ordering::SeqCst);
    }
    fn wake_by_ref(self: &Arc<Self>) {
        self.0.fetch_add(1, Ordering::SeqCst);
    }
}

#[test]
fn delivery_after_poll_wakes_and_next_poll_is_ready() {
    let counter = Arc::new(Counter(AtomicUsize::new(0)));
    let waker = Waker::from(counter.clone());
    let mut d = FutureHandleData::new();
    assert!(d.data.is_none() && d.waker.is_none());
    assert!(d.poll_reply(waker.clone()).is_none());
    let to_wake = d.deliver(request("f", "/", "reply")).expect("the poll left its waker");
    assert!(to_wake.will_wake(&waker));
    to_wake.wake_by_ref();
    assert_eq!(counter.0.load(Ordering::SeqCst), 1);
    let got = d.poll_reply(waker).unwrap();
    assert_eq!(got.body, "reply");
}

#[test]
fn delivery_without_poll_finds_no_waker() {
    let mut d = FutureHandleData::new();
    assert!(d.deliver(request("f", "/", "reply")).is_none());
    assert_eq!(d.data.as_ref().unwrap().body, "reply");
}

#[test]
fn future_submits_its_request_once() {
    let (tx, rx) = mpsc::channel::<Message>();
    let f = ReqResFuture::new(request("s1", "/upper", "b"), tx);
    assert_eq!(f.request.request_id, id("s1"));
    {
        let state = f.state.lock().unwrap();
        assert!(state.data.is_none());
        assert!(state.waker.is_none());
    }
    let mut sync = FutureSync::new();
    for _ in 0..2 {
        f.sync_tx.send(f.submission()).unwrap();
    }
    let mut published = 0;
    for _ in 0..2 {
        match rx.recv().unwrap() {
            Message::Request(rid, handle, req) => {
                assert!(Arc::ptr_eq(&handle, &f.state));
                assert_eq!(req.body, "b");
                if sync.on_request(rid, handle, req).is_some() {
                    published += 1;
                }
            }
            Message::Response(_) => panic!("only requests were sent"),
        }
    }
    assert_eq!(published, 1);
    let handle = sync.on_response(&request("s1", "/", "answer")).unwrap();
    assert!(Arc::ptr_eq(handle, &f.state));
    assert!(sync.on_response(&request("nope", "/", "")).is_none());
}

#[test]
fn paired_across_other_events_and_answered_once() {
    let mut s: SyncState<u8> = SyncState::new();
    let mut replies: Vec<(u8, u16)> = Vec::new();
    let events = vec![
        SyncMessage::Request(request("a", "/upper", "x"), 1),
        SyncMessage::Request(request("b", "/reverse", "y"), 2),
        SyncMessage::Timeout(id("c")),
        SyncMessage::Response(request("b", "/reverse", "Y")),
        SyncMessage::Request(request("c", "/upper", "z"), 3),
        SyncMessage::Response(request("a", "/upper", "X")),
        SyncMessage::Timeout(id("a")),
        SyncMessage::Timeout(id("b")),
        SyncMessage::Timeout(id("c")),
        SyncMessage::Response(request("c", "/upper", "late")),
    ];
    for e in events {
        if let SyncAction::Reply { reply, response } = s.handle(e) {
            replies.push((reply, response.status));
        }
    }
    assert_eq!(replies, vec![(2, 200), (1, 200), (3, 408)]);
}
