use vstd::prelude::*;
use vstd::utf8::*;

use crate::kafka::{
    consumer_settings, header_value, headers_view, payload_view, lossy_string, lossy_text, producer_settings, settings_view,
    text_from_bytes_strict, utf8_bytes, Header, OutgoingRecord,
};

verus! {

/// Where the brokers are, and how long a client waits on them.
pub struct KafkaConnection {
    pub brokers: String,
    pub timeout_ms: u32,
}

/// The value of the first header whose key is `key`, whether or not it has one.
pub open spec fn first_keyed(headers: Seq<Header>, key: Seq<char>) -> Option<Option<Seq<u8>>>
    decreases headers.len(),
{
    if headers.len() == 0 {
        None
    } else if headers[0].key@ == key {
        Some(header_value(headers[0]))
    } else {
        first_keyed(headers.drop_first(), key)
    }
}

/// The text of a payload that is read as UTF-8: empty where there is no
/// payload or it is not valid UTF-8.
pub open spec fn payload_text(payload: Option<Seq<u8>>) -> Seq<char> {
    match payload {
        Some(p) => if valid_utf8(p) {
            decode_utf8(p)
        } else {
            Seq::empty()
        },
        None => Seq::empty(),
    }
}

/// The request identifier that a consumed message shows: from the first
/// `request_id` header, its value or no bytes, read with invalid UTF-8
/// replaced; nothing without such a header.
pub open spec fn request_id_shown(headers: Option<Seq<Header>>) -> Option<Seq<char>> {
    match headers {
        None => None,
        Some(hs) => match first_keyed(hs, "request_id"@) {
            None => None,
            Some(v) => Some(
                lossy_text(
                    match v {
                        Some(b) => b,
                        None => Seq::empty(),
                    },
                ),
            ),
        },
    }
}

impl KafkaConnection {
    /// The settings of a producer on these brokers.
    pub fn producer_settings(&self) -> (settings: Vec<(String, String)>)
        ensures
            settings_view(settings@) == seq![
                ("bootstrap.servers"@, self.brokers@),
                ("message.timeout.ms"@, "5000"@),
            ],
    {
        producer_settings(self.brokers.as_str())
    }

    /// The settings of a consumer on these brokers, in group `consumer`.
    pub fn consumer_settings(&self) -> (settings: Vec<(String, String)>)
        ensures
            settings_view(settings@) == seq![
                ("group.id"@, "consumer"@),
                ("bootstrap.servers"@, self.brokers@),
                ("enable.partition.eof"@, "false"@),
                ("session.timeout.ms"@, "6000"@),
                ("enable.auto.commit"@, "true"@),
                ("auto.offset.reset"@, "latest"@),
            ],
    {
        consumer_settings("consumer", self.brokers.as_str())
    }

    /// The message that `produce` publishes: key `0`, the data as payload and
    /// the identifier as the one `request_id` header.
    pub fn record(request_id: &str, data: &str) -> (record: OutgoingRecord)
        ensures
            record.key@ == "0"@,
            record.payload@ == encode_utf8(data@),
            record.headers@.len() == 1,
            record.headers@[0].key@ == "request_id"@,
            header_value(record.headers@[0]) == Some(encode_utf8(request_id@)),
    {
        let mut headers: Vec<Header> = Vec::new();
        headers.push(Header { key: "request_id".to_owned(), value: Some(utf8_bytes(request_id)) });
        OutgoingRecord { key: "0".to_owned(), payload: utf8_bytes(data), headers }
    }

    /// The payload of a consumed message as `consume` shows it, and whether
    /// there was a payload that is not valid UTF-8 (an error to report).
    pub fn shown_payload(payload: &Option<Vec<u8>>) -> (r: (String, bool))
        ensures
            r.0@ == payload_text(payload_view(*payload)),
            r.1 == (payload_view(*payload) matches Some(p) && !valid_utf8(p)),
    {
        match payload {
            Some(p) => match text_from_bytes_strict(p.as_slice()) {
                Some(s) => (s, false),
                None => (String::new(), true),
            },
            None => (String::new(), false),
        }
    }

    /// The request identifier of a consumed message as `consume` shows it.
    pub fn shown_request_id(headers: &Option<Vec<Header>>) -> (r: Option<String>)
        ensures
            match r {
                Some(s) => request_id_shown(headers_view(*headers)) == Some(s@),
                None => request_id_shown(headers_view(*headers)) is None,
            },
    {
        match headers {
            None => None,
            Some(hs) => {
                let key = "request_id".to_owned();
                let mut i: usize = 0;
                assert(hs@.subrange(0, hs@.len() as int) =~= hs@);
                while i < hs.len()
                    invariant
                        i <= hs@.len(),
                        key@ == "request_id"@,
                        headers_view(*headers) == Some(hs@),
                        first_keyed(hs@, key@) == first_keyed(
                            hs@.subrange(i as int, hs@.len() as int),
                            key@,
                        ),
                    decreases hs@.len() - i,
                {
                    let ghost rest = hs@.subrange(i as int, hs@.len() as int);
                    assert(rest.drop_first() =~= hs@.subrange(i + 1, hs@.len() as int));
                    if hs[i].key == key {
                        let text = match &hs[i].value {
                            Some(v) => lossy_string(v),
                            None => {
                                let empty: Vec<u8> = Vec::new();
                                assert(empty@ =~= Seq::<u8>::empty());
                                lossy_string(&empty)
                            },
                        };
                        return Some(text);
                    }
                    i = i + 1;
                }
                assert(hs@.subrange(i as int, hs@.len() as int).len() == 0);
                None
            },
        }
    }
}

} // verus!
