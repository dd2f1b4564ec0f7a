use vstd::prelude::*;
use vstd::utf8::*;

use crate::common::{Request, RequestId, RequestView};

verus! {

broadcast use {encode_utf8_valid_utf8, encode_utf8_decode_utf8};

/// A header of a Kafka message: its key and, where it has one, its value.
pub struct Header {
    pub key: String,
    pub value: Option<Vec<u8>>,
}

/// What a message to publish carries: the partitioning key, the payload and
/// the headers.
pub struct OutgoingRecord {
    pub key: String,
    pub payload: Vec<u8>,
    pub headers: Vec<Header>,
}

/// A setting of a Kafka client, as name and value.
pub open spec fn settings_view(settings: Seq<(String, String)>) -> Seq<(Seq<char>, Seq<char>)> {
    settings.map_values(|p: (String, String)| (p.0@, p.1@))
}

/// The value of a header, as bytes.
pub open spec fn header_value(h: Header) -> Option<Seq<u8>> {
    match h.value {
        Some(v) => Some(v@),
        None => None,
    }
}

/// The value of the first header that has one and whose key is `key`.
pub open spec fn first_valued(headers: Seq<Header>, key: Seq<char>) -> Option<Seq<u8>>
    decreases headers.len(),
{
    if headers.len() == 0 {
        None
    } else if headers[0].value is Some && headers[0].key@ == key {
        header_value(headers[0])
    } else {
        first_valued(headers.drop_first(), key)
    }
}

/// What `String::from_utf8_lossy` makes of bytes that are not valid UTF-8.
pub uninterp spec fn utf8_lossy(bytes: Seq<u8>) -> Seq<char>;

/// The text that bytes are read as, with invalid sequences replaced.
pub open spec fn lossy_text(bytes: Seq<u8>) -> Seq<char> {
    if valid_utf8(bytes) {
        decode_utf8(bytes)
    } else {
        utf8_lossy(bytes)
    }
}

/// `String::from_utf8_lossy`, made an owned `String`. Its documentation
/// says that valid UTF-8 comes back as the text it encodes; what it makes
/// of invalid input is named, not stated.
#[verifier::external_body]
fn text_from_bytes_lossy(bytes: &[u8]) -> (s: String)
    ensures
        valid_utf8(bytes@) ==> s@ == decode_utf8(bytes@),
        !valid_utf8(bytes@) ==> s@ == utf8_lossy(bytes@),
{
    String::from_utf8_lossy(bytes).into_owned()
}

/// `std::str::from_utf8`, made an owned `String`: the text where the bytes
/// are valid UTF-8, nothing where they are not.
#[verifier::external_body]
pub(crate) fn text_from_bytes_strict(bytes: &[u8]) -> (r: Option<String>)
    ensures
        r is Some <==> valid_utf8(bytes@),
        r matches Some(s) ==> s@ == decode_utf8(bytes@),
{
    match std::str::from_utf8(bytes) {
        Ok(s) => Some(s.to_owned()),
        Err(_) => None,
    }
}

/// The text of `bytes`, with invalid UTF-8 replaced.
pub fn lossy_string(bytes: &Vec<u8>) -> (s: String)
    ensures
        s@ == lossy_text(bytes@),
{
    text_from_bytes_lossy(bytes.as_slice())
}

/// The UTF-8 bytes of `s`.
pub fn utf8_bytes(s: &str) -> (b: Vec<u8>)
    ensures
        b@ == encode_utf8(s@),
{
    let bytes = s.as_bytes();
    let mut out: Vec<u8> = Vec::new();
    let mut i: usize = 0;
    while i < bytes.len()
        invariant
            i <= bytes@.len(),
            bytes@ == encode_utf8(s@),
            out@ == bytes@.subrange(0, i as int),
        decreases bytes@.len() - i,
    {
        out.push(bytes[i]);
        i = i + 1;
    }
    assert(out@ =~= bytes@);
    out
}

/// A client setting from two pieces of text.
fn setting(name: &str, value: &str) -> (p: (String, String))
    ensures
        p.0@ == name@,
        p.1@ == value@,
{
    (name.to_owned(), value.to_owned())
}

/// The settings of the producer that publishes to the brokers at `brokers`.
pub fn producer_settings(brokers: &str) -> (settings: Vec<(String, String)>)
    ensures
        settings_view(settings@) == seq![
            ("bootstrap.servers"@, brokers@),
            ("message.timeout.ms"@, "5000"@),
        ],
{
    let mut settings: Vec<(String, String)> = Vec::new();
    settings.push(setting("bootstrap.servers", brokers));
    settings.push(setting("message.timeout.ms", "5000"));
    assert(settings_view(settings@) =~= seq![
        ("bootstrap.servers"@, brokers@),
        ("message.timeout.ms"@, "5000"@),
    ]);
    settings
}

/// The settings of the consumer in group `name` that reads from the brokers
/// at `brokers`: it starts at the latest offset and commits on its own.
pub fn consumer_settings(name: &str, brokers: &str) -> (settings: Vec<(String, String)>)
    ensures
        settings_view(settings@) == seq![
            ("group.id"@, name@),
            ("bootstrap.servers"@, brokers@),
            ("enable.partition.eof"@, "false"@),
            ("session.timeout.ms"@, "6000"@),
            ("enable.auto.commit"@, "true"@),
            ("auto.offset.reset"@, "latest"@),
        ],
{
    let mut settings: Vec<(String, String)> = Vec::new();
    settings.push(setting("group.id", name));
    settings.push(setting("bootstrap.servers", brokers));
    settings.push(setting("enable.partition.eof", "false"));
    settings.push(setting("session.timeout.ms", "6000"));
    settings.push(setting("enable.auto.commit", "true"));
    settings.push(setting("auto.offset.reset", "latest"));
    assert(settings_view(settings@) =~= seq![
        ("group.id"@, name@),
        ("bootstrap.servers"@, brokers@),
        ("enable.partition.eof"@, "false"@),
        ("session.timeout.ms"@, "6000"@),
        ("enable.auto.commit"@, "true"@),
        ("auto.offset.reset"@, "latest"@),
    ]);
    settings
}

/// Whether `headers` and `payload` are what a message carrying `r` holds:
/// the identifier and the path as headers, in that order, and the body as
/// payload, all as UTF-8.
pub open spec fn record_carries(r: RequestView, headers: Seq<Header>, payload: Seq<u8>) -> bool {
    &&& headers.len() == 2
    &&& headers[0].key@ == "request_id"@
    &&& header_value(headers[0]) == Some(encode_utf8(r.request_id))
    &&& headers[1].key@ == "path"@
    &&& header_value(headers[1]) == Some(encode_utf8(r.path))
    &&& payload == encode_utf8(r.body)
}

/// The message that carries `request` to the other side of the topic.
pub fn request_record(request: &Request) -> (record: OutgoingRecord)
    ensures
        record.key@ == "0"@,
        record_carries(request@, record.headers@, record.payload@),
{
    let mut headers: Vec<Header> = Vec::new();
    headers.push(
        Header {
            key: "request_id".to_owned(),
            value: Some(utf8_bytes(request.request_id.0.as_str())),
        },
    );
    headers.push(Header { key: "path".to_owned(), value: Some(utf8_bytes(request.path.as_str())) });
    OutgoingRecord {
        key: "0".to_owned(),
        payload: utf8_bytes(request.body.as_str()),
        headers,
    }
}

/// The value of the first header that has one and whose key is `key`.
pub fn find_valued_header<'a>(headers: &'a Vec<Header>, key: &String) -> (r: Option<&'a Vec<u8>>)
    ensures
        match r {
            Some(v) => first_valued(headers@, key@) == Some(v@),
            None => first_valued(headers@, key@) is None,
        },
{
    let mut i: usize = 0;
    assert(headers@.subrange(0, headers@.len() as int) =~= headers@);
    while i < headers.len()
        invariant
            i <= headers@.len(),
            first_valued(headers@, key@) == first_valued(headers@.subrange(i as int, headers@.len() as int), key@),
        decreases headers@.len() - i,
    {
        let ghost rest = headers@.subrange(i as int, headers@.len() as int);
        assert(rest.drop_first() =~= headers@.subrange(i + 1, headers@.len() as int));
        let h = &headers[i];
        match &h.value {
            Some(v) => {
                if h.key == *key {
                    return Some(v);
                }
            },
            None => {},
        }
        i = i + 1;
    }
    assert(headers@.subrange(i as int, headers@.len() as int).len() == 0);
    None
}

/// What a consumed message stands for, when it carries a request identifier:
/// the identifier from the first `request_id` header with a value, the path
/// from the first `path` header with a value (`/` without one), and the
/// payload as body (empty without one), all read with invalid UTF-8 replaced.
pub open spec fn decoded_request(headers: Option<Seq<Header>>, payload: Option<Seq<u8>>) -> Option<
    RequestView,
> {
    match headers {
        None => None,
        Some(hs) => match first_valued(hs, "request_id"@) {
            None => None,
            Some(id) => Some(
                RequestView {
                    request_id: lossy_text(id),
                    path: match first_valued(hs, "path"@) {
                        Some(p) => lossy_text(p),
                        None => "/"@,
                    },
                    body: match payload {
                        Some(b) => lossy_text(b),
                        None => ""@,
                    },
                },
            ),
        },
    }
}

/// The headers of a consumed message, as text of their values.
pub open spec fn headers_view(headers: Option<Vec<Header>>) -> Option<Seq<Header>> {
    match headers {
        Some(hs) => Some(hs@),
        None => None,
    }
}

/// The payload of a consumed message, as bytes.
pub open spec fn payload_view(payload: Option<Vec<u8>>) -> Option<Seq<u8>> {
    match payload {
        Some(p) => Some(p@),
        None => None,
    }
}

/// The request that a consumed message carries; nothing when it has no
/// `request_id` header with a value.
pub fn request_from_message(headers: &Option<Vec<Header>>, payload: &Option<Vec<u8>>) -> (r:
    Option<Request>)
    ensures
        match r {
            Some(req) => decoded_request(headers_view(*headers), payload_view(*payload)) == Some(
                req@,
            ),
            None => decoded_request(headers_view(*headers), payload_view(*payload)) is None,
        },
{
    let body = match payload {
        Some(p) => lossy_string(p),
        None => "".to_owned(),
    };
    match headers {
        None => None,
        Some(hs) => {
            let id_key = "request_id".to_owned();
            match find_valued_header(hs, &id_key) {
                None => None,
                Some(id) => {
                    let path_key = "path".to_owned();
                    let path = match find_valued_header(hs, &path_key) {
                        Some(p) => lossy_string(p),
                        None => "/".to_owned(),
                    };
                    Some(Request { request_id: RequestId(lossy_string(id)), path, body })
                },
            }
        },
    }
}

/// What is published for a request is read back as that same request.
pub proof fn law_record_roundtrip(r: RequestView, headers: Seq<Header>, payload: Seq<u8>)
    requires
        record_carries(r, headers, payload),
    ensures
        decoded_request(Some(headers), Some(payload)) == Some(r),
{
    reveal_strlit("request_id");
    reveal_strlit("path");
    assert(headers.drop_first()[0] == headers[1]);
    assert("request_id"@[0] != "path"@[0]);
    reveal_with_fuel(first_valued, 3);
    assert(first_valued(headers, "request_id"@) == Some(encode_utf8(r.request_id)));
    assert(first_valued(headers, "path"@) == Some(encode_utf8(r.path)));
}

} // verus!
