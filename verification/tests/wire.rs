use reqres_kafka::common::{Request, RequestId};
use reqres_kafka::kafka::{
    consumer_settings, lossy_string, producer_settings, request_from_message, request_record,
    utf8_bytes, Header,
};
use reqres_kafka::kafka_controller::KafkaConnection;

fn request(id: &str, path: &str, body: &str) -> Request {
    Request { request_id: RequestId(id.to_string()), path: path.to_string(), body: body.to_string() }
}

fn header(key: &str, value: Option<&[u8]>) -> Header {
    Header { key: key.to_string(), value: value.map(|v| v.to_vec()) }
}

fn pairs(settings: Vec<(String, String)>) -> Vec<(String, String)> {
    settings
}

#[test]
fn record_carries_request_as_headers_and_payload() {
    let r = request("id-1", "/upper", "testing upper");
    let record = request_record(&r);
    assert_eq!(record.key, "0");
    assert_eq!(record.payload, b"testing upper".to_vec());
    assert_eq!(record.headers.len(), 2);
    assert_eq!(record.headers[0].key, "request_id");
    assert_eq!(record.headers[0].value, Some(b"id-1".to_vec()));
    assert_eq!(record.headers[1].key, "path");
    assert_eq!(record.headers[1].value, Some(b"/upper".to_vec()));
}

#[test]
fn record_roundtrip_gives_back_the_request() {
    let r = request("67e55044-10b1-426f-9247-bb680e5fe0c8", "/reverse", "héllo wörld ✓");
    let record = request_record(&r);
    let back = request_from_message(&Some(record.headers), &Some(record.payload)).unwrap();
    assert_eq!(back.request_id, r.request_id);
    assert_eq!(back.path, r.path);
    assert_eq!(back.body, r.body);
}

#[test]
fn message_without_request_id_is_no_request() {
    let headers = vec![header("path", Some(b"/upper"))];
    assert!(request_from_message(&Some(headers), &Some(b"x".to_vec())).is_none());
    assert!(request_from_message(&None, &Some(b"x".to_vec())).is_none());
}

#[test]
fn request_id_header_without_value_is_skipped() {
    let headers = vec![
        header("request_id", None),
        header("path", None),
        header("request_id", Some(b"second")),
    ];
    let r = request_from_message(&Some(headers), &None).unwrap();
    assert_eq!(r.request_id.0, "second");
    assert_eq!(r.path, "/");
    assert_eq!(r.body, "");
}

#[test]
fn first_valued_header_wins() {
    let headers = vec![
        header("request_id", Some(b"a")),
        header("request_id", Some(b"b")),
        header("path", Some(b"/p")),
        header("path", Some(b"/q")),
    ];
    let r = request_from_message(&Some(headers), &Some(b"body".to_vec())).unwrap();
    assert_eq!(r.request_id.0, "a");
    assert_eq!(r.path, "/p");
    assert_eq!(r.body, "body");
}

#[test]
fn invalid_utf8_is_replaced() {
    let bytes = vec![b'a', 0xff, b'b'];
    assert_eq!(lossy_string(&bytes), "a\u{FFFD}b");
    let headers = vec![header("request_id", Some(&[0xc3]))];
    let r = request_from_message(&Some(headers), &Some(vec![0x80])).unwrap();
    assert_eq!(r.request_id.0, "\u{FFFD}");
    assert_eq!(r.body, "\u{FFFD}");
}

#[test]
fn utf8_bytes_encodes() {
    assert_eq!(utf8_bytes("é"), vec![0xc3, 0xa9]);
    assert_eq!(utf8_bytes(""), Vec::<u8>::new());
}

#[test]
fn producer_and_consumer_settings() {
    let p = pairs(producer_settings("kafka:29092"));
    assert_eq!(
        p,
        vec![
            ("bootstrap.servers".to_string(), "kafka:29092".to_string()),
            ("message.timeout.ms".to_string(), "5000".to_string()),
        ]
    );
    let c = pairs(consumer_settings("response_listener", "localhost:9092"));
    assert_eq!(
        c,
        vec![
            ("group.id".to_string(), "response_listener".to_string()),
            ("bootstrap.servers".to_string(), "localhost:9092".to_string()),
            ("enable.partition.eof".to_string(), "false".to_string()),
            ("session.timeout.ms".to_string(), "6000".to_string()),
            ("enable.auto.commit".to_string(), "true".to_string()),
            ("auto.offset.reset".to_string(), "latest".to_string()),
        ]
    );
}

#[test]
fn connection_record_and_settings() {
    let conn = KafkaConnection { brokers: "b:1".to_string(), timeout_ms: 100 };
    let record = KafkaConnection::record("rid", "data");
    assert_eq!(record.key, "0");
    assert_eq!(record.payload, b"data".to_vec());
    assert_eq!(record.headers.len(), 1);
    assert_eq!(record.headers[0].key, "request_id");
    assert_eq!(record.headers[0].value, Some(b"rid".to_vec()));
    assert_eq!(conn.producer_settings()[0], ("bootstrap.servers".to_string(), "b:1".to_string()));
    let c = conn.consumer_settings();
    assert_eq!(c[0], ("group.id".to_string(), "consumer".to_string()));
    assert_eq!(c.len(), 6);
}

#[test]
fn connection_shows_payload_strictly() {
    assert_eq!(KafkaConnection::shown_payload(&Some(b"hi".to_vec())), ("hi".to_string(), false));
    assert_eq!(KafkaConnection::shown_payload(&Some(vec![0xff])), (String::new(), true));
    assert_eq!(KafkaConnection::shown_payload(&None), (String::new(), false));
}

#[test]
fn connection_shows_first_request_id_header() {
    let hs = vec![header("x", Some(b"1")), header("request_id", None), header("request_id", Some(b"z"))];
    assert_eq!(KafkaConnection::shown_request_id(&Some(hs)), Some(String::new()));
    let hs = vec![header("request_id", Some(b"abc"))];
    assert_eq!(KafkaConnection::shown_request_id(&Some(hs)), Some("abc".to_string()));
    assert_eq!(KafkaConnection::shown_request_id(&Some(vec![header("x", None)])), None);
    assert_eq!(KafkaConnection::shown_request_id(&None), None);
}
