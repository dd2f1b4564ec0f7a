use reqres_kafka::common::{Request, RequestId};
use reqres_kafka::response_proxy::{reply_for, rest_url};
use reqres_kafka::rest::{fresh_request, http_reply};
use reqres_kafka::rest_api::{reverse, upper};
use reqres_kafka::sync_2::Response;

#[test]
fn upper_example() {
    assert_eq!(upper("testing upper".to_string()), "TESTING UPPER");
    assert_eq!(upper("straße".to_string()), "STRASSE");
}

#[test]
fn reverse_example() {
    assert_eq!(reverse("testing reverse".to_string()), "esrever gnitset");
    assert_eq!(reverse(String::new()), "");
    assert_eq!(reverse("añb✓".to_string()), "✓bña");
}

#[test]
fn fresh_request_has_random_v4_identifier() {
    let a = fresh_request("/upper".to_string(), "hi".to_string());
    let b = fresh_request("/upper".to_string(), "hi".to_string());
    assert_eq!(a.path, "/upper");
    assert_eq!(a.body, "hi");
    let id: Vec<char> = a.request_id.0.chars().collect();
    assert_eq!(id.len(), 36);
    for (i, c) in id.iter().enumerate() {
        if [8, 13, 18, 23].contains(&i) {
            assert_eq!(*c, '-');
        } else {
            assert!(c.is_ascii_hexdigit() && !c.is_ascii_uppercase());
        }
    }
    assert_eq!(id[14], '4');
    assert!(['8', '9', 'a', 'b'].contains(&id[19]));
    assert_ne!(a.request_id, b.request_id);
}

#[test]
fn http_reply_uses_status_and_body() {
    assert_eq!(http_reply(Response { status: 200, body: Some("X".to_string()) }), (200, "X".to_string()));
    assert_eq!(http_reply(Response { status: 408, body: None }), (408, String::new()));
}

#[test]
fn rest_url_joins_base_and_path() {
    assert_eq!(rest_url("http://localhost:8080", "/upper"), "http://localhost:8080/upper");
}

#[test]
fn reply_keeps_identifier_and_path() {
    let r = Request {
        request_id: RequestId("id".to_string()),
        path: "/reverse".to_string(),
        body: "abc".to_string(),
    };
    let out = reply_for(r.clone(), Some("cba".to_string()));
    assert_eq!(out.request_id, r.request_id);
    assert_eq!(out.path, "/reverse");
    assert_eq!(out.body, "cba");
    let out = reply_for(r, None);
    assert_eq!(out.body, "");
}
