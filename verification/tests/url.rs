use fleetops::notify::{build_action_url, Header, NtfyAction, WebhookLink};
use fleetops::url::{decode_query_value, encode_query_value};

#[test]
fn encode_leaves_unreserved_bytes_alone() {
    assert_eq!(encode_query_value("AZaz09-._~"), "AZaz09-._~");
    assert_eq!(encode_query_value(""), "");
}

#[test]
fn encode_escapes_everything_else_in_upper_case_hex() {
    assert_eq!(encode_query_value("Cloud VM1"), "Cloud%20VM1");
    assert_eq!(encode_query_value("a+b&c=d/e?f#g%h"), "a%2Bb%26c%3Dd%2Fe%3Ff%23g%25h");
    assert_eq!(encode_query_value("é📦"), "%C3%A9%F0%9F%93%A6");
    assert_eq!(encode_query_value("\u{0}\n\u{7f}"), "%00%0A%7F");
}

#[test]
fn decode_reads_escapes_plus_and_stray_percents() {
    assert_eq!(decode_query_value("Cloud%20VM1"), Some("Cloud VM1".to_string()));
    assert_eq!(decode_query_value("a+b"), Some("a b".to_string()));
    assert_eq!(decode_query_value("%2b%2B"), Some("++".to_string()));
    assert_eq!(decode_query_value("100%"), Some("100%".to_string()));
    assert_eq!(decode_query_value("%zz%4"), Some("%zz%4".to_string()));
    assert_eq!(decode_query_value("%%41"), Some("%A".to_string()));
    assert_eq!(decode_query_value("%C3%A9"), Some("é".to_string()));
    assert_eq!(decode_query_value("é"), Some("é".to_string()));
    assert_eq!(decode_query_value(""), Some("".to_string()));
}

#[test]
fn decode_rejects_bytes_that_are_no_text() {
    assert_eq!(decode_query_value("%FF"), None);
    assert_eq!(decode_query_value("%C3"), None);
    assert_eq!(decode_query_value("ok%80"), None);
}

#[test]
fn encoded_values_decode_to_themselves() {
    for s in ["Cloud VM1", "tok+en/with=odd&chars%", "naïve ✓ 📦", "", " ", "~-._", "a\nb\tc", "%41"] {
        assert_eq!(decode_query_value(&encode_query_value(s)), Some(s.to_string()), "{:?}", s);
    }
}

#[test]
fn action_url_encodes_server_and_token() {
    let link = WebhookLink { base_url: "http://hook:8080".to_string(), secret: "s3cr&t x".to_string() };
    assert_eq!(
        build_action_url(&link, "/webhook/update/os", "Cloud VM1"),
        "http://hook:8080/webhook/update/os?server=Cloud%20VM1&token=s3cr%26t%20x"
    );
}

#[test]
fn action_builders() {
    let v = NtfyAction::view("Open", "http://x");
    assert_eq!(v.action, "view");
    assert_eq!(v.label, "Open");
    assert_eq!(v.url, Some("http://x".to_string()));
    assert_eq!(v.method, None);
    assert_eq!(v.headers, None);
    assert_eq!(v.body, None);
    let p = NtfyAction::http_post("Go", "http://y");
    assert_eq!(p.action, "http");
    assert_eq!(p.method, Some("POST".to_string()));
    assert_eq!(p.url, Some("http://y".to_string()));
    let h = vec![Header { name: "X-A".to_string(), value: "1".to_string() }];
    let q = p.clone().with_headers(h.clone()).with_body("{}");
    assert_eq!(q.headers, Some(h));
    assert_eq!(q.body, Some("{}".to_string()));
    assert_eq!(q.label, "Go");
    assert_eq!(q.url, p.url);
    assert_eq!(q.method, p.method);
}
