use bytes::Bytes;
use gpui_utils::reqwest_client::{
    finished_response, request_body, request_headers, InvalidUserAgent, ReqwestHttpClient,
    RequestBody,
};
use reqwest::header::{HeaderMap, HeaderName, HeaderValue};

#[test]
fn test_client_creation() {
    let client = ReqwestHttpClient::new();
    assert!(client.is_ok());

    let client = client.unwrap();
    assert_eq!(client.kind_name(), "ReqwestHttpClient");
}

#[test]
fn test_client_with_user_agent() {
    let client = ReqwestHttpClient::with_user_agent("test-agent/1.0");
    assert!(client.is_ok());

    let client = client.unwrap();
    let user_agent = client.user_agent();
    assert!(user_agent.is_some());
    assert_eq!(user_agent.unwrap().to_str().unwrap(), "test-agent/1.0");
}

#[test]
fn test_proxy_returns_none() {
    let client = ReqwestHttpClient::new().unwrap();
    assert!(client.proxy().is_none());
}

#[test]
fn default_client_is_the_new_one() {
    let client = ReqwestHttpClient::default();
    assert_eq!(client.user_agent().unwrap().as_bytes(), b"gpui-client");
    assert_eq!(client.connect_timeout_secs(), 30);
    assert_eq!(client.timeout_secs(), 60);
}

#[test]
fn control_characters_are_no_user_agent() {
    for agent in ["a\nb", "\u{7f}", "a\0"] {
        assert_eq!(ReqwestHttpClient::with_user_agent(agent).unwrap_err(), InvalidUserAgent);
    }
    for agent in ["", "a\tb", "\u{e9}", "~ !"] {
        let client = ReqwestHttpClient::with_user_agent(agent).unwrap();
        assert_eq!(client.user_agent().unwrap().as_bytes(), agent.as_bytes());
    }
}

fn headers(entries: &[(&'static str, &'static str)]) -> HeaderMap {
    let mut headers = HeaderMap::new();
    for (name, value) in entries {
        headers.append(HeaderName::from_static(name), HeaderValue::from_static(value));
    }
    headers
}

#[test]
fn last_value_of_a_name_is_sent() {
    let given = headers(&[("accept", "a"), ("x-one", "1"), ("accept", "b"), ("accept", "c")]);
    let sent = request_headers(&given).unwrap();
    assert_eq!(sent, headers(&[("accept", "c"), ("x-one", "1")]));
    assert_eq!(request_headers(&sent).unwrap(), sent);
    assert_eq!(request_headers(&HeaderMap::new()).unwrap(), HeaderMap::new());
}

#[test]
fn single_values_are_sent_as_they_are() {
    let given = headers(&[("accept", "a"), ("x-one", "1")]);
    assert_eq!(request_headers(&given).unwrap(), given);
}

#[test]
fn sensitive_values_stay_marked_in_a_request() {
    let mut secret = HeaderValue::from_static("key");
    secret.set_sensitive(true);
    let mut given = headers(&[("accept", "a")]);
    given.insert("x-secret", secret);
    let sent = request_headers(&given).unwrap();
    assert!(sent["x-secret"].is_sensitive());
    assert!(!sent["accept"].is_sensitive());
    let (head, ()) = finished_response(200, &given, ()).unwrap();
    assert_eq!(head.headers["x-secret"].as_bytes(), b"key");
    assert!(!head.headers["x-secret"].is_sensitive());
    let client = ReqwestHttpClient::new().unwrap();
    assert!(!client.user_agent().unwrap().is_sensitive());
}

#[test]
fn many_headers_are_sent() {
    let mut given = HeaderMap::new();
    for i in 0..6553 {
        let name = HeaderName::from_bytes(format!("x-{}", i).as_bytes()).unwrap();
        given.append(name, HeaderValue::from(i));
    }
    assert_eq!(request_headers(&given).unwrap(), given);
}

#[test]
fn response_keeps_status_and_all_values() {
    let given = headers(&[("set-cookie", "a"), ("set-cookie", "b"), ("x-one", "1")]);
    let (head, body) = finished_response(404, &given, "body").unwrap();
    assert_eq!(body, "body");
    let response = http::Response::from_parts(head, body);
    assert_eq!(response.status().as_u16(), 404);
    assert_eq!(response.headers(), &given);
    let values: Vec<&[u8]> =
        response.headers().get_all("set-cookie").iter().map(|value| value.as_bytes()).collect();
    assert_eq!(values, vec![&b"a"[..], &b"b"[..]]);
}

#[test]
fn impossible_status_is_refused() {
    assert!(finished_response(99, &HeaderMap::new(), ()).is_err());
    assert!(finished_response(1000, &HeaderMap::new(), ()).is_err());
    assert!(finished_response(999, &HeaderMap::new(), ()).is_ok());
}

#[test]
fn quotation_mark_in_a_name_is_refused() {
    let mut given = HeaderMap::new();
    given.insert(HeaderName::from_lowercase(b"x\"y").unwrap(), HeaderValue::from_static("1"));
    assert!(finished_response(200, &given, ()).is_err());
}

#[test]
fn bytes_beyond_ascii_survive() {
    let mut given = HeaderMap::new();
    given.insert("x-one", HeaderValue::from_bytes(b"\xfa\t~").unwrap());
    let (head, ()) = finished_response(200, &given, ()).unwrap();
    assert_eq!(head.headers["x-one"].as_bytes(), b"\xfa\t~");
}

#[test]
fn body_is_sent_whole_or_not_at_all() {
    assert_eq!(request_body(RequestBody::Empty), Bytes::new());
    assert_eq!(request_body(RequestBody::Bytes(Bytes::from_static(b"abc"))), &b"abc"[..]);
    let read = RequestBody::Read { buffer: b"abc".to_vec(), complete: true };
    assert_eq!(request_body(read), &b"abc"[..]);
    let cut = RequestBody::Read { buffer: b"ab".to_vec(), complete: false };
    assert_eq!(request_body(cut), Bytes::new());
}
