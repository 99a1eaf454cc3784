use rustwright::har::{har_document, har_entry, har_headers_json, header_text, HarTimings};
use rustwright::json::{Json, JsonNumber};
use rustwright::network_log::{record_network_event, NetworkEvent, NetworkRequest};
use rustwright::protocol::network::{
    LoadingFailedParams, Request, RequestWillBeSentParams, Response, ResponseReceivedParams,
};

fn sent(id: &str, url: &str, at: f64) -> NetworkEvent {
    NetworkEvent::RequestWillBeSent(RequestWillBeSentParams {
        request_id: id.to_string(),
        request: Request {
            url: url.to_string(),
            method: "GET".to_string(),
            headers: vec![("Accept".to_string(), Json::String("*/*".to_string()))],
        },
        timestamp: at.to_bits(),
        wall_time: (1_700_000_000.0f64 + at).to_bits(),
        document_url: None,
        loader_id: None,
        redirect_response: None,
    })
}

fn responded(id: &str, status: i64, at: f64) -> NetworkEvent {
    NetworkEvent::ResponseReceived(ResponseReceivedParams {
        request_id: id.to_string(),
        loader_id: None,
        timestamp: at.to_bits(),
        response: Response {
            url: "https://example.com/".to_string(),
            status,
            status_text: "OK".to_string(),
            mime_type: "text/html".to_string(),
            headers: vec![("Content-Type".to_string(), Json::String("text/html".to_string()))],
        },
        resource_type: "Document".to_string(),
    })
}

#[test]
fn requests_are_logged_in_order() {
    let mut log: Vec<NetworkRequest> = Vec::new();
    record_network_event(&mut log, &sent("1", "https://example.com/", 1.5));
    record_network_event(&mut log, &sent("2", "https://example.com/app.js", 2.0));
    assert_eq!(log.len(), 2);
    assert_eq!(log[0].request_id, "1");
    assert_eq!(log[0].method, "GET");
    assert_eq!(log[0].started.map(f64::from_bits), Some(1.5));
    assert_eq!(log[1].url, "https://example.com/app.js");
    assert!(log[0].status.is_none());
    assert!(log[0].resource_type.is_empty());
}

#[test]
fn a_redirect_replaces_the_entry() {
    let mut log: Vec<NetworkRequest> = Vec::new();
    record_network_event(&mut log, &sent("1", "http://example.com/", 1.0));
    record_network_event(&mut log, &responded("1", 301, 1.1));
    record_network_event(&mut log, &sent("1", "https://example.com/", 1.2));
    assert_eq!(log.len(), 1);
    assert_eq!(log[0].url, "https://example.com/");
    assert!(log[0].status.is_none());
    assert_eq!(log[0].started.map(f64::from_bits), Some(1.2));
}

#[test]
fn responses_and_failures_are_noted() {
    let mut log: Vec<NetworkRequest> = Vec::new();
    record_network_event(&mut log, &sent("1", "https://example.com/", 1.0));
    record_network_event(&mut log, &sent("2", "https://example.com/missing", 1.0));
    record_network_event(&mut log, &responded("1", 200, 1.25));
    record_network_event(
        &mut log,
        &NetworkEvent::LoadingFailed(LoadingFailedParams {
            request_id: "2".to_string(),
            timestamp: 2.0f64.to_bits(),
            error_text: "net::ERR_FAILED".to_string(),
            canceled: false,
        }),
    );
    assert_eq!(log[0].status, Some(200));
    assert_eq!(log[0].status_text.as_deref(), Some("OK"));
    assert_eq!(log[0].mime_type.as_deref(), Some("text/html"));
    assert_eq!(log[0].resource_type, "Document");
    assert_eq!(log[0].responded.map(f64::from_bits), Some(1.25));
    assert_eq!(log[0].response_headers.len(), 1);
    assert_eq!(log[1].failure.as_deref(), Some("net::ERR_FAILED"));
    assert!(log[1].status.is_none());
}

#[test]
fn events_for_unknown_requests_are_ignored() {
    let mut log: Vec<NetworkRequest> = Vec::new();
    record_network_event(&mut log, &sent("1", "https://example.com/", 1.0));
    record_network_event(&mut log, &responded("9", 200, 1.25));
    assert_eq!(log.len(), 1);
    assert!(log[0].status.is_none());
}

#[test]
fn finishing_sets_the_end_time() {
    let mut log: Vec<NetworkRequest> = Vec::new();
    record_network_event(&mut log, &sent("1", "https://example.com/", 1.0));
    log[0].finish(3.0f64.to_bits());
    assert_eq!(log[0].finished.map(f64::from_bits), Some(3.0));
}

fn get<'a>(value: &'a Json, key: &str) -> &'a Json {
    match value {
        Json::Object(entries) => &entries.iter().find(|(k, _)| k == key).expect("missing key").1,
        _ => panic!("not an object"),
    }
}

fn text(value: &Json) -> &str {
    match value {
        Json::String(s) => s.as_str(),
        _ => panic!("not a string"),
    }
}

fn logged_request() -> NetworkRequest {
    let mut log: Vec<NetworkRequest> = Vec::new();
    record_network_event(&mut log, &sent("7", "https://example.com/", 1.0));
    record_network_event(&mut log, &responded("7", 200, 1.25));
    log.pop().unwrap()
}

#[test]
fn har_entries_carry_the_request_and_response() {
    let request = logged_request();
    let timings = HarTimings { time: 500.0f64.to_bits(), wait: 250.0f64.to_bits(), receive: 250.0f64.to_bits() };
    let headers = vec![("Accept".to_string(), "*/*".to_string())];
    let entry = har_entry(&request, &headers, &[], Some(("h\u{e9}", false)), "2023-11-14T22:13:21.000Z", &timings);
    assert_eq!(text(get(&entry, "startedDateTime")), "2023-11-14T22:13:21.000Z");
    assert!(matches!(get(&entry, "time"), Json::Number(JsonNumber::Other(bits)) if f64::from_bits(*bits) == 500.0));
    let req = get(&entry, "request");
    assert_eq!(text(get(req, "method")), "GET");
    assert_eq!(text(get(req, "url")), "https://example.com/");
    assert_eq!(text(get(req, "httpVersion")), "HTTP/1.1");
    assert!(matches!(get(req, "headersSize"), Json::Number(JsonNumber::NegInt(-1))));
    match get(req, "headers") {
        Json::Array(items) => {
            assert_eq!(items.len(), 1);
            assert_eq!(text(get(&items[0], "name")), "Accept");
            assert_eq!(text(get(&items[0], "value")), "*/*");
        },
        _ => panic!("headers are an array"),
    }
    let resp = get(&entry, "response");
    assert!(matches!(get(resp, "status"), Json::Number(JsonNumber::PosInt(200))));
    assert_eq!(text(get(resp, "statusText")), "OK");
    let content = get(resp, "content");
    // two bytes for the accented letter
    assert!(matches!(get(content, "size"), Json::Number(JsonNumber::PosInt(3))));
    assert_eq!(text(get(content, "mimeType")), "text/html");
    assert_eq!(text(get(content, "text")), "h\u{e9}");
    assert!(matches!(content, Json::Object(e) if !e.iter().any(|(k, _)| k == "encoding")));
    assert_eq!(text(get(&entry, "_resourceType")), "Document");
    assert!(matches!(get(&entry, "_error"), Json::Null));
}

#[test]
fn a_failed_request_reports_status_zero_and_its_error() {
    let mut request = logged_request();
    request.failure = Some("net::ERR_FAILED".to_string());
    let zero = HarTimings { time: 0, wait: 0, receive: 0 };
    let entry = har_entry(&request, &[], &[], Some(("aGk=", true)), "t", &zero);
    let resp = get(&entry, "response");
    assert!(matches!(get(resp, "status"), Json::Number(JsonNumber::PosInt(0))));
    assert_eq!(text(get(get(resp, "content"), "encoding")), "base64");
    assert_eq!(text(get(&entry, "_error")), "net::ERR_FAILED");
}

#[test]
fn har_documents_wrap_their_entries() {
    let doc = har_document(vec![Json::Null], "0.1.0");
    let log = get(&doc, "log");
    assert_eq!(text(get(log, "version")), "1.2");
    assert_eq!(text(get(get(log, "creator"), "name")), "Rustwright");
    assert_eq!(text(get(get(log, "creator"), "version")), "0.1.0");
    assert!(matches!(get(log, "entries"), Json::Array(items) if items.len() == 1));
}

#[test]
fn header_values_read_as_text_when_strings() {
    assert_eq!(header_text(&Json::String("gzip".to_string())).as_deref(), Some("gzip"));
    assert!(header_text(&Json::Bool(true)).is_none());
    assert!(matches!(har_headers_json(&[]), Json::Array(items) if items.is_empty()));
}
