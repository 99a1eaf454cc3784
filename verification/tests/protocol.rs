use rustwright::bidi::BidiError;
use rustwright::cdp_error::CdpError;
use rustwright::context::{ensure_open, is_new_page_event, matches_context, page_targets};
use rustwright::encoding::{decode_base64, encode_body};
use rustwright::error::AutomationError;
use rustwright::expectations::{attribute_verdict, backend_name, contains_text_verdict, count_verdict, state_verdict, text_verdict, AnyPage, Backend};
use rustwright::interception::{dialog_reply, paused_request_reply, PausedReply};
use rustwright::protocol::page::JavascriptDialogOpeningParams;
use rustwright::json::Json;
use rustwright::messages::{
    bidi_command_message, command_message, route_bidi_message, route_message, BidiIncoming, BidiRouted, CdpEvent,
    IncomingError, IncomingMessage, Routed,
};
use rustwright::protocol::fetch::{HeaderEntry, RequestPausedParams};
use rustwright::protocol::network::Request;
use rustwright::protocol::runtime::{ExceptionDetails, RemoteObject};
use rustwright::protocol::target::TargetInfo;
use rustwright::route::{Route, RouteAction};

fn paused(url: &str) -> RequestPausedParams {
    RequestPausedParams {
        request_id: "r1".to_string(),
        request: Request { url: url.to_string(), method: "GET".to_string(), headers: Vec::new() },
        frame_id: String::new(),
        resource_type: String::new(),
        response_error_reason: None,
        response_status_code: None,
        response_headers: Vec::new(),
    }
}

#[test]
fn answers_paused_requests_by_the_first_matching_route() {
    let routes = vec![
        Route::new("*.js", RouteAction::Abort),
        Route::new(
            "api",
            RouteAction::Fulfill { status: 201, content_type: "text/plain".to_string(), body: b"hi".to_vec() },
        ),
    ];
    match paused_request_reply(&routes, &paused("https://x.test/app.js")) {
        PausedReply::Fail(p) => {
            assert_eq!(p.request_id, "r1");
            assert_eq!(p.error_reason, "Aborted");
        },
        _ => panic!("expected a failure"),
    }
    match paused_request_reply(&routes, &paused("https://x.test/api/v1")) {
        PausedReply::Fulfill(p) => {
            assert_eq!(p.response_code, 201);
            assert_eq!(p.response_headers.len(), 1);
            assert_eq!(p.response_headers[0].name, "Content-Type");
            assert_eq!(p.response_headers[0].value, "text/plain");
            assert_eq!(p.body.as_deref(), Some("aGk="));
        },
        _ => panic!("expected a fulfilment"),
    }
    match paused_request_reply(&routes, &paused("https://x.test/index.html")) {
        PausedReply::Continue(p) => {
            assert_eq!(p.request_id, "r1");
            assert!(p.headers.is_none());
        },
        _ => panic!("expected the request to continue"),
    }
}

#[test]
fn base64_round_trips() {
    assert_eq!(encode_body(b""), "");
    assert_eq!(encode_body(b"f"), "Zg==");
    assert_eq!(encode_body(b"fo"), "Zm8=");
    assert_eq!(encode_body(b"foobar"), "Zm9vYmFy");
    assert_eq!(decode_base64("Zm9vYmFy").unwrap(), b"foobar".to_vec());
    match decode_base64("Zm9v!") {
        Err(AutomationError::JavaScript(message)) => assert!(message.starts_with("invalid base64 payload: ")),
        _ => panic!("expected a decoding error"),
    }
}

#[test]
fn routes_cdp_replies_and_events() {
    let reply = route_message(IncomingMessage {
        id: Some(4),
        method: None,
        params: None,
        result: None,
        error: None,
        session_id: None,
    });
    assert!(matches!(reply, Routed::Reply { id: 4, result: Ok(Json::Null) }));
    let failed = route_message(IncomingMessage {
        id: Some(5),
        method: None,
        params: None,
        result: None,
        error: Some(IncomingError { code: -32000, message: "nope".to_string(), data: None }),
        session_id: None,
    });
    match failed {
        Routed::Reply { id: 5, result: Err(CdpError::Protocol { method, code, message, data }) } => {
            assert_eq!(method, "");
            assert_eq!(code, -32000);
            assert_eq!(message, "nope");
            assert!(data.is_none());
        },
        _ => panic!("expected a protocol error"),
    }
    let event = route_message(IncomingMessage {
        id: None,
        method: Some("Page.loadEventFired".to_string()),
        params: None,
        result: None,
        error: None,
        session_id: Some("s".to_string()),
    });
    match event {
        Routed::Event(e) => {
            assert_eq!(e.method, "Page.loadEventFired");
            assert_eq!(e.session_id.as_deref(), Some("s"));
            assert!(matches!(e.params, Json::Null));
            assert!(!e.is_disconnected());
        },
        _ => panic!("expected an event"),
    }
    assert!(CdpEvent::disconnected().is_disconnected());
    let nothing = route_message(IncomingMessage { id: None, method: None, params: None, result: None, error: None, session_id: None });
    assert!(matches!(nothing, Routed::Ignored));
}

#[test]
fn routes_bidi_errors_with_defaults() {
    let failed = route_bidi_message(BidiIncoming {
        id: Some(1),
        kind: Some("error".to_string()),
        result: None,
        error: None,
        message: None,
        method: None,
        params: None,
    });
    match failed {
        BidiRouted::Reply { id: 1, result: Err(BidiError::Protocol { method, error, message }) } => {
            assert_eq!(method, "");
            assert_eq!(error, "unknown");
            assert_eq!(message, "");
        },
        _ => panic!("expected a protocol error"),
    }
    let ok = route_bidi_message(BidiIncoming {
        id: Some(2),
        kind: Some("success".to_string()),
        result: Some(Json::Bool(true)),
        error: None,
        message: None,
        method: None,
        params: None,
    });
    assert!(matches!(ok, BidiRouted::Reply { id: 2, result: Ok(Json::Bool(true)) }));
}

#[test]
fn frames_commands() {
    match command_message(7, "Page.navigate", None, Some("S1")) {
        Json::Object(entries) => {
            let keys: Vec<&str> = entries.iter().map(|(k, _)| k.as_str()).collect();
            assert_eq!(keys, vec!["id", "method", "sessionId"]);
        },
        _ => panic!("expected an object"),
    }
    match bidi_command_message(8, "session.status", Json::Null) {
        Json::Object(entries) => assert_eq!(entries.len(), 3),
        _ => panic!("expected an object"),
    }
}

fn target(id: &str, kind: &str, context: Option<&str>) -> TargetInfo {
    TargetInfo {
        target_id: id.to_string(),
        target_type: kind.to_string(),
        title: String::new(),
        url: String::new(),
        attached: false,
        browser_context_id: context.map(str::to_string),
        opener_id: None,
    }
}

#[test]
fn selects_the_pages_of_a_context() {
    let targets = vec![
        target("p1", "page", Some("c1")),
        target("w1", "service_worker", Some("c1")),
        target("p2", "page", Some("c2")),
    ];
    let isolated = Some("c1".to_string());
    assert!(matches_context(&None, &targets[2]));
    assert!(!matches_context(&isolated, &targets[2]));
    let pages = page_targets(&isolated, targets);
    assert_eq!(pages.len(), 1);
    assert_eq!(pages[0].target_id, "p1");
    let known = vec!["p1".to_string()];
    assert!(!is_new_page_event("Target.targetCreated", &target("p1", "page", Some("c1")), &isolated, &known));
    assert!(is_new_page_event("Target.targetCreated", &target("p3", "page", Some("c1")), &isolated, &known));
    assert!(!is_new_page_event("Target.targetDestroyed", &target("p3", "page", Some("c1")), &isolated, &known));
    assert!(matches!(ensure_open(true, true), Err(AutomationError::ContextClosed)));
    assert!(matches!(ensure_open(false, true), Err(AutomationError::BrowserClosed)));
    assert!(ensure_open(false, false).is_ok());
    assert!(AutomationError::ContextClosed.is_closed());
    assert!(AutomationError::Cdp(CdpError::Closed).is_closed());
    assert!(!AutomationError::JavaScript("x".to_string()).is_closed());
}

#[test]
fn runtime_values_describe_themselves() {
    let null = RemoteObject {
        object_type: "object".to_string(),
        subtype: Some("null".to_string()),
        class_name: None,
        value: None,
        description: None,
        object_id: None,
    };
    assert!(null.is_nullish());
    let node = RemoteObject { object_id: Some("o".to_string()), subtype: None, ..null };
    assert!(!node.is_nullish());
    let details = ExceptionDetails { text: "Uncaught".to_string(), exception: None, line_number: 1, column_number: 2 };
    assert_eq!(details.message(), "Uncaught");
}

#[test]
fn assertion_verdicts() {
    assert_eq!(state_verdict("css=h1", "to be visible", true), None);
    assert_eq!(state_verdict("css=h1", "to be visible", false).as_deref(), Some("expected css=h1 to be visible"));
    assert_eq!(text_verdict("css=h1", "Hi", "Hi"), None);
    assert_eq!(
        text_verdict("css=h1", "Hi", "Ho").as_deref(),
        Some("expected css=h1 to have text \"Hi\", got \"Ho\"")
    );
    assert_eq!(contains_text_verdict("css=p", "ell", "hello"), None);
    assert_eq!(count_verdict("css=li", 3, 2).as_deref(), Some("expected css=li to have count 3, got 2"));
    assert_eq!(
        attribute_verdict("css=a", "href", "/x", None).as_deref(),
        Some("expected css=a to have attribute \"href\"=\"/x\", got None")
    );
    assert_eq!(attribute_verdict("css=a", "href", "/x", Some("/x")), None);
    assert_eq!(backend_name(&Backend::Chrome), "chrome");
    assert_eq!(backend_name(&Backend::Firefox), "firefox");
}

#[test]
fn dialogs_are_recorded_and_dismissed() {
    let opening = JavascriptDialogOpeningParams {
        url: "https://example.com".to_string(),
        message: "Leave?".to_string(),
        dialog_type: "confirm".to_string(),
        has_browser_handler: false,
        default_prompt: Some("yes".to_string()),
    };
    let (info, reply) = dialog_reply(opening);
    assert_eq!(info.dialog_type, "confirm");
    assert_eq!(info.message, "Leave?");
    assert_eq!(info.default_prompt.as_deref(), Some("yes"));
    assert!(!reply.accept);
    assert!(reply.prompt_text.is_none());
}

#[test]
fn any_page_names_its_backend() {
    let chrome: AnyPage<u8, &str> = AnyPage::Chrome(1);
    let firefox: AnyPage<u8, &str> = AnyPage::Firefox("tab");
    assert_eq!(chrome.backend_name(), "chrome");
    assert_eq!(firefox.backend_name(), "firefox");
    assert_eq!(firefox.backend(), Backend::Firefox);
}

fn pairs(v: &[(&str, &str)]) -> Vec<(String, String)> {
    v.iter().map(|(n, x)| (n.to_string(), x.to_string())).collect()
}

#[test]
fn request_headers_are_merged_onto_the_request() {
    let routes = vec![Route::new("*", RouteAction::SetRequestHeaders(pairs(&[("x-token", "t"), ("accept", "text/html")])))];
    let mut request = paused("https://x.test/");
    request.request.headers = vec![
        ("Accept".to_string(), Json::String("*/*".to_string())),
        ("User-Agent".to_string(), Json::String("ua".to_string())),
    ];
    match paused_request_reply(&routes, &request) {
        PausedReply::Continue(p) => {
            let got: Vec<(String, String)> = p.headers.expect("headers").into_iter().map(|h| (h.name, h.value)).collect();
            assert_eq!(got, pairs(&[("User-Agent", "ua"), ("x-token", "t"), ("accept", "text/html")]));
        },
        _ => panic!("expected the request to continue"),
    }
}

#[test]
fn response_headers_are_merged_at_the_response_stage() {
    let routes = vec![Route::new("*", RouteAction::SetResponseHeaders(pairs(&[("Cache-Control", "no-store")])))];
    // at the request stage the request continues unchanged
    match paused_request_reply(&routes, &paused("https://x.test/")) {
        PausedReply::Continue(p) => assert!(p.headers.is_none()),
        _ => panic!("expected the request to continue"),
    }
    let mut response = paused("https://x.test/");
    response.response_status_code = Some(200);
    response.response_headers = vec![
        HeaderEntry { name: "cache-control".to_string(), value: "max-age=60".to_string() },
        HeaderEntry { name: "Content-Type".to_string(), value: "text/html".to_string() },
    ];
    match paused_request_reply(&routes, &response) {
        PausedReply::ContinueResponse(p) => {
            assert!(p.response_code.is_none());
            let got: Vec<(String, String)> =
                p.response_headers.expect("headers").into_iter().map(|h| (h.name, h.value)).collect();
            assert_eq!(got, pairs(&[("Content-Type", "text/html"), ("Cache-Control", "no-store")]));
        },
        _ => panic!("expected the response to continue"),
    }
    let blocked = vec![Route::new("*", RouteAction::Abort)];
    match paused_request_reply(&blocked, &response) {
        PausedReply::ContinueResponse(p) => assert!(p.response_headers.is_none()),
        _ => panic!("expected the response to continue"),
    }
}
