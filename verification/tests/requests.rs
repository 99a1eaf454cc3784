use rustwright::context::{page_wait_step, PageWaitEvent, PageWaitStep};
use rustwright::protocol::target::TargetInfo;
use std::time::Duration;

use rustwright::bidi::BidiError;
use rustwright::cdp_error::CdpError;
use rustwright::json::Json;
use rustwright::messages::{is_session_event, page_event_kind, PageEventKind};
use rustwright::requests::{bidi_command_result, cdp_command_result, Outcome, RequestTable};

#[test]
fn ids_count_up_from_one() {
    let mut table: RequestTable<&str> = RequestTable::new();
    assert_eq!(table.begin("a"), Ok(1));
    assert_eq!(table.begin("b"), Ok(2));
    assert_eq!(table.begin("c"), Ok(3));
    assert_eq!(table.pending_ids(), vec![1, 2, 3]);
}

#[test]
fn a_reply_settles_its_command_once() {
    let mut table: RequestTable<&str> = RequestTable::new();
    let first = table.begin("first").unwrap();
    let second = table.begin("second").unwrap();
    assert_eq!(table.settle(first), Some("first"));
    assert_eq!(table.pending_ids(), vec![second]);
    assert_eq!(table.settle(first), None);
    assert_eq!(table.pending_ids(), vec![second]);
}

#[test]
fn a_reply_for_an_unknown_id_is_ignored() {
    let mut table: RequestTable<u8> = RequestTable::new();
    table.begin(7).unwrap();
    assert_eq!(table.settle(42), None);
    assert_eq!(table.pending_ids(), vec![1]);
}

#[test]
fn closing_fails_every_pending_command() {
    let mut table: RequestTable<&str> = RequestTable::new();
    table.begin("one").unwrap();
    table.begin("two").unwrap();
    table.settle(1);
    table.begin("three").unwrap();
    assert_eq!(table.close(), vec!["two", "three"]);
    assert!(table.is_closed());
    assert!(table.pending_ids().is_empty());
    assert_eq!(table.begin("late"), Err("late"));
    assert_eq!(table.settle(2), None);
}

#[test]
fn cdp_protocol_errors_take_the_command_name() {
    let replied = Outcome::Replied(Err(CdpError::Protocol {
        method: String::new(),
        code: -32000,
        message: "No node".to_string(),
        data: Some("detail".to_string()),
    }));
    match cdp_command_result("DOM.describeNode", replied) {
        Err(CdpError::Protocol { method, code, message, data }) => {
            assert_eq!(method, "DOM.describeNode");
            assert_eq!(code, -32000);
            assert_eq!(message, "No node");
            assert_eq!(data.as_deref(), Some("detail"));
        }
        other => panic!("unexpected {other:?}"),
    }
}

#[test]
fn cdp_outcomes_without_reply() {
    match cdp_command_result("Page.navigate", Outcome::TimedOut(Duration::from_secs(3))) {
        Err(CdpError::Timeout { method, timeout }) => {
            assert_eq!(method, "Page.navigate");
            assert_eq!(timeout, Duration::from_secs(3));
        }
        other => panic!("unexpected {other:?}"),
    }
    assert!(matches!(cdp_command_result("Page.navigate", Outcome::Dropped), Err(CdpError::Closed)));
    assert!(matches!(
        cdp_command_result("Page.navigate", Outcome::Replied(Ok(Json::Bool(true)))),
        Ok(Json::Bool(true))
    ));
    assert!(matches!(
        cdp_command_result("Page.navigate", Outcome::Replied(Err(CdpError::Http("x".to_string())))),
        Err(CdpError::Http(t)) if t == "x"
    ));
}

#[test]
fn bidi_outcomes() {
    let replied = Outcome::Replied(Err(BidiError::Protocol {
        method: String::new(),
        error: "no such frame".to_string(),
        message: "gone".to_string(),
    }));
    match bidi_command_result("browsingContext.navigate", replied) {
        Err(BidiError::Protocol { method, error, message }) => {
            assert_eq!(method, "browsingContext.navigate");
            assert_eq!(error, "no such frame");
            assert_eq!(message, "gone");
        }
        other => panic!("unexpected {other:?}"),
    }
    match bidi_command_result("script.evaluate", Outcome::TimedOut(Duration::from_millis(250))) {
        Err(BidiError::Timeout { method, timeout }) => {
            assert_eq!(method, "script.evaluate");
            assert_eq!(timeout, Duration::from_millis(250));
        }
        other => panic!("unexpected {other:?}"),
    }
    assert!(matches!(bidi_command_result("session.end", Outcome::Dropped), Err(BidiError::Closed)));
}

#[test]
fn session_errors_are_named_after_the_command_once() {
    let unnamed = CdpError::Protocol { method: String::new(), code: 1, message: "m".to_string(), data: None };
    match rustwright::cdp_error::enrich_method(unnamed, "Page.reload") {
        CdpError::Protocol { method, .. } => assert_eq!(method, "Page.reload"),
        other => panic!("unexpected {other:?}"),
    }
    let named = CdpError::Protocol { method: "DOM.focus".to_string(), code: 1, message: "m".to_string(), data: None };
    match rustwright::cdp_error::enrich_method(named, "Page.reload") {
        CdpError::Protocol { method, .. } => assert_eq!(method, "DOM.focus"),
        other => panic!("unexpected {other:?}"),
    }
    assert!(matches!(rustwright::cdp_error::enrich_method(CdpError::Closed, "Page.reload"), CdpError::Closed));
}

#[test]
fn browser_version_from_get_version() {
    let result = rustwright::protocol::target::GetVersionResult {
        protocol_version: "1.3".to_string(),
        product: "Chrome/150.0.0.0".to_string(),
        revision: "@abc".to_string(),
        user_agent: "Mozilla/5.0".to_string(),
        js_version: "15.0".to_string(),
    };
    let version = rustwright::diagnostics::browser_version_from(result, "ws://127.0.0.1:9222/devtools/browser/x");
    assert_eq!(version.browser, "Chrome/150.0.0.0");
    assert_eq!(version.protocol_version, "1.3");
    assert_eq!(version.user_agent, "Mozilla/5.0");
    assert_eq!(version.v8_version, "15.0");
    assert_eq!(version.webkit_version, "");
    assert_eq!(version.web_socket_debugger_url, "ws://127.0.0.1:9222/devtools/browser/x");
}

#[test]
fn page_events_are_recognized_by_method() {
    assert_eq!(page_event_kind("Page.lifecycleEvent"), Some(PageEventKind::Lifecycle));
    assert_eq!(page_event_kind("Fetch.requestPaused"), Some(PageEventKind::RequestPaused));
    assert_eq!(page_event_kind("Network.loadingFailed"), Some(PageEventKind::LoadingFailed));
    assert_eq!(page_event_kind("Tracing.tracingComplete"), Some(PageEventKind::TracingComplete));
    assert_eq!(page_event_kind("Page.loadEventFired"), None);
    assert_eq!(page_event_kind("page.lifecycleEvent"), None);
}

#[test]
fn events_belong_to_their_session() {
    assert!(is_session_event(&Some("S1".to_string()), "S1"));
    assert!(!is_session_event(&Some("S2".to_string()), "S1"));
    assert!(!is_session_event(&None, "S1"));
}

#[test]
fn waiting_for_a_page_steps() {
    let target = TargetInfo {
        target_id: "T2".to_string(),
        target_type: "page".to_string(),
        title: String::new(),
        url: "about:blank".to_string(),
        attached: false,
        browser_context_id: Some("C".to_string()),
        opener_id: None,
    };
    let ctx = Some("C".to_string());
    let known = vec!["T1".to_string()];
    let t = Duration::from_secs(5);
    let created = PageWaitEvent::Event("Target.targetCreated".to_string(), Some(target));
    assert!(matches!(page_wait_step(&created, &ctx, &known, t), PageWaitStep::Attach(id) if id == "T2"));
    let known_now = vec!["T1".to_string(), "T2".to_string()];
    assert!(matches!(page_wait_step(&created, &ctx, &known_now, t), PageWaitStep::Wait));
    assert!(matches!(page_wait_step(&PageWaitEvent::Lagged, &ctx, &known, t), PageWaitStep::Wait));
    assert!(matches!(page_wait_step(&PageWaitEvent::AttachFailed, &ctx, &known, t), PageWaitStep::Wait));
    assert!(matches!(
        page_wait_step(&PageWaitEvent::Closed, &ctx, &known, t),
        PageWaitStep::Fail(rustwright::error::AutomationError::BrowserClosed)
    ));
    match page_wait_step(&PageWaitEvent::TimedOut, &ctx, &known, t) {
        PageWaitStep::Fail(rustwright::error::AutomationError::Timeout { what, timeout }) => {
            assert_eq!(what, "a new page");
            assert_eq!(timeout, t);
        },
        _ => panic!("expected a timeout"),
    }
}
