use rustwright::bidi::{decode_screenshot, restore_items, BidiError, BidiOriginStorage, BidiStorageItem, BidiStorageState};
use rustwright::bidi::{
    bidi_ws_url, browser_version, collect_frames, cookies_from_result, dispatch, key_value, network_event_kind,
    BidiNetworkRequest, BidiRequest, BidiResponse, BrowsingContextInfo, NetworkEvent, NetworkEventKind,
};
use rustwright::json::{remote_value_to_json, Json, JsonNumber};

fn text(s: &str) -> Json {
    Json::String(s.to_string())
}

fn num(n: u64) -> Json {
    Json::Number(JsonNumber::PosInt(n))
}

fn object(entries: Vec<(&str, Json)>) -> Json {
    Json::Object(entries.into_iter().map(|(k, v)| (k.to_string(), v)).collect())
}

fn same(a: &Json, b: &Json) -> bool {
    match (a, b) {
        (Json::Null, Json::Null) => true,
        (Json::Bool(x), Json::Bool(y)) => x == y,
        (Json::Number(JsonNumber::PosInt(x)), Json::Number(JsonNumber::PosInt(y))) => x == y,
        (Json::Number(JsonNumber::NegInt(x)), Json::Number(JsonNumber::NegInt(y))) => x == y,
        (Json::Number(JsonNumber::Other(x)), Json::Number(JsonNumber::Other(y))) => x == y,
        (Json::String(x), Json::String(y)) => x == y,
        (Json::Array(x), Json::Array(y)) => x.len() == y.len() && x.iter().zip(y.iter()).all(|(p, q)| same(p, q)),
        (Json::Object(x), Json::Object(y)) => {
            x.len() == y.len() && x.iter().all(|(k, v)| y.iter().any(|(k2, v2)| k == k2 && same(v, v2)))
        },
        _ => false,
    }
}

#[test]
fn converts_scalars() {
    let string = object(vec![("type", text("string")), ("value", text("hi"))]);
    assert!(same(&remote_value_to_json(&string), &text("hi")));
    let number = object(vec![("type", text("number")), ("value", num(7))]);
    assert!(same(&remote_value_to_json(&number), &num(7)));
    let boolean = object(vec![("type", text("boolean")), ("value", Json::Bool(true))]);
    assert!(same(&remote_value_to_json(&boolean), &Json::Bool(true)));
    let null = object(vec![("type", text("null"))]);
    assert!(same(&remote_value_to_json(&null), &Json::Null));
}

#[test]
fn converts_arrays_and_objects() {
    let value = object(vec![
        ("type", text("object")),
        (
            "value",
            Json::Array(vec![
                Json::Array(vec![text("a"), object(vec![("type", text("number")), ("value", num(1))])]),
                Json::Array(vec![
                    text("b"),
                    object(vec![
                        ("type", text("array")),
                        (
                            "value",
                            Json::Array(vec![
                                object(vec![("type", text("number")), ("value", num(2))]),
                                object(vec![("type", text("number")), ("value", num(3))]),
                            ]),
                        ),
                    ]),
                ]),
            ]),
        ),
    ]);
    let expected = object(vec![("a", num(1)), ("b", Json::Array(vec![num(2), num(3)]))]);
    assert!(same(&remote_value_to_json(&value), &expected));
}

#[test]
fn later_object_pairs_replace_earlier_ones() {
    let value = object(vec![
        ("type", text("object")),
        (
            "value",
            Json::Array(vec![
                Json::Array(vec![text("k"), object(vec![("type", text("string")), ("value", text("old"))])]),
                Json::Array(vec![num(5), object(vec![("type", text("string")), ("value", text("skipped"))])]),
                Json::Array(vec![text("k"), object(vec![("type", text("string")), ("value", text("new"))])]),
            ]),
        ),
    ]);
    assert!(same(&remote_value_to_json(&value), &object(vec![("k", text("new"))])));
}

#[test]
fn builds_bidi_websocket_urls() {
    assert_eq!(bidi_ws_url("ws://127.0.0.1:9222/session"), "ws://127.0.0.1:9222/session");
    assert_eq!(bidi_ws_url("wss://remote/session"), "wss://remote/session");
    assert_eq!(bidi_ws_url("http://127.0.0.1:9222/"), "ws://127.0.0.1:9222/session");
    assert_eq!(bidi_ws_url("localhost:4444"), "ws://localhost:4444/session");
}

#[test]
fn maps_bidi_key_values() {
    assert_eq!(key_value("Enter"), "\u{E007}");
    assert_eq!(key_value("\n"), "\u{E007}");
    assert_eq!(key_value("Esc"), "\u{E00C}");
    assert_eq!(key_value("Left"), "\u{E012}");
    assert_eq!(key_value("Space"), " ");
    assert_eq!(key_value("q"), "q");
}

fn request(id: &str, url: &str) -> BidiRequest {
    BidiRequest { request: id.to_string(), url: url.to_string(), method: "GET".to_string() }
}

#[test]
fn logs_each_request_of_the_context_once() {
    let mut log: Vec<BidiNetworkRequest> = Vec::new();
    let sent = NetworkEvent::BeforeRequestSent { context: "ctx".to_string(), request: request("1", "https://a.test/") };
    dispatch(&mut log, "ctx", &sent);
    dispatch(&mut log, "ctx", &sent);
    let other = NetworkEvent::BeforeRequestSent { context: "other".to_string(), request: request("2", "https://b.test/") };
    dispatch(&mut log, "ctx", &other);
    let no_id = NetworkEvent::BeforeRequestSent { context: "ctx".to_string(), request: request("", "https://c.test/") };
    dispatch(&mut log, "ctx", &no_id);
    assert_eq!(log.len(), 1);
    assert_eq!(log[0].request_id, "1");
    assert_eq!(log[0].url, "https://a.test/");
    assert_eq!(log[0].status, None);
}

#[test]
fn notes_responses_and_failures() {
    let mut log: Vec<BidiNetworkRequest> = Vec::new();
    dispatch(&mut log, "ctx", &NetworkEvent::BeforeRequestSent { context: "ctx".to_string(), request: request("1", "u1") });
    dispatch(&mut log, "ctx", &NetworkEvent::BeforeRequestSent { context: "ctx".to_string(), request: request("2", "u2") });
    dispatch(
        &mut log,
        "ctx",
        &NetworkEvent::ResponseCompleted {
            context: "ctx".to_string(),
            request: request("1", "u1"),
            response: BidiResponse { status: 200, status_text: "OK".to_string(), mime_type: "text/html".to_string() },
        },
    );
    dispatch(
        &mut log,
        "ctx",
        &NetworkEvent::FetchError { context: "ctx".to_string(), request: request("2", "u2"), error_text: "NS_ERROR".to_string() },
    );
    assert_eq!(log[0].status, Some(200));
    assert_eq!(log[0].status_text.as_deref(), Some("OK"));
    assert_eq!(log[0].mime_type.as_deref(), Some("text/html"));
    assert_eq!(log[0].failure, None);
    assert_eq!(log[1].failure.as_deref(), Some("NS_ERROR"));
    assert_eq!(log[1].status, None);
}

#[test]
fn names_network_event_kinds() {
    assert!(matches!(network_event_kind("network.beforeRequestSent"), Some(NetworkEventKind::BeforeRequestSent)));
    assert!(matches!(network_event_kind("network.responseCompleted"), Some(NetworkEventKind::ResponseCompleted)));
    assert!(matches!(network_event_kind("network.fetchError"), Some(NetworkEventKind::FetchError)));
    assert!(network_event_kind("log.entryAdded").is_none());
}

#[test]
fn reads_cookies_from_storage_results() {
    let result = object(vec![(
        "cookies",
        Json::Array(vec![
            object(vec![
                ("name", text("sid")),
                ("value", object(vec![("type", text("string")), ("value", text("abc"))])),
                ("domain", text("example.com")),
                ("path", text("/")),
                ("httpOnly", Json::Bool(true)),
                ("secure", text("yes")),
                ("sameSite", text("lax")),
                ("expiry", num(1_700_000_000)),
            ]),
            object(vec![("name", num(3))]),
        ]),
    )]);
    let cookies = cookies_from_result(&result);
    assert_eq!(cookies.len(), 2);
    assert_eq!(cookies[0].name, "sid");
    assert_eq!(cookies[0].value, "abc");
    assert_eq!(cookies[0].domain, "example.com");
    assert_eq!(cookies[0].path, "/");
    assert!(cookies[0].http_only);
    assert!(!cookies[0].secure);
    assert_eq!(cookies[0].same_site.as_deref(), Some("lax"));
    assert_eq!(cookies[0].expiry, Some(1_700_000_000));
    assert_eq!(cookies[1].name, "");
    assert_eq!(cookies[1].expiry, None);
    assert!(cookies_from_result(&object(vec![])).is_empty());
}

#[test]
fn reads_the_browser_version_capability() {
    let caps = object(vec![("browserVersion", text("128.0"))]);
    assert_eq!(browser_version(&caps).as_deref(), Some("128.0"));
    assert_eq!(browser_version(&object(vec![("browserVersion", num(1))])), None);
}

fn context(id: &str, url: &str, children: Option<Vec<BrowsingContextInfo>>) -> BrowsingContextInfo {
    BrowsingContextInfo { context: id.to_string(), url: url.to_string(), parent: None, user_context: None, children }
}

#[test]
fn flattens_child_frames_depth_first() {
    let tree = context(
        "top",
        "https://top.test/",
        Some(vec![
            context("a", "https://a.test/", Some(vec![context("a1", "https://a1.test/", None)])),
            context("b", "https://b.test/", Some(vec![])),
        ]),
    );
    let mut frames = Vec::new();
    collect_frames(&tree, &mut frames);
    let ids: Vec<&str> = frames.iter().map(|(id, _)| id.as_str()).collect();
    assert_eq!(ids, vec!["a", "a1", "b"]);
    assert_eq!(frames[1].1, "https://a1.test/");
}

#[test]
fn restoring_storage_writes_the_current_origins_items() {
    let item = |n: &str, v: &str| BidiStorageItem { name: n.to_string(), value: v.to_string() };
    let state = BidiStorageState {
        cookies: Vec::new(),
        origins: vec![
            BidiOriginStorage { origin: "https://a.test".to_string(), local_storage: vec![item("k1", "v1")] },
            BidiOriginStorage { origin: "https://b.test".to_string(), local_storage: vec![item("x", "y")] },
            BidiOriginStorage { origin: "https://a.test".to_string(), local_storage: vec![item("k2", "v2")] },
        ],
    };
    assert_eq!(
        restore_items(&state, "https://a.test"),
        vec![("k1".to_string(), "v1".to_string()), ("k2".to_string(), "v2".to_string())]
    );
    assert!(restore_items(&state, "https://c.test").is_empty());
}

#[test]
fn screenshots_decode_from_base64() {
    assert_eq!(decode_screenshot("iVBORw==").unwrap(), vec![0x89, b'P', b'N', b'G']);
    match decode_screenshot("not base64!") {
        Err(BidiError::Unexpected(message)) => assert!(message.starts_with("invalid screenshot data: ")),
        other => panic!("expected an error, got {other:?}"),
    }
}

#[test]
fn cycles_become_null() {
    // a = {}; a.self = a: the back-reference carries no value
    let value = object(vec![
        ("type", text("object")),
        ("internalId", text("1")),
        (
            "value",
            Json::Array(vec![Json::Array(vec![
                text("self"),
                object(vec![("type", text("object")), ("internalId", text("1"))]),
            ])]),
        ),
    ]);
    assert!(same(&remote_value_to_json(&value), &object(vec![("self", Json::Null)])));
    let array_back = object(vec![("type", text("array")), ("internalId", text("2"))]);
    assert!(same(&remote_value_to_json(&array_back), &Json::Null));
}

#[test]
fn tabs_belong_to_their_user_context() {
    let tab = |parent: Option<&str>, user: Option<&str>| BrowsingContextInfo {
        context: "c".to_string(),
        url: "about:blank".to_string(),
        parent: parent.map(str::to_string),
        user_context: user.map(str::to_string),
        children: None,
    };
    assert!(rustwright::bidi::is_tab_of(&tab(None, Some("u1")), "u1"));
    assert!(!rustwright::bidi::is_tab_of(&tab(None, Some("u2")), "u1"));
    assert!(!rustwright::bidi::is_tab_of(&tab(Some("p"), Some("u1")), "u1"));
    assert!(!rustwright::bidi::is_tab_of(&tab(None, None), "u1"));
}
