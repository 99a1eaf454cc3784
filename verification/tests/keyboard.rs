use rustwright::bidi::{frame_for_src, press_key_actions, typing_actions};
use rustwright::json::{Json, JsonNumber};
use rustwright::selectors::{locator_description, locator_spec, Selector};
use rustwright::route::{Route, RouteAction, RouteTable};

fn field<'a>(value: &'a Json, key: &str) -> &'a Json {
    match value {
        Json::Object(entries) => &entries.iter().find(|(k, _)| k == key).expect("missing field").1,
        _ => panic!("not an object"),
    }
}

fn text(value: &Json) -> &str {
    match value {
        Json::String(s) => s.as_str(),
        _ => panic!("not a string"),
    }
}

fn items(value: &Json) -> &Vec<Json> {
    match value {
        Json::Array(items) => items,
        _ => panic!("not an array"),
    }
}

fn strokes(actions: &Json) -> Vec<(String, String)> {
    let sources = items(actions);
    assert_eq!(sources.len(), 1);
    assert_eq!(text(field(&sources[0], "type")), "key");
    assert_eq!(text(field(&sources[0], "id")), "rustwright-keyboard");
    items(field(&sources[0], "actions"))
        .iter()
        .map(|a| (text(field(a, "type")).to_string(), text(field(a, "value")).to_string()))
        .collect()
}

#[test]
fn pressing_enter_sends_its_code_point() {
    let actions = press_key_actions("Enter");
    assert_eq!(
        strokes(&actions),
        vec![
            ("keyDown".to_string(), "\u{E007}".to_string()),
            ("keyUp".to_string(), "\u{E007}".to_string())
        ]
    );
}

#[test]
fn pressing_a_plain_key_sends_it_as_is() {
    let actions = press_key_actions("q");
    assert_eq!(strokes(&actions), vec![("keyDown".to_string(), "q".to_string()), ("keyUp".to_string(), "q".to_string())]);
}

#[test]
fn typing_strokes_each_character() {
    let actions = typing_actions("hé").expect("actions");
    assert_eq!(
        strokes(&actions),
        vec![
            ("keyDown".to_string(), "h".to_string()),
            ("keyUp".to_string(), "h".to_string()),
            ("keyDown".to_string(), "é".to_string()),
            ("keyUp".to_string(), "é".to_string()),
        ]
    );
    assert!(typing_actions("").is_none());
}

#[test]
fn frames_are_found_by_their_src() {
    let urls = vec![
        "https://example.com/".to_string(),
        "https://example.com/embed/widget.html".to_string(),
        "https://example.com/embed/widget.html?x=1".to_string(),
    ];
    assert_eq!(frame_for_src(&urls, "/embed/widget.html"), Some(1));
    assert_eq!(frame_for_src(&urls, "https://example.com/"), Some(0));
    assert_eq!(frame_for_src(&urls, "https://other.test/"), None);
    assert_eq!(frame_for_src(&urls, ""), None);
}

#[test]
fn the_first_rule_switches_interception_on() {
    let mut table = RouteTable::new();
    assert!(table.is_empty());
    assert!(table.add(Route::new("*.png", RouteAction::Abort)));
    assert!(!table.add(Route::new("/api/", RouteAction::Continue)));
    assert_eq!(table.routes().len(), 2);
    assert!(table.clear());
    assert!(table.is_empty());
    assert!(!table.clear());
}

#[test]
fn an_added_rule_does_not_override_an_earlier_match() {
    let mut table = RouteTable::new();
    table.add(Route::new("/api/", RouteAction::Abort));
    assert_eq!(table.decide("https://example.com/api/items"), Some(0));
    table.add(Route::new("*items*", RouteAction::Continue));
    assert_eq!(table.decide("https://example.com/api/items"), Some(0));
    assert_eq!(table.decide("https://example.com/items"), Some(1));
    assert_eq!(table.decide("https://example.com/"), None);
}

#[test]
fn locators_describe_their_index() {
    let selector = Selector::css("li.item");
    assert_eq!(locator_description(&selector, None), "css=li.item");
    assert_eq!(locator_description(&selector, Some(2)), "css=li.item nth=2");
    assert_eq!(locator_description(&selector, Some(-1)), "css=li.item nth=-1");
    assert_eq!(locator_description(&selector, Some(i64::MIN)), "css=li.item nth=-9223372036854775808");
}

#[test]
fn locator_specs_carry_their_index() {
    let selector = Selector::css("li.item");
    let spec = locator_spec(&selector, Some(-1));
    assert_eq!(text(field(&spec, "kind")), "css");
    assert_eq!(text(field(&spec, "value")), "li.item");
    assert!(matches!(field(&spec, "nth"), Json::Number(JsonNumber::NegInt(-1))));
    let first = locator_spec(&selector, Some(0));
    assert!(matches!(field(&first, "nth"), Json::Number(JsonNumber::PosInt(0))));
    let all = locator_spec(&selector, None);
    match all {
        Json::Object(entries) => assert!(entries.iter().all(|(k, _)| k != "nth")),
        _ => panic!("not an object"),
    }
}
