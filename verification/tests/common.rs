use rustwright::json::{Json, JsonNumber};
use rustwright::route::{first_matching_route, glob_match, Route, RouteAction};
use rustwright::selectors::{Role, Selector};

fn same(a: &Json, b: &Json) -> bool {
    match (a, b) {
        (Json::Null, Json::Null) => true,
        (Json::Bool(x), Json::Bool(y)) => x == y,
        (Json::Number(x), Json::Number(y)) => match (x, y) {
            (JsonNumber::PosInt(p), JsonNumber::PosInt(q)) => p == q,
            (JsonNumber::NegInt(p), JsonNumber::NegInt(q)) => p == q,
            (JsonNumber::Other(p), JsonNumber::Other(q)) => p == q,
            _ => false,
        },
        (Json::String(x), Json::String(y)) => x == y,
        (Json::Array(x), Json::Array(y)) => x.len() == y.len() && x.iter().zip(y.iter()).all(|(p, q)| same(p, q)),
        (Json::Object(x), Json::Object(y)) => {
            x.len() == y.len() && x.iter().all(|(k, v)| y.iter().any(|(k2, v2)| k == k2 && same(v, v2)))
        },
        _ => false,
    }
}

fn text(s: &str) -> Json {
    Json::String(s.to_string())
}

fn object(entries: Vec<(&str, Json)>) -> Json {
    Json::Object(entries.into_iter().map(|(k, v)| (k.to_string(), v)).collect())
}

fn field<'a>(value: &'a Json, key: &str) -> &'a Json {
    match value {
        Json::Object(entries) => &entries.iter().find(|(k, _)| k == key).expect("field").1,
        _ => panic!("not an object"),
    }
}

#[test]
fn substring_matches_when_no_wildcards() {
    let route = Route::new("api.example.com", RouteAction::Abort);
    assert!(route.matches("https://api.example.com/v1"));
    assert!(!route.matches("https://other.example.com/v1"));
}

#[test]
fn glob_matches_wildcards() {
    assert!(glob_match("*", "anything"));
    assert!(glob_match("**/api/*", "https://x.test/api/users"));
    assert!(glob_match("https://x.test/*", "https://x.test/a/b"));
    assert!(!glob_match("https://x.test/*", "https://y.test/a"));
    assert!(glob_match("img?.png", "img1.png"));
    assert!(!glob_match("img?.png", "img10.png"));
}

#[test]
fn route_uses_glob_when_wildcards_present() {
    let route = Route::new("**/ads/**", RouteAction::Abort);
    assert!(route.matches("https://site.test/ads/banner.js"));
    assert!(!route.matches("https://site.test/content.js"));
}

#[test]
fn first_matching_route_wins() {
    let routes = vec![
        Route::new("*.png", RouteAction::Abort),
        Route::new("example", RouteAction::Continue),
        Route::new("example.com", RouteAction::Abort),
    ];
    assert_eq!(first_matching_route(&routes, "https://example.com/a"), Some(1));
    assert_eq!(first_matching_route(&routes, "logo.png"), Some(0));
    assert_eq!(first_matching_route(&routes, "https://other.test/"), None);
}

#[test]
fn serializes_css_specs() {
    let expected = object(vec![("kind", text("css")), ("value", text("input"))]);
    assert!(same(&Selector::css("input").to_spec(), &expected));
}

#[test]
fn serializes_text_specs() {
    let expected = object(vec![("kind", text("text")), ("value", text("Login")), ("exact", Json::Bool(false))]);
    assert!(same(&Selector::text("Login", false).to_spec(), &expected));
}

#[test]
fn serializes_role_specs() {
    let spec = Selector::role(Role::Button, Some("Submit")).to_spec();
    assert!(same(field(&spec, "kind"), &text("role")));
    assert!(same(field(&spec, "role"), &text("button")));
    assert!(same(field(&spec, "name"), &text("Submit")));
}

#[test]
fn describes_selectors_for_errors() {
    assert_eq!(Selector::css("input").describe(), "css=input");
    assert_eq!(Selector::role(Role::Button, Some("Go")).describe(), "role=button name=\"Go\"");
}

#[test]
fn a_bound_field_reads_back() {
    let mut entries: Vec<(String, Json)> = vec![("a".to_string(), text("one")), ("b".to_string(), text("two"))];
    rustwright::json::insert_entry(&mut entries, "a".to_string(), text("uno"));
    rustwright::json::insert_entry(&mut entries, "c".to_string(), text("tres"));
    let object = Json::Object(entries);
    assert!(same(rustwright::json::get(&object, "a").unwrap(), &text("uno")));
    assert!(same(rustwright::json::get(&object, "b").unwrap(), &text("two")));
    assert!(same(rustwright::json::get(&object, "c").unwrap(), &text("tres")));
    match &object {
        Json::Object(entries) => {
            let keys: Vec<&str> = entries.iter().map(|(k, _)| k.as_str()).collect();
            assert_eq!(keys, vec!["a", "b", "c"]);
        }
        _ => panic!("not an object"),
    }
}

#[test]
fn a_star_in_the_text_is_just_a_character() {
    assert!(glob_match("*b", "*ab"));
    assert!(glob_match("a*c", "a*xc"));
    assert!(glob_match("*", "*"));
    assert!(!glob_match("*b", "*a"));
}
