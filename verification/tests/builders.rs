use rustwright::discovery::{firefox_candidates, installed_candidates};
use std::time::Duration;

use rustwright::chrome::{Chrome, ChromeVariant, Profile};
use rustwright::discovery::{Discovery, Probe};
use rustwright::error::AutomationError;
use rustwright::page::TracingOptions;
use rustwright::selectors::Selector;

#[test]
fn variant_display_names() {
    let names: Vec<&str> = ChromeVariant::all().iter().map(|v| v.display_name()).collect();
    assert_eq!(names, vec!["Chrome", "Chromium", "Microsoft Edge", "Brave"]);
}

#[test]
fn profile_builders_switch_the_mode() {
    let chrome = Chrome::installed().profile("/data/p");
    assert!(matches!(chrome.profile_mode(), Profile::Persistent(p) if p == "/data/p"));
    let chrome = chrome.default_profile();
    assert!(matches!(chrome.profile_mode(), Profile::Default));
    let chrome = chrome.ephemeral();
    assert!(matches!(chrome.profile_mode(), Profile::Ephemeral));
}

#[test]
fn searched_paths_lists_every_candidate_in_order() {
    let found = Discovery {
        explicit_is_file: false,
        configured: None,
        candidates: vec![
            Probe { path: "/usr/bin/google-chrome".to_string(), is_file: false },
            Probe { path: "/usr/bin/chromium".to_string(), is_file: true },
        ],
    };
    let chrome = Chrome::installed();
    assert_eq!(
        chrome.searched_paths(&found),
        vec!["/usr/bin/google-chrome".to_string(), "/usr/bin/chromium".to_string()]
    );
    assert_eq!(chrome.executable_path(&found).unwrap(), "/usr/bin/chromium");
}

#[test]
fn timeout_errors_are_recognised() {
    let timeout = AutomationError::Timeout { what: "load".to_string(), timeout: Duration::from_secs(3) };
    assert!(timeout.is_timeout());
    assert!(!AutomationError::PageClosed.is_timeout());
}

#[test]
fn tracing_category_string_adds_screenshots_once() {
    let with_shots = TracingOptions { categories: "v8,loading".to_string(), screenshots: true };
    assert_eq!(with_shots.category_string(), "v8,loading,disabled-by-default-devtools.screenshot");
    let already = TracingOptions {
        categories: "v8,disabled-by-default-devtools.screenshot".to_string(),
        screenshots: true,
    };
    assert_eq!(already.category_string(), "v8,disabled-by-default-devtools.screenshot");
    let without = TracingOptions { categories: "v8".to_string(), screenshots: false };
    assert_eq!(without.category_string(), "v8");
}

#[test]
fn selector_constructors_describe_themselves() {
    assert_eq!(Selector::alt_text("logo", true).describe(), "alt=\"logo\" exact");
    assert_eq!(Selector::alt_text("logo", false).describe(), "alt=\"logo\"");
    assert_eq!(Selector::test_id("submit").describe(), "testid=\"submit\"");
    assert_eq!(Selector::from_css("#main > p").describe(), "css=#main > p");
}

#[test]
fn install_candidates_keep_each_path_once() {
    let s = |v: &[&str]| v.iter().map(|x| x.to_string()).collect::<Vec<String>>();
    let found = installed_candidates(Some("/x/chrome".to_string()), vec![
        s(&["/a/chrome", "/x/chrome"]),
        s(&["/a/chrome", "/b/chromium"]),
    ]);
    assert_eq!(found, s(&["/x/chrome", "/a/chrome", "/b/chromium"]));
    assert_eq!(firefox_candidates(None, s(&["/f", "/f", "/g"])), s(&["/f", "/g"]));
}
