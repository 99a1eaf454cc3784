use rustwright::error::AutomationError;
use rustwright::page::history_entry;
use rustwright::protocol::page::{GetNavigationHistoryResult, NavigationEntry};
use rustwright::frames::{LifecycleStates, PageFrames};
use rustwright::protocol::page::{Frame, FrameTree};

fn frame(id: &str, parent: Option<&str>, url: &str) -> Frame {
    Frame {
        id: id.to_string(),
        parent_id: parent.map(str::to_string),
        loader_id: Some("L".to_string()),
        url: url.to_string(),
        name: String::new(),
        security_origin: String::new(),
        mime_type: "text/html".to_string(),
    }
}

#[test]
fn tracks_frames_and_main_navigations() {
    let mut page = PageFrames::new();
    page.frame_attached("child", "main");
    page.frame_attached("child", "");
    assert_eq!(page.frame_info("child").unwrap().parent_id.as_deref(), Some("main"));
    page.frame_navigated(&frame("main", None, "https://example.com/"));
    assert_eq!(page.main_frame_id(), "main");
    assert_eq!(page.url(), "https://example.com/");
    page.frame_navigated(&frame("child", Some("main"), "https://ads.test/"));
    assert_eq!(page.url(), "https://example.com/");
    assert_eq!(page.frame_info("child").unwrap().url, "https://ads.test/");
    page.context_created("child", 11);
    page.context_created("main", 12);
    assert_eq!(page.execution_context_id(Some("child")), Some(11));
    assert_eq!(page.execution_context_id(Some("main")), Some(12));
    page.context_destroyed(11);
    assert_eq!(page.execution_context_id(Some("child")), None);
    let ids = page.frame_ids();
    assert_eq!(ids, vec![("main".to_string(), true), ("child".to_string(), false)]);
    page.frame_detached("child");
    assert!(page.frame_info("child").is_none());
    assert_eq!(page.execution_context_id(None), None);
}

#[test]
fn seeds_frames_from_the_frame_tree() {
    let mut page = PageFrames::new();
    page.frame_attached("stale", "");
    let tree = FrameTree {
        frame: frame("root", None, "https://r.test/"),
        child_frames: vec![
            FrameTree { frame: frame("c1", Some("root"), "https://c1.test/"), child_frames: vec![] },
            FrameTree { frame: frame("c2", Some("root"), "https://c2.test/"), child_frames: vec![] },
        ],
    };
    page.seed(&tree);
    assert!(page.frame_info("stale").is_none());
    assert_eq!(page.main_frame_id(), "root");
    let ids: Vec<String> = page.frame_ids().into_iter().map(|(id, _)| id).collect();
    assert_eq!(ids, vec!["root".to_string(), "c2".to_string(), "c1".to_string()]);
}

#[test]
fn remembers_lifecycle_states_until_reset() {
    let mut states = LifecycleStates::new();
    assert!(!states.has("load"));
    states.mark("DOMContentLoaded");
    states.mark("load");
    states.mark("load");
    assert!(states.has("load"));
    states.reset();
    assert!(!states.has("load"));
}

#[test]
fn a_created_context_is_found_and_others_are_untouched() {
    let mut page = PageFrames::new();
    page.frame_attached("a", "");
    page.frame_attached("b", "a");
    page.context_created("a", 5);
    page.context_created("new", 6);
    assert_eq!(page.execution_context_id(Some("a")), Some(5));
    assert_eq!(page.execution_context_id(Some("b")), None);
    assert_eq!(page.execution_context_id(Some("new")), Some(6));
    assert!(page.frame_info("new").unwrap().parent_id.is_none());
    page.context_created("a", 7);
    assert_eq!(page.execution_context_id(Some("a")), Some(7));
    page.context_destroyed(7);
    assert_eq!(page.execution_context_id(Some("a")), None);
    assert_eq!(page.execution_context_id(Some("new")), Some(6));
}

#[test]
fn a_detached_frame_is_forgotten_and_others_remain() {
    let mut page = PageFrames::new();
    page.frame_attached("a", "");
    page.frame_attached("b", "a");
    page.frame_attached("c", "a");
    page.frame_detached("b");
    assert!(page.frame_info("b").is_none());
    assert_eq!(page.frame_info("c").unwrap().parent_id.as_deref(), Some("a"));
    page.frame_detached("missing");
    assert_eq!(page.frame_ids().len(), 2);
}

#[test]
fn main_navigations_are_recorded_in_order() {
    let mut page = PageFrames::new();
    page.frame_navigated(&frame("main", None, "https://one.test/"));
    page.frame_navigated(&frame("sub", Some("main"), "https://ad.test/"));
    page.frame_navigated(&frame("main", None, "https://two.test/"));
    let urls: Vec<String> = page.navigations().into_iter().map(|n| n.url).collect();
    assert_eq!(urls, vec!["https://one.test/".to_string(), "https://two.test/".to_string()]);
}

#[test]
fn evaluation_contexts_are_chosen_by_frame() {
    let mut page = PageFrames::new();
    page.frame_attached("sub", "main");
    assert!(matches!(page.expect_context_id(None), Ok(None)));
    match page.expect_context_id(Some("sub")) {
        Err(AutomationError::JavaScript(message)) => {
            assert_eq!(message, "execution context for frame sub is not available yet")
        }
        other => panic!("unexpected {other:?}"),
    }
    page.context_created("sub", 3);
    assert!(matches!(page.expect_context_id(Some("sub")), Ok(Some(3))));
}

#[test]
fn history_entries_are_found_by_offset() {
    let entry = |id: i64| NavigationEntry { id, url: format!("https://e{id}.test/"), title: String::new() };
    let history = GetNavigationHistoryResult { current_index: 1, entries: vec![entry(10), entry(11), entry(12)] };
    assert!(matches!(history_entry(&history, -1), Ok(10)));
    assert!(matches!(history_entry(&history, 1), Ok(12)));
    match history_entry(&history, 2) {
        Err(AutomationError::Navigation(message)) => assert_eq!(message, "no history entry at offset 2"),
        other => panic!("unexpected {other:?}"),
    }
    match history_entry(&history, -2) {
        Err(AutomationError::Navigation(message)) => assert_eq!(message, "no history entry at offset -2"),
        other => panic!("unexpected {other:?}"),
    }
}
