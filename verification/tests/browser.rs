use rustwright::chrome::Chrome;
use rustwright::firefox::is_sandboxed_launcher;
use rustwright::launch::{build_args, parse_active_port};

#[test]
fn parses_devtools_active_port_file() {
    let contents = "54321\n/devtools/browser/abc-def\n";
    let (endpoint, ws_url) = parse_active_port(contents).expect("parsed");
    assert_eq!(endpoint.port, 54321);
    assert_eq!(endpoint.host, "127.0.0.1");
    assert_eq!(ws_url, "ws://127.0.0.1:54321/devtools/browser/abc-def");
}

#[test]
fn rejects_malformed_active_port_file() {
    assert!(parse_active_port("not-a-port\n/devtools/browser/x").is_none());
    assert!(parse_active_port("1234\nno-leading-slash").is_none());
    assert!(parse_active_port("").is_none());
}

#[test]
fn build_args_includes_profile_and_headless_flags() {
    let chrome = Chrome::installed().headless(true).arg("--custom-flag");
    let args = build_args(&chrome, "/tmp/profile", 0, true);
    assert!(args.iter().any(|arg| arg == "--remote-debugging-port=0"));
    assert!(args.iter().any(|arg| arg == "--user-data-dir=/tmp/profile"));
    assert!(args.iter().any(|arg| arg == "--headless=new"));
    assert!(args.iter().any(|arg| arg == "--custom-flag"));
    assert_eq!(args.last().map(String::as_str), Some("about:blank"));
}

#[test]
fn detects_snap_wrapper_scripts() {
    let wrapper = "#!/bin/sh\n# firefox snap wrapper\nif ! [ -x /snap/bin/firefox ]; then exit 1; fi\n";
    assert!(is_sandboxed_launcher(false, "/tmp/rw-firefox/firefox", Some(wrapper)));

    let normal = "a normal build without the marker";
    assert!(!is_sandboxed_launcher(false, "/tmp/rw-firefox/normal-firefox", Some(normal)));
}
