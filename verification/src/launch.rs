//! What a browser is launched with and how its startup is judged.
use vstd::prelude::*;

use std::time::Duration;

use crate::browser_error::BrowserError;
use crate::chrome::{Chrome, ProfileSpec, Profile, strings_view, opt_view};
use crate::discovery::{path_join, spec_path_join};
use crate::firefox::Firefox;
use crate::http::HttpEndpoint;
use crate::text::{append_chars, append_str, chars_of, decimal, lines_of, next_line, parse_unsigned, parse_unsigned_chars, push_decimal, slice_of, str_from, string_of, trim, trim_bounds};

verus! {

/// A string of the characters `v`.
fn owned(v: &Vec<char>) -> (r: String)
    ensures
        r@ == v@,
{
    string_of(v.as_slice())
}

/// `prefix` followed by the decimal digits of `n`.
fn with_number(prefix: &str, n: u64) -> (r: String)
    ensures
        r@ == prefix@ + decimal(n as nat),
{
    let mut v = chars_of(prefix);
    push_decimal(&mut v, n);
    owned(&v)
}

/// `prefix` followed by `rest`.
fn joined(prefix: &str, rest: &str) -> (r: String)
    ensures
        r@ == prefix@ + rest@,
{
    let mut v = chars_of(prefix);
    append_str(&mut v, rest);
    owned(&v)
}

/// The flags Chrome is started with: the remote debugging port, no first-run
/// or default-browser prompts, the user data directory (when the profile is
/// passed as a flag), the headless flags (when headless), the configured extra
/// flags, and `about:blank`.
pub open spec fn chrome_args_spec(chrome: crate::chrome::ChromeSpec, user_data_dir: Seq<char>, port: u16, use_profile_arg: bool) -> Seq<Seq<char>> {
    seq!["--remote-debugging-port="@ + decimal(port as nat), "--no-first-run"@, "--no-default-browser-check"@]
        + (if use_profile_arg { seq!["--user-data-dir="@ + user_data_dir] } else { seq![] })
        + (if chrome.headless {
            seq!["--headless=new"@, "--disable-gpu"@, "--hide-scrollbars"@, "--mute-audio"@]
        } else {
            seq![]
        })
        + chrome.args
        + seq!["about:blank"@]
}

/// Chrome's flags start with the debugging port; they name the user data
/// directory exactly when the profile is passed as a flag, and run it
/// headless (`--headless=new`) exactly when it is configured so (unless the
/// caller's own extra flags say the same); they end with `about:blank`.
pub proof fn lemma_chrome_flags(chrome: crate::chrome::ChromeSpec, user_data_dir: Seq<char>, port: u16, use_profile_arg: bool)
    requires
        !chrome.args.contains("--headless=new"@),
        !chrome.args.contains("--user-data-dir="@ + user_data_dir),
    ensures
        chrome_args_spec(chrome, user_data_dir, port, use_profile_arg)[0] == "--remote-debugging-port="@ + decimal(port as nat),
        chrome_args_spec(chrome, user_data_dir, port, use_profile_arg).contains("--headless=new"@) <==> chrome.headless,
        chrome_args_spec(chrome, user_data_dir, port, use_profile_arg).contains("--user-data-dir="@ + user_data_dir)
            <==> use_profile_arg,
        chrome_args_spec(chrome, user_data_dir, port, use_profile_arg).last() == "about:blank"@,
{
    reveal_strlit("--remote-debugging-port=");
    reveal_strlit("--no-first-run");
    reveal_strlit("--no-default-browser-check");
    reveal_strlit("--user-data-dir=");
    reveal_strlit("--headless=new");
    reveal_strlit("--disable-gpu");
    reveal_strlit("--hide-scrollbars");
    reveal_strlit("--mute-audio");
    reveal_strlit("about:blank");
    let portflag = "--remote-debugging-port="@ + decimal(port as nat);
    let dirflag = "--user-data-dir="@ + user_data_dir;
    let head = seq![portflag, "--no-first-run"@, "--no-default-browser-check"@];
    let pr: Seq<Seq<char>> = if use_profile_arg { seq![dirflag] } else { seq![] };
    let hl: Seq<Seq<char>> = if chrome.headless {
        seq!["--headless=new"@, "--disable-gpu"@, "--hide-scrollbars"@, "--mute-audio"@]
    } else {
        seq![]
    };
    let a = chrome_args_spec(chrome, user_data_dir, port, use_profile_arg);
    assert(a =~= head + pr + hl + chrome.args + seq!["about:blank"@]);
    let n1 = 3 + pr.len();
    let n2 = n1 + hl.len();
    let n3 = n2 + chrome.args.len();
    assert(a[0] == portflag);
    assert(a.last() == "about:blank"@);
    // what each stretch of the flags holds
    assert forall|i: int| n2 <= i < n3 implies a[i] == chrome.args[i - n2] by {}
    // "--headless=new" only among the headless flags
    assert("--headless=new"@.len() == 14);
    assert(portflag.len() >= 24);
    assert("--no-first-run"@[2] != "--headless=new"@[2]);
    assert("--no-default-browser-check"@.len() != 14);
    assert("--disable-gpu"@.len() != 14);
    assert("--hide-scrollbars"@.len() != 14);
    assert("--mute-audio"@.len() != 14);
    assert("about:blank"@.len() != 14);
    assert(dirflag[2] != "--headless=new"@[2]);
    if chrome.headless {
        assert(a[n1 as int] == "--headless=new"@);
    } else {
        assert forall|i: int| 0 <= i < a.len() implies a[i] != "--headless=new"@ by {
            if n2 <= i < n3 {
                assert(chrome.args[i - n2] == a[i]);
            }
        }
    }
    // the user data directory flag only where the profile is passed
    assert(portflag[2] != dirflag[2]);
    assert("--no-first-run"@[2] != dirflag[2]);
    assert("--no-default-browser-check"@[2] != dirflag[2]);
    assert("--disable-gpu"@[2] != dirflag[2]);
    assert("--hide-scrollbars"@[2] != dirflag[2]);
    assert("--mute-audio"@[2] != dirflag[2]);
    assert("about:blank"@[2] != dirflag[2]);
    if use_profile_arg {
        assert(a[3] == dirflag);
    } else {
        assert forall|i: int| 0 <= i < a.len() implies a[i] != dirflag by {
            if n2 <= i < n3 {
                assert(chrome.args[i - n2] == a[i]);
            }
        }
    }
}

/// The command-line flags used to launch `chrome`.
pub fn build_args(chrome: &Chrome, user_data_dir: &str, port: u16, use_profile_arg: bool) -> (r: Vec<String>)
    ensures
        strings_view(r@) == chrome_args_spec(chrome@, user_data_dir@, port, use_profile_arg),
{
    let mut args: Vec<String> = Vec::new();
    args.push(with_number("--remote-debugging-port=", port as u64));
    args.push(str_from("--no-first-run"));
    args.push(str_from("--no-default-browser-check"));
    let ghost a0 = strings_view(args@);
    assert(a0 =~= seq!["--remote-debugging-port="@ + decimal(port as nat), "--no-first-run"@, "--no-default-browser-check"@]);
    if use_profile_arg {
        args.push(joined("--user-data-dir=", user_data_dir));
    }
    let ghost a1 = strings_view(args@);
    assert(a1 =~= a0 + (if use_profile_arg { seq!["--user-data-dir="@ + user_data_dir@] } else { seq![] }));
    if chrome.is_headless() {
        args.push(str_from("--headless=new"));
        args.push(str_from("--disable-gpu"));
        args.push(str_from("--hide-scrollbars"));
        args.push(str_from("--mute-audio"));
    }
    let ghost a2 = strings_view(args@);
    assert(a2 =~= a1 + (if chrome@.headless {
        seq!["--headless=new"@, "--disable-gpu"@, "--hide-scrollbars"@, "--mute-audio"@]
    } else {
        seq![]
    }));
    crate::discovery::extend_strings(&mut args, chrome.extra_args());
    args.push(str_from("about:blank"));
    assert(strings_view(args@) =~= chrome_args_spec(chrome@, user_data_dir@, port, use_profile_arg));
    args
}

/// How the user data directory of a launch is set up.
pub struct ProfilePlan {
    /// The user data directory in use.
    pub user_data_dir: String,
    /// Whether the profile is temporary (removed when the browser is dropped).
    pub ephemeral: bool,
    /// Where Chrome writes `DevToolsActivePort`, when the profile is passed as a flag.
    pub active_port_dir: Option<String>,
    /// Whether the directory must be created before launch.
    pub create: bool,
}

/// How `chrome`'s profile is set up, given a fresh temporary directory name:
/// a throwaway profile lives in the fresh directory and is created and later
/// removed; a persistent profile uses its own directory, created if missing;
/// the default profile passes no directory flag (the fresh name only labels
/// the launch) and the endpoint is found over HTTP.
pub fn prepare_profile(chrome: &Chrome, fresh_dir: &str) -> (r: ProfilePlan)
    ensures
        match chrome@.profile {
            ProfileSpec::Ephemeral => r.user_data_dir@ == fresh_dir@ && r.ephemeral
                && opt_view(r.active_port_dir) == Some(fresh_dir@) && r.create,
            ProfileSpec::Persistent(path) => r.user_data_dir@ == path && !r.ephemeral
                && opt_view(r.active_port_dir) == Some(path) && r.create,
            ProfileSpec::Default => r.user_data_dir@ == fresh_dir@ && !r.ephemeral
                && r.active_port_dir is None && !r.create,
        },
{
    match chrome.profile_mode() {
        Profile::Ephemeral => ProfilePlan {
            user_data_dir: str_from(fresh_dir),
            ephemeral: true,
            active_port_dir: Some(str_from(fresh_dir)),
            create: true,
        },
        Profile::Persistent(path) => ProfilePlan {
            user_data_dir: path.clone(),
            ephemeral: false,
            active_port_dir: Some(path.clone()),
            create: true,
        },
        Profile::Default => ProfilePlan {
            user_data_dir: str_from(fresh_dir),
            ephemeral: false,
            active_port_dir: None,
            create: false,
        },
    }
}

/// Where Chrome's stderr is captured: `rustwright-chrome.log` in the user
/// data directory, when capture is enabled.
pub fn chrome_stderr_log(chrome: &Chrome, user_data_dir: &str) -> (r: Option<String>)
    ensures
        opt_view(r) == if chrome@.capture_stderr {
            Some(spec_path_join(user_data_dir@, "rustwright-chrome.log"@))
        } else {
            None
        },
{
    if chrome.captures_stderr() {
        Some(path_join(user_data_dir, "rustwright-chrome.log"))
    } else {
        None
    }
}

/// The endpoint and browser WebSocket URL that a `DevToolsActivePort` file
/// announces: its first line is the port, its second the browser's WebSocket
/// path (starting with `/`), each with surrounding white space ignored.
pub open spec fn active_port_spec(contents: Seq<char>) -> Option<(nat, Seq<char>)> {
    let lines = lines_of(contents);
    if lines.len() == 0 {
        None
    } else {
        match parse_unsigned(trim(lines[0]), 10, 65535) {
            None => None,
            Some(port) => if lines.len() < 2 {
                None
            } else {
                let path = trim(lines[1]);
                if path.len() > 0 && path[0] == '/' {
                    Some((port, path))
                } else {
                    None
                }
            },
        }
    }
}

/// Parse a `DevToolsActivePort` file into the loopback endpoint and the
/// browser-level WebSocket URL `ws://127.0.0.1:{port}{path}`.
pub fn parse_active_port(contents: &str) -> (r: Option<(HttpEndpoint, String)>)
    ensures
        match active_port_spec(contents@) {
            Some((port, path)) => r matches Some((endpoint, ws_url)) && endpoint.host@ == "127.0.0.1"@
                && endpoint.port == port && ws_url@ == "ws://127.0.0.1:"@ + decimal(port) + path,
            None => r is None,
        },
{
    let v = chars_of(contents);
    let ghost all = v@.subrange(0, v@.len() as int);
    assert(all =~= v@);
    if v.len() == 0 {
        assert(lines_of(contents@) =~= seq![]);
        return None;
    }
    let (end0, next0) = next_line(&v, 0);
    let ghost first = v@.subrange(0, end0 as int);
    let ghost rest = v@.subrange(next0 as int, v@.len() as int);
    assert(lines_of(contents@)[0] == first);
    let (lo, hi) = trim_bounds(&slice_of(&v, 0, end0));
    let line0 = slice_of(&v, 0, end0);
    let port = match parse_unsigned_chars(&line0, lo, hi, 10, 65535) {
        Some(p) => p,
        None => return None,
    };
    if next0 == v.len() {
        assert(rest.len() == 0);
        assert(lines_of(rest) =~= seq![]);
        assert(lines_of(contents@).len() == 1);
        return None;
    }
    let (end1, next1) = next_line(&v, next0);
    let line1 = slice_of(&v, next0, end1);
    assert(lines_of(contents@)[1] == line1@);
    let (plo, phi) = trim_bounds(&line1);
    if plo == phi || line1[plo] != '/' {
        return None;
    }
    let path = slice_of(&line1, plo, phi);
    let endpoint = HttpEndpoint { host: str_from("127.0.0.1"), port: port as u16 };
    let mut url = chars_of("ws://127.0.0.1:");
    push_decimal(&mut url, port);
    append_chars(&mut url, &path);
    Some((endpoint, owned(&url)))
}

/// The log path reported in startup errors.
pub fn log_path(stderr_log: &Option<String>) -> (r: String)
    ensures
        r@ == match stderr_log {
            Some(p) => p@,
            None => "<stderr capture disabled>"@,
        },
{
    match stderr_log {
        Some(p) => p.clone(),
        None => str_from("<stderr capture disabled>"),
    }
}

/// What one poll of a starting browser decides.
pub enum StartupPoll<T> {
    /// The endpoint is ready.
    Ready(T),
    /// Startup failed.
    Failed(BrowserError),
    /// Wait and poll again.
    Wait,
}

/// One poll of a starting browser: ready once the endpoint answers; failed
/// with [`BrowserError::EarlyExit`] once the process has exited; failed with
/// [`BrowserError::StartupTimeout`] once the deadline has passed; otherwise
/// wait.
pub fn startup_poll<T>(
    ready: Option<T>,
    exit_status: Option<String>,
    timed_out: bool,
    timeout: Duration,
    stderr_log: &Option<String>,
) -> (r: StartupPoll<T>)
    ensures
        match ready {
            Some(t) => r == StartupPoll::Ready(t),
            None => match exit_status {
                Some(status) => r matches StartupPoll::Failed(BrowserError::EarlyExit { status: s, log_path: l })
                    && s == status && l@ == (match stderr_log { Some(p) => p@, None => "<stderr capture disabled>"@ }),
                None => if timed_out {
                    r matches StartupPoll::Failed(BrowserError::StartupTimeout { timeout: t, log_path: l })
                        && t == timeout && l@ == (match stderr_log { Some(p) => p@, None => "<stderr capture disabled>"@ })
                } else {
                    r is Wait
                },
            },
        },
{
    if let Some(t) = ready {
        return StartupPoll::Ready(t);
    }
    if let Some(status) = exit_status {
        return StartupPoll::Failed(BrowserError::EarlyExit { status, log_path: log_path(stderr_log) });
    }
    if timed_out {
        return StartupPoll::Failed(BrowserError::StartupTimeout { timeout, log_path: log_path(stderr_log) });
    }
    StartupPoll::Wait
}

/// The profile Firefox is launched with: none for a sandboxed build (it
/// cannot read arbitrary profile paths), else the configured one.
pub fn effective_profile(firefox: &Firefox, sandboxed: bool) -> (r: Option<String>)
    ensures
        opt_view(r) == if sandboxed { None } else { firefox@.profile },
{
    if sandboxed {
        None
    } else {
        match firefox.profile_path() {
            Some(p) => Some(p.clone()),
            None => None,
        }
    }
}

/// The flags Firefox is started with: `--headless` (when headless),
/// `--no-remote`, the profile (when one is used), the remote debugging port,
/// the configured extra flags, and `about:blank`.
pub open spec fn firefox_args_spec(firefox: crate::firefox::FirefoxSpec, profile: Option<Seq<char>>, port: u16) -> Seq<Seq<char>> {
    (if firefox.headless { seq!["--headless"@] } else { seq![] })
        + seq!["--no-remote"@]
        + (match profile { Some(p) => seq!["--profile"@, p], None => seq![] })
        + seq!["--remote-debugging-port="@ + decimal(port as nat)]
        + firefox.args
        + seq!["about:blank"@]
}

/// Firefox runs headless exactly when it is configured so: its flags start
/// with `--headless` when headless, and hold no `--headless` otherwise
/// (unless the caller's own extra flags or profile path are that word); they
/// always hold `--no-remote` and the debugging port, and end with
/// `about:blank`.
pub proof fn lemma_firefox_headless_flag(firefox: crate::firefox::FirefoxSpec, profile: Option<Seq<char>>, port: u16)
    requires
        !firefox.args.contains("--headless"@),
        profile != Some("--headless"@),
    ensures
        firefox_args_spec(firefox, profile, port).contains("--headless"@) <==> firefox.headless,
        firefox.headless ==> firefox_args_spec(firefox, profile, port)[0] == "--headless"@,
        firefox_args_spec(firefox, profile, port).contains("--no-remote"@),
        firefox_args_spec(firefox, profile, port).contains("--remote-debugging-port="@ + decimal(port as nat)),
        firefox_args_spec(firefox, profile, port).last() == "about:blank"@,
{
    reveal_strlit("--headless");
    reveal_strlit("--no-remote");
    reveal_strlit("--profile");
    reveal_strlit("--remote-debugging-port=");
    reveal_strlit("about:blank");
    let h: Seq<Seq<char>> = if firefox.headless { seq!["--headless"@] } else { seq![] };
    let pr: Seq<Seq<char>> = match profile { Some(p) => seq!["--profile"@, p], None => seq![] };
    let portflag = "--remote-debugging-port="@ + decimal(port as nat);
    let a = firefox_args_spec(firefox, profile, port);
    let b = seq!["--no-remote"@] + pr + seq![portflag] + firefox.args + seq!["about:blank"@];
    assert(a =~= h + b);
    assert(b[0] == "--no-remote"@);
    assert(a[h.len() as int] == "--no-remote"@);
    assert(b[(1 + pr.len()) as int] == portflag);
    assert(a[(h.len() + 1 + pr.len()) as int] == portflag);
    assert(a.last() == "about:blank"@);
    if firefox.headless {
        assert(a[0] == "--headless"@);
    } else {
        assert(a =~= b);
        assert forall|i: int| 0 <= i < b.len() implies b[i] != "--headless"@ by {
            assert("--no-remote"@.len() != "--headless"@.len());
            assert("--profile"@.len() != "--headless"@.len());
            assert(portflag.len() != "--headless"@.len());
            assert("about:blank"@.len() != "--headless"@.len());
            if 1 + pr.len() + 1 <= i < 1 + pr.len() + 1 + firefox.args.len() {
                assert(b[i] == firefox.args[i - (1 + pr.len() + 1)]);
            }
        }
    }
}

/// The command-line flags used to launch `firefox` with `profile` on `port`.
pub fn firefox_launch_args(firefox: &Firefox, profile: &Option<String>, port: u16) -> (r: Vec<String>)
    ensures
        strings_view(r@) == firefox_args_spec(firefox@, opt_view(*profile), port),
{
    let mut args: Vec<String> = Vec::new();
    if firefox.is_headless() {
        args.push(str_from("--headless"));
    }
    args.push(str_from("--no-remote"));
    let ghost a0 = strings_view(args@);
    assert(a0 =~= (if firefox@.headless { seq!["--headless"@] } else { seq![] }) + seq!["--no-remote"@]);
    match profile {
        Some(p) => {
            args.push(str_from("--profile"));
            args.push(p.clone());
        },
        None => {},
    }
    let ghost a1 = strings_view(args@);
    assert(a1 =~= a0 + (match opt_view(*profile) { Some(p) => seq!["--profile"@, p], None => seq![] }));
    args.push(with_number("--remote-debugging-port=", port as u64));
    let ghost a2 = strings_view(args@);
    assert(a2 =~= a1 + seq!["--remote-debugging-port="@ + decimal(port as nat)]);
    crate::discovery::extend_strings(&mut args, firefox.extra_args());
    let ghost a3 = strings_view(args@);
    assert(a3 == a2 + firefox@.args);
    args.push(str_from("about:blank"));
    assert(strings_view(args@) =~= a3 + seq!["about:blank"@]);
    assert(strings_view(args@) =~= firefox_args_spec(firefox@, opt_view(*profile), port));
    args
}

/// The WebDriver BiDi WebSocket URL of a Firefox listening on `port`.
pub fn firefox_ws_url(port: u16) -> (r: String)
    ensures
        r@ == "ws://127.0.0.1:"@ + decimal(port as nat) + "/session"@,
{
    let mut v = chars_of("ws://127.0.0.1:");
    push_decimal(&mut v, port as u64);
    append_str(&mut v, "/session");
    owned(&v)
}

}
