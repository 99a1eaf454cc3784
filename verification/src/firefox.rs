//! The [`Firefox`] builder: which Firefox to launch over WebDriver BiDi and
//! with what options.
use vstd::prelude::*;

use std::time::Duration;

use crate::browser_error::BrowserError;
use crate::chrome::{opt_view, pairs_view, push_string, strings_view};
use crate::discovery::{resolve_executable, resolve_spec, resolve_view, Discovery};
use crate::text::{chars_of, contains_subseq, find_subseq, lower_ascii_seq, str_from, to_ascii_lowercase};
use crate::timing::{default_startup_timeout, spec_duration_from_secs, DEFAULT_STARTUP_TIMEOUT_SECS};

verus! {

/// The model of a [`Firefox`] builder.
pub ghost struct FirefoxSpec {
    pub executable: Option<Seq<char>>,
    pub headless: bool,
    pub profile: Option<Seq<char>>,
    pub args: Seq<Seq<char>>,
    pub envs: Seq<(Seq<char>, Seq<char>)>,
    pub startup_timeout: Duration,
    pub capture_stderr: bool,
}

/// Describes which Firefox to launch and with what options.
///
/// Firefox is driven over WebDriver BiDi; the launcher starts the browser
/// with its remote agent and exposes the BiDi WebSocket URL.
pub struct Firefox {
    executable: Option<String>,
    headless: bool,
    profile: Option<String>,
    args: Vec<String>,
    envs: Vec<(String, String)>,
    startup_timeout: Duration,
    capture_stderr: bool,
}

impl View for Firefox {
    type V = FirefoxSpec;

    closed spec fn view(&self) -> FirefoxSpec {
        FirefoxSpec {
            executable: opt_view(self.executable),
            headless: self.headless,
            profile: opt_view(self.profile),
            args: strings_view(self.args@),
            envs: pairs_view(self.envs@),
            startup_timeout: self.startup_timeout,
            capture_stderr: self.capture_stderr,
        }
    }
}

impl Firefox {
    /// What [`Firefox::installed`] starts from: discovered at launch, with a
    /// visible window, Firefox's own profile handling, no extra flags or
    /// environment, the default startup timeout and stderr captured.
    pub open spec fn installed_spec() -> FirefoxSpec {
        FirefoxSpec {
            executable: None,
            headless: false,
            profile: None,
            args: seq![],
            envs: seq![],
            startup_timeout: spec_duration_from_secs(DEFAULT_STARTUP_TIMEOUT_SECS),
            capture_stderr: true,
        }
    }

    /// Use the first Firefox installed on this machine.
    pub fn installed() -> (r: Firefox)
        ensures
            r@ == Self::installed_spec(),
    {
        let r = Firefox {
            executable: None,
            headless: false,
            profile: None,
            args: Vec::new(),
            envs: Vec::new(),
            startup_timeout: default_startup_timeout(),
            capture_stderr: true,
        };
        assert(strings_view(r.args@) =~= seq![]);
        assert(pairs_view(r.envs@) =~= seq![]);
        r
    }

    /// Use a specific Firefox binary.
    pub fn at(executable: &str) -> (r: Firefox)
        ensures
            r@ == (FirefoxSpec { executable: Some(executable@), ..Self::installed_spec() }),
    {
        let base = Self::installed();
        Firefox { executable: Some(str_from(executable)), ..base }
    }

    /// Run headless (`true`) or with a visible window (`false`).
    pub fn headless(self, headless: bool) -> (r: Firefox)
        ensures
            r@ == (FirefoxSpec { headless, ..self@ }),
    {
        Firefox { headless, ..self }
    }

    /// Use a specific profile directory.
    ///
    /// Sandboxed Firefox builds (for example the Snap) cannot read arbitrary
    /// profile paths; launch then falls back to the default profile.
    pub fn profile(self, path: &str) -> (r: Firefox)
        ensures
            r@ == (FirefoxSpec { profile: Some(path@), ..self@ }),
    {
        Firefox { profile: Some(str_from(path)), ..self }
    }

    /// Append a command-line flag.
    pub fn arg(self, arg: &str) -> (r: Firefox)
        ensures
            r@ == (FirefoxSpec { args: self@.args.push(arg@), ..self@ }),
    {
        let mut args = self.args;
        push_string(&mut args, str_from(arg));
        Firefox { args, ..self }
    }

    /// Set an environment variable for the Firefox process.
    pub fn env(self, key: &str, value: &str) -> (r: Firefox)
        ensures
            r@ == (FirefoxSpec { envs: self@.envs.push((key@, value@)), ..self@ }),
    {
        let mut envs = self.envs;
        envs.push((str_from(key), str_from(value)));
        assert(pairs_view(envs@) =~= pairs_view(self.envs@).push((key@, value@)));
        Firefox { envs, ..self }
    }

    /// Override how long to wait for the BiDi endpoint on launch.
    pub fn startup_timeout(self, timeout: Duration) -> (r: Firefox)
        ensures
            r@ == (FirefoxSpec { startup_timeout: timeout, ..self@ }),
    {
        Firefox { startup_timeout: timeout, ..self }
    }

    /// Capture Firefox's stderr to a log file (default: `true`).
    pub fn capture_stderr(self, capture: bool) -> (r: Firefox)
        ensures
            r@ == (FirefoxSpec { capture_stderr: capture, ..self@ }),
    {
        Firefox { capture_stderr: capture, ..self }
    }

    /// Whether headless mode is enabled.
    pub fn is_headless(&self) -> (r: bool)
        ensures
            r == self@.headless,
    {
        self.headless
    }

    /// The configured startup timeout.
    pub fn startup_timeout_value(&self) -> (r: Duration)
        ensures
            r == self@.startup_timeout,
    {
        self.startup_timeout
    }

    /// Whether stderr capture is enabled.
    pub fn captures_stderr(&self) -> (r: bool)
        ensures
            r == self@.capture_stderr,
    {
        self.capture_stderr
    }

    /// Extra command-line flags.
    pub fn extra_args(&self) -> (r: &[String])
        ensures
            strings_view(r@) == self@.args,
    {
        self.args.as_slice()
    }

    /// Environment overrides.
    pub fn environment(&self) -> (r: &[(String, String)])
        ensures
            pairs_view(r@) == self@.envs,
    {
        self.envs.as_slice()
    }

    /// The configured profile, if any.
    pub fn profile_path(&self) -> (r: Option<&String>)
        ensures
            opt_view(match r { Some(p) => Some(*p), None => None }) == self@.profile,
    {
        match &self.profile {
            Some(p) => Some(p),
            None => None,
        }
    }

    /// The explicitly configured executable, if any.
    pub fn executable(&self) -> (r: Option<&String>)
        ensures
            opt_view(match r { Some(e) => Some(*e), None => None }) == self@.executable,
    {
        match &self.executable {
            Some(e) => Some(e),
            None => None,
        }
    }

    /// Resolve the Firefox executable from what was found on disk: the
    /// explicit binary if it exists, else the binary `RUSTWRIGHT_FIREFOX`
    /// names if it exists, else the first installed candidate.
    pub fn executable_path(&self, found: &Discovery) -> (r: Result<String, BrowserError>)
        ensures
            resolve_view(r) == Some(resolve_spec(self@.executable, *found)),
    {
        let explicit = self.executable();
        resolve_executable(explicit, found)
    }

    /// Whether the resolved Firefox build is sandboxed (for example a Snap):
    /// false when no executable resolves, else [`is_sandboxed_launcher`] on
    /// it, given whether `SNAP` is set and the executable's contents (if it
    /// could be read as text).
    pub fn is_sandboxed(&self, found: &Discovery, snap_env_set: bool, contents: Option<&str>) -> (r: bool)
        ensures
            r == match resolve_spec(self@.executable, *found) {
                Ok(path) => sandboxed_spec(snap_env_set, path, match contents { Some(c) => Some(c@), None => None }),
                Err(_) => false,
            },
    {
        match self.executable_path(found) {
            Ok(path) => is_sandboxed_launcher(snap_env_set, path.as_str(), contents),
            Err(_) => false,
        }
    }
}

/// Whether `path` starts with the path `base`, compared component by
/// component as `Path::starts_with` does.
pub uninterp spec fn spec_path_starts_with(path: Seq<char>, base: Seq<char>) -> bool;

/// `Path::new(path).starts_with(base)`.
#[verifier::external_body]
fn path_starts_with(path: &str, base: &str) -> (r: bool)
    ensures
        r == spec_path_starts_with(path@, base@),
{
    std::path::Path::new(path).starts_with(base)
}

/// Whether a Firefox launcher is sandboxed: the `SNAP` variable is set, the
/// executable lies under `/snap`, or its contents mention `/snap/` or (in any
/// ASCII case) `snap`.
pub open spec fn sandboxed_spec(snap_env_set: bool, executable: Seq<char>, contents: Option<Seq<char>>) -> bool {
    ||| snap_env_set
    ||| spec_path_starts_with(executable, "/snap"@)
    ||| match contents {
        Some(c) => contains_subseq(c, "/snap/"@) || contains_subseq(lower_ascii_seq(c), "snap"@),
        None => false,
    }
}

/// Whether a Firefox launcher is sandboxed, given whether `SNAP` is set and
/// the launcher's contents (`None` when it cannot be read as text).
pub fn is_sandboxed_launcher(snap_env_set: bool, executable: &str, contents: Option<&str>) -> (r: bool)
    ensures
        r == sandboxed_spec(snap_env_set, executable@, match contents { Some(c) => Some(c@), None => None }),
{
    if snap_env_set {
        return true;
    }
    if path_starts_with(executable, "/snap") {
        return true;
    }
    match contents {
        Some(c) => {
            let cv = chars_of(c);
            let marker = chars_of("/snap/");
            if find_subseq(&cv, &marker).is_some() {
                return true;
            }
            let lower = to_ascii_lowercase(&cv);
            let word = chars_of("snap");
            find_subseq(&lower, &word).is_some()
        },
        None => false,
    }
}

}
