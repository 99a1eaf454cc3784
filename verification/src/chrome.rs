//! The [`Chrome`] builder: which binary to use and how to start it.
use vstd::prelude::*;

use std::time::Duration;

use crate::browser_error::BrowserError;
use crate::discovery::{resolve_executable, resolve_spec, resolve_view, Discovery};
use crate::text::str_from;
use crate::timing::{default_startup_timeout, spec_duration_from_secs, DEFAULT_STARTUP_TIMEOUT_SECS};

verus! {

/// A browser family Rustwright knows how to discover.
#[derive(Debug, Clone, Copy, PartialEq, Eq, Hash, Structural)]
pub enum ChromeVariant {
    /// Google Chrome.
    Chrome,
    /// Chromium (including distro builds).
    Chromium,
    /// Microsoft Edge (Chromium-based).
    Edge,
    /// Brave (Chromium-based).
    Brave,
}

impl ChromeVariant {
    /// Every supported variant, in discovery preference order.
    pub fn all() -> (r: [ChromeVariant; 4])
        ensures
            r@ == seq![ChromeVariant::Chrome, ChromeVariant::Chromium, ChromeVariant::Edge, ChromeVariant::Brave],
    {
        let r = [ChromeVariant::Chrome, ChromeVariant::Chromium, ChromeVariant::Edge, ChromeVariant::Brave];
        assert(r@ =~= seq![ChromeVariant::Chrome, ChromeVariant::Chromium, ChromeVariant::Edge, ChromeVariant::Brave]);
        r
    }

    /// A human-readable name.
    pub fn display_name(self) -> (r: &'static str)
        ensures
            r@ == match self {
                ChromeVariant::Chrome => "Chrome"@,
                ChromeVariant::Chromium => "Chromium"@,
                ChromeVariant::Edge => "Microsoft Edge"@,
                ChromeVariant::Brave => "Brave"@,
            },
    {
        match self {
            ChromeVariant::Chrome => "Chrome",
            ChromeVariant::Chromium => "Chromium",
            ChromeVariant::Edge => "Microsoft Edge",
            ChromeVariant::Brave => "Brave",
        }
    }
}

/// How the browser profile (user data directory) is handled.
pub enum Profile {
    /// A temporary profile created on launch and deleted on close.
    Ephemeral,
    /// A directory that persists cookies, storage and logins across runs.
    Persistent(String),
    /// The browser's own default user data directory.
    ///
    /// Note that Chrome 136 and newer ignore remote debugging flags when the
    /// default profile is used.
    Default,
}

/// The model of a [`Profile`]: the directory as a character sequence.
pub ghost enum ProfileSpec {
    Ephemeral,
    Persistent(Seq<char>),
    Default,
}

impl View for Profile {
    type V = ProfileSpec;

    open spec fn view(&self) -> ProfileSpec {
        match self {
            Profile::Ephemeral => ProfileSpec::Ephemeral,
            Profile::Persistent(path) => ProfileSpec::Persistent(path@),
            Profile::Default => ProfileSpec::Default,
        }
    }
}

/// The model of a [`Chrome`] builder.
pub ghost struct ChromeSpec {
    pub variant: ChromeVariant,
    pub executable: Option<Seq<char>>,
    pub headless: bool,
    pub profile: ProfileSpec,
    pub args: Seq<Seq<char>>,
    pub envs: Seq<(Seq<char>, Seq<char>)>,
    pub startup_timeout: Duration,
    pub capture_stderr: bool,
}

/// Describes which Chrome/Chromium to launch and with what options.
pub struct Chrome {
    pub(crate) variant: ChromeVariant,
    pub(crate) executable: Option<String>,
    pub(crate) headless: bool,
    pub(crate) profile: Profile,
    pub(crate) args: Vec<String>,
    pub(crate) envs: Vec<(String, String)>,
    pub(crate) startup_timeout: Duration,
    pub(crate) capture_stderr: bool,
}

/// The characters of each string of `v`.
pub open spec fn strings_view(v: Seq<String>) -> Seq<Seq<char>> {
    v.map_values(|s: String| s@)
}

/// The characters of each pair of strings of `v`.
pub open spec fn pairs_view(v: Seq<(String, String)>) -> Seq<(Seq<char>, Seq<char>)> {
    v.map_values(|p: (String, String)| (p.0@, p.1@))
}

/// The characters of an optional string.
pub open spec fn opt_view(o: Option<String>) -> Option<Seq<char>> {
    match o {
        Some(s) => Some(s@),
        None => None,
    }
}

impl View for Chrome {
    type V = ChromeSpec;

    closed spec fn view(&self) -> ChromeSpec {
        ChromeSpec {
            variant: self.variant,
            executable: opt_view(self.executable),
            headless: self.headless,
            profile: self.profile@,
            args: strings_view(self.args@),
            envs: pairs_view(self.envs@),
            startup_timeout: self.startup_timeout,
            capture_stderr: self.capture_stderr,
        }
    }
}

/// `v` with `s` appended.
pub fn push_string(v: &mut Vec<String>, s: String)
    ensures
        strings_view(final(v)@) == strings_view(old(v)@).push(s@),
{
    v.push(s);
    assert(strings_view(v@) =~= strings_view(old(v)@).push(s@));
}

impl Chrome {
    /// What [`Chrome::installed`] starts from: Chrome, discovered at launch,
    /// with a visible window, a throwaway profile, no extra flags or
    /// environment, the default startup timeout and stderr captured.
    pub open spec fn installed_spec() -> ChromeSpec {
        ChromeSpec {
            variant: ChromeVariant::Chrome,
            executable: None,
            headless: false,
            profile: ProfileSpec::Ephemeral,
            args: seq![],
            envs: seq![],
            startup_timeout: spec_duration_from_secs(DEFAULT_STARTUP_TIMEOUT_SECS),
            capture_stderr: true,
        }
    }

    /// Use the first Chrome/Chromium installed on this machine.
    ///
    /// Discovery happens when the browser is launched, so this constructor
    /// never fails.
    pub fn installed() -> (r: Chrome)
        ensures
            r@ == Self::installed_spec(),
    {
        let r = Chrome {
            variant: ChromeVariant::Chrome,
            executable: None,
            headless: false,
            profile: Profile::Ephemeral,
            args: Vec::new(),
            envs: Vec::new(),
            startup_timeout: default_startup_timeout(),
            capture_stderr: true,
        };
        assert(strings_view(r.args@) =~= seq![]);
        assert(pairs_view(r.envs@) =~= seq![]);
        r
    }

    /// Use a specific browser binary.
    pub fn at(executable: &str) -> (r: Chrome)
        ensures
            r@ == (ChromeSpec { executable: Some(executable@), ..Self::installed_spec() }),
    {
        let base = Self::installed();
        Chrome { executable: Some(str_from(executable)), ..base }
    }

    /// Restrict discovery to a particular browser family.
    pub fn variant(self, variant: ChromeVariant) -> (r: Chrome)
        ensures
            r@ == (ChromeSpec { variant, ..self@ }),
    {
        Chrome { variant, ..self }
    }

    /// Run headless (`true`) or with a visible window (`false`). Defaults to
    /// `false`.
    pub fn headless(self, headless: bool) -> (r: Chrome)
        ensures
            r@ == (ChromeSpec { headless, ..self@ }),
    {
        Chrome { headless, ..self }
    }

    /// Use a persistent profile directory, preserving cookies, local/session
    /// storage and logins between runs.
    pub fn profile(self, path: &str) -> (r: Chrome)
        ensures
            r@ == (ChromeSpec { profile: ProfileSpec::Persistent(path@), ..self@ }),
    {
        Chrome { profile: Profile::Persistent(str_from(path)), ..self }
    }

    /// Use a throwaway profile (the default).
    pub fn ephemeral(self) -> (r: Chrome)
        ensures
            r@ == (ChromeSpec { profile: ProfileSpec::Ephemeral, ..self@ }),
    {
        Chrome { profile: Profile::Ephemeral, ..self }
    }

    /// Use the browser's default profile directory. See [`Profile::Default`].
    pub fn default_profile(self) -> (r: Chrome)
        ensures
            r@ == (ChromeSpec { profile: ProfileSpec::Default, ..self@ }),
    {
        Chrome { profile: Profile::Default, ..self }
    }

    /// Append a single browser command-line flag.
    pub fn arg(self, arg: &str) -> (r: Chrome)
        ensures
            r@ == (ChromeSpec { args: self@.args.push(arg@), ..self@ }),
    {
        let mut args = self.args;
        push_string(&mut args, str_from(arg));
        Chrome { args, ..self }
    }

    /// Append several browser command-line flags.
    pub fn args(self, more: &[&str]) -> (r: Chrome)
        ensures
            r@ == (ChromeSpec { args: self@.args + more@.map_values(|s: &str| s@), ..self@ }),
    {
        let mut args = self.args;
        let ghost start = strings_view(args@);
        let mut i: usize = 0;
        while i < more.len()
            invariant
                i <= more@.len(),
                strings_view(args@) == start + more@.subrange(0, i as int).map_values(|s: &str| s@),
            decreases more@.len() - i,
        {
            push_string(&mut args, str_from(more[i]));
            assert(more@.subrange(0, i + 1).map_values(|s: &str| s@) =~= more@.subrange(0, i as int).map_values(
                |s: &str| s@,
            ).push(more@[i as int]@));
            i += 1;
        }
        assert(more@.subrange(0, more@.len() as int) =~= more@);
        Chrome { args, ..self }
    }

    /// Set an environment variable for the browser process.
    pub fn env(self, key: &str, value: &str) -> (r: Chrome)
        ensures
            r@ == (ChromeSpec { envs: self@.envs.push((key@, value@)), ..self@ }),
    {
        let mut envs = self.envs;
        envs.push((str_from(key), str_from(value)));
        assert(pairs_view(envs@) =~= pairs_view(self.envs@).push((key@, value@)));
        Chrome { envs, ..self }
    }

    /// Override how long to wait for the DevTools endpoint on launch.
    pub fn startup_timeout(self, timeout: Duration) -> (r: Chrome)
        ensures
            r@ == (ChromeSpec { startup_timeout: timeout, ..self@ }),
    {
        Chrome { startup_timeout: timeout, ..self }
    }

    /// Capture the browser's stderr to a log file (default: `true`).
    pub fn capture_stderr(self, capture: bool) -> (r: Chrome)
        ensures
            r@ == (ChromeSpec { capture_stderr: capture, ..self@ }),
    {
        Chrome { capture_stderr: capture, ..self }
    }

    /// Whether headless mode is enabled.
    pub fn is_headless(&self) -> (r: bool)
        ensures
            r == self@.headless,
    {
        self.headless
    }

    /// The configured profile mode.
    pub fn profile_mode(&self) -> (r: &Profile)
        ensures
            r@ == self@.profile,
    {
        &self.profile
    }

    /// Extra command-line flags.
    pub fn extra_args(&self) -> (r: &[String])
        ensures
            strings_view(r@) == self@.args,
    {
        self.args.as_slice()
    }

    /// Environment overrides.
    pub fn environment(&self) -> (r: &[(String, String)])
        ensures
            pairs_view(r@) == self@.envs,
    {
        self.envs.as_slice()
    }

    /// The startup timeout.
    pub fn startup_timeout_value(&self) -> (r: Duration)
        ensures
            r == self@.startup_timeout,
    {
        self.startup_timeout
    }

    /// Whether stderr capture is enabled.
    pub fn captures_stderr(&self) -> (r: bool)
        ensures
            r == self@.capture_stderr,
    {
        self.capture_stderr
    }

    /// The explicitly configured executable, if any.
    pub fn executable(&self) -> (r: Option<&String>)
        ensures
            opt_view(match r { Some(e) => Some(*e), None => None }) == self@.executable,
    {
        match &self.executable {
            Some(e) => Some(e),
            None => None,
        }
    }

    /// Resolve the browser executable from what was found on disk: the
    /// explicit binary if it exists, else the binary `RUSTWRIGHT_CHROME`
    /// names if it exists, else the first installed candidate; see
    /// [`resolve_spec`].
    pub fn executable_path(&self, found: &Discovery) -> (r: Result<String, BrowserError>)
        ensures
            resolve_view(r) == Some(resolve_spec(self@.executable, *found)),
    {
        let explicit = self.executable();
        resolve_executable(explicit, found)
    }

    /// Every path considered during discovery, for diagnostics.
    pub fn searched_paths(&self, found: &Discovery) -> (r: Vec<String>)
        ensures
            strings_view(r@) == crate::discovery::probe_paths(found.candidates@),
    {
        crate::discovery::candidate_paths(found)
    }
}

}
