//! Where installed Chrome/Chromium and Firefox binaries are looked for, and
//! which one is used.
//!
//! Looking at the file system and the environment is the caller's part; this
//! module holds the search tables and the decisions made on what was found.
use vstd::prelude::*;

use crate::browser_error::BrowserError;
use crate::chrome::{strings_view, ChromeVariant};

verus! {

/// Environment variable that points at an explicit browser binary.
pub const CHROME_PATH_ENV: &'static str = "RUSTWRIGHT_CHROME";

/// Environment variable that points at an explicit Firefox binary.
pub const FIREFOX_PATH_ENV: &'static str = "RUSTWRIGHT_FIREFOX";

/// The operating system whose install locations are searched.
#[derive(Debug, Clone, Copy, PartialEq, Eq, Structural)]
pub enum TargetOs {
    Linux,
    MacOs,
    Windows,
    Other,
}

/// Where a browser family is looked for on one operating system.
pub struct SearchPlan {
    /// Program names looked up on `PATH`, in order.
    pub on_path: Vec<&'static str>,
    /// Absolute locations, in order.
    pub fixed: Vec<&'static str>,
    /// Locations relative to the user's home directory.
    pub home_relative: Vec<&'static str>,
    /// Environment variables naming install roots, in order.
    pub root_vars: Vec<&'static str>,
    /// Locations relative to each install root.
    pub root_relative: Vec<&'static str>,
}

/// The characters of each string of `v`.
pub open spec fn strs_view(v: Seq<&'static str>) -> Seq<Seq<char>> {
    v.map_values(|s: &'static str| s@)
}

/// The model of a [`SearchPlan`].
pub ghost struct SearchPlanSpec {
    pub on_path: Seq<Seq<char>>,
    pub fixed: Seq<Seq<char>>,
    pub home_relative: Seq<Seq<char>>,
    pub root_vars: Seq<Seq<char>>,
    pub root_relative: Seq<Seq<char>>,
}

impl View for SearchPlan {
    type V = SearchPlanSpec;

    open spec fn view(&self) -> SearchPlanSpec {
        SearchPlanSpec {
            on_path: strs_view(self.on_path@),
            fixed: strs_view(self.fixed@),
            home_relative: strs_view(self.home_relative@),
            root_vars: strs_view(self.root_vars@),
            root_relative: strs_view(self.root_relative@),
        }
    }
}

pub open spec fn windows_root_vars() -> Seq<Seq<char>> {
    seq!["PROGRAMFILES"@, "PROGRAMFILES(X86)"@, "LOCALAPPDATA"@]
}

/// Where `variant` is looked for on `os`.
pub open spec fn chrome_plan_spec(variant: ChromeVariant, os: TargetOs) -> SearchPlanSpec {
    match os {
        TargetOs::Linux => {
            let (names, fixed) = match variant {
                ChromeVariant::Chrome => (
                    seq!["google-chrome-stable"@, "google-chrome"@],
                    seq!["/opt/google/chrome/chrome"@],
                ),
                ChromeVariant::Chromium => (
                    seq!["chromium"@, "chromium-browser"@, "chromium-freeworld"@],
                    seq!["/opt/chromium/chrome"@, "/snap/bin/chromium"@],
                ),
                ChromeVariant::Edge => (
                    seq!["microsoft-edge-stable"@, "microsoft-edge"@],
                    seq!["/opt/microsoft/msedge/msedge"@],
                ),
                ChromeVariant::Brave => (seq!["brave-browser"@, "brave"@], seq!["/opt/brave.com/brave/brave"@]),
            };
            SearchPlanSpec { on_path: names, fixed, home_relative: seq![], root_vars: seq![], root_relative: seq![] }
        },
        TargetOs::MacOs => {
            let (apps, home) = match variant {
                ChromeVariant::Chrome => (
                    seq![
                        "/Applications/Google Chrome.app/Contents/MacOS/Google Chrome"@,
                        "/Applications/Google Chrome Canary.app/Contents/MacOS/Google Chrome Canary"@,
                    ],
                    "Applications/Google Chrome.app/Contents/MacOS/Google Chrome"@,
                ),
                ChromeVariant::Chromium => (
                    seq!["/Applications/Chromium.app/Contents/MacOS/Chromium"@],
                    "Applications/Chromium.app/Contents/MacOS/Chromium"@,
                ),
                ChromeVariant::Edge => (
                    seq!["/Applications/Microsoft Edge.app/Contents/MacOS/Microsoft Edge"@],
                    "Applications/Microsoft Edge.app/Contents/MacOS/Microsoft Edge"@,
                ),
                ChromeVariant::Brave => (
                    seq!["/Applications/Brave Browser.app/Contents/MacOS/Brave Browser"@],
                    "Applications/Brave Browser.app/Contents/MacOS/Brave Browser"@,
                ),
            };
            SearchPlanSpec { on_path: seq![], fixed: apps, home_relative: seq![home], root_vars: seq![], root_relative: seq![] }
        },
        TargetOs::Windows => {
            let rel = match variant {
                ChromeVariant::Chrome => "Google\\Chrome\\Application\\chrome.exe"@,
                ChromeVariant::Chromium => "Chromium\\Application\\chrome.exe"@,
                ChromeVariant::Edge => "Microsoft\\Edge\\Application\\msedge.exe"@,
                ChromeVariant::Brave => "BraveSoftware\\Brave-Browser\\Application\\brave.exe"@,
            };
            SearchPlanSpec {
                on_path: seq![],
                fixed: seq![],
                home_relative: seq![],
                root_vars: windows_root_vars(),
                root_relative: seq![rel],
            }
        },
        TargetOs::Other => SearchPlanSpec {
            on_path: seq![],
            fixed: seq![],
            home_relative: seq![],
            root_vars: seq![],
            root_relative: seq![],
        },
    }
}

fn plan(
    on_path: Vec<&'static str>,
    fixed: Vec<&'static str>,
    home_relative: Vec<&'static str>,
    root_vars: Vec<&'static str>,
    root_relative: Vec<&'static str>,
) -> (r: SearchPlan)
    ensures
        r.on_path == on_path,
        r.fixed == fixed,
        r.home_relative == home_relative,
        r.root_vars == root_vars,
        r.root_relative == root_relative,
{
    SearchPlan { on_path, fixed, home_relative, root_vars, root_relative }
}

/// Where `variant` is looked for on `os`: program names on `PATH` and fixed
/// locations (Linux), application bundles and their place under the home
/// directory (macOS), or locations under the install roots (Windows).
pub fn chrome_search_plan(variant: ChromeVariant, os: TargetOs) -> (r: SearchPlan)
    ensures
        r@ == chrome_plan_spec(variant, os),
{
    let r = match os {
        TargetOs::Linux => match variant {
            ChromeVariant::Chrome => plan(
                vec!["google-chrome-stable", "google-chrome"],
                vec!["/opt/google/chrome/chrome"],
                vec![],
                vec![],
                vec![],
            ),
            ChromeVariant::Chromium => plan(
                vec!["chromium", "chromium-browser", "chromium-freeworld"],
                vec!["/opt/chromium/chrome", "/snap/bin/chromium"],
                vec![],
                vec![],
                vec![],
            ),
            ChromeVariant::Edge => plan(
                vec!["microsoft-edge-stable", "microsoft-edge"],
                vec!["/opt/microsoft/msedge/msedge"],
                vec![],
                vec![],
                vec![],
            ),
            ChromeVariant::Brave => plan(
                vec!["brave-browser", "brave"],
                vec!["/opt/brave.com/brave/brave"],
                vec![],
                vec![],
                vec![],
            ),
        },
        TargetOs::MacOs => match variant {
            ChromeVariant::Chrome => plan(
                vec![],
                vec![
                    "/Applications/Google Chrome.app/Contents/MacOS/Google Chrome",
                    "/Applications/Google Chrome Canary.app/Contents/MacOS/Google Chrome Canary",
                ],
                vec!["Applications/Google Chrome.app/Contents/MacOS/Google Chrome"],
                vec![],
                vec![],
            ),
            ChromeVariant::Chromium => plan(
                vec![],
                vec!["/Applications/Chromium.app/Contents/MacOS/Chromium"],
                vec!["Applications/Chromium.app/Contents/MacOS/Chromium"],
                vec![],
                vec![],
            ),
            ChromeVariant::Edge => plan(
                vec![],
                vec!["/Applications/Microsoft Edge.app/Contents/MacOS/Microsoft Edge"],
                vec!["Applications/Microsoft Edge.app/Contents/MacOS/Microsoft Edge"],
                vec![],
                vec![],
            ),
            ChromeVariant::Brave => plan(
                vec![],
                vec!["/Applications/Brave Browser.app/Contents/MacOS/Brave Browser"],
                vec!["Applications/Brave Browser.app/Contents/MacOS/Brave Browser"],
                vec![],
                vec![],
            ),
        },
        TargetOs::Windows => {
            let rel = match variant {
                ChromeVariant::Chrome => "Google\\Chrome\\Application\\chrome.exe",
                ChromeVariant::Chromium => "Chromium\\Application\\chrome.exe",
                ChromeVariant::Edge => "Microsoft\\Edge\\Application\\msedge.exe",
                ChromeVariant::Brave => "BraveSoftware\\Brave-Browser\\Application\\brave.exe",
            };
            plan(vec![], vec![], vec![], vec!["PROGRAMFILES", "PROGRAMFILES(X86)", "LOCALAPPDATA"], vec![rel])
        },
        TargetOs::Other => plan(vec![], vec![], vec![], vec![], vec![]),
    };
    proof {
        let want = chrome_plan_spec(variant, os);
        assert(r@.on_path =~= want.on_path);
        assert(r@.fixed =~= want.fixed);
        assert(r@.home_relative =~= want.home_relative);
        assert(r@.root_vars =~= want.root_vars);
        assert(r@.root_relative =~= want.root_relative);
    }
    r
}

/// Where Firefox is looked for on `os`, after the path the environment names.
pub open spec fn firefox_plan_spec(os: TargetOs) -> SearchPlanSpec {
    match os {
        TargetOs::Linux => SearchPlanSpec {
            on_path: seq!["firefox"@, "firefox-esr"@, "firefox-bin"@],
            fixed: seq!["/usr/bin/firefox"@, "/usr/local/bin/firefox"@, "/snap/bin/firefox"@, "/opt/firefox/firefox"@],
            home_relative: seq![],
            root_vars: seq![],
            root_relative: seq![],
        },
        TargetOs::MacOs => SearchPlanSpec {
            on_path: seq![],
            fixed: seq![
                "/Applications/Firefox.app/Contents/MacOS/firefox"@,
                "/Applications/Firefox Developer Edition.app/Contents/MacOS/firefox"@,
            ],
            home_relative: seq![],
            root_vars: seq![],
            root_relative: seq![],
        },
        TargetOs::Windows => SearchPlanSpec {
            on_path: seq![],
            fixed: seq![],
            home_relative: seq![],
            root_vars: seq!["PROGRAMFILES"@, "PROGRAMFILES(X86)"@],
            root_relative: seq!["Mozilla Firefox\\firefox.exe"@],
        },
        TargetOs::Other => SearchPlanSpec {
            on_path: seq![],
            fixed: seq![],
            home_relative: seq![],
            root_vars: seq![],
            root_relative: seq![],
        },
    }
}

/// Where Firefox is looked for on `os`, after the path the environment names.
pub fn firefox_search_plan(os: TargetOs) -> (r: SearchPlan)
    ensures
        r@ == firefox_plan_spec(os),
{
    let r = match os {
        TargetOs::Linux => plan(
            vec!["firefox", "firefox-esr", "firefox-bin"],
            vec!["/usr/bin/firefox", "/usr/local/bin/firefox", "/snap/bin/firefox", "/opt/firefox/firefox"],
            vec![],
            vec![],
            vec![],
        ),
        TargetOs::MacOs => plan(
            vec![],
            vec![
                "/Applications/Firefox.app/Contents/MacOS/firefox",
                "/Applications/Firefox Developer Edition.app/Contents/MacOS/firefox",
            ],
            vec![],
            vec![],
            vec![],
        ),
        TargetOs::Windows => plan(
            vec![],
            vec![],
            vec![],
            vec!["PROGRAMFILES", "PROGRAMFILES(X86)"],
            vec!["Mozilla Firefox\\firefox.exe"],
        ),
        TargetOs::Other => plan(vec![], vec![], vec![], vec![], vec![]),
    };
    proof {
        let want = firefox_plan_spec(os);
        assert(r@.on_path =~= want.on_path);
        assert(r@.fixed =~= want.fixed);
        assert(r@.home_relative =~= want.home_relative);
        assert(r@.root_vars =~= want.root_vars);
        assert(r@.root_relative =~= want.root_relative);
    }
    r
}

// ---------------------------------------------------------------------------
// Paths
// ---------------------------------------------------------------------------

/// Whether two paths name the same location as `Path`'s `==` sees it
/// (component by component).
pub uninterp spec fn spec_same_path(a: Seq<char>, b: Seq<char>) -> bool;

/// `Path::new(a) == Path::new(b)`: the named comparison, which holds at
/// least when the two strings are equal (`Path` implements `Eq`).
#[verifier::external_body]
pub(crate) fn same_path(a: &String, b: &String) -> (r: bool)
    ensures
        r == spec_same_path(a@, b@),
        a@ == b@ ==> r,
{
    std::path::Path::new(a) == std::path::Path::new(b)
}

/// The path `Path::join` makes of `base` and `rel`.
pub uninterp spec fn spec_path_join(base: Seq<char>, rel: Seq<char>) -> Seq<char>;

/// `Path::new(base).join(rel)`, as a string.
#[verifier::external_body]
pub(crate) fn path_join(base: &str, rel: &str) -> (r: String)
    ensures
        r@ == spec_path_join(base@, rel@),
{
    std::path::Path::new(base).join(rel).to_string_lossy().into_owned()
}

/// `paths` with every path dropped that names the same location as one kept
/// before it; the first of each is kept, in order.
pub open spec fn dedupe_paths(paths: Seq<Seq<char>>) -> Seq<Seq<char>>
    decreases paths.len(),
{
    if paths.len() == 0 {
        seq![]
    } else {
        let kept = dedupe_paths(paths.drop_last());
        if exists|k: int| 0 <= k < kept.len() && spec_same_path(kept[k], paths.last()) {
            kept
        } else {
            kept.push(paths.last())
        }
    }
}

/// The result holds no path twice, nor two paths naming the same location;
/// it loses no path of `input`: each is kept, or one naming its location was
/// kept before it; and it begins with the first of `input`.
pub open spec fn deduped_well(input: Seq<Seq<char>>, r: Seq<Seq<char>>) -> bool {
    &&& forall|a: int, b: int| 0 <= a < b < r.len() ==> r[a] != r[b] && !spec_same_path(#[trigger] r[a], #[trigger] r[b])
    &&& forall|j: int| 0 <= j < input.len() ==> exists|k: int| 0 <= k < r.len() && (r[k] == #[trigger] input[j] || spec_same_path(r[k], input[j]))
    &&& input.len() > 0 ==> r.len() > 0 && r[0] == input[0]
}

/// Keeps the first of every group of paths that name the same location, in order.
pub fn dedupe(paths: Vec<String>) -> (r: Vec<String>)
    ensures
        strings_view(r@) == dedupe_paths(strings_view(paths@)),
        deduped_well(strings_view(paths@), strings_view(r@)),
{
    let mut out: Vec<String> = Vec::new();
    let mut i: usize = 0;
    let ghost pv = strings_view(paths@);
    while i < paths.len()
        invariant
            i <= paths@.len(),
            pv == strings_view(paths@),
            strings_view(out@) == dedupe_paths(pv.subrange(0, i as int)),
            forall|a: int, b: int| 0 <= a < b < out@.len() ==> out@[a]@ != out@[b]@ && !spec_same_path(#[trigger] out@[a]@, #[trigger] out@[b]@),
            forall|j: int| 0 <= j < i ==> exists|k: int| 0 <= k < out@.len() && (out@[k]@ == #[trigger] pv[j] || spec_same_path(out@[k]@, pv[j])),
            i > 0 ==> out@.len() > 0 && out@[0]@ == pv[0],
        decreases paths@.len() - i,
    {
        let ghost prefix = pv.subrange(0, i as int + 1);
        proof {
            assert(prefix.drop_last() =~= pv.subrange(0, i as int));
            assert(prefix.last() == paths@[i as int]@);
        }
        let mut seen = false;
        let mut k: usize = 0;
        while k < out.len()
            invariant
                k <= out@.len(),
                i < paths@.len(),
                seen == exists|q: int| 0 <= q < k && spec_same_path(strings_view(out@)[q], paths@[i as int]@),
                forall|q: int| 0 <= q < k ==> (out@[q]@ == paths@[i as int]@ ==> spec_same_path(#[trigger] out@[q]@, paths@[i as int]@)),
            decreases out@.len() - k,
        {
            if same_path(&out[k], &paths[i]) {
                seen = true;
            }
            proof {
                if spec_same_path(out@[k as int]@, paths@[i as int]@) {
                    assert(spec_same_path(strings_view(out@)[k as int], paths@[i as int]@));
                }
            }
            k += 1;
        }
        let ghost before = out@;
        if !seen {
            let p = paths[i].clone();
            out.push(p);
            assert(strings_view(out@) =~= strings_view(before).push(paths@[i as int]@));
            proof {
                assert forall|a: int, b: int| 0 <= a < b < out@.len() implies out@[a]@ != out@[b]@ && !spec_same_path(#[trigger] out@[a]@, #[trigger] out@[b]@) by {
                    if b == out@.len() - 1 {
                        assert(!spec_same_path(strings_view(before)[a], paths@[i as int]@));
                    } else {
                        assert(before[a] == out@[a] && before[b] == out@[b]);
                    }
                }
                assert forall|j: int| 0 <= j < i + 1 implies exists|k: int| 0 <= k < out@.len() && (out@[k]@ == #[trigger] pv[j] || spec_same_path(out@[k]@, pv[j])) by {
                    if j == i {
                        assert(out@[out@.len() - 1]@ == pv[j]);
                    } else {
                        let k = choose|k: int| 0 <= k < before.len() && (before[k]@ == pv[j] || spec_same_path(before[k]@, pv[j]));
                        assert(out@[k] == before[k]);
                    }
                }
            }
        } else {
            proof {
                assert forall|j: int| 0 <= j < i + 1 implies exists|k: int| 0 <= k < out@.len() && (out@[k]@ == #[trigger] pv[j] || spec_same_path(out@[k]@, pv[j])) by {
                    if j == i {
                        let q = choose|q: int| 0 <= q < out@.len() && spec_same_path(strings_view(out@)[q], paths@[i as int]@);
                        assert(spec_same_path(out@[q]@, pv[j]));
                    }
                }
            }
        }
        i += 1;
    }
    assert(pv.subrange(0, paths@.len() as int) =~= pv);
    proof {
        let rv = strings_view(out@);
        assert forall|a: int, b: int| 0 <= a < b < rv.len() implies rv[a] != rv[b] && !spec_same_path(#[trigger] rv[a], #[trigger] rv[b]) by {
            assert(rv[a] == out@[a]@ && rv[b] == out@[b]@);
        }
        assert forall|j: int| 0 <= j < pv.len() implies exists|k: int| 0 <= k < rv.len() && (rv[k] == #[trigger] pv[j] || spec_same_path(rv[k], pv[j])) by {
            let k = choose|k: int| 0 <= k < out@.len() && (out@[k]@ == pv[j] || spec_same_path(out@[k]@, pv[j]));
            assert(rv[k] == out@[k]@);
        }
        if pv.len() > 0 {
            assert(rv[0] == out@[0]@);
        }
    }
    out
}


// ---------------------------------------------------------------------------
// Candidate lists
// ---------------------------------------------------------------------------

/// The sequences of `parts`, one after the other.
pub open spec fn concat_all(parts: Seq<Seq<Seq<char>>>) -> Seq<Seq<char>>
    decreases parts.len(),
{
    if parts.len() == 0 {
        seq![]
    } else {
        concat_all(parts.drop_last()) + parts.last()
    }
}

/// Every `base` joined with every `rel`, bases outermost.
pub open spec fn joined_all(bases: Seq<Seq<char>>, rels: Seq<Seq<char>>) -> Seq<Seq<char>>
    decreases bases.len(),
{
    if bases.len() == 0 {
        seq![]
    } else {
        joined_all(bases.drop_last(), rels) + rels.map_values(|r: Seq<char>| spec_path_join(bases.last(), r))
    }
}

/// The candidates a plan yields, given the matches found on `PATH` for each of
/// its program names, the home directories and the install roots that are set.
pub open spec fn plan_candidates(
    plan: SearchPlanSpec,
    found_on_path: Seq<Seq<Seq<char>>>,
    homes: Seq<Seq<char>>,
    roots: Seq<Seq<char>>,
) -> Seq<Seq<char>> {
    concat_all(found_on_path) + plan.fixed + joined_all(homes, plan.home_relative) + joined_all(roots, plan.root_relative)
}

/// The nested strings of `v`.
pub open spec fn nested_view(v: Seq<Vec<String>>) -> Seq<Seq<Seq<char>>> {
    v.map_values(|x: Vec<String>| strings_view(x@))
}

/// Appends copies of `more` to `out`.
pub fn extend_strings(out: &mut Vec<String>, more: &[String])
    ensures
        strings_view(final(out)@) == strings_view(old(out)@) + strings_view(more@),
{
    let mut i: usize = 0;
    let ghost start = strings_view(out@);
    while i < more.len()
        invariant
            i <= more@.len(),
            strings_view(out@) == start + strings_view(more@.subrange(0, i as int)),
        decreases more@.len() - i,
    {
        let ghost before = out@;
        out.push(more[i].clone());
        assert(strings_view(out@) =~= strings_view(before).push(more@[i as int]@));
        assert(strings_view(more@.subrange(0, i + 1)) =~= strings_view(more@.subrange(0, i as int)).push(more@[i as int]@));
        i += 1;
    }
    assert(more@.subrange(0, more@.len() as int) =~= more@);
}

/// Appends every base joined with every relative location to `out`.
fn extend_joined(out: &mut Vec<String>, bases: &[String], rels: &[&'static str])
    ensures
        strings_view(final(out)@) == strings_view(old(out)@) + joined_all(strings_view(bases@), strs_view(rels@)),
{
    let ghost start = strings_view(out@);
    let ghost rv = strs_view(rels@);
    let mut b: usize = 0;
    while b < bases.len()
        invariant
            b <= bases@.len(),
            rv == strs_view(rels@),
            strings_view(out@) == start + joined_all(strings_view(bases@.subrange(0, b as int)), rv),
        decreases bases@.len() - b,
    {
        let ghost before = strings_view(out@);
        let ghost base = bases@[b as int]@;
        let mut k: usize = 0;
        while k < rels.len()
            invariant
                k <= rels@.len(),
                b < bases@.len(),
                base == bases@[b as int]@,
                rv == strs_view(rels@),
                strings_view(out@) == before + rv.subrange(0, k as int).map_values(|r: Seq<char>| spec_path_join(base, r)),
            decreases rels@.len() - k,
        {
            let ghost mid = out@;
            out.push(path_join(bases[b].as_str(), rels[k]));
            assert(strings_view(out@) =~= strings_view(mid).push(spec_path_join(base, rv[k as int])));
            assert(rv.subrange(0, k + 1).map_values(|r: Seq<char>| spec_path_join(base, r)) =~= rv.subrange(0, k as int).map_values(
                |r: Seq<char>| spec_path_join(base, r),
            ).push(spec_path_join(base, rv[k as int])));
            k += 1;
        }
        proof {
            let bs = strings_view(bases@.subrange(0, b + 1));
            assert(bs.drop_last() =~= strings_view(bases@.subrange(0, b as int)));
            assert(bs.last() == base);
            assert(rv.subrange(0, rels@.len() as int) =~= rv);
        }
        b += 1;
    }
    assert(bases@.subrange(0, bases@.len() as int) =~= bases@);
}

/// The locations `plan` yields, in search order: the `PATH` matches of each
/// program name (`found_on_path[i]` for `plan.on_path[i]`), the fixed
/// locations, each home directory joined with the home-relative locations,
/// and each install root joined with the root-relative locations.
pub fn plan_candidate_paths(plan: &SearchPlan, found_on_path: &[Vec<String>], homes: &[String], roots: &[String]) -> (r: Vec<String>)
    ensures
        strings_view(r@) == plan_candidates(plan@, nested_view(found_on_path@), strings_view(homes@), strings_view(roots@)),
{
    let mut out: Vec<String> = Vec::new();
    let mut i: usize = 0;
    while i < found_on_path.len()
        invariant
            i <= found_on_path@.len(),
            strings_view(out@) == concat_all(nested_view(found_on_path@.subrange(0, i as int))),
        decreases found_on_path@.len() - i,
    {
        extend_strings(&mut out, found_on_path[i].as_slice());
        assert(nested_view(found_on_path@.subrange(0, i + 1)).drop_last() =~= nested_view(found_on_path@.subrange(0, i as int)));
        i += 1;
    }
    assert(found_on_path@.subrange(0, found_on_path@.len() as int) =~= found_on_path@);
    let mut k: usize = 0;
    let ghost after_path = strings_view(out@);
    while k < plan.fixed.len()
        invariant
            k <= plan.fixed@.len(),
            strings_view(out@) == after_path + strs_view(plan.fixed@.subrange(0, k as int)),
        decreases plan.fixed@.len() - k,
    {
        let ghost before = out@;
        out.push(crate::text::str_from(plan.fixed[k]));
        assert(strings_view(out@) =~= strings_view(before).push(plan.fixed@[k as int]@));
        assert(strs_view(plan.fixed@.subrange(0, k + 1)) =~= strs_view(plan.fixed@.subrange(0, k as int)).push(plan.fixed@[k as int]@));
        k += 1;
    }
    assert(plan.fixed@.subrange(0, plan.fixed@.len() as int) =~= plan.fixed@);
    extend_joined(&mut out, homes, plan.home_relative.as_slice());
    extend_joined(&mut out, roots, plan.root_relative.as_slice());
    assert(strings_view(out@) =~= plan_candidates(plan@, nested_view(found_on_path@), strings_view(homes@), strings_view(roots@)));
    out
}

/// The optional path first, then `rest`.
pub open spec fn with_configured(configured: Option<Seq<char>>, rest: Seq<Seq<char>>) -> Seq<Seq<char>> {
    match configured {
        Some(c) => seq![c] + rest,
        None => rest,
    }
}

/// All well-known install locations across every supported variant, in
/// order, after the path the environment names (when set), with repeated
/// locations dropped. `per_variant[i]` are the locations of the `i`-th
/// variant of [`ChromeVariant::all`].
pub fn installed_candidates(configured: Option<String>, per_variant: Vec<Vec<String>>) -> (r: Vec<String>)
    ensures
        strings_view(r@) == dedupe_paths(with_configured(crate::chrome::opt_view(configured), concat_all(nested_view(per_variant@)))),
        deduped_well(with_configured(crate::chrome::opt_view(configured), concat_all(nested_view(per_variant@))), strings_view(r@)),
        configured matches Some(c) ==> r@.len() > 0 && r@[0]@ == c@,
{
    let mut all: Vec<String> = Vec::new();
    let ghost cv = crate::chrome::opt_view(configured);
    match configured {
        Some(c) => {
            all.push(c);
        },
        None => {},
    }
    let ghost head = strings_view(all@);
    assert(head == with_configured(cv, seq![]));
    let mut i: usize = 0;
    while i < per_variant.len()
        invariant
            i <= per_variant@.len(),
            strings_view(all@) == head + concat_all(nested_view(per_variant@.subrange(0, i as int))),
        decreases per_variant@.len() - i,
    {
        extend_strings(&mut all, per_variant[i].as_slice());
        assert(nested_view(per_variant@.subrange(0, i + 1)).drop_last() =~= nested_view(per_variant@.subrange(0, i as int)));
        i += 1;
    }
    assert(per_variant@.subrange(0, per_variant@.len() as int) =~= per_variant@);
    assert(strings_view(all@) =~= with_configured(cv, concat_all(nested_view(per_variant@))));
    dedupe(all)
}

/// Well-known install locations for Firefox: the path the environment names
/// (when set), then `located` (what [`firefox_search_plan`] yields), with
/// repeated locations dropped.
pub fn firefox_candidates(configured: Option<String>, located: Vec<String>) -> (r: Vec<String>)
    ensures
        strings_view(r@) == dedupe_paths(with_configured(crate::chrome::opt_view(configured), strings_view(located@))),
        deduped_well(with_configured(crate::chrome::opt_view(configured), strings_view(located@)), strings_view(r@)),
        configured matches Some(c) ==> r@.len() > 0 && r@[0]@ == c@,
{
    let mut all: Vec<String> = Vec::new();
    match configured {
        Some(c) => {
            all.push(c);
        },
        None => {},
    }
    extend_strings(&mut all, located.as_slice());
    assert(strings_view(all@) =~= with_configured(crate::chrome::opt_view(configured), strings_view(located@)));
    dedupe(all)
}

/// A location and whether it is an existing file.
pub struct Probe {
    /// The location.
    pub path: String,
    /// Whether it is an existing file.
    pub is_file: bool,
}

/// What was found on disk for resolving a browser binary: whether the
/// explicitly configured binary exists, the binary the environment names (if
/// set), and the candidate locations in search order.
pub struct Discovery {
    /// Whether the explicitly configured executable is an existing file.
    pub explicit_is_file: bool,
    /// The binary the environment names, if the variable is set.
    pub configured: Option<Probe>,
    /// Every candidate location, in search order.
    pub candidates: Vec<Probe>,
}

/// The locations of `probes`.
pub open spec fn probe_paths(probes: Seq<Probe>) -> Seq<Seq<char>> {
    probes.map_values(|p: Probe| p.path@)
}

/// The first candidate that is a file.
pub open spec fn first_file(probes: Seq<Probe>) -> Option<int> {
    if exists|i: int| 0 <= i < probes.len() && probes[i].is_file {
        Some(choose|i: int| 0 <= i < probes.len() && probes[i].is_file && forall|k: int| 0 <= k < i ==> !probes[k].is_file)
    } else {
        None
    }
}

/// The result of resolving a browser binary: the explicit binary if it
/// exists (an error naming it if it does not); otherwise the configured
/// binary if it exists; otherwise the first candidate that exists; otherwise
/// an error listing every candidate.
pub open spec fn resolve_spec(explicit: Option<Seq<char>>, found: Discovery) -> Result<Seq<char>, ResolveFailure> {
    match explicit {
        Some(e) => if found.explicit_is_file { Ok(e) } else { Err(ResolveFailure::ExecutableNotFound(e)) },
        None => {
            let fallback = match first_file(found.candidates@) {
                Some(i) => Ok(found.candidates@[i].path@),
                None => Err(ResolveFailure::NotFound(probe_paths(found.candidates@))),
            };
            match found.configured {
                Some(c) => if c.is_file { Ok(c.path@) } else { fallback },
                None => fallback,
            }
        },
    }
}

/// Below a candidate that is a file there is a first one.
proof fn lemma_least_file(probes: Seq<Probe>, w: int)
    requires
        0 <= w < probes.len(),
        probes[w].is_file,
    ensures
        exists|i: int| 0 <= i <= w && probes[i].is_file && forall|k: int| 0 <= k < i ==> !probes[k].is_file,
    decreases w,
{
    if exists|k: int| 0 <= k < w && probes[k].is_file {
        let k = choose|k: int| 0 <= k < w && probes[k].is_file;
        lemma_least_file(probes, k);
    }
}

/// [`first_file`] is the first candidate that is a file, if any is.
proof fn lemma_first_file(probes: Seq<Probe>)
    ensures
        match first_file(probes) {
            Some(i) => 0 <= i < probes.len() && probes[i].is_file && forall|k: int| 0 <= k < i ==> !probes[k].is_file,
            None => forall|k: int| 0 <= k < probes.len() ==> !probes[k].is_file,
        },
{
    if exists|i: int| 0 <= i < probes.len() && probes[i].is_file {
        let w = choose|i: int| 0 <= i < probes.len() && probes[i].is_file;
        lemma_least_file(probes, w);
    }
}

/// The order in which a browser binary is resolved. An explicit binary is
/// taken if it exists and reported missing if not, whatever else was found.
/// Without one, an existing binary named by the environment wins over every
/// installed candidate; without that, the first existing candidate in search
/// order is taken; and when none exists the error lists every candidate.
pub proof fn lemma_resolve_order(explicit: Seq<char>, found: Discovery)
    ensures
        found.explicit_is_file ==> resolve_spec(Some(explicit), found) == Ok::<Seq<char>, ResolveFailure>(explicit),
        !found.explicit_is_file ==> resolve_spec(Some(explicit), found) == Err::<Seq<char>, ResolveFailure>(
            ResolveFailure::ExecutableNotFound(explicit),
        ),
        (found.configured matches Some(c) && c.is_file) ==> resolve_spec(None, found) == Ok::<Seq<char>, ResolveFailure>(
            found.configured->0.path@,
        ),
        !(found.configured matches Some(c) && c.is_file) ==> match resolve_spec(None, found) {
            Ok(p) => exists|i: int|
                0 <= i < found.candidates@.len() && found.candidates@[i].is_file && found.candidates@[i].path@ == p
                    && forall|k: int| 0 <= k < i ==> !found.candidates@[k].is_file,
            Err(e) => e == ResolveFailure::NotFound(probe_paths(found.candidates@)) && forall|k: int|
                0 <= k < found.candidates@.len() ==> !found.candidates@[k].is_file,
        },
{
    lemma_first_file(found.candidates@);
}

/// The model of the errors a binary lookup gives.
pub ghost enum ResolveFailure {
    ExecutableNotFound(Seq<char>),
    NotFound(Seq<Seq<char>>),
}

/// The model of a lookup result.
pub open spec fn resolve_view(r: Result<String, BrowserError>) -> Option<Result<Seq<char>, ResolveFailure>> {
    match r {
        Ok(p) => Some(Ok(p@)),
        Err(BrowserError::ExecutableNotFound(p)) => Some(Err(ResolveFailure::ExecutableNotFound(p@))),
        Err(BrowserError::NotFound { search_paths }) => Some(Err(ResolveFailure::NotFound(strings_view(search_paths@)))),
        _ => None,
    }
}

/// Resolves a browser binary from what was found on disk; see [`resolve_spec`].
pub fn resolve_executable(explicit: Option<&String>, found: &Discovery) -> (r: Result<String, BrowserError>)
    ensures
        resolve_view(r) == Some(resolve_spec(crate::chrome::opt_view(match explicit { Some(e) => Some(*e), None => None }), *found)),
{
    if let Some(e) = explicit {
        return if found.explicit_is_file {
            Ok(e.clone())
        } else {
            Err(BrowserError::ExecutableNotFound(e.clone()))
        };
    }
    if let Some(c) = &found.configured {
        if c.is_file {
            return Ok(c.path.clone());
        }
    }
    let mut i: usize = 0;
    while i < found.candidates.len()
        invariant
            i <= found.candidates@.len(),
            explicit is None,
            !(found.configured matches Some(c) && c.is_file),
            forall|k: int| 0 <= k < i ==> !found.candidates@[k].is_file,
        decreases found.candidates@.len() - i,
    {
        if found.candidates[i].is_file {
            proof {
                let w = choose|j: int| 0 <= j < found.candidates@.len() && found.candidates@[j].is_file
                    && forall|k: int| 0 <= k < j ==> !found.candidates@[k].is_file;
                assert(found.candidates@[i as int].is_file);
                if w < i {
                } else if w > i {
                    assert(!found.candidates@[i as int].is_file);
                }
                assert(w == i);
            }
            return Ok(found.candidates[i].path.clone());
        }
        i += 1;
    }
    let search_paths = candidate_paths(found);
    Err(BrowserError::NotFound { search_paths })
}

/// The locations of every candidate, in order.
pub fn candidate_paths(found: &Discovery) -> (r: Vec<String>)
    ensures
        strings_view(r@) == probe_paths(found.candidates@),
{
    let mut search_paths: Vec<String> = Vec::new();
    let mut k: usize = 0;
    while k < found.candidates.len()
        invariant
            k <= found.candidates@.len(),
            strings_view(search_paths@) == probe_paths(found.candidates@.subrange(0, k as int)),
        decreases found.candidates@.len() - k,
    {
        let ghost before = search_paths@;
        search_paths.push(found.candidates[k].path.clone());
        assert(strings_view(search_paths@) =~= strings_view(before).push(found.candidates@[k as int].path@));
        assert(probe_paths(found.candidates@.subrange(0, k + 1)) =~= probe_paths(found.candidates@.subrange(0, k as int)).push(
            found.candidates@[k as int].path@,
        ));
        k += 1;
    }
    assert(found.candidates@.subrange(0, found.candidates@.len() as int) =~= found.candidates@);
    search_paths
}

/// The file name of a program: `.exe` is added on Windows unless present.
pub fn executable_name(name: &str, windows: bool) -> (r: String)
    ensures
        r@ == if windows && !crate::text::has_suffix(name@, ".exe"@) {
            name@ + ".exe"@
        } else {
            name@
        },
{
    let v = crate::text::chars_of(name);
    let ext = crate::text::chars_of(".exe");
    if windows && !crate::text::ends_with(&v, &ext) {
        let mut out = v;
        crate::text::append_chars(&mut out, &ext);
        crate::text::string_of(&out)
    } else {
        crate::text::str_from(name)
    }
}

}
