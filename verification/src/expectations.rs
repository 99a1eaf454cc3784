//! The verdicts of Playwright-style assertions on a locator, and which
//! browser backend a page runs on.
use vstd::prelude::*;

use crate::selectors::{debug_str, spec_debug_str};
use crate::text::{append_str, chars_of, contains_subseq, find_subseq, push_decimal, decimal, string_of};

verus! {

/// The browser backends a page can run on.
#[derive(Debug, Clone, Copy, PartialEq, Eq)]
pub enum Backend {
    /// Chrome over CDP.
    Chrome,
    /// Firefox over WebDriver BiDi.
    Firefox,
}

/// The name of a backend, for diagnostics.
pub fn backend_name(backend: &Backend) -> (r: &'static str)
    ensures
        r@ == match backend {
            Backend::Chrome => "chrome"@,
            Backend::Firefox => "firefox"@,
        },
{
    match backend {
        Backend::Chrome => "chrome",
        Backend::Firefox => "firefox",
    }
}

/// A page from either backend, `C` for a Chrome page and `F` for a Firefox
/// page, chosen at run time.
pub enum AnyPage<C, F> {
    /// A Chrome page driven over CDP.
    Chrome(C),
    /// A Firefox page driven over WebDriver BiDi.
    Firefox(F),
}

impl<C, F> AnyPage<C, F> {
    /// The backend this page runs on.
    pub fn backend(&self) -> (r: Backend)
        ensures
            r == match self {
                AnyPage::Chrome(_) => Backend::Chrome,
                AnyPage::Firefox(_) => Backend::Firefox,
            },
    {
        match self {
            AnyPage::Chrome(_) => Backend::Chrome,
            AnyPage::Firefox(_) => Backend::Firefox,
        }
    }

    /// The name of this page's backend, for diagnostics.
    pub fn backend_name(&self) -> (r: &'static str)
        ensures
            r@ == match self {
                AnyPage::Chrome(_) => "chrome"@,
                AnyPage::Firefox(_) => "firefox"@,
            },
    {
        let backend = self.backend();
        backend_name(&backend)
    }
}

/// A locator from either backend, `C` for a Chrome locator and `F` for a
/// Firefox locator.
pub enum AnyLocator<C, F> {
    /// A Chrome/CDP locator.
    Chrome(C),
    /// A Firefox/BiDi locator.
    Firefox(F),
}

/// `"expected {target} {rest}"`.
fn expected_message(target: &str, rest: &str) -> (r: String)
    ensures
        r@ == "expected "@ + target@ + " "@ + rest@,
{
    let mut v: Vec<char> = Vec::new();
    append_str(&mut v, "expected ");
    append_str(&mut v, target);
    append_str(&mut v, " ");
    append_str(&mut v, rest);
    string_of(&v)
}

/// The verdict on a state assertion (`to be visible`, `to be hidden`,
/// `to be enabled`): passed when it holds, else the failure message
/// `expected {target} {state}`.
pub fn state_verdict(target: &str, state: &str, holds: bool) -> (r: Option<String>)
    ensures
        holds ==> r is None,
        !holds ==> (r matches Some(m) && m@ == "expected "@ + target@ + " "@ + state@),
{
    if holds {
        None
    } else {
        Some(expected_message(target, state))
    }
}

/// The verdict on `to_have_text`: passed when the text is `expected`, else
/// `expected {target} to have text {expected:?}, got {actual:?}`.
pub fn text_verdict(target: &str, expected: &str, actual: &str) -> (r: Option<String>)
    ensures
        actual@ == expected@ ==> r is None,
        actual@ != expected@ ==> (r matches Some(m) && m@ == "expected "@ + target@ + " to have text "@
            + spec_debug_str(expected@) + ", got "@ + spec_debug_str(actual@)),
{
    let a = chars_of(actual);
    let e = chars_of(expected);
    if crate::text::chars_eq(&a, &e) {
        return None;
    }
    let mut v: Vec<char> = Vec::new();
    append_str(&mut v, "expected ");
    append_str(&mut v, target);
    append_str(&mut v, " to have text ");
    append_str(&mut v, debug_str(expected).as_str());
    append_str(&mut v, ", got ");
    append_str(&mut v, debug_str(actual).as_str());
    Some(string_of(&v))
}

/// The verdict on `to_contain_text`: passed when the text contains
/// `expected`, else `expected {target} to contain text {expected:?}, got
/// {actual:?}`.
pub fn contains_text_verdict(target: &str, expected: &str, actual: &str) -> (r: Option<String>)
    ensures
        contains_subseq(actual@, expected@) ==> r is None,
        !contains_subseq(actual@, expected@) ==> (r matches Some(m) && m@ == "expected "@ + target@
            + " to contain text "@ + spec_debug_str(expected@) + ", got "@ + spec_debug_str(actual@)),
{
    let a = chars_of(actual);
    let e = chars_of(expected);
    if find_subseq(&a, &e).is_some() {
        return None;
    }
    let mut v: Vec<char> = Vec::new();
    append_str(&mut v, "expected ");
    append_str(&mut v, target);
    append_str(&mut v, " to contain text ");
    append_str(&mut v, debug_str(expected).as_str());
    append_str(&mut v, ", got ");
    append_str(&mut v, debug_str(actual).as_str());
    Some(string_of(&v))
}

/// The verdict on `to_have_count`: passed when `actual == expected`, else
/// `expected {target} to have count {expected}, got {actual}`.
pub fn count_verdict(target: &str, expected: usize, actual: usize) -> (r: Option<String>)
    ensures
        actual == expected ==> r is None,
        actual != expected ==> (r matches Some(m) && m@ == "expected "@ + target@ + " to have count "@
            + decimal(expected as nat) + ", got "@ + decimal(actual as nat)),
{
    if actual == expected {
        return None;
    }
    let mut v: Vec<char> = Vec::new();
    append_str(&mut v, "expected ");
    append_str(&mut v, target);
    append_str(&mut v, " to have count ");
    push_decimal(&mut v, expected as u64);
    append_str(&mut v, ", got ");
    push_decimal(&mut v, actual as u64);
    Some(string_of(&v))
}

/// `format!("{value:?}")` of an optional string: `Some("...")` or `None`.
pub open spec fn debug_opt_spec(value: Option<Seq<char>>) -> Seq<char> {
    match value {
        Some(s) => "Some("@ + spec_debug_str(s) + ")"@,
        None => "None"@,
    }
}

/// The verdict on `to_have_attribute`: passed when the attribute is there
/// with the value `expected`, else `expected {target} to have attribute
/// {name:?}={expected:?}, got {actual:?}`.
pub fn attribute_verdict(target: &str, name: &str, expected: &str, actual: Option<&str>) -> (r: Option<String>)
    ensures
        (actual matches Some(a) && a@ == expected@) ==> r is None,
        !(actual matches Some(a) && a@ == expected@) ==> (r matches Some(m) && m@ == "expected "@ + target@
            + " to have attribute "@ + spec_debug_str(name@) + "="@ + spec_debug_str(expected@) + ", got "@
            + debug_opt_spec(match actual { Some(a) => Some(a@), None => None })),
{
    if let Some(a) = actual {
        let av = chars_of(a);
        let ev = chars_of(expected);
        if crate::text::chars_eq(&av, &ev) {
            return None;
        }
    }
    let mut v: Vec<char> = Vec::new();
    append_str(&mut v, "expected ");
    append_str(&mut v, target);
    append_str(&mut v, " to have attribute ");
    append_str(&mut v, debug_str(name).as_str());
    append_str(&mut v, "=");
    append_str(&mut v, debug_str(expected).as_str());
    append_str(&mut v, ", got ");
    match actual {
        Some(a) => {
            append_str(&mut v, "Some(");
            append_str(&mut v, debug_str(a).as_str());
            append_str(&mut v, ")");
        },
        None => append_str(&mut v, "None"),
    }
    Some(string_of(&v))
}

}
