//! Locator selector strategies.
use vstd::prelude::*;

use crate::json::{Json, JsonSpec, entries_view};
use crate::text::{append_str, chars_of, str_from, string_of};

verus! {

/// The ARIA role used by semantic locators.
#[derive(Debug, Clone, Copy, PartialEq, Eq, Hash, Structural)]
pub enum Role {
    Button,
    Link,
    TextBox,
    SearchBox,
    CheckBox,
    Radio,
    Heading,
    Img,
    List,
    ListItem,
    ComboBox,
    ListBox,
    Navigation,
    Main,
    Banner,
    ContentInfo,
    Form,
    Table,
    Row,
    Cell,
    Dialog,
    Region,
}

/// The canonical ARIA role string of `role`.
pub open spec fn role_name(role: Role) -> Seq<char> {
    match role {
        Role::Button => "button"@,
        Role::Link => "link"@,
        Role::TextBox => "textbox"@,
        Role::SearchBox => "searchbox"@,
        Role::CheckBox => "checkbox"@,
        Role::Radio => "radio"@,
        Role::Heading => "heading"@,
        Role::Img => "img"@,
        Role::List => "list"@,
        Role::ListItem => "listitem"@,
        Role::ComboBox => "combobox"@,
        Role::ListBox => "listbox"@,
        Role::Navigation => "navigation"@,
        Role::Main => "main"@,
        Role::Banner => "banner"@,
        Role::ContentInfo => "contentinfo"@,
        Role::Form => "form"@,
        Role::Table => "table"@,
        Role::Row => "row"@,
        Role::Cell => "cell"@,
        Role::Dialog => "dialog"@,
        Role::Region => "region"@,
    }
}

/// Distinct roles have distinct ARIA names, so the page script never takes
/// one role for another.
pub proof fn lemma_role_names_distinct(a: Role, b: Role)
    ensures
        role_name(a) == role_name(b) ==> a == b,
{
    reveal_strlit("button");
    reveal_strlit("link");
    reveal_strlit("textbox");
    reveal_strlit("searchbox");
    reveal_strlit("checkbox");
    reveal_strlit("radio");
    reveal_strlit("heading");
    reveal_strlit("img");
    reveal_strlit("list");
    reveal_strlit("listitem");
    reveal_strlit("combobox");
    reveal_strlit("listbox");
    reveal_strlit("navigation");
    reveal_strlit("main");
    reveal_strlit("banner");
    reveal_strlit("contentinfo");
    reveal_strlit("form");
    reveal_strlit("table");
    reveal_strlit("row");
    reveal_strlit("cell");
    reveal_strlit("dialog");
    reveal_strlit("region");
    assert("button"@.len() != "link"@.len());
    assert("button"@.len() != "textbox"@.len());
    assert("button"@.len() != "searchbox"@.len());
    assert("button"@.len() != "checkbox"@.len());
    assert("button"@.len() != "radio"@.len());
    assert("button"@.len() != "heading"@.len());
    assert("button"@.len() != "img"@.len());
    assert("button"@.len() != "list"@.len());
    assert("button"@.len() != "listitem"@.len());
    assert("button"@.len() != "combobox"@.len());
    assert("button"@.len() != "listbox"@.len());
    assert("button"@.len() != "navigation"@.len());
    assert("button"@.len() != "main"@.len());
    assert("button"@[1] != "banner"@[1]);
    assert("button"@.len() != "contentinfo"@.len());
    assert("button"@.len() != "form"@.len());
    assert("button"@.len() != "table"@.len());
    assert("button"@.len() != "row"@.len());
    assert("button"@.len() != "cell"@.len());
    assert("button"@[0] != "dialog"@[0]);
    assert("button"@[0] != "region"@[0]);
    assert("link"@.len() != "textbox"@.len());
    assert("link"@.len() != "searchbox"@.len());
    assert("link"@.len() != "checkbox"@.len());
    assert("link"@.len() != "radio"@.len());
    assert("link"@.len() != "heading"@.len());
    assert("link"@.len() != "img"@.len());
    assert("link"@[2] != "list"@[2]);
    assert("link"@.len() != "listitem"@.len());
    assert("link"@.len() != "combobox"@.len());
    assert("link"@.len() != "listbox"@.len());
    assert("link"@.len() != "navigation"@.len());
    assert("link"@[0] != "main"@[0]);
    assert("link"@.len() != "banner"@.len());
    assert("link"@.len() != "contentinfo"@.len());
    assert("link"@[0] != "form"@[0]);
    assert("link"@.len() != "table"@.len());
    assert("link"@.len() != "row"@.len());
    assert("link"@[0] != "cell"@[0]);
    assert("link"@.len() != "dialog"@.len());
    assert("link"@.len() != "region"@.len());
    assert("textbox"@.len() != "searchbox"@.len());
    assert("textbox"@.len() != "checkbox"@.len());
    assert("textbox"@.len() != "radio"@.len());
    assert("textbox"@[0] != "heading"@[0]);
    assert("textbox"@.len() != "img"@.len());
    assert("textbox"@.len() != "list"@.len());
    assert("textbox"@.len() != "listitem"@.len());
    assert("textbox"@.len() != "combobox"@.len());
    assert("textbox"@[0] != "listbox"@[0]);
    assert("textbox"@.len() != "navigation"@.len());
    assert("textbox"@.len() != "main"@.len());
    assert("textbox"@.len() != "banner"@.len());
    assert("textbox"@.len() != "contentinfo"@.len());
    assert("textbox"@.len() != "form"@.len());
    assert("textbox"@.len() != "table"@.len());
    assert("textbox"@.len() != "row"@.len());
    assert("textbox"@.len() != "cell"@.len());
    assert("textbox"@.len() != "dialog"@.len());
    assert("textbox"@.len() != "region"@.len());
    assert("searchbox"@.len() != "checkbox"@.len());
    assert("searchbox"@.len() != "radio"@.len());
    assert("searchbox"@.len() != "heading"@.len());
    assert("searchbox"@.len() != "img"@.len());
    assert("searchbox"@.len() != "list"@.len());
    assert("searchbox"@.len() != "listitem"@.len());
    assert("searchbox"@.len() != "combobox"@.len());
    assert("searchbox"@.len() != "listbox"@.len());
    assert("searchbox"@.len() != "navigation"@.len());
    assert("searchbox"@.len() != "main"@.len());
    assert("searchbox"@.len() != "banner"@.len());
    assert("searchbox"@.len() != "contentinfo"@.len());
    assert("searchbox"@.len() != "form"@.len());
    assert("searchbox"@.len() != "table"@.len());
    assert("searchbox"@.len() != "row"@.len());
    assert("searchbox"@.len() != "cell"@.len());
    assert("searchbox"@.len() != "dialog"@.len());
    assert("searchbox"@.len() != "region"@.len());
    assert("checkbox"@.len() != "radio"@.len());
    assert("checkbox"@.len() != "heading"@.len());
    assert("checkbox"@.len() != "img"@.len());
    assert("checkbox"@.len() != "list"@.len());
    assert("checkbox"@[0] != "listitem"@[0]);
    assert("checkbox"@[1] != "combobox"@[1]);
    assert("checkbox"@.len() != "listbox"@.len());
    assert("checkbox"@.len() != "navigation"@.len());
    assert("checkbox"@.len() != "main"@.len());
    assert("checkbox"@.len() != "banner"@.len());
    assert("checkbox"@.len() != "contentinfo"@.len());
    assert("checkbox"@.len() != "form"@.len());
    assert("checkbox"@.len() != "table"@.len());
    assert("checkbox"@.len() != "row"@.len());
    assert("checkbox"@.len() != "cell"@.len());
    assert("checkbox"@.len() != "dialog"@.len());
    assert("checkbox"@.len() != "region"@.len());
    assert("radio"@.len() != "heading"@.len());
    assert("radio"@.len() != "img"@.len());
    assert("radio"@.len() != "list"@.len());
    assert("radio"@.len() != "listitem"@.len());
    assert("radio"@.len() != "combobox"@.len());
    assert("radio"@.len() != "listbox"@.len());
    assert("radio"@.len() != "navigation"@.len());
    assert("radio"@.len() != "main"@.len());
    assert("radio"@.len() != "banner"@.len());
    assert("radio"@.len() != "contentinfo"@.len());
    assert("radio"@.len() != "form"@.len());
    assert("radio"@[0] != "table"@[0]);
    assert("radio"@.len() != "row"@.len());
    assert("radio"@.len() != "cell"@.len());
    assert("radio"@.len() != "dialog"@.len());
    assert("radio"@.len() != "region"@.len());
    assert("heading"@.len() != "img"@.len());
    assert("heading"@.len() != "list"@.len());
    assert("heading"@.len() != "listitem"@.len());
    assert("heading"@.len() != "combobox"@.len());
    assert("heading"@[0] != "listbox"@[0]);
    assert("heading"@.len() != "navigation"@.len());
    assert("heading"@.len() != "main"@.len());
    assert("heading"@.len() != "banner"@.len());
    assert("heading"@.len() != "contentinfo"@.len());
    assert("heading"@.len() != "form"@.len());
    assert("heading"@.len() != "table"@.len());
    assert("heading"@.len() != "row"@.len());
    assert("heading"@.len() != "cell"@.len());
    assert("heading"@.len() != "dialog"@.len());
    assert("heading"@.len() != "region"@.len());
    assert("img"@.len() != "list"@.len());
    assert("img"@.len() != "listitem"@.len());
    assert("img"@.len() != "combobox"@.len());
    assert("img"@.len() != "listbox"@.len());
    assert("img"@.len() != "navigation"@.len());
    assert("img"@.len() != "main"@.len());
    assert("img"@.len() != "banner"@.len());
    assert("img"@.len() != "contentinfo"@.len());
    assert("img"@.len() != "form"@.len());
    assert("img"@.len() != "table"@.len());
    assert("img"@[0] != "row"@[0]);
    assert("img"@.len() != "cell"@.len());
    assert("img"@.len() != "dialog"@.len());
    assert("img"@.len() != "region"@.len());
    assert("list"@.len() != "listitem"@.len());
    assert("list"@.len() != "combobox"@.len());
    assert("list"@.len() != "listbox"@.len());
    assert("list"@.len() != "navigation"@.len());
    assert("list"@[0] != "main"@[0]);
    assert("list"@.len() != "banner"@.len());
    assert("list"@.len() != "contentinfo"@.len());
    assert("list"@[0] != "form"@[0]);
    assert("list"@.len() != "table"@.len());
    assert("list"@.len() != "row"@.len());
    assert("list"@[0] != "cell"@[0]);
    assert("list"@.len() != "dialog"@.len());
    assert("list"@.len() != "region"@.len());
    assert("listitem"@[0] != "combobox"@[0]);
    assert("listitem"@.len() != "listbox"@.len());
    assert("listitem"@.len() != "navigation"@.len());
    assert("listitem"@.len() != "main"@.len());
    assert("listitem"@.len() != "banner"@.len());
    assert("listitem"@.len() != "contentinfo"@.len());
    assert("listitem"@.len() != "form"@.len());
    assert("listitem"@.len() != "table"@.len());
    assert("listitem"@.len() != "row"@.len());
    assert("listitem"@.len() != "cell"@.len());
    assert("listitem"@.len() != "dialog"@.len());
    assert("listitem"@.len() != "region"@.len());
    assert("combobox"@.len() != "listbox"@.len());
    assert("combobox"@.len() != "navigation"@.len());
    assert("combobox"@.len() != "main"@.len());
    assert("combobox"@.len() != "banner"@.len());
    assert("combobox"@.len() != "contentinfo"@.len());
    assert("combobox"@.len() != "form"@.len());
    assert("combobox"@.len() != "table"@.len());
    assert("combobox"@.len() != "row"@.len());
    assert("combobox"@.len() != "cell"@.len());
    assert("combobox"@.len() != "dialog"@.len());
    assert("combobox"@.len() != "region"@.len());
    assert("listbox"@.len() != "navigation"@.len());
    assert("listbox"@.len() != "main"@.len());
    assert("listbox"@.len() != "banner"@.len());
    assert("listbox"@.len() != "contentinfo"@.len());
    assert("listbox"@.len() != "form"@.len());
    assert("listbox"@.len() != "table"@.len());
    assert("listbox"@.len() != "row"@.len());
    assert("listbox"@.len() != "cell"@.len());
    assert("listbox"@.len() != "dialog"@.len());
    assert("listbox"@.len() != "region"@.len());
    assert("navigation"@.len() != "main"@.len());
    assert("navigation"@.len() != "banner"@.len());
    assert("navigation"@.len() != "contentinfo"@.len());
    assert("navigation"@.len() != "form"@.len());
    assert("navigation"@.len() != "table"@.len());
    assert("navigation"@.len() != "row"@.len());
    assert("navigation"@.len() != "cell"@.len());
    assert("navigation"@.len() != "dialog"@.len());
    assert("navigation"@.len() != "region"@.len());
    assert("main"@.len() != "banner"@.len());
    assert("main"@.len() != "contentinfo"@.len());
    assert("main"@[0] != "form"@[0]);
    assert("main"@.len() != "table"@.len());
    assert("main"@.len() != "row"@.len());
    assert("main"@[0] != "cell"@[0]);
    assert("main"@.len() != "dialog"@.len());
    assert("main"@.len() != "region"@.len());
    assert("banner"@.len() != "contentinfo"@.len());
    assert("banner"@.len() != "form"@.len());
    assert("banner"@.len() != "table"@.len());
    assert("banner"@.len() != "row"@.len());
    assert("banner"@.len() != "cell"@.len());
    assert("banner"@[0] != "dialog"@[0]);
    assert("banner"@[0] != "region"@[0]);
    assert("contentinfo"@.len() != "form"@.len());
    assert("contentinfo"@.len() != "table"@.len());
    assert("contentinfo"@.len() != "row"@.len());
    assert("contentinfo"@.len() != "cell"@.len());
    assert("contentinfo"@.len() != "dialog"@.len());
    assert("contentinfo"@.len() != "region"@.len());
    assert("form"@.len() != "table"@.len());
    assert("form"@.len() != "row"@.len());
    assert("form"@[0] != "cell"@[0]);
    assert("form"@.len() != "dialog"@.len());
    assert("form"@.len() != "region"@.len());
    assert("table"@.len() != "row"@.len());
    assert("table"@.len() != "cell"@.len());
    assert("table"@.len() != "dialog"@.len());
    assert("table"@.len() != "region"@.len());
    assert("row"@.len() != "cell"@.len());
    assert("row"@.len() != "dialog"@.len());
    assert("row"@.len() != "region"@.len());
    assert("cell"@.len() != "dialog"@.len());
    assert("cell"@.len() != "region"@.len());
    assert("dialog"@[0] != "region"@[0]);
}

impl Role {
    /// The canonical ARIA role string.
    pub fn as_str(self) -> (r: &'static str)
        ensures
            r@ == role_name(self),
    {
        match self {
            Role::Button => "button",
            Role::Link => "link",
            Role::TextBox => "textbox",
            Role::SearchBox => "searchbox",
            Role::CheckBox => "checkbox",
            Role::Radio => "radio",
            Role::Heading => "heading",
            Role::Img => "img",
            Role::List => "list",
            Role::ListItem => "listitem",
            Role::ComboBox => "combobox",
            Role::ListBox => "listbox",
            Role::Navigation => "navigation",
            Role::Main => "main",
            Role::Banner => "banner",
            Role::ContentInfo => "contentinfo",
            Role::Form => "form",
            Role::Table => "table",
            Role::Row => "row",
            Role::Cell => "cell",
            Role::Dialog => "dialog",
            Role::Region => "region",
        }
    }
}

/// A strategy for finding elements on a page.
pub enum Selector {
    /// A CSS selector.
    Css(String),
    /// Elements whose rendered text matches.
    Text { text: String, exact: bool },
    /// Elements with a given ARIA role and, optionally, an accessible name.
    Role { role: Role, name: Option<String> },
    /// Elements with a matching `placeholder` attribute.
    Placeholder { text: String, exact: bool },
    /// Form controls associated with a matching `<label>`.
    Label { text: String, exact: bool },
    /// Images with matching `alt` text.
    AltText { text: String, exact: bool },
    /// Elements with a matching test id (`data-testid` and friends).
    TestId(String),
}

/// The model of a [`Selector`].
pub ghost enum SelectorSpec {
    Css(Seq<char>),
    Text { text: Seq<char>, exact: bool },
    Role { role: Role, name: Option<Seq<char>> },
    Placeholder { text: Seq<char>, exact: bool },
    Label { text: Seq<char>, exact: bool },
    AltText { text: Seq<char>, exact: bool },
    TestId(Seq<char>),
}

impl View for Selector {
    type V = SelectorSpec;

    open spec fn view(&self) -> SelectorSpec {
        match self {
            Selector::Css(v) => SelectorSpec::Css(v@),
            Selector::Text { text, exact } => SelectorSpec::Text { text: text@, exact: *exact },
            Selector::Role { role, name } => SelectorSpec::Role {
                role: *role,
                name: match name {
                    Some(n) => Some(n@),
                    None => None,
                },
            },
            Selector::Placeholder { text, exact } => SelectorSpec::Placeholder { text: text@, exact: *exact },
            Selector::Label { text, exact } => SelectorSpec::Label { text: text@, exact: *exact },
            Selector::AltText { text, exact } => SelectorSpec::AltText { text: text@, exact: *exact },
            Selector::TestId(id) => SelectorSpec::TestId(id@),
        }
    }
}

/// How `Debug` writes a string: quoted, with special characters escaped.
pub uninterp spec fn spec_debug_str(s: Seq<char>) -> Seq<char>;

/// A printable ASCII character other than `"`, `'` and `\`, which `Debug`
/// writes as itself.
pub open spec fn plain_debug_char(c: char) -> bool {
    ' ' <= c && c <= '~' && c != '"' && c != '\\' && c != '\''
}

/// `format!("{s:?}")`: `s` in double quotes with special characters escaped;
/// a string of printable ASCII characters other than quotes and backslash is
/// written unchanged between the quotes.
#[verifier::external_body]
pub(crate) fn debug_str(s: &str) -> (r: String)
    ensures
        r@ == spec_debug_str(s@),
        (forall|i: int| 0 <= i < s@.len() ==> plain_debug_char(#[trigger] s@[i])) ==> r@ == seq!['"'] + s@ + seq!['"'],
{
    format!("{s:?}")
}

/// The description of a selector used in diagnostics and error messages.
pub open spec fn describe_spec(s: SelectorSpec) -> Seq<char> {
    match s {
        SelectorSpec::Css(v) => "css="@ + v,
        SelectorSpec::Text { text, exact } => if exact {
            "text="@ + spec_debug_str(text) + " (exact)"@
        } else {
            "text="@ + spec_debug_str(text)
        },
        SelectorSpec::Role { role, name } => match name {
            Some(n) => "role="@ + role_name(role) + " name="@ + spec_debug_str(n),
            None => "role="@ + role_name(role),
        },
        SelectorSpec::Placeholder { text, exact } => "placeholder="@ + spec_debug_str(text) + (if exact { " exact"@ } else { ""@ }),
        SelectorSpec::Label { text, exact } => "label="@ + spec_debug_str(text) + (if exact { " exact"@ } else { ""@ }),
        SelectorSpec::AltText { text, exact } => "alt="@ + spec_debug_str(text) + (if exact { " exact"@ } else { ""@ }),
        SelectorSpec::TestId(id) => "testid="@ + spec_debug_str(id),
    }
}

/// `a` followed by `b`.
fn cat2(a: &str, b: &str) -> (r: String)
    ensures
        r@ == a@ + b@,
{
    let mut v = chars_of(a);
    append_str(&mut v, b);
    string_of(&v)
}

/// `a` followed by `b` and `c`.
fn cat3(a: &str, b: &str, c: &str) -> (r: String)
    ensures
        r@ == a@ + b@ + c@,
{
    let mut v = chars_of(a);
    append_str(&mut v, b);
    append_str(&mut v, c);
    string_of(&v)
}

/// The JSON spec of a selector, as the injected page script reads it.
pub open spec fn selector_json(s: SelectorSpec) -> JsonSpec {
    match s {
        SelectorSpec::Css(v) => JsonSpec::Object(seq![("kind"@, JsonSpec::Str("css"@)), ("value"@, JsonSpec::Str(v))]),
        SelectorSpec::Text { text, exact } => JsonSpec::Object(
            seq![("kind"@, JsonSpec::Str("text"@)), ("value"@, JsonSpec::Str(text)), ("exact"@, JsonSpec::Bool(exact))],
        ),
        SelectorSpec::Role { role, name } => {
            let name_json = match name {
                Some(n) => JsonSpec::Str(n),
                None => JsonSpec::Null,
            };
            JsonSpec::Object(
                seq![
                    ("kind"@, JsonSpec::Str("role"@)),
                    ("role"@, JsonSpec::Str(role_name(role))),
                    ("name"@, name_json),
                    ("exact"@, JsonSpec::Bool(false)),
                ],
            )
        },
        SelectorSpec::Placeholder { text, exact } => JsonSpec::Object(
            seq![("kind"@, JsonSpec::Str("placeholder"@)), ("value"@, JsonSpec::Str(text)), ("exact"@, JsonSpec::Bool(exact))],
        ),
        SelectorSpec::Label { text, exact } => JsonSpec::Object(
            seq![("kind"@, JsonSpec::Str("label"@)), ("value"@, JsonSpec::Str(text)), ("exact"@, JsonSpec::Bool(exact))],
        ),
        SelectorSpec::AltText { text, exact } => JsonSpec::Object(
            seq![("kind"@, JsonSpec::Str("alt"@)), ("value"@, JsonSpec::Str(text)), ("exact"@, JsonSpec::Bool(exact))],
        ),
        SelectorSpec::TestId(id) => JsonSpec::Object(seq![("kind"@, JsonSpec::Str("testid"@)), ("value"@, JsonSpec::Str(id))]),
    }
}

/// The `kind` entry of a JSON object whose first entry is that kind.
proof fn lemma_first_entry_is_field(entries: Seq<(Seq<char>, JsonSpec)>, key: Seq<char>)
    requires
        entries.len() > 0,
        entries[0].0 == key,
    ensures
        crate::json::field(JsonSpec::Object(entries), key) == Some(entries[0].1),
{
    assert(entries[0].0 == key);
    let i = choose|i: int| 0 <= i < entries.len() && entries[i].0 == key && forall|k: int| 0 <= k < i ==> entries[k].0 != key;
    if i > 0 {
        assert(entries[0].0 != key);
    }
}

/// The page script tells selectors apart by the `kind` entry of their JSON
/// spec: each strategy has its own kind (`css`, `text`, `role`,
/// `placeholder`, `label`, `alt`, `testid`), so two selectors have the same
/// kind exactly when they use the same strategy; and a selector matching on
/// a text or id carries it as its `value`.
pub proof fn lemma_selector_kinds(s: SelectorSpec, t: SelectorSpec)
    ensures
        s is Css ==> crate::json::field(selector_json(s), "kind"@) == Some(JsonSpec::Str("css"@)),
        s is Text ==> crate::json::field(selector_json(s), "kind"@) == Some(JsonSpec::Str("text"@)),
        s is Role ==> crate::json::field(selector_json(s), "kind"@) == Some(JsonSpec::Str("role"@)),
        s is Placeholder ==> crate::json::field(selector_json(s), "kind"@) == Some(JsonSpec::Str("placeholder"@)),
        s is Label ==> crate::json::field(selector_json(s), "kind"@) == Some(JsonSpec::Str("label"@)),
        s is AltText ==> crate::json::field(selector_json(s), "kind"@) == Some(JsonSpec::Str("alt"@)),
        s is TestId ==> crate::json::field(selector_json(s), "kind"@) == Some(JsonSpec::Str("testid"@)),
        crate::json::field(selector_json(s), "kind"@) == crate::json::field(selector_json(t), "kind"@) ==> (
        (s is Css <==> t is Css) && (s is Text <==> t is Text) && (s is Role <==> t is Role) && (s is Placeholder
            <==> t is Placeholder) && (s is Label <==> t is Label) && (s is AltText <==> t is AltText) && (s is TestId
            <==> t is TestId)),
        match s {
            SelectorSpec::Css(v) => crate::json::field(selector_json(s), "value"@) == Some(JsonSpec::Str(v)),
            SelectorSpec::Text { text, .. } => crate::json::field(selector_json(s), "value"@) == Some(JsonSpec::Str(text)),
            SelectorSpec::Placeholder { text, .. } => crate::json::field(selector_json(s), "value"@) == Some(
                JsonSpec::Str(text),
            ),
            SelectorSpec::Label { text, .. } => crate::json::field(selector_json(s), "value"@) == Some(JsonSpec::Str(text)),
            SelectorSpec::AltText { text, .. } => crate::json::field(selector_json(s), "value"@) == Some(
                JsonSpec::Str(text),
            ),
            SelectorSpec::TestId(id) => crate::json::field(selector_json(s), "value"@) == Some(JsonSpec::Str(id)),
            SelectorSpec::Role { .. } => true,
        },
{
    reveal_strlit("kind");
    reveal_strlit("value");
    reveal_strlit("css");
    reveal_strlit("text");
    reveal_strlit("role");
    reveal_strlit("placeholder");
    reveal_strlit("label");
    reveal_strlit("alt");
    reveal_strlit("testid");
    assert("kind"@.len() != "value"@.len());
    assert("text"@[0] != "role"@[0]);
    assert("css"@[0] != "alt"@[0]);
    assert("css"@.len() != "text"@.len());
    assert("css"@.len() != "role"@.len());
    assert("css"@.len() != "placeholder"@.len());
    assert("css"@.len() != "label"@.len());
    assert("css"@.len() != "testid"@.len());
    assert("text"@.len() != "placeholder"@.len());
    assert("text"@.len() != "label"@.len());
    assert("text"@.len() != "alt"@.len());
    assert("text"@.len() != "testid"@.len());
    assert("role"@.len() != "placeholder"@.len());
    assert("role"@.len() != "label"@.len());
    assert("role"@.len() != "alt"@.len());
    assert("role"@.len() != "testid"@.len());
    assert("placeholder"@.len() != "label"@.len());
    assert("placeholder"@.len() != "alt"@.len());
    assert("placeholder"@.len() != "testid"@.len());
    assert("label"@.len() != "alt"@.len());
    assert("label"@.len() != "testid"@.len());
    assert("alt"@.len() != "testid"@.len());
    for_kind(s);
    for_kind(t);
    let ks = crate::json::field(selector_json(s), "kind"@);
    let kt = crate::json::field(selector_json(t), "kind"@);
    if ks == kt {
        assert(ks->0 == kt->0);
    }
    match s {
        SelectorSpec::Role { .. } => {},
        _ => {
            if let JsonSpec::Object(es) = selector_json(s) {
                assert(es[1].0 == "value"@);
                assert(es[0].0 != "value"@);
                let i = choose|i: int| 0 <= i < es.len() && es[i].0 == "value"@ && forall|k: int| 0 <= k < i ==> es[k].0
                    != "value"@;
                if i > 1 {
                    assert(es[1].0 != "value"@);
                }
            }
        },
    }
}

/// The `kind` entry of a selector's spec is its first entry.
proof fn for_kind(s: SelectorSpec)
    ensures
        selector_json(s) matches JsonSpec::Object(es) && es.len() > 0 && es[0].0 == "kind"@
            && crate::json::field(selector_json(s), "kind"@) == Some(es[0].1),
{
    if let JsonSpec::Object(es) = selector_json(s) {
        lemma_first_entry_is_field(es, "kind"@);
    }
}

/// An object entry binding `key` to the string `value`.
fn str_entry(key: &str, value: &str) -> (r: (String, Json))
    ensures
        r.0@ == key@,
        r.1@ == JsonSpec::Str(value@),
{
    (str_from(key), Json::String(str_from(value)))
}

/// A JSON object of two entries.
fn object2(a: (String, Json), b: (String, Json)) -> (r: Json)
    ensures
        r@ == JsonSpec::Object(seq![(a.0@, a.1@), (b.0@, b.1@)]),
{
    let mut v: Vec<(String, Json)> = Vec::new();
    v.push(a);
    v.push(b);
    let r = Json::Object(v);
    proof {
        crate::json::lemma_entries_view(v@);
    }
    assert(entries_view(v@) =~= seq![(a.0@, a.1@), (b.0@, b.1@)]);
    r
}

/// A JSON object of three entries.
fn object3(a: (String, Json), b: (String, Json), c: (String, Json)) -> (r: Json)
    ensures
        r@ == JsonSpec::Object(seq![(a.0@, a.1@), (b.0@, b.1@), (c.0@, c.1@)]),
{
    let mut v: Vec<(String, Json)> = Vec::new();
    v.push(a);
    v.push(b);
    v.push(c);
    let r = Json::Object(v);
    proof {
        crate::json::lemma_entries_view(v@);
    }
    assert(entries_view(v@) =~= seq![(a.0@, a.1@), (b.0@, b.1@), (c.0@, c.1@)]);
    r
}

/// A JSON object of four entries.
fn object4(a: (String, Json), b: (String, Json), c: (String, Json), d: (String, Json)) -> (r: Json)
    ensures
        r@ == JsonSpec::Object(seq![(a.0@, a.1@), (b.0@, b.1@), (c.0@, c.1@), (d.0@, d.1@)]),
{
    let mut v: Vec<(String, Json)> = Vec::new();
    v.push(a);
    v.push(b);
    v.push(c);
    v.push(d);
    let r = Json::Object(v);
    proof {
        crate::json::lemma_entries_view(v@);
    }
    assert(entries_view(v@) =~= seq![(a.0@, a.1@), (b.0@, b.1@), (c.0@, c.1@), (d.0@, d.1@)]);
    r
}

impl Selector {
    /// Create a CSS selector.
    pub fn css(selector: &str) -> (r: Selector)
        ensures
            r@ == SelectorSpec::Css(selector@),
    {
        Selector::Css(str_from(selector))
    }

    /// Create a text selector.
    pub fn text(text: &str, exact: bool) -> (r: Selector)
        ensures
            r@ == (SelectorSpec::Text { text: text@, exact }),
    {
        Selector::Text { text: str_from(text), exact }
    }

    /// Create a role selector.
    pub fn role(role: Role, name: Option<&str>) -> (r: Selector)
        ensures
            r@ == (SelectorSpec::Role { role, name: match name { Some(n) => Some(n@), None => None } }),
    {
        let name = match name {
            Some(n) => Some(str_from(n)),
            None => None,
        };
        Selector::Role { role, name }
    }

    /// Create a placeholder selector.
    pub fn placeholder(text: &str, exact: bool) -> (r: Selector)
        ensures
            r@ == (SelectorSpec::Placeholder { text: text@, exact }),
    {
        Selector::Placeholder { text: str_from(text), exact }
    }

    /// Create a label selector.
    pub fn label(text: &str, exact: bool) -> (r: Selector)
        ensures
            r@ == (SelectorSpec::Label { text: text@, exact }),
    {
        Selector::Label { text: str_from(text), exact }
    }

    /// Create an alt-text selector.
    pub fn alt_text(text: &str, exact: bool) -> (r: Selector)
        ensures
            r@ == (SelectorSpec::AltText { text: text@, exact }),
    {
        Selector::AltText { text: str_from(text), exact }
    }

    /// Create a test-id selector.
    pub fn test_id(id: &str) -> (r: Selector)
        ensures
            r@ == SelectorSpec::TestId(id@),
    {
        Selector::TestId(str_from(id))
    }

    /// A human-readable description for diagnostics and error messages.
    pub fn describe(&self) -> (r: String)
        ensures
            r@ == describe_spec(self@),
    {
        match self {
            Selector::Css(value) => cat2("css=", value.as_str()),
            Selector::Text { text, exact } => {
                let quoted = debug_str(text.as_str());
                if *exact {
                    cat3("text=", quoted.as_str(), " (exact)")
                } else {
                    cat2("text=", quoted.as_str())
                }
            },
            Selector::Role { role, name } => match name {
                Some(name) => {
                    let quoted = debug_str(name.as_str());
                    let head = cat3("role=", role.as_str(), " name=");
                    cat2(head.as_str(), quoted.as_str())
                },
                None => cat2("role=", role.as_str()),
            },
            Selector::Placeholder { text, exact } => {
                let quoted = debug_str(text.as_str());
                cat3("placeholder=", quoted.as_str(), if *exact { " exact" } else { "" })
            },
            Selector::Label { text, exact } => {
                let quoted = debug_str(text.as_str());
                cat3("label=", quoted.as_str(), if *exact { " exact" } else { "" })
            },
            Selector::AltText { text, exact } => {
                let quoted = debug_str(text.as_str());
                cat3("alt=", quoted.as_str(), if *exact { " exact" } else { "" })
            },
            Selector::TestId(id) => {
                let quoted = debug_str(id.as_str());
                cat2("testid=", quoted.as_str())
            },
        }
    }

    /// Serialize to the JSON spec consumed by the injected page script.
    pub fn to_spec(&self) -> (r: Json)
        ensures
            r@ == selector_json(self@),
    {
        match self {
            Selector::Css(value) => {
                let r = object2(str_entry("kind", "css"), str_entry("value", value.as_str()));
                assert(r@ == selector_json(self@));
                r
            },
            Selector::Text { text, exact } => {
                let r = object3(
                str_entry("kind", "text"),
                str_entry("value", text.as_str()),
                (str_from("exact"), Json::Bool(*exact)),
            );
                assert(r@ == selector_json(self@));
                r
            },
            Selector::Role { role, name } => {
                let name_json = match name {
                    Some(n) => Json::String(n.clone()),
                    None => Json::Null,
                };
                let r = object4(
                    str_entry("kind", "role"),
                    str_entry("role", role.as_str()),
                    (str_from("name"), name_json),
                    (str_from("exact"), Json::Bool(false)),
                );
                assert(r@ == selector_json(self@));
                r
            },
            Selector::Placeholder { text, exact } => {
                let r = object3(
                str_entry("kind", "placeholder"),
                str_entry("value", text.as_str()),
                (str_from("exact"), Json::Bool(*exact)),
            );
                assert(r@ == selector_json(self@));
                r
            },
            Selector::Label { text, exact } => {
                let r = object3(
                str_entry("kind", "label"),
                str_entry("value", text.as_str()),
                (str_from("exact"), Json::Bool(*exact)),
            );
                assert(r@ == selector_json(self@));
                r
            },
            Selector::AltText { text, exact } => {
                let r = object3(
                str_entry("kind", "alt"),
                str_entry("value", text.as_str()),
                (str_from("exact"), Json::Bool(*exact)),
            );
                assert(r@ == selector_json(self@));
                r
            },
            Selector::TestId(id) => {
                let r = object2(str_entry("kind", "testid"), str_entry("value", id.as_str()));
                assert(r@ == selector_json(self@));
                r
            },
        }
    }

    /// A CSS selector from a string (`From<&str>` in spirit).
    pub fn from_css(value: &str) -> (r: Selector)
        ensures
            r@ == SelectorSpec::Css(value@),
    {
        Selector::Css(str_from(value))
    }
}

/// `i` written in decimal, with a minus sign when negative.
pub open spec fn signed_decimal(i: int) -> Seq<char> {
    if i < 0 {
        seq!['-'] + crate::text::decimal((-i) as nat)
    } else {
        crate::text::decimal(i as nat)
    }
}

/// The JSON number of an `i64`, as `serde_json` makes it: non-negative
/// values as unsigned integers, negative ones as signed integers.
pub open spec fn i64_json(i: i64) -> JsonSpec {
    if i >= 0 {
        JsonSpec::Number(crate::json::JsonNumber::PosInt(i as u64))
    } else {
        JsonSpec::Number(crate::json::JsonNumber::NegInt(i))
    }
}

/// How a locator describes itself: its selector's description, followed by
/// ` nth=` and the index when it picks one match.
pub open spec fn locator_description_spec(selector: SelectorSpec, nth: Option<i64>) -> Seq<char> {
    match nth {
        Some(index) => describe_spec(selector) + " nth="@ + signed_decimal(index as int),
        None => describe_spec(selector),
    }
}

/// The JSON spec a locator resolves with: its selector's spec, with `nth`
/// bound to the index when it picks one match.
pub open spec fn locator_json(selector: SelectorSpec, nth: Option<i64>) -> JsonSpec {
    match nth {
        Some(index) => match selector_json(selector) {
            JsonSpec::Object(entries) => JsonSpec::Object(crate::json::object_insert(entries, "nth"@, i64_json(index))),
            other => other,
        },
        None => selector_json(selector),
    }
}

/// The description of a locator for `selector` that picks the match `nth`
/// (counted from the end when negative), or every match.
pub fn locator_description(selector: &Selector, nth: Option<i64>) -> (r: String)
    ensures
        r@ == locator_description_spec(selector@, nth),
{
    let base = selector.describe();
    match nth {
        Some(index) => {
            let mut v = chars_of(base.as_str());
            append_str(&mut v, " nth=");
            let ghost before = v@;
            if index < 0 {
                v.push('-');
                let magnitude: u64 = if index == i64::MIN {
                    9223372036854775808u64
                } else {
                    (0 - index) as u64
                };
                crate::text::push_decimal(&mut v, magnitude);
            } else {
                crate::text::push_decimal(&mut v, index as u64);
            }
            assert(v@ =~= before + signed_decimal(index as int));
            string_of(&v)
        },
        None => base,
    }
}

/// The JSON spec of a locator for `selector` that picks the match `nth`, or
/// every match.
pub fn locator_spec(selector: &Selector, nth: Option<i64>) -> (r: Json)
    ensures
        r@ == locator_json(selector@, nth),
{
    let spec = selector.to_spec();
    match nth {
        Some(index) => match spec {
            Json::Object(entries) => {
                let mut entries = entries;
                let number = if index >= 0 {
                    crate::json::JsonNumber::PosInt(index as u64)
                } else {
                    crate::json::JsonNumber::NegInt(index)
                };
                crate::json::insert_entry(&mut entries, str_from("nth"), Json::Number(number));
                Json::Object(entries)
            },
            other => other,
        },
        None => spec,
    }
}

}
