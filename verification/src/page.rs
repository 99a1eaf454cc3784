//! Page-level helpers: URL normalization, key definitions and trace options.
use vstd::prelude::*;

use crate::text::{
    append_chars, append_str, ascii_upper, chars_are, chars_of, contains_subseq, find_subseq, index_of_from,
    lemma_index_of_from, slice_of, str_from, string_of, to_ascii_upper, trim, trim_bounds, lower_ascii_seq,
    to_ascii_lowercase,
};

verus! {

/// An ASCII letter.
pub open spec fn is_ascii_alpha(c: char) -> bool {
    ('a' <= c && c <= 'z') || ('A' <= c && c <= 'Z')
}

/// An ASCII digit.
pub open spec fn is_ascii_digit(c: char) -> bool {
    '0' <= c && c <= '9'
}

/// A character allowed in a URL scheme: ASCII letters and digits, `+`, `-`, `.`.
pub open spec fn is_scheme_char(c: char) -> bool {
    is_ascii_alpha(c) || is_ascii_digit(c) || c == '+' || c == '-' || c == '.'
}

/// `t` starts with a URL scheme: a non-empty run of scheme characters, not
/// starting with a digit, before the first `:`.
pub open spec fn has_scheme(t: Seq<char>) -> bool {
    let i = index_of_from(t, ':', 0);
    &&& i < t.len()
    &&& i > 0
    &&& forall|k: int| 0 <= k < i ==> #[trigger] is_scheme_char(t[k])
    &&& !is_ascii_digit(t[0])
}

/// What [`normalize_url`] makes of `input`.
pub open spec fn normalize_url_spec(input: Seq<char>) -> Seq<char> {
    let t = trim(input);
    if t.len() == 0 {
        "about:blank"@
    } else if has_scheme(t) {
        t
    } else {
        "https://"@ + t
    }
}

/// Normalizing a URL twice normalizes it once: the result is trimmed, and it
/// has a scheme (`about:blank`, the input's own, or `https://`).
pub proof fn lemma_normalize_url_idempotent(input: Seq<char>)
    ensures
        normalize_url_spec(normalize_url_spec(input)) == normalize_url_spec(input),
{
    crate::text::lemma_trim(input);
    let t = trim(input);
    let out = normalize_url_spec(input);
    if t.len() == 0 {
        reveal_strlit("about:blank");
        assert(out =~= seq!['a', 'b', 'o', 'u', 't', ':', 'b', 'l', 'a', 'n', 'k']);
        crate::text::lemma_trim(out);
        assert(index_of_from(out, ':', 0) == 5) by {
            reveal_with_fuel(index_of_from, 7);
        }
        assert(has_scheme(out));
    } else if has_scheme(t) {
        assert(out == t);
    } else {
        reveal_strlit("https://");
        assert(out =~= seq!['h', 't', 't', 'p', 's', ':', '/', '/'] + t);
        assert(out[0] == 'h');
        assert(out.last() == t.last());
        crate::text::lemma_trim(out);
        assert(trim(out) == out);
        assert(index_of_from(out, ':', 0) == 5) by {
            reveal_with_fuel(index_of_from, 7);
        }
        assert(has_scheme(out));
    }
}

/// Prefix a bare host with `https://`, leaving explicit schemes untouched;
/// surrounding white space is dropped and empty input becomes `about:blank`.
pub fn normalize_url(input: &str) -> (r: String)
    ensures
        r@ == normalize_url_spec(input@),
{
    let v = chars_of(input);
    let (lo, hi) = trim_bounds(&v);
    let t = slice_of(&v, lo, hi);
    if t.len() == 0 {
        return str_from("about:blank");
    }
    let colon = crate::text::find_char_from(&t, ':', 0);
    proof {
        lemma_index_of_from(t@, ':', 0);
    }
    let mut scheme_ok = colon < t.len() && colon > 0 && !('0' <= t[0] && t[0] <= '9');
    if scheme_ok {
        let mut k: usize = 0;
        while k < colon
            invariant
                colon < t@.len(),
                k <= colon,
                scheme_ok == forall|q: int| 0 <= q < k ==> #[trigger] is_scheme_char(t@[q]),
            decreases colon - k,
        {
            let c = t[k];
            let ok = ('a' <= c && c <= 'z') || ('A' <= c && c <= 'Z') || ('0' <= c && c <= '9') || c == '+' || c == '-' || c == '.';
            if !ok {
                scheme_ok = false;
            }
            proof {
                if !ok {
                    assert(!is_scheme_char(t@[k as int]));
                }
            }
            k += 1;
        }
        assert(scheme_ok == has_scheme(t@));
    }
    if scheme_ok {
        string_of(&t)
    } else {
        let mut out = chars_of("https://");
        append_chars(&mut out, &t);
        string_of(&out)
    }
}

/// `None` for the empty string, else the string itself.
pub fn non_empty(value: &str) -> (r: Option<String>)
    ensures
        match r {
            Some(s) => value@.len() > 0 && s@ == value@,
            None => value@.len() == 0,
        },
{
    if value.is_empty() {
        None
    } else {
        Some(str_from(value))
    }
}

// ---------------------------------------------------------------------------
// Keys
// ---------------------------------------------------------------------------

/// How a key is pressed over CDP `Input.dispatchKeyEvent`.
pub struct KeyDefinition {
    /// The DOM `key` value.
    pub key: String,
    /// The DOM `code` value.
    pub code: String,
    /// The Windows virtual key code.
    pub virtual_key_code: i64,
    /// The text the key inserts, if any.
    pub text: Option<String>,
}

/// The model of a [`KeyDefinition`].
pub ghost struct KeySpec {
    pub key: Seq<char>,
    pub code: Seq<char>,
    pub virtual_key_code: i64,
    pub text: Option<Seq<char>>,
}

impl View for KeyDefinition {
    type V = KeySpec;

    open spec fn view(&self) -> KeySpec {
        KeySpec {
            key: self.key@,
            code: self.code@,
            virtual_key_code: self.virtual_key_code,
            text: match self.text {
                Some(t) => Some(t@),
                None => None,
            },
        }
    }
}

/// The DOM `code` of a printable character: `Key` and the upper-case letter
/// for ASCII letters, `Digit` and the digit for ASCII digits, else empty.
pub open spec fn code_for_char_spec(c: char) -> Seq<char> {
    if is_ascii_alpha(c) {
        "Key"@.push(ascii_upper(c))
    } else if is_ascii_digit(c) {
        "Digit"@.push(c)
    } else {
        seq![]
    }
}

/// The DOM `code` of a printable character.
pub fn code_for_char(character: char) -> (r: String)
    ensures
        r@ == code_for_char_spec(character),
{
    if ('a' <= character && character <= 'z') || ('A' <= character && character <= 'Z') {
        let mut v = chars_of("Key");
        v.push(to_ascii_upper(character));
        string_of(&v)
    } else if '0' <= character && character <= '9' {
        let mut v = chars_of("Digit");
        v.push(character);
        string_of(&v)
    } else {
        let v: Vec<char> = Vec::new();
        string_of(&v)
    }
}

/// A key with no text.
pub open spec fn plain_key(key: Seq<char>, code: Seq<char>, vk: i64) -> KeySpec {
    KeySpec { key, code, virtual_key_code: vk, text: None }
}

/// How the key named `key` is pressed: named keys map to their DOM key,
/// code and virtual key code (Enter and Space also insert text); a single
/// character is its own key and text, with the code from
/// [`code_for_char_spec`] and its ASCII upper-case code point as virtual key
/// code; any other name is passed through with code 0.
pub open spec fn key_spec(key: Seq<char>) -> KeySpec {
    if key == "Enter"@ || key == "\n"@ {
        KeySpec { key: "Enter"@, code: "Enter"@, virtual_key_code: 13, text: Some("\r"@) }
    } else if key == "Tab"@ {
        plain_key("Tab"@, "Tab"@, 9)
    } else if key == "Escape"@ || key == "Esc"@ {
        plain_key("Escape"@, "Escape"@, 27)
    } else if key == "Backspace"@ {
        plain_key("Backspace"@, "Backspace"@, 8)
    } else if key == "Delete"@ {
        plain_key("Delete"@, "Delete"@, 46)
    } else if key == " "@ || key == "Space"@ {
        KeySpec { key: " "@, code: "Space"@, virtual_key_code: 32, text: Some(" "@) }
    } else if key == "ArrowUp"@ || key == "Up"@ {
        plain_key("ArrowUp"@, "ArrowUp"@, 38)
    } else if key == "ArrowDown"@ || key == "Down"@ {
        plain_key("ArrowDown"@, "ArrowDown"@, 40)
    } else if key == "ArrowLeft"@ || key == "Left"@ {
        plain_key("ArrowLeft"@, "ArrowLeft"@, 37)
    } else if key == "ArrowRight"@ || key == "Right"@ {
        plain_key("ArrowRight"@, "ArrowRight"@, 39)
    } else if key.len() == 1 {
        KeySpec {
            key,
            code: code_for_char_spec(key[0]),
            virtual_key_code: ascii_upper(key[0]) as i64,
            text: Some(key),
        }
    } else {
        plain_key(key, key, 0)
    }
}

/// The Windows virtual-key code of each named key, by its DOM `code`
/// (`VK_BACK`, `VK_TAB`, `VK_RETURN`, `VK_ESCAPE`, `VK_SPACE`, the arrows
/// `VK_LEFT` to `VK_DOWN`, `VK_DELETE`).
pub open spec fn windows_virtual_key(name: Seq<char>) -> Option<i64> {
    if false {
        None
    } else if name == "Backspace"@ {
        Some(8i64)
    } else if name == "Tab"@ {
        Some(9i64)
    } else if name == "Enter"@ {
        Some(13i64)
    } else if name == "Escape"@ {
        Some(27i64)
    } else if name == "Space"@ {
        Some(32i64)
    } else if name == "ArrowLeft"@ {
        Some(37i64)
    } else if name == "ArrowUp"@ {
        Some(38i64)
    } else if name == "ArrowRight"@ {
        Some(39i64)
    } else if name == "ArrowDown"@ {
        Some(40i64)
    } else if name == "Delete"@ {
        Some(46i64)
    } else {
        None
    }
}

/// A named key is pressed as itself: its definition has that key's own DOM
/// `code` and its Windows virtual-key code; its DOM `key` is its name (a
/// space for `Space`); only Enter and Space insert text (a carriage return
/// and a space).
pub proof fn lemma_named_keys(name: Seq<char>)
    requires
        windows_virtual_key(name) is Some,
    ensures
        key_spec(name).code == name,
        key_spec(name).virtual_key_code == windows_virtual_key(name)->0,
        key_spec(name).key == (if name == "Space"@ { " "@ } else { name }),
        key_spec(name).text == (if name == "Enter"@ {
            Some("\r"@)
        } else if name == "Space"@ {
            Some(" "@)
        } else {
            None
        }),
{
    reveal_strlit("Enter");
    reveal_strlit("\n");
    reveal_strlit("Tab");
    reveal_strlit("Escape");
    reveal_strlit("Esc");
    reveal_strlit("Backspace");
    reveal_strlit("Delete");
    reveal_strlit(" ");
    reveal_strlit("Space");
    reveal_strlit("ArrowUp");
    reveal_strlit("Up");
    reveal_strlit("ArrowDown");
    reveal_strlit("Down");
    reveal_strlit("ArrowLeft");
    reveal_strlit("Left");
    reveal_strlit("ArrowRight");
    reveal_strlit("Right");
    reveal_strlit("
");
    if name == "Backspace"@ {
        assert("Backspace"@.len() != "Enter"@.len());
        assert("Backspace"@.len() != "\n"@.len());
        assert("Backspace"@.len() != "Tab"@.len());
        assert("Backspace"@.len() != "Escape"@.len());
        assert("Backspace"@.len() != "Esc"@.len());
    }
    if name == "Tab"@ {
        assert("Tab"@.len() != "Enter"@.len());
        assert("Tab"@.len() != "\n"@.len());
    }
    if name == "Enter"@ {

    }
    if name == "Escape"@ {
        assert("Escape"@.len() != "Enter"@.len());
        assert("Escape"@.len() != "\n"@.len());
        assert("Escape"@.len() != "Tab"@.len());
    }
    if name == "Space"@ {
        assert("Space"@[0] != "Enter"@[0]);
        assert("Space"@.len() != "\n"@.len());
        assert("Space"@.len() != "Tab"@.len());
        assert("Space"@.len() != "Escape"@.len());
        assert("Space"@.len() != "Esc"@.len());
        assert("Space"@.len() != "Backspace"@.len());
        assert("Space"@.len() != "Delete"@.len());
        assert("Space"@.len() != " "@.len());
    }
    if name == "ArrowLeft"@ {
        assert("ArrowLeft"@.len() != "Enter"@.len());
        assert("ArrowLeft"@.len() != "\n"@.len());
        assert("ArrowLeft"@.len() != "Tab"@.len());
        assert("ArrowLeft"@.len() != "Escape"@.len());
        assert("ArrowLeft"@.len() != "Esc"@.len());
        assert("ArrowLeft"@[0] != "Backspace"@[0]);
        assert("ArrowLeft"@.len() != "Delete"@.len());
        assert("ArrowLeft"@.len() != " "@.len());
        assert("ArrowLeft"@.len() != "Space"@.len());
        assert("ArrowLeft"@.len() != "ArrowUp"@.len());
        assert("ArrowLeft"@.len() != "Up"@.len());
        assert("ArrowLeft"@[5] != "ArrowDown"@[5]);
        assert("ArrowLeft"@.len() != "Down"@.len());
    }
    if name == "ArrowUp"@ {
        assert("ArrowUp"@.len() != "Enter"@.len());
        assert("ArrowUp"@.len() != "\n"@.len());
        assert("ArrowUp"@.len() != "Tab"@.len());
        assert("ArrowUp"@.len() != "Escape"@.len());
        assert("ArrowUp"@.len() != "Esc"@.len());
        assert("ArrowUp"@.len() != "Backspace"@.len());
        assert("ArrowUp"@.len() != "Delete"@.len());
        assert("ArrowUp"@.len() != " "@.len());
        assert("ArrowUp"@.len() != "Space"@.len());
    }
    if name == "ArrowRight"@ {
        assert("ArrowRight"@.len() != "Enter"@.len());
        assert("ArrowRight"@.len() != "\n"@.len());
        assert("ArrowRight"@.len() != "Tab"@.len());
        assert("ArrowRight"@.len() != "Escape"@.len());
        assert("ArrowRight"@.len() != "Esc"@.len());
        assert("ArrowRight"@.len() != "Backspace"@.len());
        assert("ArrowRight"@.len() != "Delete"@.len());
        assert("ArrowRight"@.len() != " "@.len());
        assert("ArrowRight"@.len() != "Space"@.len());
        assert("ArrowRight"@.len() != "ArrowUp"@.len());
        assert("ArrowRight"@.len() != "Up"@.len());
        assert("ArrowRight"@.len() != "ArrowDown"@.len());
        assert("ArrowRight"@.len() != "Down"@.len());
        assert("ArrowRight"@.len() != "ArrowLeft"@.len());
        assert("ArrowRight"@.len() != "Left"@.len());
    }
    if name == "ArrowDown"@ {
        assert("ArrowDown"@.len() != "Enter"@.len());
        assert("ArrowDown"@.len() != "\n"@.len());
        assert("ArrowDown"@.len() != "Tab"@.len());
        assert("ArrowDown"@.len() != "Escape"@.len());
        assert("ArrowDown"@.len() != "Esc"@.len());
        assert("ArrowDown"@[0] != "Backspace"@[0]);
        assert("ArrowDown"@.len() != "Delete"@.len());
        assert("ArrowDown"@.len() != " "@.len());
        assert("ArrowDown"@.len() != "Space"@.len());
        assert("ArrowDown"@.len() != "ArrowUp"@.len());
        assert("ArrowDown"@.len() != "Up"@.len());
    }
    if name == "Delete"@ {
        assert("Delete"@.len() != "Enter"@.len());
        assert("Delete"@.len() != "\n"@.len());
        assert("Delete"@.len() != "Tab"@.len());
        assert("Delete"@[0] != "Escape"@[0]);
        assert("Delete"@.len() != "Esc"@.len());
        assert("Delete"@.len() != "Backspace"@.len());
    }
}

/// The short names press the same key as the long ones: a line feed is
/// Enter, `Esc` is Escape, a space is `Space`, and `Up`, `Down`, `Left`,
/// `Right` are the arrows.
pub proof fn lemma_key_aliases()
    ensures
        key_spec("\n"@) == key_spec("Enter"@),
        key_spec("Esc"@) == key_spec("Escape"@),
        key_spec(" "@) == key_spec("Space"@),
        key_spec("Up"@) == key_spec("ArrowUp"@),
        key_spec("Down"@) == key_spec("ArrowDown"@),
        key_spec("Left"@) == key_spec("ArrowLeft"@),
        key_spec("Right"@) == key_spec("ArrowRight"@),
{
    reveal_strlit("Enter");
    reveal_strlit("\n");
    reveal_strlit("Tab");
    reveal_strlit("Escape");
    reveal_strlit("Esc");
    reveal_strlit("Backspace");
    reveal_strlit("Delete");
    reveal_strlit(" ");
    reveal_strlit("Space");
    reveal_strlit("ArrowUp");
    reveal_strlit("Up");
    reveal_strlit("ArrowDown");
    reveal_strlit("Down");
    reveal_strlit("ArrowLeft");
    reveal_strlit("Left");
    reveal_strlit("ArrowRight");
    reveal_strlit("Right");
    reveal_strlit("
");
    assert("\n"@.len() != "Enter"@.len());
    assert("Esc"@.len() != "Enter"@.len());
    assert("Esc"@.len() != "\n"@.len());
    assert("Esc"@[0] != "Tab"@[0]);
    assert("Esc"@.len() != "Escape"@.len());
    assert("Escape"@.len() != "Enter"@.len());
    assert("Escape"@.len() != "\n"@.len());
    assert("Escape"@.len() != "Tab"@.len());
    assert(" "@.len() != "Enter"@.len());
    assert(" "@[0] != "\n"@[0]);
    assert(" "@.len() != "Tab"@.len());
    assert(" "@.len() != "Escape"@.len());
    assert(" "@.len() != "Esc"@.len());
    assert(" "@.len() != "Backspace"@.len());
    assert(" "@.len() != "Delete"@.len());
    assert("Space"@[0] != "Enter"@[0]);
    assert("Space"@.len() != "\n"@.len());
    assert("Space"@.len() != "Tab"@.len());
    assert("Space"@.len() != "Escape"@.len());
    assert("Space"@.len() != "Esc"@.len());
    assert("Space"@.len() != "Backspace"@.len());
    assert("Space"@.len() != "Delete"@.len());
    assert("Space"@.len() != " "@.len());
    assert("Up"@.len() != "Enter"@.len());
    assert("Up"@.len() != "\n"@.len());
    assert("Up"@.len() != "Tab"@.len());
    assert("Up"@.len() != "Escape"@.len());
    assert("Up"@.len() != "Esc"@.len());
    assert("Up"@.len() != "Backspace"@.len());
    assert("Up"@.len() != "Delete"@.len());
    assert("Up"@.len() != " "@.len());
    assert("Up"@.len() != "Space"@.len());
    assert("Up"@.len() != "ArrowUp"@.len());
    assert("ArrowUp"@.len() != "Enter"@.len());
    assert("ArrowUp"@.len() != "\n"@.len());
    assert("ArrowUp"@.len() != "Tab"@.len());
    assert("ArrowUp"@.len() != "Escape"@.len());
    assert("ArrowUp"@.len() != "Esc"@.len());
    assert("ArrowUp"@.len() != "Backspace"@.len());
    assert("ArrowUp"@.len() != "Delete"@.len());
    assert("ArrowUp"@.len() != " "@.len());
    assert("ArrowUp"@.len() != "Space"@.len());
    assert("Down"@.len() != "Enter"@.len());
    assert("Down"@.len() != "\n"@.len());
    assert("Down"@.len() != "Tab"@.len());
    assert("Down"@.len() != "Escape"@.len());
    assert("Down"@.len() != "Esc"@.len());
    assert("Down"@.len() != "Backspace"@.len());
    assert("Down"@.len() != "Delete"@.len());
    assert("Down"@.len() != " "@.len());
    assert("Down"@.len() != "Space"@.len());
    assert("Down"@.len() != "ArrowUp"@.len());
    assert("Down"@.len() != "Up"@.len());
    assert("Down"@.len() != "ArrowDown"@.len());
    assert("ArrowDown"@.len() != "Enter"@.len());
    assert("ArrowDown"@.len() != "\n"@.len());
    assert("ArrowDown"@.len() != "Tab"@.len());
    assert("ArrowDown"@.len() != "Escape"@.len());
    assert("ArrowDown"@.len() != "Esc"@.len());
    assert("ArrowDown"@[0] != "Backspace"@[0]);
    assert("ArrowDown"@.len() != "Delete"@.len());
    assert("ArrowDown"@.len() != " "@.len());
    assert("ArrowDown"@.len() != "Space"@.len());
    assert("ArrowDown"@.len() != "ArrowUp"@.len());
    assert("ArrowDown"@.len() != "Up"@.len());
    assert("Left"@.len() != "Enter"@.len());
    assert("Left"@.len() != "\n"@.len());
    assert("Left"@.len() != "Tab"@.len());
    assert("Left"@.len() != "Escape"@.len());
    assert("Left"@.len() != "Esc"@.len());
    assert("Left"@.len() != "Backspace"@.len());
    assert("Left"@.len() != "Delete"@.len());
    assert("Left"@.len() != " "@.len());
    assert("Left"@.len() != "Space"@.len());
    assert("Left"@.len() != "ArrowUp"@.len());
    assert("Left"@.len() != "Up"@.len());
    assert("Left"@.len() != "ArrowDown"@.len());
    assert("Left"@[0] != "Down"@[0]);
    assert("Left"@.len() != "ArrowLeft"@.len());
    assert("ArrowLeft"@.len() != "Enter"@.len());
    assert("ArrowLeft"@.len() != "\n"@.len());
    assert("ArrowLeft"@.len() != "Tab"@.len());
    assert("ArrowLeft"@.len() != "Escape"@.len());
    assert("ArrowLeft"@.len() != "Esc"@.len());
    assert("ArrowLeft"@[0] != "Backspace"@[0]);
    assert("ArrowLeft"@.len() != "Delete"@.len());
    assert("ArrowLeft"@.len() != " "@.len());
    assert("ArrowLeft"@.len() != "Space"@.len());
    assert("ArrowLeft"@.len() != "ArrowUp"@.len());
    assert("ArrowLeft"@.len() != "Up"@.len());
    assert("ArrowLeft"@[5] != "ArrowDown"@[5]);
    assert("ArrowLeft"@.len() != "Down"@.len());
    assert("Right"@[0] != "Enter"@[0]);
    assert("Right"@.len() != "\n"@.len());
    assert("Right"@.len() != "Tab"@.len());
    assert("Right"@.len() != "Escape"@.len());
    assert("Right"@.len() != "Esc"@.len());
    assert("Right"@.len() != "Backspace"@.len());
    assert("Right"@.len() != "Delete"@.len());
    assert("Right"@.len() != " "@.len());
    assert("Right"@[0] != "Space"@[0]);
    assert("Right"@.len() != "ArrowUp"@.len());
    assert("Right"@.len() != "Up"@.len());
    assert("Right"@.len() != "ArrowDown"@.len());
    assert("Right"@.len() != "Down"@.len());
    assert("Right"@.len() != "ArrowLeft"@.len());
    assert("Right"@.len() != "Left"@.len());
    assert("Right"@.len() != "ArrowRight"@.len());
    assert("ArrowRight"@.len() != "Enter"@.len());
    assert("ArrowRight"@.len() != "\n"@.len());
    assert("ArrowRight"@.len() != "Tab"@.len());
    assert("ArrowRight"@.len() != "Escape"@.len());
    assert("ArrowRight"@.len() != "Esc"@.len());
    assert("ArrowRight"@.len() != "Backspace"@.len());
    assert("ArrowRight"@.len() != "Delete"@.len());
    assert("ArrowRight"@.len() != " "@.len());
    assert("ArrowRight"@.len() != "Space"@.len());
    assert("ArrowRight"@.len() != "ArrowUp"@.len());
    assert("ArrowRight"@.len() != "Up"@.len());
    assert("ArrowRight"@.len() != "ArrowDown"@.len());
    assert("ArrowRight"@.len() != "Down"@.len());
    assert("ArrowRight"@.len() != "ArrowLeft"@.len());
    assert("ArrowRight"@.len() != "Left"@.len());
}

/// Any other single character is its own key and inserts itself.
pub proof fn lemma_character_keys(key: Seq<char>)
    requires
        key.len() == 1,
        key != " "@,
        key != "\n"@,
    ensures
        key_spec(key).key == key,
        key_spec(key).text == Some(key),
{
    reveal_strlit("Enter");
    reveal_strlit("\n");
    reveal_strlit("Tab");
    reveal_strlit("Escape");
    reveal_strlit("Esc");
    reveal_strlit("Backspace");
    reveal_strlit("Delete");
    reveal_strlit(" ");
    reveal_strlit("Space");
    reveal_strlit("ArrowUp");
    reveal_strlit("Up");
    reveal_strlit("ArrowDown");
    reveal_strlit("Down");
    reveal_strlit("ArrowLeft");
    reveal_strlit("Left");
    reveal_strlit("ArrowRight");
    reveal_strlit("Right");
    reveal_strlit("
");
}

fn simple(key: &str, code: &str, virtual_key_code: i64) -> (r: KeyDefinition)
    ensures
        r@ == plain_key(key@, code@, virtual_key_code),
{
    KeyDefinition { key: str_from(key), code: str_from(code), virtual_key_code, text: None }
}

/// How the key named `key` is pressed; see [`key_spec`].
pub fn key_definition(key: &str) -> (r: KeyDefinition)
    ensures
        r@ == key_spec(key@),
{
    let v = chars_of(key);
    if chars_are(&v, "Enter") || chars_are(&v, "\n") {
        KeyDefinition {
            key: str_from("Enter"),
            code: str_from("Enter"),
            virtual_key_code: 13,
            text: Some(str_from("\r")),
        }
    } else if chars_are(&v, "Tab") {
        simple("Tab", "Tab", 9)
    } else if chars_are(&v, "Escape") || chars_are(&v, "Esc") {
        simple("Escape", "Escape", 27)
    } else if chars_are(&v, "Backspace") {
        simple("Backspace", "Backspace", 8)
    } else if chars_are(&v, "Delete") {
        simple("Delete", "Delete", 46)
    } else if chars_are(&v, " ") || chars_are(&v, "Space") {
        KeyDefinition { key: str_from(" "), code: str_from("Space"), virtual_key_code: 32, text: Some(str_from(" ")) }
    } else if chars_are(&v, "ArrowUp") || chars_are(&v, "Up") {
        simple("ArrowUp", "ArrowUp", 38)
    } else if chars_are(&v, "ArrowDown") || chars_are(&v, "Down") {
        simple("ArrowDown", "ArrowDown", 40)
    } else if chars_are(&v, "ArrowLeft") || chars_are(&v, "Left") {
        simple("ArrowLeft", "ArrowLeft", 37)
    } else if chars_are(&v, "ArrowRight") || chars_are(&v, "Right") {
        simple("ArrowRight", "ArrowRight", 39)
    } else if v.len() == 1 {
        let character = v[0];
        let upper = to_ascii_upper(character);
        KeyDefinition {
            key: str_from(key),
            code: code_for_char(character),
            virtual_key_code: upper as u32 as i64,
            text: Some(str_from(key)),
        }
    } else {
        simple(key, key, 0)
    }
}

// ---------------------------------------------------------------------------
// Tracing
// ---------------------------------------------------------------------------

/// Options for Chrome trace collection.
pub struct TracingOptions {
    /// Comma-separated trace categories.
    pub categories: String,
    /// Include periodic screenshots in the trace.
    pub screenshots: bool,
}

/// The trace categories used by default.
pub open spec fn default_trace_categories() -> Seq<char> {
    "-*,devtools.timeline,v8,blink,blink.user_timing,loading,disabled-by-default-devtools.timeline"@
}

impl Default for TracingOptions {
    fn default() -> (r: TracingOptions)
        ensures
            r.categories@ == default_trace_categories(),
            r.screenshots,
    {
        TracingOptions {
            categories: str_from(
                "-*,devtools.timeline,v8,blink,blink.user_timing,loading,disabled-by-default-devtools.timeline",
            ),
            screenshots: true,
        }
    }
}

/// The category that records screenshots.
pub open spec fn screenshot_category() -> Seq<char> {
    "disabled-by-default-devtools.screenshot"@
}

impl TracingOptions {
    /// The effective category string: the screenshot category is appended
    /// (after a comma) when screenshots are on and it is not listed yet.
    pub fn category_string(&self) -> (r: String)
        ensures
            r@ == if self.screenshots && !contains_subseq(self.categories@, screenshot_category()) {
                self.categories@ + ","@ + screenshot_category()
            } else {
                self.categories@
            },
    {
        let cats = chars_of(self.categories.as_str());
        let shot = chars_of("disabled-by-default-devtools.screenshot");
        if self.screenshots && find_subseq(&cats, &shot).is_none() {
            let mut out = cats;
            append_str(&mut out, ",");
            append_chars(&mut out, &shot);
            string_of(&out)
        } else {
            self.categories.clone()
        }
    }
}

// ---------------------------------------------------------------------------
// Screenshots
// ---------------------------------------------------------------------------

/// The extension `Path::extension` finds in `path`.
pub uninterp spec fn spec_path_extension(path: Seq<char>) -> Option<Seq<char>>;

/// `Path::new(path).extension()`, as a string.
#[verifier::external_body]
fn path_extension(path: &str) -> (r: Option<String>)
    ensures
        match r {
            Some(e) => spec_path_extension(path@) == Some(e@),
            None => spec_path_extension(path@) is None,
        },
{
    std::path::Path::new(path).extension().map(|e| e.to_string_lossy().into_owned())
}

/// The image format a screenshot is written in, chosen by the file's
/// extension in any ASCII case: `jpeg` for `jpg`/`jpeg`, `webp`, else `png`.
pub open spec fn screenshot_format_spec(path: Seq<char>) -> Seq<char> {
    match spec_path_extension(path) {
        Some(e) => {
            let l = lower_ascii_seq(e);
            if l == "jpg"@ || l == "jpeg"@ {
                "jpeg"@
            } else if l == "webp"@ {
                "webp"@
            } else {
                "png"@
            }
        },
        None => "png"@,
    }
}

/// The image format a screenshot at `path` is written in.
pub fn screenshot_format(path: &str) -> (r: &'static str)
    ensures
        r@ == screenshot_format_spec(path@),
{
    match path_extension(path) {
        Some(e) => {
            let l = to_ascii_lowercase(&chars_of(e.as_str()));
            if chars_are(&l, "jpg") || chars_are(&l, "jpeg") {
                "jpeg"
            } else if chars_are(&l, "webp") {
                "webp"
            } else {
                "png"
            }
        },
        None => "png",
    }
}

/// The entry `delta` steps away from the current one in a navigation
/// history: its id, or a navigation error naming the offset when no entry
/// lies there.
pub fn history_entry(history: &crate::protocol::page::GetNavigationHistoryResult, delta: i64) -> (r: Result<
    i64,
    crate::error::AutomationError,
>)
    requires
        i64::MIN <= history.current_index + delta <= i64::MAX,
    ensures
        ({
            let target = history.current_index + delta;
            if 0 <= target < history.entries@.len() {
                r == Ok::<i64, crate::error::AutomationError>(history.entries@[target].id)
            } else {
                r matches Err(crate::error::AutomationError::Navigation(m)) && m@ == "no history entry at offset "@
                    + crate::selectors::signed_decimal(delta as int)
            }
        }),
{
    let target = history.current_index + delta;
    if target < 0 || target as u64 >= history.entries.len() as u64 {
        let mut v = chars_of("no history entry at offset ");
        let ghost before = v@;
        if delta < 0 {
            v.push('-');
            let magnitude: u64 = if delta == i64::MIN {
                9223372036854775808u64
            } else {
                (0 - delta) as u64
            };
            crate::text::push_decimal(&mut v, magnitude);
        } else {
            crate::text::push_decimal(&mut v, delta as u64);
        }
        assert(v@ =~= before + crate::selectors::signed_decimal(delta as int));
        return Err(crate::error::AutomationError::Navigation(string_of(&v)));
    }
    let index = target as u64;
    assert(index < history.entries@.len());
    Ok(history.entries[index as usize].id)
}

}
