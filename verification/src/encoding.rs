//! Base64, as the DevTools protocol carries binary payloads.
use vstd::prelude::*;

use base64::Engine;

use crate::error::AutomationError;
use crate::text::{append_str, string_of};

verus! {

/// The base64 alphabet: `A`-`Z`, `a`-`z`, `0`-`9`, `+`, `/`.
pub open spec fn base64_char(v: int) -> char {
    if v < 26 {
        (('A' as int) + v) as char
    } else if v < 52 {
        (('a' as int) + v - 26) as char
    } else if v < 62 {
        (('0' as int) + v - 52) as char
    } else if v == 62 {
        '+'
    } else {
        '/'
    }
}

/// Standard base64 with padding (RFC 4648): every three bytes become four
/// characters of six bits each; a last group of one or two bytes is padded
/// with `=`.
pub open spec fn base64_spec(b: Seq<u8>) -> Seq<char>
    decreases b.len(),
{
    if b.len() == 0 {
        seq![]
    } else if b.len() == 1 {
        seq![base64_char((b[0] / 4) as int), base64_char((b[0] % 4) * 16), '=', '=']
    } else if b.len() == 2 {
        seq![base64_char((b[0] / 4) as int), base64_char((b[0] % 4) * 16 + b[1] / 16), base64_char((b[1] % 16) * 4), '=']
    } else {
        seq![
            base64_char((b[0] / 4) as int),
            base64_char((b[0] % 4) * 16 + b[1] / 16),
            base64_char((b[1] % 16) * 4 + b[2] / 64),
            base64_char((b[2] % 64) as int),
        ] + base64_spec(b.subrange(3, b.len() as int))
    }
}

/// The length of the base64 text of `n` bytes.
pub open spec fn base64_len(n: int) -> int {
    (n / 3) * 4 + if n % 3 > 0 {
        4int
    } else {
        0int
    }
}

/// `base64::engine::general_purpose::STANDARD.encode`: the standard base64
/// text of `bytes`, with padding. The engine panics when the length of the
/// text does not fit in a `usize`, which `requires` leaves out.
#[verifier::external_body]
pub(crate) fn base64_encode(bytes: &[u8]) -> (r: String)
    requires
        base64_len(bytes@.len() as int) <= usize::MAX,
    ensures
        r@ == base64_spec(bytes@),
{
    base64::engine::general_purpose::STANDARD.encode(bytes)
}

/// The base64 text of a response body.
pub fn encode_body(body: &[u8]) -> (r: String)
    requires
        base64_len(body@.len() as int) <= usize::MAX,
    ensures
        r@ == base64_spec(body@),
{
    base64_encode(body)
}

/// What `STANDARD.decode` reports for text that is not base64.
pub uninterp spec fn spec_base64_error(data: Seq<char>) -> Seq<char>;

/// `base64::engine::general_purpose::STANDARD.decode`: the bytes whose
/// standard padded base64 text is `data` (the engine accepts only canonical
/// text: padding required, no trailing bits), or the text of the error.
#[verifier::external_body]
pub(crate) fn base64_decode(data: &str) -> (r: Result<Vec<u8>, String>)
    ensures
        match r {
            Ok(b) => base64_spec(b@) == data@,
            Err(m) => (forall|b: Seq<u8>| base64_spec(b) != data@) && m@ == spec_base64_error(data@),
        },
{
    match base64::engine::general_purpose::STANDARD.decode(data) {
        Ok(bytes) => Ok(bytes),
        Err(error) => Err(error.to_string()),
    }
}

/// Decode a base64 payload sent by the browser (a screenshot, a response
/// body): its bytes, or a JavaScript error `invalid base64 payload: ...`.
pub fn decode_base64(data: &str) -> (r: Result<Vec<u8>, AutomationError>)
    ensures
        match r {
            Ok(b) => base64_spec(b@) == data@,
            Err(e) => (forall|b: Seq<u8>| base64_spec(b) != data@) && (e matches AutomationError::JavaScript(m)
                && m@ == "invalid base64 payload: "@ + spec_base64_error(data@)),
        },
{
    match base64_decode(data) {
        Ok(bytes) => Ok(bytes),
        Err(message) => {
            let mut v: Vec<char> = Vec::new();
            append_str(&mut v, "invalid base64 payload: ");
            append_str(&mut v, message.as_str());
            Err(AutomationError::JavaScript(string_of(&v)))
        },
    }
}


/// The six-bit values of three bytes determine the bytes.
proof fn lemma_group3(a0: u8, a1: u8, a2: u8, b0: u8, b1: u8, b2: u8)
    by (bit_vector)
    requires
        a0 / 4 == b0 / 4,
        (a0 % 4) * 16 + a1 / 16 == (b0 % 4) * 16 + b1 / 16,
        (a1 % 16) * 4 + a2 / 64 == (b1 % 16) * 4 + b2 / 64,
        a2 % 64 == b2 % 64,
    ensures
        a0 == b0,
        a1 == b1,
        a2 == b2,
{
}

/// The six-bit values of two bytes determine the bytes.
proof fn lemma_group2(a0: u8, a1: u8, b0: u8, b1: u8)
    by (bit_vector)
    requires
        a0 / 4 == b0 / 4,
        (a0 % 4) * 16 + a1 / 16 == (b0 % 4) * 16 + b1 / 16,
        (a1 % 16) * 4 == (b1 % 16) * 4,
    ensures
        a0 == b0,
        a1 == b1,
{
}

/// The six-bit values of one byte determine the byte.
proof fn lemma_group1(a0: u8, b0: u8)
    by (bit_vector)
    requires
        a0 / 4 == b0 / 4,
        (a0 % 4) * 16 == (b0 % 4) * 16,
    ensures
        a0 == b0,
{
}

/// Distinct six-bit values have distinct characters, none of them `=`.
proof fn lemma_base64_char(a: int, b: int)
    requires
        0 <= a < 64,
        0 <= b < 64,
    ensures
        base64_char(a) == base64_char(b) ==> a == b,
        base64_char(a) != '=',
{
}

/// The first characters of the base64 text of `b`, and where padding sits.
proof fn lemma_base64_shape(b: Seq<u8>)
    ensures
        b.len() == 0 ==> base64_spec(b).len() == 0,
        b.len() > 0 ==> base64_spec(b).len() >= 4,
        b.len() > 0 ==> base64_spec(b)[0] == base64_char((b[0] / 4) as int),
        b.len() == 1 ==> base64_spec(b)[1] == base64_char((b[0] % 4) * 16) && base64_spec(b)[2] == '=',
        b.len() >= 2 ==> base64_spec(b)[1] == base64_char((b[0] % 4) * 16 + b[1] / 16),
        b.len() == 2 ==> base64_spec(b)[2] == base64_char((b[1] % 16) * 4) && base64_spec(b)[3] == '=',
        b.len() >= 3 ==> base64_spec(b)[2] == base64_char((b[1] % 16) * 4 + b[2] / 64) && base64_spec(b)[3]
            == base64_char((b[2] % 64) as int),
{
}

/// Different bytes have different base64 texts: decoding the text of some
/// bytes gives those bytes back.
pub proof fn lemma_base64_injective(a: Seq<u8>, b: Seq<u8>)
    requires
        base64_spec(a) == base64_spec(b),
    ensures
        a == b,
    decreases a.len(),
{
    lemma_base64_shape(a);
    lemma_base64_shape(b);
    if a.len() == 0 || b.len() == 0 {
        assert(a.len() == 0 && b.len() == 0);
        assert(a =~= b);
        return;
    }
    let s = base64_spec(a);
    lemma_base64_char((a[0] / 4) as int, (b[0] / 4) as int);
    if a.len() >= 2 {
        lemma_base64_char((a[0] % 4) * 16 + a[1] / 16, 0);
    }
    if b.len() >= 2 {
        lemma_base64_char((b[0] % 4) * 16 + b[1] / 16, 0);
    }
    if a.len() >= 3 {
        lemma_base64_char((a[1] % 16) * 4 + a[2] / 64, 0);
        lemma_base64_char((a[2] % 64) as int, 0);
    }
    if b.len() >= 3 {
        lemma_base64_char((b[1] % 16) * 4 + b[2] / 64, 0);
        lemma_base64_char((b[2] % 64) as int, 0);
    }
    if a.len() == 2 {
        lemma_base64_char((a[1] % 16) * 4, 0);
    }
    if b.len() == 2 {
        lemma_base64_char((b[1] % 16) * 4, 0);
    }
    if a.len() == 1 {
        lemma_base64_char((a[0] % 4) * 16, 0);
    }
    if b.len() == 1 {
        lemma_base64_char((b[0] % 4) * 16, 0);
    }
    if a.len() == 1 {
        assert(b.len() == 1);
        lemma_base64_char((a[0] % 4) * 16, (b[0] % 4) * 16);
        lemma_group1(a[0], b[0]);
        assert(a =~= b);
    } else if a.len() == 2 {
        assert(b.len() == 2);
        lemma_base64_char((a[0] % 4) * 16 + a[1] / 16, (b[0] % 4) * 16 + b[1] / 16);
        lemma_base64_char((a[1] % 16) * 4, (b[1] % 16) * 4);
        lemma_group2(a[0], a[1], b[0], b[1]);
        assert(a =~= b);
    } else {
        assert(b.len() >= 3);
        lemma_base64_char((a[0] % 4) * 16 + a[1] / 16, (b[0] % 4) * 16 + b[1] / 16);
        lemma_base64_char((a[1] % 16) * 4 + a[2] / 64, (b[1] % 16) * 4 + b[2] / 64);
        lemma_base64_char((a[2] % 64) as int, (b[2] % 64) as int);
        lemma_group3(a[0], a[1], a[2], b[0], b[1], b[2]);
        let ra = a.subrange(3, a.len() as int);
        let rb = b.subrange(3, b.len() as int);
        assert(base64_spec(a).subrange(4, base64_spec(a).len() as int) =~= base64_spec(ra));
        assert(base64_spec(b).subrange(4, base64_spec(b).len() as int) =~= base64_spec(rb));
        lemma_base64_injective(ra, rb);
        assert(a.len() == b.len());
        assert forall|k: int| 0 <= k < a.len() implies a[k] == b[k] by {
            if k >= 3 {
                assert(a[k] == ra[k - 3] && b[k] == rb[k - 3]);
            }
        }
        assert(a =~= b);
    }
}

}
