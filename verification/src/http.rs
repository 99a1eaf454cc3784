//! The DevTools HTTP endpoint and the pieces of HTTP/1.1 it speaks.
use vstd::prelude::*;

use crate::cdp_error::CdpError;
use crate::text::{
    append_chars, append_str, chars_of, decimal, eq_ignore_ascii_case, find_char_from, has_prefix,
    index_of_from, last_index_of, lemma_index_of_from, lemma_last_index_of, lines_of, next_line, parse_unsigned,
    parse_unsigned_chars, push_decimal, range_eq_ignore_ascii_case, rfind_char, slice_of, starts_with_at, first_occurrence, lemma_first_occurrence, find_subseq, occurs_at, is_white_space, is_white_space_char, contains_subseq, lower_ascii_seq, to_ascii_lowercase, lemma_is_first_occurrence, find_subsequence,
    string_of, trim, trim_bounds, all_digits, digit_value, digits_value,
};

verus! {

/// Port of the DevTools HTTP endpoint when an endpoint names none.
pub const DEFAULT_DEVTOOLS_PORT: u16 = 9222;

/// A parsed DevTools HTTP endpoint, e.g. `http://127.0.0.1:9222`.
#[derive(Debug)]
pub struct HttpEndpoint {
    /// Hostname or IP address.
    pub host: String,
    /// TCP port.
    pub port: u16,
}

/// `s` with every leading copy of `p` removed (`str::trim_start_matches`).
pub open spec fn strip_prefixes(s: Seq<char>, p: Seq<char>) -> Seq<char>
    decreases s.len(),
{
    if p.len() > 0 && has_prefix(s, p) {
        strip_prefixes(s.subrange(p.len() as int, s.len() as int), p)
    } else {
        s
    }
}

/// `s` with every trailing `c` removed (`str::trim_end_matches`).
pub open spec fn strip_trailing(s: Seq<char>, c: char) -> Seq<char>
    decreases s.len(),
{
    if s.len() > 0 && s.last() == c {
        strip_trailing(s.drop_last(), c)
    } else {
        s
    }
}

/// What is left of an endpoint once white space, `http://` and `https://`
/// prefixes and trailing slashes are taken off.
pub open spec fn endpoint_core(input: Seq<char>) -> Seq<char> {
    strip_trailing(strip_prefixes(strip_prefixes(trim(input), "http://"@), "https://"@), '/')
}

/// The host and port that `HttpEndpoint::parse` reads from `input`, or the
/// message of the error it reports.
pub open spec fn endpoint_spec(input: Seq<char>) -> Result<(Seq<char>, u16), Seq<char>> {
    let core = endpoint_core(input);
    if core.len() == 0 {
        Err("invalid endpoint `"@ + input + "`"@)
    } else {
        match last_index_of(core, ':') {
            Some(i) => match parse_unsigned(core.subrange(i + 1, core.len() as int), 10, u16::MAX as nat) {
                None => Err("invalid port in endpoint `"@ + input + "`"@),
                Some(port) => if i == 0 {
                    Err("invalid host in endpoint `"@ + input + "`"@)
                } else {
                    Ok((core.subrange(0, i), port as u16))
                },
            },
            None => Ok((core, DEFAULT_DEVTOOLS_PORT)),
        }
    }
}

/// The text of `http://{host}:{port}`.
pub open spec fn base_url_spec(host: Seq<char>, port: u16) -> Seq<char> {
    "http://"@ + host + ":"@ + decimal(port as nat)
}

/// The bounds of what `strip_prefixes` keeps of `v[lo..]`.
pub(crate) fn strip_prefixes_from(v: &[char], lo: usize, hi: usize, p: &[char]) -> (r: usize)
    requires
        lo <= hi <= v@.len(),
    ensures
        lo <= r <= hi,
        v@.subrange(r as int, hi as int) == strip_prefixes(v@.subrange(lo as int, hi as int), p@),
    decreases hi - lo,
{
    let ghost s = v@.subrange(lo as int, hi as int);
    if p.len() > 0 && p.len() <= hi - lo && starts_with_at(v, p, lo, hi) {
        assert(s.subrange(p@.len() as int, s.len() as int) =~= v@.subrange(lo + p@.len(), hi as int));
        strip_prefixes_from(v, lo + p.len(), hi, p)
    } else {
        lo
    }
}

/// The end of what `strip_trailing` keeps of `v[lo..hi]`.
pub(crate) fn strip_trailing_from(v: &[char], lo: usize, hi: usize, c: char) -> (r: usize)
    requires
        lo <= hi <= v@.len(),
    ensures
        lo <= r <= hi,
        v@.subrange(lo as int, r as int) == strip_trailing(v@.subrange(lo as int, hi as int), c),
    decreases hi - lo,
{
    if hi > lo && v[hi - 1] == c {
        assert(v@.subrange(lo as int, hi as int).drop_last() =~= v@.subrange(lo as int, hi - 1));
        strip_trailing_from(v, lo, hi - 1, c)
    } else {
        hi
    }
}

/// `pre` followed by `mid` and a closing back-quote.
fn quoted_message(pre: &str, mid: &str) -> (r: String)
    ensures
        r@ == pre@ + mid@ + "`"@,
{
    let mut v: Vec<char> = Vec::new();
    append_str(&mut v, pre);
    append_str(&mut v, mid);
    append_str(&mut v, "`");
    string_of(&v)
}

impl HttpEndpoint {
    /// Parse a `http://host:port` (or bare `host:port`) string; without a
    /// port the endpoint gets port 9222.
    pub fn parse(input: &str) -> (r: Result<HttpEndpoint, CdpError>)
        ensures
            match endpoint_spec(input@) {
                Ok((host, port)) => r matches Ok(e) && e.host@ == host && e.port == port,
                Err(message) => r matches Err(CdpError::Http(m)) && m@ == message,
            },
    {
        let v = chars_of(input);
        let (lo, hi) = trim_bounds(&v);
        let http = chars_of("http://");
        let https = chars_of("https://");
        let a = strip_prefixes_from(&v, lo, hi, &http);
        proof {
            assert(v@.subrange(lo as int, hi as int) == trim(input@));
        }
        let b = strip_prefixes_from(&v, a, hi, &https);
        let e = strip_trailing_from(&v, b, hi, '/');
        let core = slice_of(&v, b, e);
        proof {
            assert(core@ == endpoint_core(input@));
        }
        if core.len() == 0 {
            return Err(CdpError::Http(quoted_message("invalid endpoint `", input)));
        }
        let found = rfind_char(&core, ':');
        proof {
            lemma_last_index_of(core@, ':');
        }
        match found {
            Some(i) => {
                match parse_unsigned_chars(&core, i + 1, core.len(), 10, 65535) {
                    None => Err(CdpError::Http(quoted_message("invalid port in endpoint `", input))),
                    Some(port) => {
                        if i == 0 {
                            Err(CdpError::Http(quoted_message("invalid host in endpoint `", input)))
                        } else {
                            let host = string_of(slice_of(&core, 0, i).as_slice());
                            Ok(HttpEndpoint { host, port: port as u16 })
                        }
                    },
                }
            },
            None => Ok(HttpEndpoint { host: string_of(&core), port: DEFAULT_DEVTOOLS_PORT }),
        }
    }

    /// The base URL for this endpoint: `http://{host}:{port}`.
    pub fn base_url(&self) -> (r: String)
        ensures
            r@ == base_url_spec(self.host@, self.port),
    {
        let mut v: Vec<char> = Vec::new();
        append_str(&mut v, "http://");
        append_str(&mut v, self.host.as_str());
        append_str(&mut v, ":");
        push_decimal(&mut v, self.port as u64);
        string_of(&v)
    }
}

// ---------------------------------------------------------------------------
// Response headers
// ---------------------------------------------------------------------------

/// The length a header line announces when it is a `Content-Length` header
/// (name compared without ASCII case) whose value parses as a `usize`.
pub open spec fn line_content_length(line: Seq<char>) -> Option<nat> {
    let colon = index_of_from(line, ':', 0);
    if colon < line.len() && eq_ignore_ascii_case(line.subrange(0, colon), "content-length"@) {
        parse_unsigned(trim(line.subrange(colon + 1, line.len() as int)), 10, usize::MAX as nat)
    } else {
        None
    }
}

/// The length announced by the first line of `lines` that announces one.
pub open spec fn first_content_length(lines: Seq<Seq<char>>) -> Option<nat>
    decreases lines.len(),
{
    if lines.len() == 0 {
        None
    } else if line_content_length(lines[0]) is Some {
        line_content_length(lines[0])
    } else {
        first_content_length(lines.drop_first())
    }
}

/// The `Content-Length` of a response head: the first header line named
/// `content-length` in any ASCII case whose value is a valid `usize`.
pub fn content_length(head: &str) -> (r: Option<usize>)
    ensures
        match r {
            Some(n) => first_content_length(lines_of(head@)) == Some(n as nat),
            None => first_content_length(lines_of(head@)) is None,
        },
{
    let v = chars_of(head);
    let name = chars_of("content-length");
    let mut start: usize = 0;
    assert(v@.subrange(0, v@.len() as int) =~= v@);
    while start < v.len()
        invariant
            start <= v@.len(),
            name@ == "content-length"@,
            first_content_length(lines_of(head@)) == first_content_length(
                lines_of(v@.subrange(start as int, v@.len() as int)),
            ),
            v@ == head@,
        decreases v@.len() - start,
    {
        let (end, next) = next_line(&v, start);
        let line = slice_of(&v, start, end);
        let ghost lines = lines_of(v@.subrange(start as int, v@.len() as int));
        proof {
            assert(lines[0] == line@);
            assert(lines.drop_first() =~= lines_of(v@.subrange(next as int, v@.len() as int)));
        }
        let colon = find_char_from(&line, ':', 0);
        if colon < line.len() && range_eq_ignore_ascii_case(&line, 0, colon, &name) {
            let value = slice_of(&line, colon + 1, line.len());
            let (lo, hi) = trim_bounds(&value);
            if let Some(n) = parse_unsigned_chars(&value, lo, hi, 10, usize::MAX as u64) {
                return Some(n as usize);
            }
        }
        start = next;
    }
    proof {
        assert(v@.subrange(start as int, v@.len() as int).len() == 0);
    }
    None
}

// ---------------------------------------------------------------------------
// Requests
// ---------------------------------------------------------------------------

/// The text of a `GET` of `path` from `host:port`.
pub open spec fn get_request_spec(host: Seq<char>, port: u16, path: Seq<char>) -> Seq<char> {
    "GET "@ + path + " HTTP/1.1\r\nHost: "@ + host + ":"@ + decimal(port as nat)
        + "\r\nAccept: application/json\r\nConnection: close\r\n\r\n"@
}

/// The HTTP/1.1 request that fetches `path` from the DevTools endpoint.
pub fn get_request(endpoint: &HttpEndpoint, path: &str) -> (r: String)
    ensures
        r@ == get_request_spec(endpoint.host@, endpoint.port, path@),
{
    let mut v: Vec<char> = Vec::new();
    append_str(&mut v, "GET ");
    append_str(&mut v, path);
    append_str(&mut v, " HTTP/1.1\r\nHost: ");
    append_str(&mut v, endpoint.host.as_str());
    append_str(&mut v, ":");
    push_decimal(&mut v, endpoint.port as u64);
    append_str(&mut v, "\r\nAccept: application/json\r\nConnection: close\r\n\r\n");
    string_of(&v)
}


// ---------------------------------------------------------------------------
// Bytes as text
// ---------------------------------------------------------------------------

/// What `String::from_utf8_lossy` makes of `bytes`.
pub uninterp spec fn spec_utf8_lossy(bytes: Seq<u8>) -> Seq<char>;

/// `String::from_utf8_lossy`: the text of `bytes`, each invalid sequence
/// replaced by U+FFFD. Only this is stated: the same bytes always give the
/// same text, and valid UTF-8 gives exactly the characters it encodes.
#[verifier::external_body]
fn utf8_lossy(bytes: &[u8]) -> (r: String)
    ensures
        r@ == spec_utf8_lossy(bytes@),
        vstd::utf8::valid_utf8(bytes@) ==> r@ == vstd::utf8::decode_utf8(bytes@),
{
    String::from_utf8_lossy(bytes).into_owned()
}

/// The number of bytes `c` takes in UTF-8 (`char::len_utf8`).
pub open spec fn utf8_width(c: char) -> nat {
    vstd::utf8::encode_scalar(c as u32).len()
}

/// The number of bytes `s` takes in UTF-8 (`str::len`).
pub open spec fn utf8_len(s: Seq<char>) -> nat {
    vstd::utf8::encode_utf8(s).len()
}

proof fn lemma_encode_concat(a: Seq<char>, b: Seq<char>)
    ensures
        vstd::utf8::encode_utf8(a + b) == vstd::utf8::encode_utf8(a) + vstd::utf8::encode_utf8(b),
    decreases a.len(),
{
    if a.len() == 0 {
        assert(a + b =~= b);
        assert(vstd::utf8::encode_utf8(a) =~= Seq::<u8>::empty());
        assert(Seq::<u8>::empty() + vstd::utf8::encode_utf8(b) =~= vstd::utf8::encode_utf8(b));
    } else {
        assert((a + b).drop_first() =~= a.drop_first() + b);
        assert((a + b)[0] == a[0]);
        lemma_encode_concat(a.drop_first(), b);
        let ea = vstd::utf8::encode_scalar(a[0] as u32);
        assert(ea + (vstd::utf8::encode_utf8(a.drop_first()) + vstd::utf8::encode_utf8(b)) =~= (ea
            + vstd::utf8::encode_utf8(a.drop_first())) + vstd::utf8::encode_utf8(b));
    }
}

/// Each character takes at least one byte, and one more character adds its width.
proof fn lemma_utf8_len_step(s: Seq<char>, i: int, e: int)
    requires
        0 <= i <= e < s.len(),
    ensures
        utf8_len(s.subrange(i, e + 1)) == utf8_len(s.subrange(i, e)) + utf8_width(s[e]),
        utf8_width(s[e]) >= 1,
{
    assert(s.subrange(i, e + 1) =~= s.subrange(i, e) + seq![s[e]]);
    lemma_encode_concat(s.subrange(i, e), seq![s[e]]);
    assert(seq![s[e]].drop_first() =~= Seq::<char>::empty());
    assert(vstd::utf8::encode_utf8(seq![s[e]]) =~= vstd::utf8::encode_scalar(s[e] as u32) + vstd::utf8::encode_utf8(Seq::<char>::empty()));
}

/// A longer run of characters takes more bytes.
proof fn lemma_utf8_len_grows(s: Seq<char>, i: int, e1: int, e2: int)
    requires
        0 <= i <= e1 < e2 <= s.len(),
    ensures
        utf8_len(s.subrange(i, e1)) < utf8_len(s.subrange(i, e2)),
    decreases e2 - e1,
{
    lemma_utf8_len_step(s, i, e2 - 1);
    if e1 < e2 - 1 {
        lemma_utf8_len_grows(s, i, e1, e2 - 1);
    }
}

/// `char::len_utf8`.
fn utf8_width_of(c: char) -> (r: u128)
    ensures
        r == utf8_width(c),
        1 <= r <= 4,
{
    proof {
        vstd::utf8::char_is_scalar(c);
    }
    let code = c as u32;
    if code < 0x80 {
        1
    } else if code < 0x800 {
        2
    } else if code < 0x10000 {
        3
    } else {
        4
    }
}

// ---------------------------------------------------------------------------
// Chunked transfer encoding
// ---------------------------------------------------------------------------

/// The line break of HTTP/1.1.
pub open spec fn crlf_chars() -> Seq<char> {
    seq!['\r', '\n']
}

/// The line break of HTTP/1.1, as bytes.
pub open spec fn crlf_bytes() -> Seq<u8> {
    seq![13u8, 10u8]
}

/// The size field of a chunk-size line: what comes before any `;`, trimmed.
pub open spec fn chunk_size_field(line: Seq<char>) -> Seq<char> {
    trim(line.subrange(0, index_of_from(line, ';', 0)))
}

/// The size, in bytes, that a chunk-size line announces in hexadecimal, if it
/// fits in a `usize`.
pub open spec fn chunk_size(line: Seq<char>) -> Option<nat> {
    parse_unsigned(chunk_size_field(line), 16, usize::MAX as nat)
}

/// Whether `body` holds a complete chunked payload: chunks read one after the
/// other, each a size line and that many bytes and a line break, up to a
/// chunk of size zero whose size line is followed by the trailing line break.
#[verifier::opaque]
pub open spec fn chunked_complete(body: Seq<u8>) -> bool
    decreases body.len(),
{
    proof {
        lemma_first_occurrence(body, crlf_bytes());
    }
    match first_occurrence(body, crlf_bytes()) {
        None => false,
        Some(p) => match chunk_size(spec_utf8_lossy(body.subrange(0, p))) {
            None => false,
            Some(size) => if size == 0 {
                p + 4 <= body.len() && body.subrange(p + 2, p + 4) == crlf_bytes()
            } else {
                p + size + 4 <= body.len() && chunked_complete(
                    body.subrange(p + size + 4, body.len() as int),
                )
            },
        },
    }
}

/// The size a chunk-size line announces (see [`chunk_size`]).
fn chunk_size_of(line: &[char]) -> (r: Option<usize>)
    ensures
        match r {
            Some(n) => chunk_size(line@) == Some(n as nat),
            None => chunk_size(line@) is None,
        },
{
    let semi = find_char_from(line, ';', 0);
    proof {
        lemma_index_of_from(line@, ';', 0);
    }
    let field = slice_of(line, 0, semi);
    let (lo, hi) = trim_bounds(&field);
    match parse_unsigned_chars(&field, lo, hi, 16, usize::MAX as u64) {
        Some(n) => Some(n as usize),
        None => None,
    }
}

/// Whether `body` contains a complete chunked payload (terminated by a
/// zero-length chunk followed by the trailing CRLF).
pub fn chunked_body_complete(body: &[u8]) -> (r: bool)
    ensures
        r == chunked_complete(body@),
{
    let crlf: Vec<u8> = vec![13u8, 10u8];
    assert(crlf@ =~= crlf_bytes());
    let mut start: usize = 0;
    assert(body@.subrange(0, body@.len() as int) =~= body@);
    loop
        invariant
            start <= body@.len(),
            crlf@ == crlf_bytes(),
            chunked_complete(body@) == chunked_complete(body@.subrange(start as int, body@.len() as int)),
        decreases body@.len() - start,
    {
        let rest = &body[start..body.len()];
        proof {
            lemma_first_occurrence(rest@, crlf_bytes());
            reveal(chunked_complete);
        }
        let position = match find_subsequence(rest, crlf.as_slice()) {
            None => return false,
            Some(p) => p,
        };
        let line = utf8_lossy(&rest[0..position]);
        let lv = chars_of(line.as_str());
        let size = match chunk_size_of(&lv) {
            None => return false,
            Some(n) => n,
        };
        if size == 0 {
            let ends = rest.len() - position >= 4 && rest[position + 2] == 13u8 && rest[position + 3] == 10u8;
            proof {
                if rest.len() - position >= 4 {
                    assert(ends == (rest@.subrange(position + 2, position + 4) =~= crlf_bytes()));
                }
            }
            return ends;
        }
        if size > rest.len() - position - 2 || rest.len() - position - 2 - size < 2 {
            return false;
        }
        proof {
            assert(rest@.subrange(position + size + 4, rest@.len() as int) =~= body@.subrange(
                start + position + size + 4,
                body@.len() as int,
            ));
        }
        start = start + position + size + 4;
    }
}

/// How decoding a chunked body ends: with its text, with the message of the
/// error reported, or on a chunk that ends inside a character (where the
/// byte slicing of the text panics).
pub ghost enum ChunkedText {
    Decoded(Seq<char>),
    Failed(Seq<char>),
    SplitsChar,
}

/// `outcome` with `prefix` before the decoded text.
pub open spec fn after_text(prefix: Seq<char>, outcome: ChunkedText) -> ChunkedText {
    match outcome {
        ChunkedText::Decoded(d) => ChunkedText::Decoded(prefix + d),
        other => other,
    }
}

/// The number of characters at the start of `s` that take exactly `size`
/// bytes of UTF-8, if a character boundary falls there.
pub open spec fn chars_in_bytes(s: Seq<char>, size: nat) -> Option<int> {
    if exists|e: int| 0 <= e <= s.len() && utf8_len(s.subrange(0, e)) == size {
        Some(choose|e: int| 0 <= e <= s.len() && utf8_len(s.subrange(0, e)) == size)
    } else {
        None
    }
}

/// Decoding a chunked body: each chunk is a hexadecimal size line (anything
/// after `;` ignored), then that many bytes of text and an optional line
/// break; a chunk of size zero ends the body.
#[verifier::opaque]
pub open spec fn decode_chunks(s: Seq<char>) -> ChunkedText
    decreases s.len(),
{
    proof {
        lemma_first_occurrence(s, crlf_chars());
    }
    match first_occurrence(s, crlf_chars()) {
        None => ChunkedText::Failed("malformed chunked response (missing size line)"@),
        Some(p) => {
            let field = chunk_size_field(s.subrange(0, p));
            let after = s.subrange(p + 2, s.len() as int);
            match parse_unsigned(field, 16, usize::MAX as nat) {
                None => ChunkedText::Failed("invalid chunk size `"@ + field + "`"@),
                Some(size) => if size == 0 {
                    ChunkedText::Decoded(seq![])
                } else if utf8_len(after) < size {
                    ChunkedText::Failed("malformed chunked response (short chunk)"@)
                } else {
                    match chars_in_bytes(after, size) {
                        None => ChunkedText::SplitsChar,
                        Some(e) => {
                            let tail = after.subrange(e, after.len() as int);
                            let next = if has_prefix(tail, crlf_chars()) {
                                tail.subrange(2, tail.len() as int)
                            } else {
                                tail
                            };
                            after_text(after.subrange(0, e), decode_chunks(next))
                        },
                    }
                },
            }
        },
    }
}

/// What the exec decoder found.
enum ChunkedDecode {
    Decoded(Vec<char>),
    Failed(String),
    SplitsChar,
}

/// The model of a `ChunkedDecode`.
spec fn chunked_decode_view(d: ChunkedDecode) -> ChunkedText {
    match d {
        ChunkedDecode::Decoded(v) => ChunkedText::Decoded(v@),
        ChunkedDecode::Failed(m) => ChunkedText::Failed(m@),
        ChunkedDecode::SplitsChar => ChunkedText::SplitsChar,
    }
}

/// Walks `v[from..]` for `size` bytes of UTF-8: where the walk stopped, and
/// how many bytes it covered (at least `size` unless it reached the end).
fn walk_bytes(v: &[char], from: usize, size: usize) -> (r: (usize, u128))
    requires
        from <= v@.len(),
    ensures
        from <= r.0 <= v@.len(),
        r.1 == utf8_len(v@.subrange(from as int, r.0 as int)),
        r.1 < size ==> r.0 == v@.len(),
        r.0 > from ==> utf8_len(v@.subrange(from as int, r.0 - 1)) < size,
        r.0 == from ==> size == 0 || from == v@.len(),
{
    let mut k = from;
    let mut acc: u128 = 0;
    assert(v@.subrange(from as int, from as int) =~= Seq::<char>::empty());
    assert(vstd::utf8::encode_utf8(Seq::<char>::empty()) =~= Seq::<u8>::empty());
    while k < v.len() && acc < size as u128
        invariant
            from <= k <= v@.len(),
            acc == utf8_len(v@.subrange(from as int, k as int)),
            k > from ==> utf8_len(v@.subrange(from as int, k - 1)) < size,
            acc <= size + 4,
        decreases v@.len() - k,
    {
        proof {
            lemma_utf8_len_step(v@, from as int, k as int);
        }
        let w = utf8_width_of(v[k]);
        acc = acc + w;
        k = k + 1;
    }
    (k, acc)
}

/// One step of decoding: the decoding ends, or a chunk's text is read and
/// decoding goes on at an index of the text.
enum ChunkStep {
    Done(ChunkedDecode),
    Chunk(Vec<char>, usize),
}

/// Reads the first chunk of `s`.
fn decode_first_chunk(s: &[char]) -> (r: ChunkStep)
    ensures
        match r {
            ChunkStep::Done(d) => decode_chunks(s@) == chunked_decode_view(d),
            ChunkStep::Chunk(chunk, next) => 0 < next <= s@.len() && decode_chunks(s@) == after_text(
                chunk@,
                decode_chunks(s@.subrange(next as int, s@.len() as int)),
            ),
        },
{
    let crlf: Vec<char> = vec!['\r', '\n'];
    assert(crlf@ =~= crlf_chars());
    assert(crlf@.len() == 2);
    proof {
        lemma_first_occurrence(s@, crlf_chars());
        reveal(decode_chunks);
    }
    let found = find_subseq(s, crlf.as_slice());
    let p = match found {
        None => {
            return ChunkStep::Done(ChunkedDecode::Failed(str_of("malformed chunked response (missing size line)")));
        },
        Some(p) => p,
    };
    assert(occurs_at(s@, crlf@, p as int));
    let len = s.len();
    assert(p + 2 <= len);
    let line = slice_of(s, 0, p);
    let semi = find_char_from(&line, ';', 0);
    proof {
        lemma_index_of_from(line@, ';', 0);
    }
    let field = slice_of(&line, 0, semi);
    let (lo, hi) = trim_bounds(&field);
    let ghost field_text = chunk_size_field(s@.subrange(0, p as int));
    assert(field@.subrange(lo as int, hi as int) == field_text);
    let size = match parse_unsigned_chars(&field, lo, hi, 16, usize::MAX as u64) {
        None => {
            let mut m: Vec<char> = Vec::new();
            append_str(&mut m, "invalid chunk size `");
            let shown = slice_of(&field, lo, hi);
            append_chars(&mut m, &shown);
            append_str(&mut m, "`");
            return ChunkStep::Done(ChunkedDecode::Failed(string_of(&m)));
        },
        Some(n) => n as usize,
    };
    if size == 0 {
        return ChunkStep::Done(ChunkedDecode::Decoded(Vec::new()));
    }
    let ghost after = s@.subrange(p + 2, s@.len() as int);
    let (k, acc) = walk_bytes(s, p + 2, size);
    let ghost e = k - (p + 2);
    proof {
        assert(s@.subrange(p + 2, k as int) =~= after.subrange(0, e));
        if k > p + 2 {
            assert(s@.subrange(p + 2, k - 1) =~= after.subrange(0, e - 1));
        }
    }
    if acc < size as u128 {
        proof {
            assert(after.subrange(0, e) =~= after);
        }
        return ChunkStep::Done(ChunkedDecode::Failed(str_of("malformed chunked response (short chunk)")));
    }
    proof {
        if e < after.len() {
            lemma_utf8_len_grows(after, 0, e, after.len() as int);
        }
        assert(after.subrange(0, after.len() as int) =~= after);
    }
    if acc > size as u128 {
        proof {
            assert forall|x: int| 0 <= x <= after.len() implies utf8_len(after.subrange(0, x)) != size by {
                if x < e - 1 {
                    lemma_utf8_len_grows(after, 0, x, e - 1);
                } else if x > e {
                    lemma_utf8_len_grows(after, 0, e, x);
                }
            }
        }
        return ChunkStep::Done(ChunkedDecode::SplitsChar);
    }
    proof {
        assert(utf8_len(after.subrange(0, e)) == size);
        let c = chars_in_bytes(after, size as nat)->0;
        if c < e {
            lemma_utf8_len_grows(after, 0, c, e);
        } else if c > e {
            lemma_utf8_len_grows(after, 0, e, c);
        }
        assert(chars_in_bytes(after, size as nat) == Some(e));
    }
    let chunk = slice_of(s, p + 2, k);
    let next = if k < s.len() && s.len() - k >= 2 && s[k] == '\r' && s[k + 1] == '\n' {
        k + 2
    } else {
        k
    };
    proof {
        let tail = after.subrange(e, after.len() as int);
        assert(tail =~= s@.subrange(k as int, s@.len() as int));
        if k + 2 <= s.len() && s@[k as int] == '\r' && s@[k + 1] == '\n' {
            assert(tail.subrange(0, 2) =~= crlf_chars());
            assert(tail.subrange(2, tail.len() as int) =~= s@.subrange(next as int, s@.len() as int));
        } else {
            if has_prefix(tail, crlf_chars()) {
                assert(tail.subrange(0, 2) == crlf_chars());
                assert(tail[0] == s@[k as int] && tail[1] == s@[k + 1]);
            }
        }
        assert(chunk@ =~= after.subrange(0, e));
    }
    ChunkStep::Chunk(chunk, next)
}

/// Decodes the chunked body `v`.
fn decode_chunks_exec(v: &[char]) -> (r: ChunkedDecode)
    ensures
        chunked_decode_view(r) == decode_chunks(v@),
{
    let mut out: Vec<char> = Vec::new();
    let mut start: usize = 0;
    assert(v@.subrange(0, v@.len() as int) =~= v@);
    proof {
        match decode_chunks(v@) {
            ChunkedText::Decoded(d) => {
                assert(out@ + d =~= d);
            },
            _ => {},
        }
    }
    loop
        invariant
            start <= v@.len(),
            decode_chunks(v@) == after_text(out@, decode_chunks(v@.subrange(start as int, v@.len() as int))),
        decreases v@.len() - start,
    {
        let rest = &v[start..v.len()];
        match decode_first_chunk(rest) {
            ChunkStep::Done(d) => {
                let ghost before = out@;
                let r = match d {
                    ChunkedDecode::Decoded(t) => {
                        append_chars(&mut out, &t);
                        ChunkedDecode::Decoded(out)
                    },
                    other => other,
                };
                return r;
            },
            ChunkStep::Chunk(chunk, next) => {
                let ghost before = out@;
                append_chars(&mut out, &chunk);
                proof {
                    assert(rest@.subrange(next as int, rest@.len() as int) =~= v@.subrange(
                        start + next,
                        v@.len() as int,
                    ));
                    match decode_chunks(v@.subrange(start + next, v@.len() as int)) {
                        ChunkedText::Decoded(t) => {
                            assert(before + (chunk@ + t) =~= (before + chunk@) + t);
                        },
                        _ => {},
                    }
                }
                start = start + next;
            },
        }
    }
}

/// A `String` with the characters of `s`.
fn str_of(s: &str) -> (r: String)
    ensures
        r@ == s@,
{
    s.to_owned()
}

/// Decodes a chunked HTTP body (see [`decode_chunks`]).
pub fn decode_chunked(body: &str) -> (r: Result<String, CdpError>)
    requires
        !(decode_chunks(body@) is SplitsChar),
    ensures
        match decode_chunks(body@) {
            ChunkedText::Decoded(d) => r matches Ok(t) && t@ == d,
            ChunkedText::Failed(m) => r matches Err(CdpError::Http(e)) && e@ == m,
            ChunkedText::SplitsChar => false,
        },
{
    let v = chars_of(body);
    match decode_chunks_exec(&v) {
        ChunkedDecode::Decoded(d) => Ok(string_of(&d)),
        ChunkedDecode::Failed(m) => Err(CdpError::Http(m)),
        ChunkedDecode::SplitsChar => Err(CdpError::Closed),
    }
}


/// A lower-case hexadecimal digit.
pub open spec fn hex_digit(d: nat) -> char {
    if d < 10 {
        (('0' as nat) + d) as char
    } else {
        (('a' as nat) + d - 10) as char
    }
}

/// The lower-case hexadecimal digits of `n`.
pub open spec fn hex(n: nat) -> Seq<char>
    decreases n,
{
    if n < 16 {
        seq![hex_digit(n)]
    } else {
        hex(n / 16).push(hex_digit(n % 16))
    }
}

/// The hexadecimal digits of `n` are digits, at least one, that spell `n`.
proof fn lemma_hex(n: nat)
    ensures
        hex(n).len() >= 1,
        forall|k: int| 0 <= k < hex(n).len() ==> ('0' <= #[trigger] hex(n)[k] <= '9' || 'a' <= hex(n)[k] <= 'f'),
        all_digits(hex(n), 16),
        digits_value(hex(n), 16) == n,
    decreases n,
{
    let d = (n % 16) as nat;
    assert(digit_value(hex_digit(d), 16) == Some(d));
    if n < 16 {
        let s = hex(n);
        assert(s.drop_last() =~= Seq::<char>::empty());
        assert(digits_value(s.drop_last(), 16) == 0);
        assert(s.last() == hex_digit(d));
        assert(n == d);
    } else {
        lemma_hex(n / 16);
        let s = hex(n);
        assert(s.drop_last() =~= hex(n / 16));
        assert(s.last() == hex_digit(d));
        assert(digits_value(s, 16) == digits_value(hex(n / 16), 16) * 16 + d);
        assert((n / 16) * 16 + d == n);
        assert forall|k: int| 0 <= k < s.len() implies #[trigger] digit_value(s[k], 16) is Some by {
            if k < s.len() - 1 {
                assert(s[k] == hex(n / 16)[k]);
            }
        }
        assert forall|k: int| 0 <= k < s.len() implies ('0' <= #[trigger] s[k] <= '9' || 'a' <= s[k] <= 'f') by {
            if k < s.len() - 1 {
                assert(s[k] == hex(n / 16)[k]);
            }
        }
    }
}

/// A chunked body carrying `chunks`: each announced by its size in bytes in
/// lower-case hexadecimal on a line of its own and followed by a line
/// break, then a chunk of size zero.
pub open spec fn chunked_encoding(chunks: Seq<Seq<char>>) -> Seq<char>
    decreases chunks.len(),
{
    if chunks.len() == 0 {
        seq!['0', '\r', '\n', '\r', '\n']
    } else {
        hex(utf8_len(chunks[0])) + crlf_chars() + chunks[0] + crlf_chars() + chunked_encoding(chunks.drop_first())
    }
}

/// The text of `chunks`, one after the other.
pub open spec fn joined_chunks(chunks: Seq<Seq<char>>) -> Seq<char>
    decreases chunks.len(),
{
    if chunks.len() == 0 {
        seq![]
    } else {
        chunks[0] + joined_chunks(chunks.drop_first())
    }
}

/// The size line of a chunk of `n` bytes is read back as `n`.
proof fn lemma_size_line(n: nat, rest: Seq<char>)
    requires
        n <= usize::MAX,
    ensures
        ({
            let s = hex(n) + crlf_chars() + rest;
            &&& first_occurrence(s, crlf_chars()) == Some(hex(n).len() as int)
            &&& parse_unsigned(chunk_size_field(s.subrange(0, hex(n).len() as int)), 16, usize::MAX as nat) == Some(n)
            &&& s.subrange(hex(n).len() as int + 2, s.len() as int) == rest
        }),
{
    lemma_hex(n);
    let h = hex(n);
    let s = h + crlf_chars() + rest;
    let p = h.len() as int;
    assert(s.subrange(p, p + 2) =~= crlf_chars());
    assert forall|k: int| 0 <= k < p implies !occurs_at(s, crlf_chars(), k) by {
        assert(s[k] == h[k]);
        if occurs_at(s, crlf_chars(), k) {
            assert(s.subrange(k, k + 2)[0] == s[k]);
        }
    }
    lemma_is_first_occurrence(s, crlf_chars(), p);
    assert(s.subrange(0, p) =~= h);
    crate::text::lemma_index_of_from(h, ';', 0);
    assert forall|k: int| 0 <= k < h.len() implies h[k] != ';' by {}
    assert(index_of_from(h, ';', 0) == h.len());
    assert(h.subrange(0, h.len() as int) =~= h);
    crate::text::lemma_trim(h);
    assert(!is_white_space(h[0]) && !is_white_space(h.last()));
    assert(trim(h) == h);
    assert(h[0] != '+');
    assert(s.subrange(p + 2, s.len() as int) =~= rest);
}

/// Decoding a chunked body gives back the text of its chunks, when every
/// chunk is non-empty (an empty one would end the body) and its size fits in
/// a `usize`.
pub proof fn lemma_decode_chunked_encoding(chunks: Seq<Seq<char>>)
    requires
        forall|i: int| 0 <= i < chunks.len() ==> 0 < #[trigger] utf8_len(chunks[i]) <= usize::MAX,
    ensures
        decode_chunks(chunked_encoding(chunks)) == ChunkedText::Decoded(joined_chunks(chunks)),
    decreases chunks.len(),
{
    reveal(decode_chunks);
    let s = chunked_encoding(chunks);
    if chunks.len() == 0 {
        let zero = seq!['0'];
        assert(s =~= zero + crlf_chars() + crlf_chars());
        lemma_size_line(0, crlf_chars());
        assert(hex(0) =~= zero);
    } else {
        let c = chunks[0];
        let n = utf8_len(c);
        let rest = chunks.drop_first();
        let tail_enc = chunked_encoding(rest);
        let after = c + crlf_chars() + tail_enc;
        assert(s =~= hex(n) + crlf_chars() + after);
        lemma_size_line(n, after);
        assert forall|i: int| 0 <= i < rest.len() implies 0 < #[trigger] utf8_len(rest[i]) <= usize::MAX by {
            assert(rest[i] == chunks[i + 1]);
        }
        lemma_decode_chunked_encoding(rest);
        // the chunk's text takes exactly its size in bytes, and no shorter or
        // longer prefix does
        assert(after.subrange(0, c.len() as int) =~= c);
        lemma_encode_concat(c, crlf_chars() + tail_enc);
        assert(after =~= c + (crlf_chars() + tail_enc));
        assert(utf8_len(after) >= n);
        let e = chars_in_bytes(after, n)->0;
        assert(utf8_len(after.subrange(0, c.len() as int)) == n);
        assert(chars_in_bytes(after, n) is Some);
        if e < c.len() {
            lemma_utf8_len_grows(after, 0, e, c.len() as int);
        }
        if e > c.len() {
            lemma_utf8_len_grows(after, 0, c.len() as int, e);
        }
        assert(e == c.len());
        let tail = after.subrange(e, after.len() as int);
        assert(tail =~= crlf_chars() + tail_enc);
        assert(has_prefix(tail, crlf_chars())) by {
            assert(tail.subrange(0, 2) =~= crlf_chars());
        }
        assert(tail.subrange(2, tail.len() as int) =~= tail_enc);
        assert(joined_chunks(chunks) == c + joined_chunks(rest));
    }
}

// ---------------------------------------------------------------------------
// Responses
// ---------------------------------------------------------------------------

/// The first index at or after `i` whose character is not white space (or
/// `s.len()`).
pub open spec fn skip_space(s: Seq<char>, i: int) -> int
    decreases s.len() - i,
{
    if i >= s.len() {
        s.len() as int
    } else if is_white_space(s[i]) {
        skip_space(s, i + 1)
    } else {
        i
    }
}

/// The first index at or after `i` whose character is white space (or
/// `s.len()`).
pub open spec fn skip_word(s: Seq<char>, i: int) -> int
    decreases s.len() - i,
{
    if i >= s.len() {
        s.len() as int
    } else if is_white_space(s[i]) {
        i
    } else {
        skip_word(s, i + 1)
    }
}

pub proof fn lemma_skip_space(s: Seq<char>, i: int)
    requires
        0 <= i <= s.len(),
    ensures
        i <= skip_space(s, i) <= s.len(),
        skip_space(s, i) < s.len() ==> !is_white_space(s[skip_space(s, i)]),
    decreases s.len() - i,
{
    if i < s.len() && is_white_space(s[i]) {
        lemma_skip_space(s, i + 1);
    }
}

pub proof fn lemma_skip_word(s: Seq<char>, i: int)
    requires
        0 <= i <= s.len(),
    ensures
        i <= skip_word(s, i) <= s.len(),
        i < s.len() && !is_white_space(s[i]) ==> i < skip_word(s, i),
    decreases s.len() - i,
{
    if i < s.len() && !is_white_space(s[i]) {
        lemma_skip_word(s, i + 1);
    }
}

/// The words of `s[i..]` as `str::split_whitespace` yields them: the maximal
/// runs of characters that are not white space.
pub open spec fn words_from(s: Seq<char>, i: int) -> Seq<Seq<char>>
    decreases s.len() - i,
{
    if i < 0 || i > s.len() {
        seq![]
    } else {
        proof {
            lemma_skip_space(s, i);
        }
        let a = skip_space(s, i);
        if a >= s.len() {
            seq![]
        } else {
            proof {
                lemma_skip_word(s, a);
            }
            let b = skip_word(s, a);
            seq![s.subrange(a, b)] + words_from(s, b)
        }
    }
}

fn skip_space_exec(v: &[char], i: usize) -> (r: usize)
    requires
        i <= v@.len(),
    ensures
        r == skip_space(v@, i as int),
{
    let mut k = i;
    while k < v.len() && is_white_space_char(v[k])
        invariant
            i <= k <= v@.len(),
            skip_space(v@, i as int) == skip_space(v@, k as int),
        decreases v@.len() - k,
    {
        k += 1;
    }
    k
}

fn skip_word_exec(v: &[char], i: usize) -> (r: usize)
    requires
        i <= v@.len(),
    ensures
        r == skip_word(v@, i as int),
{
    let mut k = i;
    while k < v.len() && !is_white_space_char(v[k])
        invariant
            i <= k <= v@.len(),
            skip_word(v@, i as int) == skip_word(v@, k as int),
        decreases v@.len() - k,
    {
        k += 1;
    }
    k
}

/// The status code of a response head: the second word of its first line,
/// read as a `u16`.
pub open spec fn status_code(head: Seq<char>) -> Option<nat> {
    let lines = lines_of(head);
    if lines.len() == 0 {
        None
    } else {
        let words = words_from(lines[0], 0);
        if words.len() < 2 {
            None
        } else {
            parse_unsigned(words[1], 10, u16::MAX as nat)
        }
    }
}

/// The status code of the response head `v` (see [`status_code`]).
fn status_code_of(v: &[char]) -> (r: Option<u16>)
    ensures
        match r {
            Some(n) => status_code(v@) == Some(n as nat),
            None => status_code(v@) is None,
        },
{
    if v.len() == 0 {
        assert(lines_of(v@) =~= Seq::<Seq<char>>::empty());
        return None;
    }
    let (end, next) = next_line(v, 0);
    let line = slice_of(v, 0, end);
    proof {
        assert(v@.subrange(0, v@.len() as int) =~= v@);
        assert(lines_of(v@)[0] == line@);
        lemma_skip_space(line@, 0);
    }
    let a1 = skip_space_exec(&line, 0);
    if a1 == line.len() {
        return None;
    }
    proof {
        lemma_skip_word(line@, a1 as int);
    }
    let b1 = skip_word_exec(&line, a1);
    proof {
        lemma_skip_space(line@, b1 as int);
    }
    let a2 = skip_space_exec(&line, b1);
    let ghost rest = words_from(line@, b1 as int);
    assert(words_from(line@, 0) == seq![line@.subrange(a1 as int, b1 as int)] + rest);
    if a2 == line.len() {
        assert(rest.len() == 0);
        return None;
    }
    proof {
        lemma_skip_word(line@, a2 as int);
    }
    let b2 = skip_word_exec(&line, a2);
    assert(rest[0] == line@.subrange(a2 as int, b2 as int));
    match parse_unsigned_chars(&line, a2, b2, 10, 65535) {
        Some(n) => Some(n as u16),
        None => None,
    }
}

/// The blank line that ends a response head.
pub open spec fn head_end_chars() -> Seq<char> {
    seq!['\r', '\n', '\r', '\n']
}

/// The blank line that ends a response head, as bytes.
pub open spec fn head_end_bytes() -> Seq<u8> {
    seq![13u8, 10u8, 13u8, 10u8]
}

/// A response head announces a chunked body.
pub open spec fn is_chunked_head(head: Seq<char>) -> bool {
    contains_subseq(lower_ascii_seq(head), "transfer-encoding: chunked"@)
}

/// Whether the response head `v` announces a chunked body.
fn chunked_head(v: &[char]) -> (r: bool)
    ensures
        r == is_chunked_head(v@),
{
    let lower = to_ascii_lowercase(v);
    let marker = chars_of("transfer-encoding: chunked");
    find_subseq(&lower, &marker).is_some()
}

/// What a DevTools HTTP response whose text is `text` gives for a `GET` of
/// `path`: its body (decoded when chunked), or the message of the error.
pub open spec fn response_spec(text: Seq<char>, path: Seq<char>) -> ChunkedText {
    match first_occurrence(text, head_end_chars()) {
        None => ChunkedText::Failed("malformed HTTP response from DevTools"@),
        Some(i) => {
            let head = text.subrange(0, i);
            let body = text.subrange(i + 4, text.len() as int);
            match status_code(head) {
                None => ChunkedText::Failed("missing HTTP status from DevTools"@),
                Some(status) => if !(200 <= status < 300) {
                    ChunkedText::Failed(
                        "DevTools HTTP "@ + decimal(status) + " for "@ + path + ": "@ + trim(body),
                    )
                } else if is_chunked_head(head) {
                    decode_chunks(body)
                } else {
                    ChunkedText::Decoded(body)
                },
            }
        },
    }
}

/// The body of the DevTools HTTP response `raw` to a `GET` of `path`, as
/// `http_get` returns it: `None` where a chunk of the body ends inside a
/// character, where slicing the text panics.
pub fn response_body(raw: &[u8], path: &str) -> (r: Option<Result<String, CdpError>>)
    ensures
        match response_spec(spec_utf8_lossy(raw@), path@) {
            ChunkedText::Decoded(d) => r matches Some(Ok(t)) && t@ == d,
            ChunkedText::Failed(m) => r matches Some(Err(CdpError::Http(e))) && e@ == m,
            ChunkedText::SplitsChar => r is None,
        },
{
    let text = utf8_lossy(raw);
    let v = chars_of(text.as_str());
    let marker: Vec<char> = vec!['\r', '\n', '\r', '\n'];
    assert(marker@ =~= head_end_chars());
    assert(marker@.len() == 4);
    let found = find_subseq(&v, &marker);
    let i = match found {
        None => return Some(Err(CdpError::Http(str_of("malformed HTTP response from DevTools")))),
        Some(i) => i,
    };
    assert(occurs_at(v@, marker@, i as int));
    let len = v.len();
    let head = slice_of(&v, 0, i);
    let body = slice_of(&v, i + 4, len);
    let status = match status_code_of(&head) {
        None => return Some(Err(CdpError::Http(str_of("missing HTTP status from DevTools")))),
        Some(n) => n,
    };
    if !(200 <= status && status < 300) {
        let mut m: Vec<char> = Vec::new();
        append_str(&mut m, "DevTools HTTP ");
        push_decimal(&mut m, status as u64);
        append_str(&mut m, " for ");
        append_str(&mut m, path);
        append_str(&mut m, ": ");
        let (lo, hi) = trim_bounds(&body);
        let shown = slice_of(&body, lo, hi);
        append_chars(&mut m, &shown);
        return Some(Err(CdpError::Http(string_of(&m))));
    }
    if chunked_head(&head) {
        match decode_chunks_exec(&body) {
            ChunkedDecode::Decoded(d) => Some(Ok(string_of(&d))),
            ChunkedDecode::Failed(m) => Some(Err(CdpError::Http(m))),
            ChunkedDecode::SplitsChar => None,
        }
    } else {
        Some(Ok(string_of(&body)))
    }
}


// ---------------------------------------------------------------------------
// Reading a response
// ---------------------------------------------------------------------------

/// Whether the bytes `raw` read so far hold a whole response: its head is
/// complete and either its chunked body is complete or as many bytes as its
/// `Content-Length` announces have arrived.
pub open spec fn response_complete(raw: Seq<u8>) -> bool {
    match first_occurrence(raw, head_end_bytes()) {
        None => false,
        Some(p) => {
            let head = spec_utf8_lossy(raw.subrange(0, p));
            if is_chunked_head(head) {
                chunked_complete(raw.subrange(p + 4, raw.len() as int))
            } else {
                match first_content_length(lines_of(head)) {
                    Some(n) => raw.len() >= p + 4 + n,
                    None => false,
                }
            }
        },
    }
}

/// The bytes of a DevTools HTTP response as they arrive, with what their
/// head announces about where the response ends.
#[derive(Debug)]
pub struct ResponseReader {
    raw: Vec<u8>,
    header_end: Option<usize>,
    expected_total: Option<usize>,
    chunked: bool,
}

/// `v` with `more` appended.
fn append_bytes(v: &mut Vec<u8>, more: &[u8])
    ensures
        final(v)@ == old(v)@ + more@,
{
    let ghost start = v@;
    let mut i: usize = 0;
    while i < more.len()
        invariant
            i <= more@.len(),
            v@ == start + more@.subrange(0, i as int),
        decreases more@.len() - i,
    {
        v.push(more[i]);
        assert(start + more@.subrange(0, i + 1) =~= (start + more@.subrange(0, i as int)).push(more@[i as int]));
        i += 1;
    }
    assert(more@.subrange(0, more@.len() as int) =~= more@);
}

/// The first occurrence of `needle` in `a` is still the first in `a + b`.
proof fn lemma_first_occurrence_kept(a: Seq<u8>, b: Seq<u8>, needle: Seq<u8>)
    requires
        first_occurrence(a, needle) is Some,
    ensures
        first_occurrence(a + b, needle) == first_occurrence(a, needle),
{
    lemma_first_occurrence(a, needle);
    let p = first_occurrence(a, needle)->0;
    let ab = a + b;
    assert(ab.subrange(p, p + needle.len()) =~= a.subrange(p, p + needle.len()));
    assert forall|k: int| 0 <= k < p implies !occurs_at(ab, needle, k) by {
        assert(!occurs_at(a, needle, k));
        assert(ab.subrange(k, k + needle.len()) =~= a.subrange(k, k + needle.len()));
    }
    lemma_is_first_occurrence(ab, needle, p);
}

/// Where the head of `raw` ends, the total length it announces (when not
/// chunked, and when it fits in a `usize`), and whether it announces a
/// chunked body.
fn scan_head(raw: &Vec<u8>) -> (r: (Option<usize>, Option<usize>, bool))
    ensures
        match first_occurrence(raw@, head_end_bytes()) {
            None => r.0 is None && r.1 is None && !r.2,
            Some(p) => {
                let head = spec_utf8_lossy(raw@.subrange(0, p));
                &&& r.0 == Some((p + 4) as usize)
                &&& r.2 == is_chunked_head(head)
                &&& if r.2 {
                    r.1 is None
                } else {
                    match first_content_length(lines_of(head)) {
                        Some(n) => if p + 4 + n <= usize::MAX {
                            r.1 == Some((p + 4 + n) as usize)
                        } else {
                            r.1 is None
                        },
                        None => r.1 is None,
                    }
                }
            },
        },
{
    let marker: Vec<u8> = vec![13u8, 10u8, 13u8, 10u8];
    assert(marker@ =~= head_end_bytes());
    proof {
        lemma_first_occurrence(raw@, head_end_bytes());
    }
    match find_subsequence(raw.as_slice(), &marker) {
        None => (None, None, false),
        Some(position) => {
            assert(marker@.len() == 4);
            let len = raw.len();
            assert(position + 4 <= len);
            let end = position + 4;
            let head_text = utf8_lossy(&raw.as_slice()[0..position]);
            let head = chars_of(head_text.as_str());
            let chunked = chunked_head(&head);
            let mut expected_total: Option<usize> = None;
            if !chunked {
                if let Some(length) = content_length(head_text.as_str()) {
                    expected_total = end.checked_add(length);
                }
            }
            (Some(end), expected_total, chunked)
        },
    }
}

impl ResponseReader {
    /// The bytes read so far.
    pub closed spec fn bytes(self) -> Seq<u8> {
        self.raw@
    }

    /// The end of the head, whether the body is chunked, and the announced
    /// total length (when it fits in a `usize`) agree with the bytes read.
    #[verifier::type_invariant]
    spec fn consistent(self) -> bool {
        match first_occurrence(self.raw@, head_end_bytes()) {
            None => self.header_end is None && self.expected_total is None && !self.chunked,
            Some(p) => {
                let head = spec_utf8_lossy(self.raw@.subrange(0, p));
                &&& self.header_end == Some((p + 4) as usize)
                &&& self.chunked == is_chunked_head(head)
                &&& if self.chunked {
                    self.expected_total is None
                } else {
                    match first_content_length(lines_of(head)) {
                        Some(n) => if p + 4 + n <= usize::MAX {
                            self.expected_total == Some((p + 4 + n) as usize)
                        } else {
                            self.expected_total is None
                        },
                        None => self.expected_total is None,
                    }
                }
            },
        }
    }

    /// A reader that has read nothing.
    pub fn new() -> (r: ResponseReader)
        ensures
            r.bytes() == Seq::<u8>::empty(),
    {
        let raw: Vec<u8> = Vec::new();
        proof {
            lemma_first_occurrence(raw@, head_end_bytes());
            assert(!occurs_at(raw@, head_end_bytes(), 0));
        }
        ResponseReader { raw, header_end: None, expected_total: None, chunked: false }
    }

    /// Whether the response read so far is whole, so reading stops.
    pub fn is_complete(&self) -> (r: bool)
        ensures
            r == response_complete(self.bytes()),
    {
        proof {
            use_type_invariant(self);
        }
        let n = self.raw.len();
        proof {
            lemma_first_occurrence(self.raw@, head_end_bytes());
        }
        let by_length = match self.expected_total {
            Some(total) => self.raw.len() >= total,
            None => false,
        };
        if by_length {
            proof {
                self.lemma_length_complete();
            }
            return true;
        }
        if let Some(end) = self.header_end {
            if self.chunked {
                let r = chunked_body_complete(&self.raw.as_slice()[end..self.raw.len()]);
                proof {
                    self.lemma_chunked_complete(r);
                }
                return r;
            }
        }
        proof {
            self.lemma_not_complete();
        }
        false
    }

    proof fn lemma_length_complete(&self)
        requires
            self.consistent(),
            self.expected_total matches Some(t) && self.raw@.len() >= t,
        ensures
            response_complete(self.raw@),
    {
        lemma_first_occurrence(self.raw@, head_end_bytes());
    }

    proof fn lemma_chunked_complete(&self, r: bool)
        requires
            self.consistent(),
            self.raw@.len() <= usize::MAX,
            self.header_end matches Some(end) && self.chunked && end <= self.raw@.len() && r == chunked_complete(
                self.raw@.subrange(end as int, self.raw@.len() as int),
            ),
        ensures
            r == response_complete(self.raw@),
    {
        lemma_first_occurrence(self.raw@, head_end_bytes());
    }

    proof fn lemma_not_complete(&self)
        requires
            self.consistent(),
            self.raw@.len() <= usize::MAX,
            !(self.expected_total matches Some(t) && self.raw@.len() >= t),
            !(self.header_end is Some && self.chunked),
        ensures
            !response_complete(self.raw@),
    {
        lemma_first_occurrence(self.raw@, head_end_bytes());
    }

    /// Takes in the next bytes read; the first time the head is complete,
    /// notes where it ends and what it announces.
    pub fn push(&mut self, bytes: &[u8])
        ensures
            final(self).bytes() == old(self).bytes() + bytes@,
    {
        let mut current = ResponseReader::new();
        std::mem::swap(&mut current, self);
        proof {
            use_type_invariant(&current);
        }
        let ResponseReader { raw, header_end, expected_total, chunked } = current;
        let mut raw = raw;
        let ghost old_raw = raw@;
        append_bytes(&mut raw, bytes);
        proof {
            lemma_first_occurrence(old_raw, head_end_bytes());
            if let Some(p) = first_occurrence(old_raw, head_end_bytes()) {
                lemma_first_occurrence_kept(old_raw, bytes@, head_end_bytes());
                assert(raw@.subrange(0, p) =~= old_raw.subrange(0, p));
            }
        }
        if header_end.is_none() {
            let (header_end, expected_total, chunked) = scan_head(&raw);
            *self = ResponseReader { raw, header_end, expected_total, chunked };
        } else {
            *self = ResponseReader { raw, header_end, expected_total, chunked };
        }
    }

    /// The bytes read.
    pub fn into_bytes(self) -> (r: Vec<u8>)
        ensures
            r@ == self.bytes(),
    {
        self.raw
    }
}


// ---------------------------------------------------------------------------
// WebSocket URLs
// ---------------------------------------------------------------------------

/// An endpoint that is already a WebSocket URL: it starts with `ws://` or
/// `wss://`.
pub open spec fn is_ws_url(endpoint: Seq<char>) -> bool {
    has_prefix(endpoint, "ws://"@) || has_prefix(endpoint, "wss://"@)
}

/// The endpoint itself when it is already a WebSocket URL; otherwise it is
/// an HTTP endpoint whose `/json/version` names the URL.
pub fn direct_ws_url(endpoint: &str) -> (r: Option<String>)
    ensures
        match r {
            Some(u) => is_ws_url(endpoint@) && u@ == endpoint@,
            None => !is_ws_url(endpoint@),
        },
{
    let v = chars_of(endpoint);
    let ws = chars_of("ws://");
    let wss = chars_of("wss://");
    assert(v@.subrange(0, v@.len() as int) =~= v@);
    if starts_with_at(&v, &ws, 0, v.len()) || starts_with_at(&v, &wss, 0, v.len()) {
        Some(crate::text::str_from(endpoint))
    } else {
        None
    }
}

/// The browser-level WebSocket debugger URL that `/json/version` reported,
/// or the error reported when it is empty.
pub fn ws_url_from_version(version: &crate::protocol::version::BrowserVersion) -> (r: Result<String, CdpError>)
    ensures
        version.web_socket_debugger_url@.len() > 0 ==> (r matches Ok(u) && u@ == version.web_socket_debugger_url@),
        version.web_socket_debugger_url@.len() == 0 ==> (r matches Err(CdpError::Http(m))
            && m@ == "DevTools /json/version did not include webSocketDebuggerUrl"@),
{
    if version.web_socket_debugger_url.as_str().is_empty() {
        Err(CdpError::Http(str_of("DevTools /json/version did not include webSocketDebuggerUrl")))
    } else {
        Ok(version.web_socket_debugger_url.clone())
    }
}

/// The DevTools endpoint a launched Chrome serves on `port`: `127.0.0.1`.
pub fn local_endpoint(port: u16) -> (r: HttpEndpoint)
    ensures
        r.host@ == "127.0.0.1"@,
        r.port == port,
{
    HttpEndpoint { host: str_of("127.0.0.1"), port }
}


// ---------------------------------------------------------------------------
// Laws of reading a response
// ---------------------------------------------------------------------------

/// Bytes arriving after a complete chunked payload leave it complete.
pub proof fn lemma_chunked_complete_extends(body: Seq<u8>, more: Seq<u8>)
    requires
        chunked_complete(body),
    ensures
        chunked_complete(body + more),
    decreases body.len(),
{
    reveal(chunked_complete);
    lemma_first_occurrence(body, crlf_bytes());
    let p = first_occurrence(body, crlf_bytes())->0;
    lemma_first_occurrence_kept(body, more, crlf_bytes());
    let all = body + more;
    assert(all.subrange(0, p) =~= body.subrange(0, p));
    let size = chunk_size(spec_utf8_lossy(body.subrange(0, p)))->0;
    if size != 0 {
        let next = body.subrange(p + size + 4, body.len() as int);
        lemma_chunked_complete_extends(next, more);
        assert(all.subrange(p + size + 4, all.len() as int) =~= next + more);
    } else {
        assert(all.subrange(p + 2, p + 4) =~= body.subrange(p + 2, p + 4));
    }
}

/// A response once complete stays complete as more bytes arrive: reading
/// stops at the first moment the response is whole, and later bytes never
/// undo that.
pub proof fn lemma_response_complete_extends(raw: Seq<u8>, more: Seq<u8>)
    requires
        response_complete(raw),
    ensures
        response_complete(raw + more),
{
    lemma_first_occurrence(raw, head_end_bytes());
    let p = first_occurrence(raw, head_end_bytes())->0;
    lemma_first_occurrence_kept(raw, more, head_end_bytes());
    let all = raw + more;
    assert(all.subrange(0, p) =~= raw.subrange(0, p));
    let head = spec_utf8_lossy(raw.subrange(0, p));
    if is_chunked_head(head) {
        lemma_chunked_complete_extends(raw.subrange(p + 4, raw.len() as int), more);
        assert(all.subrange(p + 4, all.len() as int) =~= raw.subrange(p + 4, raw.len() as int) + more);
    }
}


// ---------------------------------------------------------------------------
// Law of endpoints
// ---------------------------------------------------------------------------

/// `last_index_of` looks past a tail that does not hold `c`.
proof fn lemma_last_index_past(a: Seq<char>, b: Seq<char>, c: char)
    requires
        forall|k: int| 0 <= k < b.len() ==> b[k] != c,
    ensures
        last_index_of(a + b, c) == last_index_of(a, c),
    decreases b.len(),
{
    if b.len() == 0 {
        assert(a + b =~= a);
    } else {
        assert((a + b).drop_last() =~= a + b.drop_last());
        assert((a + b).last() == b.last());
        lemma_last_index_past(a, b.drop_last(), c);
    }
}

/// Parsing the base URL of an endpoint gives the endpoint back, unless its
/// host is empty or the text after `http://` itself starts with `http://` or
/// `https://` (which parsing strips as well).
pub proof fn lemma_parse_base_url(host: Seq<char>, port: u16)
    requires
        host.len() > 0,
        !has_prefix(host + ":"@ + decimal(port as nat), "http://"@),
        !has_prefix(host + ":"@ + decimal(port as nat), "https://"@),
    ensures
        endpoint_spec(base_url_spec(host, port)) == Ok::<(Seq<char>, u16), Seq<char>>((host, port)),
{
    reveal_strlit("http://");
    reveal_strlit("https://");
    reveal_strlit(":");
    let digits = decimal(port as nat);
    crate::text::lemma_decimal(port as nat);
    let rest = host + ":"@ + digits;
    let url = base_url_spec(host, port);
    assert(url =~= "http://"@ + rest);
    // no white space to trim
    assert(url[0] == 'h');
    assert(url.last() == digits.last());
    assert(crate::text::trim_start(url) == url);
    assert(crate::text::trim_end(url) == url);
    assert(trim(url) == url);
    // one `http://` comes off, and nothing more
    assert(has_prefix(url, "http://"@)) by {
        assert(url.subrange(0, 7) =~= "http://"@);
    }
    assert(url.subrange(7, url.len() as int) =~= rest);
    assert(strip_prefixes(url, "http://"@) == strip_prefixes(rest, "http://"@));
    assert(strip_prefixes(rest, "http://"@) == rest);
    assert(strip_prefixes(rest, "https://"@) == rest);
    // no trailing slash
    assert(rest.last() == digits.last());
    assert(strip_trailing(rest, '/') == rest);
    assert(endpoint_core(url) == rest);
    // the port follows the last colon
    assert forall|k: int| 0 <= k < digits.len() implies digits[k] != ':' by {
        assert('0' <= digits[k] <= '9');
    }
    lemma_last_index_past(host + ":"@, digits, ':');
    assert(rest =~= (host + ":"@) + digits);
    assert((host + ":"@).last() == ':');
    assert(last_index_of(host + ":"@, ':') == Some(host.len() as int));
    assert(rest.subrange(host.len() as int + 1, rest.len() as int) =~= digits);
    crate::text::lemma_parse_decimal(port as nat, u16::MAX as nat);
    assert(rest.subrange(0, host.len() as int) =~= host);
}

}
