use vstd::prelude::*;

verus! {

broadcast use vstd::string::axiom_spec_iter;

/// The characters of `s`, in order.
pub fn chars_of(s: &str) -> (v: Vec<char>)
    ensures
        v@ == s@,
{
    let mut v: Vec<char> = Vec::new();
    for c in it: s.chars()
        invariant
            v@ == it.seq().take(it.index() as int),
    {
        v.push(c);
    }
    v
}

/// Appends `c` to the end of `s` (`String::push`).
#[verifier::external_body]
fn push_char(s: &mut String, c: char)
    ensures
        final(s)@ == old(s)@.push(c),
{
    s.push(c);
}

/// A string holding exactly the characters of `cs`.
pub fn string_of(cs: &[char]) -> (s: String)
    ensures
        s@ == cs@,
{
    let mut s = String::new();
    let mut i: usize = 0;
    while i < cs.len()
        invariant
            i <= cs@.len(),
            s@ == cs@.take(i as int),
        decreases cs@.len() - i,
    {
        push_char(&mut s, cs[i]);
        proof { assert(cs@.take(i as int).push(cs@[i as int]) =~= cs@.take(i + 1)); }
        i += 1;
    }
    proof { assert(cs@.take(cs@.len() as int) =~= cs@); }
    s
}


/// A `String` with the same characters as `s`.
pub fn str_from(s: &str) -> (r: String)
    ensures
        r@ == s@,
{
    s.to_owned()
}

/// `needle` occurs in `hay` at position `i`.
pub open spec fn occurs_at<T>(hay: Seq<T>, needle: Seq<T>, i: int) -> bool {
    0 <= i && i + needle.len() <= hay.len() && hay.subrange(i, i + needle.len()) == needle
}

/// `needle` occurs somewhere in `hay` (always so for an empty needle).
pub open spec fn contains_subseq<T>(hay: Seq<T>, needle: Seq<T>) -> bool {
    exists|i: int| occurs_at(hay, needle, i)
}

/// The first position at which `needle` occurs in `hay`, if it occurs at all.
#[verifier::opaque]
pub open spec fn first_occurrence<T>(hay: Seq<T>, needle: Seq<T>) -> Option<int> {
    if contains_subseq(hay, needle) {
        Some(choose|i: int| occurs_at(hay, needle, i) && forall|k: int| 0 <= k < i ==> !occurs_at(hay, needle, k))
    } else {
        None
    }
}

/// Some position where `needle` occurs is the first one.
proof fn lemma_least_occurrence<T>(hay: Seq<T>, needle: Seq<T>, w: int)
    requires
        occurs_at(hay, needle, w),
    ensures
        exists|i: int| occurs_at(hay, needle, i) && forall|k: int| 0 <= k < i ==> !occurs_at(hay, needle, k),
    decreases w,
{
    if exists|k: int| 0 <= k < w && occurs_at(hay, needle, k) {
        let k = choose|k: int| 0 <= k < w && occurs_at(hay, needle, k);
        lemma_least_occurrence(hay, needle, k);
    }
}

/// What `first_occurrence` gives: a position where `needle` occurs, with no
/// earlier one.
pub proof fn lemma_first_occurrence<T>(hay: Seq<T>, needle: Seq<T>)
    ensures
        match first_occurrence(hay, needle) {
            Some(i) => occurs_at(hay, needle, i) && forall|k: int| 0 <= k < i ==> !occurs_at(hay, needle, k),
            None => !contains_subseq(hay, needle),
        },
{
    reveal(first_occurrence);
    if contains_subseq(hay, needle) {
        let w = choose|w: int| occurs_at(hay, needle, w);
        lemma_least_occurrence(hay, needle, w);
    }
}

/// A position where `needle` occurs with no earlier one is `first_occurrence`.
pub proof fn lemma_is_first_occurrence<T>(hay: Seq<T>, needle: Seq<T>, i: int)
    requires
        occurs_at(hay, needle, i),
        forall|k: int| 0 <= k < i ==> !occurs_at(hay, needle, k),
    ensures
        first_occurrence(hay, needle) == Some(i),
{
    lemma_first_occurrence(hay, needle);
    let j = first_occurrence(hay, needle)->0;
    if j < i {
        assert(!occurs_at(hay, needle, j));
    }
    if i < j {
        assert(!occurs_at(hay, needle, i));
    }
}

/// Whether `c` occurs in `v`.
pub fn seq_contains(v: &[char], c: char) -> (r: bool)
    ensures
        r == v@.contains(c),
{
    let mut i: usize = 0;
    while i < v.len()
        invariant
            i <= v@.len(),
            forall|k: int| 0 <= k < i ==> v@[k] != c,
        decreases v@.len() - i,
    {
        if v[i] == c {
            assert(v@[i as int] == c);
            return true;
        }
        i += 1;
    }
    false
}

/// Whether `needle` occurs in `hay` at `i`, checked character by character.
fn chars_occur_at(hay: &[char], needle: &[char], i: usize) -> (r: bool)
    requires
        i + needle@.len() <= hay@.len(),
    ensures
        r == occurs_at(hay@, needle@, i as int),
{
    let mut k: usize = 0;
    while k < needle.len()
        invariant
            i + needle@.len() <= hay@.len(),
            k <= needle@.len(),
            hay@.len() == hay.len(),
            forall|q: int| 0 <= q < k ==> hay@[i + q] == needle@[q],
        decreases needle@.len() - k,
    {
        if hay[i + k] != needle[k] {
            assert(hay@.subrange(i as int, i + needle@.len())[k as int] != needle@[k as int]);
            return false;
        }
        k += 1;
    }
    assert(hay@.subrange(i as int, i + needle@.len()) =~= needle@);
    true
}

/// The first position at which `needle` occurs in `hay`.
pub fn find_subseq(hay: &[char], needle: &[char]) -> (r: Option<usize>)
    ensures
        match r {
            Some(i) => occurs_at(hay@, needle@, i as int) && forall|k: int| 0 <= k < i ==> !occurs_at(hay@, needle@, k),
            None => !contains_subseq(hay@, needle@),
        },
        match r {
            Some(i) => first_occurrence(hay@, needle@) == Some(i as int),
            None => first_occurrence(hay@, needle@) is None,
        },
{
    let r = find_subseq_scan(hay, needle);
    proof {
        lemma_first_occurrence(hay@, needle@);
        if let Some(i) = r {
            lemma_is_first_occurrence(hay@, needle@, i as int);
        }
    }
    r
}

fn find_subseq_scan(hay: &[char], needle: &[char]) -> (r: Option<usize>)
    ensures
        match r {
            Some(i) => occurs_at(hay@, needle@, i as int) && forall|k: int| 0 <= k < i ==> !occurs_at(hay@, needle@, k),
            None => !contains_subseq(hay@, needle@),
        },
{
    if needle.len() > hay.len() {
        return None;
    }
    let last = hay.len() - needle.len();
    let mut i: usize = 0;
    loop
        invariant
            last == hay@.len() - needle@.len(),
            i <= last,
            forall|k: int| 0 <= k < i ==> !occurs_at(hay@, needle@, k),
        decreases last - i,
    {
        if chars_occur_at(hay, needle, i) {
            return Some(i);
        }
        if i == last {
            return None;
        }
        i += 1;
    }
}

/// Whether `needle` occurs in `hay` at `i`, checked byte by byte.
fn bytes_occur_at(hay: &[u8], needle: &[u8], i: usize) -> (r: bool)
    requires
        i + needle@.len() <= hay@.len(),
    ensures
        r == occurs_at(hay@, needle@, i as int),
{
    let mut k: usize = 0;
    while k < needle.len()
        invariant
            i + needle@.len() <= hay@.len(),
            k <= needle@.len(),
            hay@.len() == hay.len(),
            forall|q: int| 0 <= q < k ==> hay@[i + q] == needle@[q],
        decreases needle@.len() - k,
    {
        if hay[i + k] != needle[k] {
            assert(hay@.subrange(i as int, i + needle@.len())[k as int] != needle@[k as int]);
            return false;
        }
        k += 1;
    }
    assert(hay@.subrange(i as int, i + needle@.len()) =~= needle@);
    true
}

/// The first position at which a non-empty `needle` occurs in `hay`.
pub fn find_subsequence(haystack: &[u8], needle: &[u8]) -> (r: Option<usize>)
    requires
        needle@.len() > 0,
    ensures
        match r {
            Some(i) => first_occurrence(haystack@, needle@) == Some(i as int),
            None => first_occurrence(haystack@, needle@) is None,
        },
{
    let r = find_bytes_scan(haystack, needle);
    proof {
        lemma_first_occurrence(haystack@, needle@);
        if let Some(i) = r {
            lemma_is_first_occurrence(haystack@, needle@, i as int);
        }
    }
    r
}

fn find_bytes_scan(haystack: &[u8], needle: &[u8]) -> (r: Option<usize>)
    ensures
        match r {
            Some(i) => occurs_at(haystack@, needle@, i as int) && forall|k: int| 0 <= k < i ==> !occurs_at(haystack@, needle@, k),
            None => !contains_subseq(haystack@, needle@),
        },
{
    if needle.len() > haystack.len() {
        return None;
    }
    let last = haystack.len() - needle.len();
    let mut i: usize = 0;
    loop
        invariant
            last == haystack@.len() - needle@.len(),
            i <= last,
            forall|k: int| 0 <= k < i ==> !occurs_at(haystack@, needle@, k),
        decreases last - i,
    {
        if bytes_occur_at(haystack, needle, i) {
            return Some(i);
        }
        if i == last {
            return None;
        }
        i += 1;
    }
}


// ---------------------------------------------------------------------------
// Whitespace and trimming
// ---------------------------------------------------------------------------

/// Unicode `White_Space`, the characters `str::trim` removes.
pub open spec fn is_white_space(c: char) -> bool {
    ||| c == '\t' || c == '\n' || c == '\x0B' || c == '\x0C' || c == '\r' || c == ' '
    ||| c == '\u{85}' || c == '\u{A0}' || c == '\u{1680}'
    ||| ('\u{2000}' <= c && c <= '\u{200A}')
    ||| c == '\u{2028}' || c == '\u{2029}' || c == '\u{202F}' || c == '\u{205F}' || c == '\u{3000}'
}

pub fn is_white_space_char(c: char) -> (r: bool)
    ensures
        r == is_white_space(c),
{
    c == '\t' || c == '\n' || c == '\x0B' || c == '\x0C' || c == '\r' || c == ' ' || c == '\u{85}'
        || c == '\u{A0}' || c == '\u{1680}' || ('\u{2000}' <= c && c <= '\u{200A}') || c == '\u{2028}'
        || c == '\u{2029}' || c == '\u{202F}' || c == '\u{205F}' || c == '\u{3000}'
}

/// `s` without its leading white space.
pub open spec fn trim_start(s: Seq<char>) -> Seq<char>
    decreases s.len(),
{
    if s.len() > 0 && is_white_space(s[0]) {
        trim_start(s.drop_first())
    } else {
        s
    }
}

/// `s` without its trailing white space.
pub open spec fn trim_end(s: Seq<char>) -> Seq<char>
    decreases s.len(),
{
    if s.len() > 0 && is_white_space(s.last()) {
        trim_end(s.drop_last())
    } else {
        s
    }
}

/// `s` without leading and trailing white space (`str::trim`).
pub open spec fn trim(s: Seq<char>) -> Seq<char> {
    trim_end(trim_start(s))
}

/// The bounds `lo..hi` of `v` that `str::trim` keeps.
pub fn trim_bounds(v: &[char]) -> (r: (usize, usize))
    ensures
        r.0 <= r.1 <= v@.len(),
        v@.subrange(r.0 as int, r.1 as int) == trim(v@),
{
    let mut lo: usize = 0;
    assert(v@.subrange(0, v@.len() as int) =~= v@);
    while lo < v.len() && is_white_space_char(v[lo])
        invariant
            lo <= v@.len(),
            trim_start(v@) == trim_start(v@.subrange(lo as int, v@.len() as int)),
        decreases v@.len() - lo,
    {
        assert(v@.subrange(lo as int, v@.len() as int).drop_first() =~= v@.subrange(lo + 1, v@.len() as int));
        lo += 1;
    }
    let mut hi: usize = v.len();
    let ghost ts = trim_start(v@);
    assert(ts == v@.subrange(lo as int, v@.len() as int));
    while hi > lo && is_white_space_char(v[hi - 1])
        invariant
            lo <= hi <= v@.len(),
            ts == v@.subrange(lo as int, v@.len() as int),
            trim_end(ts) == trim_end(v@.subrange(lo as int, hi as int)),
        decreases hi,
    {
        assert(v@.subrange(lo as int, hi as int).drop_last() =~= v@.subrange(lo as int, hi - 1));
        hi -= 1;
    }
    (lo, hi)
}

/// A copy of `v[lo..hi]`.
pub fn slice_of(v: &[char], lo: usize, hi: usize) -> (r: Vec<char>)
    requires
        lo <= hi <= v@.len(),
    ensures
        r@ == v@.subrange(lo as int, hi as int),
{
    let mut r: Vec<char> = Vec::new();
    let mut i = lo;
    while i < hi
        invariant
            lo <= i <= hi <= v@.len(),
            r@ == v@.subrange(lo as int, i as int),
        decreases hi - i,
    {
        r.push(v[i]);
        assert(v@.subrange(lo as int, i as int).push(v@[i as int]) =~= v@.subrange(lo as int, i + 1));
        i += 1;
    }
    r
}

// ---------------------------------------------------------------------------
// Searching
// ---------------------------------------------------------------------------

/// The first position at or after `i` holding `c`, or `s.len()` when there is none.
pub open spec fn index_of_from(s: Seq<char>, c: char, i: int) -> int
    decreases s.len() - i,
{
    if i < 0 {
        index_of_from(s, c, 0)
    } else if i >= s.len() {
        s.len() as int
    } else if s[i] == c {
        i
    } else {
        index_of_from(s, c, i + 1)
    }
}

pub proof fn lemma_index_of_from(s: Seq<char>, c: char, i: int)
    requires
        0 <= i <= s.len(),
    ensures
        i <= index_of_from(s, c, i) <= s.len(),
        index_of_from(s, c, i) < s.len() ==> s[index_of_from(s, c, i)] == c,
        forall|k: int| i <= k < index_of_from(s, c, i) ==> s[k] != c,
    decreases s.len() - i,
{
    if i < s.len() && s[i] != c {
        lemma_index_of_from(s, c, i + 1);
    }
}

/// The first position at or after `from` holding `c` (or `v.len()`).
pub fn find_char_from(v: &[char], c: char, from: usize) -> (r: usize)
    requires
        from <= v@.len(),
    ensures
        r == index_of_from(v@, c, from as int),
{
    let mut i = from;
    while i < v.len() && v[i] != c
        invariant
            from <= i <= v@.len(),
            index_of_from(v@, c, from as int) == index_of_from(v@, c, i as int),
        decreases v@.len() - i,
    {
        i += 1;
    }
    i
}

/// The last position holding `c`, if any.
pub open spec fn last_index_of(s: Seq<char>, c: char) -> Option<int>
    decreases s.len(),
{
    if s.len() == 0 {
        None
    } else if s.last() == c {
        Some(s.len() - 1)
    } else {
        last_index_of(s.drop_last(), c)
    }
}

pub proof fn lemma_last_index_of(s: Seq<char>, c: char)
    ensures
        match last_index_of(s, c) {
            Some(i) => 0 <= i < s.len() && s[i] == c && forall|k: int| i < k < s.len() ==> s[k] != c,
            None => forall|k: int| 0 <= k < s.len() ==> s[k] != c,
        },
    decreases s.len(),
{
    if s.len() > 0 && s.last() != c {
        let d = s.drop_last();
        lemma_last_index_of(d, c);
        match last_index_of(d, c) {
            Some(i) => {
                assert(s[i] == d[i]);
                assert forall|k: int| i < k < s.len() implies s[k] != c by {
                    if k < d.len() {
                        assert(s[k] == d[k]);
                    }
                }
            },
            None => {
                assert forall|k: int| 0 <= k < s.len() implies s[k] != c by {
                    if k < d.len() {
                        assert(s[k] == d[k]);
                    }
                }
            },
        }
    }
}

/// The last position of `v` holding `c`, if any.
pub fn rfind_char(v: &[char], c: char) -> (r: Option<usize>)
    ensures
        r matches Some(i) ==> last_index_of(v@, c) == Some(i as int),
        r is None ==> last_index_of(v@, c) is None,
{
    let mut i = v.len();
    assert(v@.subrange(0, v@.len() as int) =~= v@);
    while i > 0 && v[i - 1] != c
        invariant
            i <= v@.len(),
            last_index_of(v@, c) == last_index_of(v@.subrange(0, i as int), c),
        decreases i,
    {
        assert(v@.subrange(0, i as int).drop_last() =~= v@.subrange(0, i - 1));
        i -= 1;
    }
    if i == 0 {
        assert(v@.subrange(0, 0).len() == 0);
        None
    } else {
        Some(i - 1)
    }
}

// ---------------------------------------------------------------------------
// Lines
// ---------------------------------------------------------------------------

/// A line as `str::lines` yields it: a `\r` before the `\n` is dropped.
pub open spec fn strip_cr(line: Seq<char>) -> Seq<char> {
    if line.len() > 0 && line.last() == '\r' {
        line.drop_last()
    } else {
        line
    }
}

/// The lines of `s` as `str::lines` yields them: split at `\n`, a `\r` before
/// each `\n` dropped, and no empty line after a final `\n`.
pub open spec fn lines_of(s: Seq<char>) -> Seq<Seq<char>>
    decreases s.len(),
{
    if s.len() == 0 {
        seq![]
    } else {
        let i = index_of_from(s, '\n', 0);
        if i >= s.len() {
            seq![s]
        } else {
            proof {
                lemma_index_of_from(s, '\n', 0);
            }
            seq![strip_cr(s.subrange(0, i))] + lines_of(s.subrange(i + 1, s.len() as int))
        }
    }
}

/// The line of `v` that starts at `start`: its end (exclusive, before any
/// `\r\n` or `\n`) and where the next line starts.
pub fn next_line(v: &[char], start: usize) -> (r: (usize, usize))
    requires
        start < v@.len(),
    ensures
        start <= r.0 <= r.1 <= v@.len(),
        r.1 > start,
        lines_of(v@.subrange(start as int, v@.len() as int)) == seq![v@.subrange(start as int, r.0 as int)]
            + lines_of(v@.subrange(r.1 as int, v@.len() as int)),
{
    let ghost rest = v@.subrange(start as int, v@.len() as int);
    let nl = find_char_from(v, '\n', start);
    proof {
        lemma_index_of_from(v@, '\n', start as int);
        lemma_index_of_from(rest, '\n', 0);
        // the newline search in the rest of the text agrees with the search in v
        assert(index_of_from(rest, '\n', 0) == nl - start) by {
            lemma_index_shift(v@, '\n', start as int, 0);
        }
    }
    if nl == v.len() {
        proof {
            assert(v@.subrange(v@.len() as int, v@.len() as int).len() == 0);
            assert(lines_of(v@.subrange(v@.len() as int, v@.len() as int)) =~= seq![]);
            assert(seq![rest] + seq![] =~= seq![rest]);
        }
        (nl, nl)
    } else {
        let end = if nl > start && v[nl - 1] == '\r' { nl - 1 } else { nl };
        proof {
            assert(rest.subrange(0, nl - start) =~= v@.subrange(start as int, nl as int));
            assert(rest.subrange(nl - start + 1, rest.len() as int) =~= v@.subrange(nl + 1, v@.len() as int));
            if nl > start && v@[nl - 1] == '\r' {
                assert(strip_cr(v@.subrange(start as int, nl as int)) =~= v@.subrange(start as int, end as int));
            }
        }
        (end, nl + 1)
    }
}

/// `index_of_from` on a suffix is `index_of_from` on the whole, shifted.
pub proof fn lemma_index_shift(s: Seq<char>, c: char, start: int, i: int)
    requires
        0 <= start <= s.len(),
        0 <= i <= s.len() - start,
    ensures
        index_of_from(s.subrange(start, s.len() as int), c, i) == index_of_from(s, c, start + i) - start,
    decreases s.len() - start - i,
{
    if i < s.len() - start {
        lemma_index_shift(s, c, start, i + 1);
    }
}

// ---------------------------------------------------------------------------
// Numbers
// ---------------------------------------------------------------------------

/// The value of `c` as a digit in `radix` (10 or 16), if it is one.
pub open spec fn digit_value(c: char, radix: nat) -> Option<nat> {
    if '0' <= c && c <= '9' && (c as nat) - ('0' as nat) < radix {
        Some(((c as nat) - ('0' as nat)) as nat)
    } else if radix == 16 && 'a' <= c && c <= 'f' {
        Some(((c as nat) - ('a' as nat) + 10) as nat)
    } else if radix == 16 && 'A' <= c && c <= 'F' {
        Some(((c as nat) - ('A' as nat) + 10) as nat)
    } else {
        None
    }
}

/// Every character of `s` is a digit in `radix`.
pub open spec fn all_digits(s: Seq<char>, radix: nat) -> bool {
    forall|k: int| 0 <= k < s.len() ==> #[trigger] digit_value(s[k], radix) is Some
}

/// The number the digits `s` spell in `radix`.
pub open spec fn digits_value(s: Seq<char>, radix: nat) -> nat
    decreases s.len(),
{
    if s.len() == 0 {
        0
    } else {
        digits_value(s.drop_last(), radix) * radix + match digit_value(s.last(), radix) {
            Some(d) => d,
            None => 0,
        }
    }
}

/// What `from_str` / `from_str_radix` of an unsigned integer type whose
/// largest value is `max` gives for `s`: an optional `+`, then one or more
/// digits, with a value no larger than `max`.
pub open spec fn parse_unsigned(s: Seq<char>, radix: nat, max: nat) -> Option<nat> {
    let body = if s.len() > 0 && s[0] == '+' { s.drop_first() } else { s };
    if body.len() == 0 || !all_digits(body, radix) || digits_value(body, radix) > max {
        None
    } else {
        Some(digits_value(body, radix))
    }
}

proof fn lemma_digits_value_grows(s: Seq<char>, radix: nat, k: int)
    requires
        radix >= 1,
        0 <= k <= s.len(),
    ensures
        digits_value(s.subrange(0, k), radix) <= digits_value(s, radix),
    decreases s.len() - k,
{
    if k == s.len() {
        assert(s.subrange(0, k) =~= s);
    } else {
        lemma_digits_value_grows(s, radix, k + 1);
        let a = s.subrange(0, k + 1);
        assert(a.drop_last() =~= s.subrange(0, k));
        let v = digits_value(s.subrange(0, k), radix) as int;
        let r = radix as int;
        assert(v <= v * r) by (nonlinear_arith)
            requires r >= 1, v >= 0;
    }
}

fn digit_of(c: char, radix: u32) -> (r: Option<u32>)
    requires
        radix == 10 || radix == 16,
    ensures
        match r {
            Some(d) => digit_value(c, radix as nat) == Some(d as nat) && d < radix,
            None => digit_value(c, radix as nat) is None,
        },
{
    if '0' <= c && c <= '9' {
        Some((c as u32) - ('0' as u32))
    } else if radix == 16 && 'a' <= c && c <= 'f' {
        Some((c as u32) - ('a' as u32) + 10)
    } else if radix == 16 && 'A' <= c && c <= 'F' {
        Some((c as u32) - ('A' as u32) + 10)
    } else {
        None
    }
}

/// Parses `v[lo..hi]` as an unsigned integer in `radix` no larger than `max`,
/// as `from_str` / `from_str_radix` do.
pub fn parse_unsigned_chars(v: &[char], lo: usize, hi: usize, radix: u32, max: u64) -> (r: Option<u64>)
    requires
        lo <= hi <= v@.len(),
        radix == 10 || radix == 16,
    ensures
        match r {
            Some(n) => parse_unsigned(v@.subrange(lo as int, hi as int), radix as nat, max as nat) == Some(n as nat),
            None => parse_unsigned(v@.subrange(lo as int, hi as int), radix as nat, max as nat) is None,
        },
{
    let ghost s = v@.subrange(lo as int, hi as int);
    let start = if lo < hi && v[lo] == '+' { lo + 1 } else { lo };
    let ghost body = v@.subrange(start as int, hi as int);
    proof {
        if lo < hi && v@[lo as int] == '+' {
            assert(s.drop_first() =~= body);
        } else {
            assert(s =~= body);
        }
    }
    if start == hi {
        return None;
    }
    let mut acc: u64 = 0;
    let mut i = start;
    let mut overflow = false;
    while i < hi
        invariant
            lo <= start <= i <= hi <= v@.len(),
            radix == 10 || radix == 16,
            body == v@.subrange(start as int, hi as int),
            s == v@.subrange(lo as int, hi as int),
            body == (if s.len() > 0 && s[0] == '+' { s.drop_first() } else { s }),
            body.len() > 0,
            all_digits(v@.subrange(start as int, i as int), radix as nat),
            !overflow ==> acc as nat == digits_value(v@.subrange(start as int, i as int), radix as nat),
            !overflow ==> acc <= max,
            overflow ==> digits_value(v@.subrange(start as int, i as int), radix as nat) > max,
        decreases hi - i,
    {
        let d = match digit_of(v[i], radix) {
            Some(d) => d,
            None => {
                assert(body[i - start] == v@[i as int]);
                assert(!all_digits(body, radix as nat));
                return None;
            },
        };
        let ghost prev = v@.subrange(start as int, i as int);
        let ghost next = v@.subrange(start as int, i + 1);
        proof {
            assert(next.drop_last() =~= prev);
            assert(next.last() == v@[i as int]);
            assert forall|k: int| 0 <= k < next.len() implies #[trigger] digit_value(next[k], radix as nat) is Some by {
                if k < prev.len() {
                    assert(next[k] == prev[k]);
                }
            }
        }
        if !overflow {
            if (d as u64) > max || acc > (max - d as u64) / (radix as u64) {
                overflow = true;
                proof {
                    let dv = d as int;
                    let r = radix as int;
                    let a = acc as int;
                    let m = max as int;
                    if (d as u64) > max {
                        assert(a * r + dv > m) by (nonlinear_arith)
                            requires dv > m, r >= 1, a >= 0;
                    } else {
                        assert(a * r + dv > m) by (nonlinear_arith)
                            requires a > (m - dv) / r, r >= 1, dv <= m;
                    }
                }
            } else {
                proof {
                    let dv = d as int;
                    let r = radix as int;
                    let a = acc as int;
                    let m = max as int;
                    assert(a * r + dv <= m) by (nonlinear_arith)
                        requires a <= (m - dv) / r, r >= 1, dv <= m, a >= 0;
                }
                acc = acc * (radix as u64) + (d as u64);
            }
        } else {
            proof {
                let pv = digits_value(prev, radix as nat) as int;
                let r = radix as int;
                assert(pv * r >= pv) by (nonlinear_arith)
                    requires r >= 1, pv >= 0;
            }
        }
        i += 1;
    }
    if overflow {
        None
    } else {
        Some(acc)
    }
}

// ---------------------------------------------------------------------------
// ASCII case
// ---------------------------------------------------------------------------

/// `c` with ASCII upper case letters mapped to lower case.
pub open spec fn ascii_lower(c: char) -> char {
    if 'A' <= c && c <= 'Z' {
        ((c as u32) + 32) as char
    } else {
        c
    }
}

/// `c` with ASCII lower case letters mapped to upper case.
pub open spec fn ascii_upper(c: char) -> char {
    if 'a' <= c && c <= 'z' {
        ((c as u32) - 32) as char
    } else {
        c
    }
}

pub fn to_ascii_lower(c: char) -> (r: char)
    ensures
        r == ascii_lower(c),
{
    if 'A' <= c && c <= 'Z' {
        let code = (c as u32) + 32;
        assert(0x61 <= code <= 0x7A);
        char_from_ascii(code)
    } else {
        c
    }
}

pub fn to_ascii_upper(c: char) -> (r: char)
    ensures
        r == ascii_upper(c),
{
    if 'a' <= c && c <= 'z' {
        let code = (c as u32) - 32;
        char_from_ascii(code)
    } else {
        c
    }
}

/// The character with ASCII code `code`.
#[verifier::external_body]
fn char_from_ascii(code: u32) -> (r: char)
    requires
        code < 128,
    ensures
        r == code as char,
{
    char::from_u32(code).unwrap()
}

/// `a` and `b` are equal once ASCII letters are compared without case.
pub open spec fn eq_ignore_ascii_case(a: Seq<char>, b: Seq<char>) -> bool {
    a.len() == b.len() && forall|k: int| 0 <= k < a.len() ==> #[trigger] ascii_lower(a[k]) == ascii_lower(b[k])
}

/// `v[lo..hi]` equals `b` once ASCII letters are compared without case.
pub fn range_eq_ignore_ascii_case(v: &[char], lo: usize, hi: usize, b: &[char]) -> (r: bool)
    requires
        lo <= hi <= v@.len(),
    ensures
        r == eq_ignore_ascii_case(v@.subrange(lo as int, hi as int), b@),
{
    if hi - lo != b.len() {
        return false;
    }
    let mut k: usize = 0;
    while k < b.len()
        invariant
            lo <= hi <= v@.len(),
            hi - lo == b@.len(),
            k <= b@.len(),
            forall|q: int| 0 <= q < k ==> #[trigger] ascii_lower(v@.subrange(lo as int, hi as int)[q]) == ascii_lower(b@[q]),
        decreases b@.len() - k,
    {
        if to_ascii_lower(v[lo + k]) != to_ascii_lower(b[k]) {
            assert(v@.subrange(lo as int, hi as int)[k as int] == v@[lo + k]);
            return false;
        }
        assert(v@.subrange(lo as int, hi as int)[k as int] == v@[lo + k]);
        k += 1;
    }
    true
}

/// `s` with every ASCII letter in lower case.
pub open spec fn lower_ascii_seq(s: Seq<char>) -> Seq<char> {
    s.map_values(|c: char| ascii_lower(c))
}

/// `v` with every ASCII letter in lower case.
pub fn to_ascii_lowercase(v: &[char]) -> (r: Vec<char>)
    ensures
        r@ == lower_ascii_seq(v@),
{
    let mut r: Vec<char> = Vec::new();
    let mut i: usize = 0;
    while i < v.len()
        invariant
            i <= v@.len(),
            r@ == lower_ascii_seq(v@.subrange(0, i as int)),
        decreases v@.len() - i,
    {
        r.push(to_ascii_lower(v[i]));
        assert(lower_ascii_seq(v@.subrange(0, i + 1)) =~= lower_ascii_seq(v@.subrange(0, i as int)).push(ascii_lower(v@[i as int])));
        i += 1;
    }
    assert(v@.subrange(0, v@.len() as int) =~= v@);
    r
}

/// `v` starts with `prefix`.
pub fn starts_with(v: &[char], prefix: &[char]) -> (r: bool)
    ensures
        r == has_prefix(v@, prefix@),
{
    if prefix.len() > v.len() {
        return false;
    }
    chars_occur_at(v, prefix, 0)
}

/// `v[lo..hi]` starts with `prefix`.
pub fn starts_with_at(v: &[char], prefix: &[char], lo: usize, hi: usize) -> (r: bool)
    requires
        lo <= hi <= v@.len(),
    ensures
        r == has_prefix(v@.subrange(lo as int, hi as int), prefix@),
{
    if prefix.len() > hi - lo {
        return false;
    }
    let r = chars_occur_at(v, prefix, lo);
    assert(v@.subrange(lo as int, hi as int).subrange(0, prefix@.len() as int) =~= v@.subrange(
        lo as int,
        lo + prefix@.len(),
    ));
    r
}

/// `s` ends with `suffix`.
pub open spec fn has_suffix(s: Seq<char>, suffix: Seq<char>) -> bool {
    suffix.len() <= s.len() && s.subrange(s.len() - suffix.len(), s.len() as int) == suffix
}

/// `s` starts with `prefix`.
pub open spec fn has_prefix(s: Seq<char>, prefix: Seq<char>) -> bool {
    prefix.len() <= s.len() && s.subrange(0, prefix.len() as int) == prefix
}

/// `v` ends with `suffix`.
pub fn ends_with(v: &[char], suffix: &[char]) -> (r: bool)
    ensures
        r == has_suffix(v@, suffix@),
{
    if suffix.len() > v.len() {
        return false;
    }
    chars_occur_at(v, suffix, v.len() - suffix.len())
}

/// `v` with `more` appended.
pub fn append_chars(v: &mut Vec<char>, more: &[char])
    ensures
        final(v)@ == old(v)@ + more@,
{
    let mut i: usize = 0;
    let ghost start = v@;
    while i < more.len()
        invariant
            i <= more@.len(),
            v@ == start + more@.subrange(0, i as int),
        decreases more@.len() - i,
    {
        v.push(more[i]);
        assert(start + more@.subrange(0, i + 1) =~= (start + more@.subrange(0, i as int)).push(more@[i as int]));
        i += 1;
    }
    assert(more@.subrange(0, more@.len() as int) =~= more@);
}

/// `v` with the characters of `s` appended.
pub fn append_str(v: &mut Vec<char>, s: &str)
    ensures
        final(v)@ == old(v)@ + s@,
{
    let cs = chars_of(s);
    append_chars(v, &cs);
}


// ---------------------------------------------------------------------------
// Decimal formatting
// ---------------------------------------------------------------------------

/// The ASCII digit for `d < 10`.
pub open spec fn digit_char(d: nat) -> char {
    (('0' as nat) + d) as char
}

/// The decimal digits of `n`, as `Display` writes them.
pub open spec fn decimal(n: nat) -> Seq<char>
    decreases n,
{
    if n < 10 {
        seq![digit_char(n)]
    } else {
        decimal(n / 10).push(digit_char(n % 10))
    }
}

fn digit_to_char(d: u64) -> (r: char)
    requires
        d < 10,
    ensures
        r == digit_char(d as nat),
{
    char_from_ascii(('0' as u32) + (d as u32))
}

/// Appends the decimal digits of `n` to `v`.
pub fn push_decimal(v: &mut Vec<char>, n: u64)
    ensures
        final(v)@ == old(v)@ + decimal(n as nat),
    decreases n,
{
    if n >= 10 {
        push_decimal(v, n / 10);
    }
    let ghost mid = v@;
    v.push(digit_to_char(n % 10));
    proof {
        if n >= 10 {
            assert(v@ =~= old(v)@ + decimal(n as nat));
        } else {
            assert(v@ =~= old(v)@ + decimal(n as nat));
        }
    }
}


/// Whether `a` and `b` hold the same characters.
pub fn chars_eq(a: &[char], b: &[char]) -> (r: bool)
    ensures
        r == (a@ == b@),
{
    if a.len() != b.len() {
        return false;
    }
    let mut i: usize = 0;
    while i < a.len()
        invariant
            a@.len() == b@.len(),
            i <= a@.len(),
            forall|k: int| 0 <= k < i ==> a@[k] == b@[k],
        decreases a@.len() - i,
    {
        if a[i] != b[i] {
            return false;
        }
        i += 1;
    }
    assert(a@ =~= b@);
    true
}

/// Whether the characters `a` spell `lit`.
pub fn chars_are(a: &[char], lit: &str) -> (r: bool)
    ensures
        r == (a@ == lit@),
{
    let b = chars_of(lit);
    chars_eq(a, &b)
}


/// The decimal digits of `n` are digits, at least one, that spell `n`.
pub proof fn lemma_decimal(n: nat)
    ensures
        decimal(n).len() >= 1,
        forall|k: int| 0 <= k < decimal(n).len() ==> '0' <= #[trigger] decimal(n)[k] <= '9',
        all_digits(decimal(n), 10),
        digits_value(decimal(n), 10) == n,
    decreases n,
{
    let d = (n % 10) as nat;
    assert(digit_char(d) as nat == '0' as nat + d);
    assert(digit_value(digit_char(d), 10) == Some(d));
    if n < 10 {
        let s = decimal(n);
        assert(s.drop_last() =~= Seq::<char>::empty());
        assert(digits_value(s.drop_last(), 10) == 0);
        assert(s.last() == digit_char(d));
    } else {
        lemma_decimal(n / 10);
        let s = decimal(n);
        assert(s.drop_last() =~= decimal(n / 10));
        assert(s.last() == digit_char(d));
        assert(digits_value(s, 10) == digits_value(decimal(n / 10), 10) * 10 + d);
        assert((n / 10) * 10 + d == n);
        assert forall|k: int| 0 <= k < s.len() implies #[trigger] digit_value(s[k], 10) is Some by {
            if k < s.len() - 1 {
                assert(s[k] == decimal(n / 10)[k]);
            }
        }
    }
}

/// `parse_unsigned` reads back the decimal digits of any `n` up to `max`.
pub proof fn lemma_parse_decimal(n: nat, max: nat)
    requires
        n <= max,
    ensures
        parse_unsigned(decimal(n), 10, max) == Some(n),
{
    lemma_decimal(n);
    assert(decimal(n)[0] != '+');
}


/// What `trim_start` leaves starts with a character that is not white space.
pub proof fn lemma_trim_start(s: Seq<char>)
    ensures
        trim_start(s).len() <= s.len(),
        trim_start(s).len() > 0 ==> !is_white_space(trim_start(s)[0]),
        s.len() > 0 && !is_white_space(s[0]) ==> trim_start(s) == s,
    decreases s.len(),
{
    if s.len() > 0 && is_white_space(s[0]) {
        lemma_trim_start(s.drop_first());
    }
}

/// What `trim_end` leaves ends with a character that is not white space,
/// and keeps a first character that is not white space.
pub proof fn lemma_trim_end(s: Seq<char>)
    ensures
        trim_end(s).len() <= s.len(),
        trim_end(s).len() > 0 ==> !is_white_space(trim_end(s).last()),
        s.len() > 0 && !is_white_space(s.last()) ==> trim_end(s) == s,
        s.len() > 0 && !is_white_space(s[0]) ==> trim_end(s).len() > 0 && trim_end(s)[0] == s[0],
    decreases s.len(),
{
    if s.len() > 0 && is_white_space(s.last()) {
        lemma_trim_end(s.drop_last());
        if s.len() > 1 && !is_white_space(s[0]) {
            assert(s.drop_last()[0] == s[0]);
        }
    }
}

/// `str::trim` leaves text that starts and ends with characters that are
/// not white space, so trimming twice trims once.
pub proof fn lemma_trim(s: Seq<char>)
    ensures
        trim(s).len() > 0 ==> !is_white_space(trim(s)[0]) && !is_white_space(trim(s).last()),
        trim(trim(s)) == trim(s),
        s.len() > 0 && !is_white_space(s[0]) && !is_white_space(s.last()) ==> trim(s) == s,
{
    lemma_trim_start(s);
    lemma_trim_end(trim_start(s));
    let t = trim(s);
    if t.len() > 0 {
        lemma_trim_start(t);
        lemma_trim_end(t);
    } else {
        assert(trim_start(t) == t);
        assert(trim_end(t) == t);
    }
    if s.len() > 0 && !is_white_space(s[0]) && !is_white_space(s.last()) {
        lemma_trim_end(s);
    }
}

}
