//! Request interception rules: URL patterns and what to do with a match.
use vstd::prelude::*;

use crate::text::{chars_of, contains_subseq, seq_contains, str_from};

verus! {

/// What to do with a matched request.
#[derive(Debug)]
pub enum RouteAction {
    /// Let the request continue unchanged.
    Continue,
    /// Abort the request as if the connection failed.
    Abort,
    /// Answer the request locally with a synthetic response.
    Fulfill {
        /// HTTP status code.
        status: i64,
        /// `Content-Type` header value.
        content_type: String,
        /// Response body.
        body: Vec<u8>,
    },
    /// Continue the request, overriding (or adding) these request headers.
    SetRequestHeaders(Vec<(String, String)>),
    /// Continue the response, overriding (or adding) these response headers.
    SetResponseHeaders(Vec<(String, String)>),
}

/// A URL pattern and the action to apply.
#[derive(Debug)]
pub struct Route {
    /// URL pattern. `*`/`?` are wildcards; without wildcards this is a
    /// case-sensitive substring match.
    pub pattern: String,
    /// The action to apply when the pattern matches.
    pub action: RouteAction,
}

// ---------------------------------------------------------------------------
// Wildcard semantics
// ---------------------------------------------------------------------------

/// Whether `p[i..]` matches `t[j..]`, where `*` in the pattern stands for any
/// (possibly empty) sequence of characters and `?` for exactly one character;
/// every other pattern character stands for itself.
pub open spec fn wildcard_match_at(p: Seq<char>, t: Seq<char>, i: int, j: int) -> bool
    decreases p.len() - i + t.len() - j,
{
    if i < 0 || j < 0 || i > p.len() || j > t.len() {
        false
    } else if i == p.len() {
        j == t.len()
    } else if p[i] == '*' {
        wildcard_match_at(p, t, i + 1, j) || (j < t.len() && wildcard_match_at(p, t, i, j + 1))
    } else {
        j < t.len() && (p[i] == '?' || p[i] == t[j]) && wildcard_match_at(p, t, i + 1, j + 1)
    }
}

/// Whether the whole of `t` matches the whole of `p` (anchored at both ends).
pub open spec fn wildcard_match(p: Seq<char>, t: Seq<char>) -> bool {
    wildcard_match_at(p, t, 0, 0)
}

/// Every pattern character from `i` on is a `*`.
pub open spec fn only_stars_from(p: Seq<char>, i: int) -> bool {
    forall|k: int| i <= k < p.len() ==> p[k] == '*'
}

/// The state machine run by [`glob_match`]: pattern position `pi`, text
/// position `ti`, the last `*` seen (`star`) and the text position it was
/// last tried from (`m`). A `*` in the pattern is always a wildcard, whatever
/// the text holds.
spec fn glob_scan(p: Seq<char>, t: Seq<char>, pi: int, ti: int, star: Option<int>, m: int) -> bool
    decreases t.len() - m, t.len() - ti, p.len() - pi,
{
    if !(0 <= m <= ti <= t.len() && 0 <= pi <= p.len() && (star matches Some(s) ==> 0 <= s < p.len())) {
        false
    } else if ti < t.len() {
        if pi < p.len() && p[pi] == '*' {
            glob_scan(p, t, pi + 1, ti, Some(pi), ti)
        } else if pi < p.len() && (p[pi] == '?' || p[pi] == t[ti]) {
            glob_scan(p, t, pi + 1, ti + 1, star, m)
        } else if let Some(s) = star {
            glob_scan(p, t, s + 1, m + 1, star, m + 1)
        } else {
            false
        }
    } else {
        only_stars_from(p, pi)
    }
}

/// The characters `p[i..i+len]` hold no `*` and match `t[j..j+len]` one by one.
pub open spec fn literal_run(p: Seq<char>, t: Seq<char>, i: int, j: int, len: int) -> bool {
    &&& 0 <= i && i + len <= p.len() && 0 <= j && j + len <= t.len() && len >= 0
    &&& forall|q: int| i <= q < i + len ==> #[trigger] p[q] != '*' && (p[q] == '?' || p[q] == t[j + (q - i)])
}

/// `p[i..i+len]` holds no `*`.
pub open spec fn star_free(p: Seq<char>, i: int, len: int) -> bool {
    &&& 0 <= i && len >= 0 && i + len <= p.len()
    &&& forall|q: int| i <= q < i + len ==> #[trigger] p[q] != '*'
}

/// A star-free stretch of pattern must meet text character by character.
proof fn lemma_star_free_run(p: Seq<char>, t: Seq<char>, i: int, j: int, len: int)
    requires
        star_free(p, i, len),
        0 <= j <= t.len(),
    ensures
        wildcard_match_at(p, t, i, j) == (j + len <= t.len() && literal_run(p, t, i, j, len)
            && wildcard_match_at(p, t, i + len, j + len)),
    decreases len,
{
    if len > 0 {
        assert(p[i] != '*');
        if j < t.len() {
            lemma_star_free_run(p, t, i + 1, j + 1, len - 1);
            assert(literal_run(p, t, i, j, len) == ((p[i] == '?' || p[i] == t[j]) && literal_run(p, t, i + 1, j + 1, len - 1))) by {
                if (p[i] == '?' || p[i] == t[j]) && literal_run(p, t, i + 1, j + 1, len - 1) {
                    assert forall|q: int| i <= q < i + len implies #[trigger] p[q] != '*' && (p[q] == '?' || p[q] == t[j + (q - i)]) by {
                        if q > i {
                            assert(j + (q - i) == (j + 1) + (q - (i + 1)));
                        }
                    }
                }
                if literal_run(p, t, i, j, len) {
                    assert forall|q: int| i + 1 <= q < i + 1 + (len - 1) implies #[trigger] p[q] != '*' && (p[q] == '?' || p[q] == t[(j + 1) + (q - (i + 1))]) by {
                        assert(j + (q - i) == (j + 1) + (q - (i + 1)));
                    }
                }
            }
        }
    }
}

/// At the end of the text, only a run of stars can match.
proof fn lemma_end_of_text(p: Seq<char>, t: Seq<char>, i: int)
    requires
        0 <= i <= p.len(),
    ensures
        wildcard_match_at(p, t, i, t.len() as int) == only_stars_from(p, i),
    decreases p.len() - i,
{
    if i < p.len() {
        lemma_end_of_text(p, t, i + 1);
    }
}

/// A `*` that matches from text position `k` also matches from any earlier `j`.
proof fn lemma_star_absorbs(p: Seq<char>, t: Seq<char>, s: int, j: int, k: int)
    requires
        0 <= s < p.len(),
        p[s] == '*',
        0 <= j <= k <= t.len(),
        wildcard_match_at(p, t, s, k),
    ensures
        wildcard_match_at(p, t, s, j),
    decreases k - j,
{
    if j < k {
        lemma_star_absorbs(p, t, s, j + 1, k);
    }
}

/// After a `*` at `s` followed by `len` star-free characters and another `*`,
/// a match from text position `j` gives a match from that second star at any
/// text position up to `j + len`.
proof fn lemma_star_then_run(p: Seq<char>, t: Seq<char>, s: int, len: int, j: int, q: int)
    requires
        0 <= s < p.len(),
        p[s] == '*',
        star_free(p, s + 1, len),
        0 <= j <= t.len(),
        wildcard_match_at(p, t, s, j),
        s + 1 + len < p.len(),
        p[s + 1 + len] == '*',
        0 <= q <= j + len,
    ensures
        wildcard_match_at(p, t, s + 1 + len, q),
    decreases t.len() - j,
{
    lemma_star_free_run(p, t, s + 1, j, len);
    if wildcard_match_at(p, t, s + 1, j) {
        lemma_star_absorbs(p, t, s + 1 + len, q, j + len);
    } else {
        lemma_star_then_run(p, t, s, len, j + 1, q);
    }
}

/// After a `*` at `s` followed by `len` star-free characters, no match starts
/// closer than `len` characters to the end of the text.
proof fn lemma_star_then_run_room(p: Seq<char>, t: Seq<char>, s: int, len: int, j: int)
    requires
        0 <= s < p.len(),
        p[s] == '*',
        star_free(p, s + 1, len),
        0 <= j <= t.len(),
        wildcard_match_at(p, t, s, j),
    ensures
        j + len <= t.len(),
    decreases t.len() - j,
{
    lemma_star_free_run(p, t, s + 1, j, len);
    if !wildcard_match_at(p, t, s + 1, j) {
        lemma_star_then_run_room(p, t, s, len, j + 1);
    }
}

/// What a scan state stands for: the match of the pattern from `pi` against
/// the text from `ti`, or, once a `*` at `s` has been met, the match from that
/// star against the text from `m`.
spec fn scan_goal(p: Seq<char>, t: Seq<char>, pi: int, ti: int, star: Option<int>, m: int) -> bool {
    match star {
        None => wildcard_match_at(p, t, pi, ti),
        Some(s) => wildcard_match_at(p, t, s, m),
    }
}

spec fn scan_state_ok(p: Seq<char>, t: Seq<char>, pi: int, ti: int, star: Option<int>, m: int) -> bool {
    &&& 0 <= m <= ti <= t.len()
    &&& 0 <= pi <= p.len()
    &&& match star {
        None => true,
        Some(s) => {
            &&& 0 <= s < pi
            &&& p[s] == '*'
            &&& pi - (s + 1) == ti - m
            &&& literal_run(p, t, s + 1, m, pi - (s + 1))
        },
    }
}

/// The scan decides exactly the goal its state stands for.
proof fn lemma_scan_decides_goal(p: Seq<char>, t: Seq<char>, pi: int, ti: int, star: Option<int>, m: int)
    requires
        scan_state_ok(p, t, pi, ti, star, m),
    ensures
        glob_scan(p, t, pi, ti, star, m) == scan_goal(p, t, pi, ti, star, m),
    decreases t.len() - m, t.len() - ti, p.len() - pi,
{
    if ti < t.len() {
        if pi < p.len() && p[pi] == '*' {
            lemma_scan_decides_goal(p, t, pi + 1, ti, Some(pi), ti);
            match star {
                None => {},
                Some(s) => {
                    let len = pi - (s + 1);
                    assert(star_free(p, s + 1, len));
                    // From the star at s: a match from m runs through the literals
                    // and reaches the new star at or after ti.
                    lemma_star_free_run(p, t, s + 1, m, len);
                    if wildcard_match_at(p, t, s, m) {
                        lemma_star_then_run(p, t, s, len, m, ti);
                    }
                    if wildcard_match_at(p, t, pi, ti) {
                        assert(wildcard_match_at(p, t, s + 1, m));
                    }
                },
            }
        } else if pi < p.len() && (p[pi] == '?' || p[pi] == t[ti]) {
            match star {
                None => {},
                Some(s) => {
                    assert forall|q: int| s + 1 <= q < pi + 1 implies #[trigger] p[q] != '*' && (p[q] == '?' || p[q] == t[m + (q - (s + 1))]) by {
                        if q == pi {
                            assert(m + (q - (s + 1)) == ti);
                        }
                    }
                    assert(literal_run(p, t, s + 1, m, pi + 1 - (s + 1)));
                },
            }
            lemma_scan_decides_goal(p, t, pi + 1, ti + 1, star, m);
        } else {
            // p[pi] cannot meet t[ti]: nothing matches from (pi, ti).
            assert(!wildcard_match_at(p, t, pi, ti));
            match star {
                None => {},
                Some(s) => {
                    let len = pi - (s + 1);
                    assert(star_free(p, s + 1, len));
                    lemma_star_free_run(p, t, s + 1, m, len);
                    assert(!wildcard_match_at(p, t, s + 1, m));
                    assert(wildcard_match_at(p, t, s, m) == wildcard_match_at(p, t, s, m + 1));
                    assert(literal_run(p, t, s + 1, m + 1, 0));
                    lemma_scan_decides_goal(p, t, s + 1, m + 1, star, m + 1);
                },
            }
        }
    } else {
        lemma_end_of_text(p, t, pi);
        match star {
            None => {},
            Some(s) => {
                let len = pi - (s + 1);
                assert(star_free(p, s + 1, len));
                lemma_star_free_run(p, t, s + 1, m, len);
                if wildcard_match_at(p, t, s, m) && !wildcard_match_at(p, t, s + 1, m) {
                    lemma_star_then_run_room(p, t, s, len, m + 1);
                }
            },
        }
    }
}

/// [`glob_match`]'s scan is anchored wildcard matching: `*` matches any
/// sequence of characters, `?` exactly one, and every other character itself.
proof fn lemma_glob_is_wildcard_match(p: Seq<char>, t: Seq<char>)
    ensures
        glob_scan(p, t, 0, 0, None, 0) == wildcard_match(p, t),
{
    lemma_scan_decides_goal(p, t, 0, 0, None, 0);
}

/// A small glob matcher supporting `*` (any sequence) and `?` (one character).
///
/// Matching is anchored at both ends.
pub fn glob_match(pattern: &str, text: &str) -> (r: bool)
    ensures
        r == wildcard_match(pattern@, text@),
{
    let pat = chars_of(pattern);
    let txt = chars_of(text);
    let ghost (pv, tv) = (pat@, txt@);
    let mut p: usize = 0;
    let mut t: usize = 0;
    let mut star: Option<usize> = None;
    let mut match_at: usize = 0;
    proof {
        lemma_glob_is_wildcard_match(pv, tv);
    }

    while t < txt.len()
        invariant
            pv == pat@ && pv == pattern@,
            tv == txt@ && tv == text@,
            glob_scan(pv, tv, 0, 0, None, 0) == wildcard_match(pv, tv),
            match_at <= t <= txt.len(),
            p <= pat.len(),
            star matches Some(s) ==> s < pat.len(),
            glob_scan(pv, tv, p as int, t as int, match star { Some(s) => Some(s as int), None => None }, match_at as int)
                == glob_scan(pv, tv, 0, 0, None, 0),
        decreases txt.len() - match_at, txt.len() - t, pat.len() - p,
    {
        if p < pat.len() && pat[p] == '*' {
            star = Some(p);
            match_at = t;
            p += 1;
        } else if p < pat.len() && (pat[p] == '?' || pat[p] == txt[t]) {
            p += 1;
            t += 1;
        } else if let Some(star_index) = star {
            p = star_index + 1;
            match_at += 1;
            t = match_at;
        } else {
            assert(!glob_scan(pv, tv, p as int, t as int, None, match_at as int));
            return false;
        }
    }
    while p < pat.len() && pat[p] == '*'
        invariant
            pv == pat@ && pv == pattern@,
            p <= pat.len(),
            only_stars_from(pv, p as int) == wildcard_match(pv, tv),
        decreases pat.len() - p,
    {
        p += 1;
    }
    p == pat.len()
}

impl Route {
    /// Create a route.
    pub fn new(pattern: &str, action: RouteAction) -> (r: Route)
        ensures
            r.pattern@ == pattern@,
            r.action == action,
    {
        Route { pattern: str_from(pattern), action }
    }

    /// Whether this route's pattern has a wildcard and is matched as a glob.
    pub open spec fn is_glob(&self) -> bool {
        self.pattern@.contains('*') || self.pattern@.contains('?')
    }

    /// What [`Route::matches`] decides for `url`.
    pub open spec fn spec_matches(&self, url: Seq<char>) -> bool {
        if self.is_glob() {
            wildcard_match(self.pattern@, url)
        } else {
            contains_subseq(url, self.pattern@)
        }
    }

    /// Whether this route matches `url`.
    pub fn matches(&self, url: &str) -> (r: bool)
        ensures
            r == self.spec_matches(url@),
    {
        let pattern = self.pattern.as_str();
        let pv = chars_of(pattern);
        if seq_contains(&pv, '*') || seq_contains(&pv, '?') {
            glob_match(pattern, url)
        } else {
            let uv = chars_of(url);
            crate::text::find_subseq(&uv, &pv).is_some()
        }
    }
}

/// The index of the first of `routes` whose pattern matches `url`.
pub open spec fn first_route(routes: Seq<Route>, url: Seq<char>) -> Option<int> {
    if exists|i: int| 0 <= i < routes.len() && routes[i].spec_matches(url) {
        Some(choose|i: int| 0 <= i < routes.len() && routes[i].spec_matches(url) && forall|k: int| 0 <= k < i ==> !routes[k].spec_matches(url))
    } else {
        None
    }
}

proof fn lemma_least_route(routes: Seq<Route>, url: Seq<char>, w: int)
    requires
        0 <= w < routes.len(),
        routes[w].spec_matches(url),
    ensures
        exists|i: int| 0 <= i < routes.len() && routes[i].spec_matches(url) && forall|k: int| 0 <= k < i ==> !routes[k].spec_matches(url),
    decreases w,
{
    if exists|k: int| 0 <= k < w && routes[k].spec_matches(url) {
        let k = choose|k: int| 0 <= k < w && routes[k].spec_matches(url);
        lemma_least_route(routes, url, k);
    }
}

/// What `first_route` gives: the first matching route, or none matches.
pub proof fn lemma_first_route(routes: Seq<Route>, url: Seq<char>)
    ensures
        match first_route(routes, url) {
            Some(i) => 0 <= i < routes.len() && routes[i].spec_matches(url) && forall|k: int| 0 <= k < i ==> !routes[k].spec_matches(url),
            None => forall|k: int| 0 <= k < routes.len() ==> !routes[k].spec_matches(url),
        },
{
    if exists|i: int| 0 <= i < routes.len() && routes[i].spec_matches(url) {
        let w = choose|i: int| 0 <= i < routes.len() && routes[i].spec_matches(url);
        lemma_least_route(routes, url, w);
    }
}

/// The index of the rule that decides a request for `url`: the first rule
/// whose pattern matches, or `None` when the request goes on unchanged.
pub fn first_matching_route(routes: &[Route], url: &str) -> (r: Option<usize>)
    ensures
        match r {
            Some(i) => i < routes@.len() && routes@[i as int].spec_matches(url@)
                && forall|k: int| 0 <= k < i ==> !routes@[k].spec_matches(url@),
            None => forall|k: int| 0 <= k < routes@.len() ==> !routes@[k].spec_matches(url@),
        },
        match r {
            Some(i) => first_route(routes@, url@) == Some(i as int),
            None => first_route(routes@, url@) is None,
        },
{
    proof {
        lemma_first_route(routes@, url@);
    }
    let mut i: usize = 0;
    while i < routes.len()
        invariant
            i <= routes@.len(),
            forall|k: int| 0 <= k < i ==> !routes@[k].spec_matches(url@),
        decreases routes@.len() - i,
    {
        if routes[i].matches(url) {
            proof {
                let w = first_route(routes@, url@)->0;
                if w < i {
                    assert(!routes@[w].spec_matches(url@));
                }
                if w > i {
                    assert(!routes@[i as int].spec_matches(url@));
                }
            }
            return Some(i);
        }
        i += 1;
    }
    None
}

/// Adding a rule never changes the decision for a URL that an earlier rule
/// already matches: the first matching rule keeps winning. A URL that no
/// earlier rule matches is decided by the new rule when it matches.
pub proof fn lemma_added_rule_keeps_decisions(routes: Seq<Route>, route: Route, url: Seq<char>)
    ensures
        first_route(routes, url) is Some ==> first_route(routes.push(route), url) == first_route(routes, url),
        first_route(routes, url) is None ==> first_route(routes.push(route), url) == (if route.spec_matches(url) {
            Some(routes.len() as int)
        } else {
            None::<int>
        }),
{
    let more = routes.push(route);
    lemma_first_route(routes, url);
    lemma_first_route(more, url);
    match first_route(routes, url) {
        Some(i) => {
            assert(more[i] == routes[i]);
            match first_route(more, url) {
                Some(j) => {
                    if j < i {
                        assert(more[j] == routes[j]);
                    }
                    if j > i {
                        assert(!more[i].spec_matches(url));
                    }
                },
                None => {
                    assert(!more[i].spec_matches(url));
                },
            }
        },
        None => {
            match first_route(more, url) {
                Some(j) => {
                    if j < routes.len() {
                        assert(more[j] == routes[j]);
                    }
                },
                None => {
                    assert(!more[routes.len() as int].spec_matches(url));
                },
            }
        },
    }
}

/// The interception rules of a page, in the order they were added.
#[derive(Debug)]
pub struct RouteTable {
    routes: Vec<Route>,
}

impl RouteTable {
    /// The rules, oldest first.
    pub closed spec fn rules(self) -> Seq<Route> {
        self.routes@
    }

    /// A table without rules.
    pub fn new() -> (r: RouteTable)
        ensures
            r.rules().len() == 0,
    {
        RouteTable { routes: Vec::new() }
    }

    /// Whether there is no rule.
    pub fn is_empty(&self) -> (r: bool)
        ensures
            r == (self.rules().len() == 0),
    {
        self.routes.len() == 0
    }

    /// Adds a rule after the others; `true` when it is the first rule, so
    /// that interception has to be switched on.
    pub fn add(&mut self, route: Route) -> (first: bool)
        ensures
            first == (old(self).rules().len() == 0),
            final(self).rules() == old(self).rules().push(route),
    {
        let first = self.routes.len() == 0;
        self.routes.push(route);
        first
    }

    /// Removes every rule; `true` when there was one, so that interception
    /// has to be switched off.
    pub fn clear(&mut self) -> (had: bool)
        ensures
            had == (old(self).rules().len() > 0),
            final(self).rules().len() == 0,
    {
        let had = self.routes.len() > 0;
        self.routes = Vec::new();
        had
    }

    /// The rules, oldest first.
    pub fn routes(&self) -> (r: &[Route])
        ensures
            r@ == self.rules(),
    {
        self.routes.as_slice()
    }

    /// The index of the rule that decides a request for `url` (see
    /// [`first_matching_route`]).
    pub fn decide(&self, url: &str) -> (r: Option<usize>)
        ensures
            match r {
                Some(i) => first_route(self.rules(), url@) == Some(i as int),
                None => first_route(self.rules(), url@) is None,
            },
    {
        first_matching_route(self.routes.as_slice(), url)
    }
}


}
