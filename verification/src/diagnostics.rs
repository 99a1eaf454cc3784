//! Observability records and timestamp formatting.
use vstd::prelude::*;

use crate::text::{append_chars, decimal, push_decimal, string_of};

verus! {

/// Year `y` of the proleptic Gregorian calendar is a leap year.
pub open spec fn is_leap_year(y: int) -> bool {
    y % 4 == 0 && (y % 100 != 0 || y % 400 == 0)
}

/// The number of days of month `m` (1 to 12) of year `y`.
pub open spec fn days_in_month(y: int, m: int) -> int {
    if m == 2 {
        if is_leap_year(y) {
            29
        } else {
            28
        }
    } else if m == 4 || m == 6 || m == 9 || m == 11 {
        30
    } else {
        31
    }
}

/// The year of the 400-year cycle on day `doe` of the cycle (the cycle
/// starts on 1 March of its first year).
pub open spec fn year_of_era(doe: int) -> int {
    (doe - doe / 1460 + doe / 36524 - doe / 146096) / 365
}

/// The day of that year (counted from 1 March).
pub open spec fn day_of_year(doe: int) -> int {
    let yoe = year_of_era(doe);
    doe - (365 * yoe + yoe / 4 - yoe / 100)
}

/// The month of the year counted from March (0 for March, 11 for February).
pub open spec fn shifted_month(doy: int) -> int {
    (5 * doy + 2) / 153
}

/// The civil month of a month counted from March.
pub open spec fn civil_month(mp: int) -> int {
    if mp < 10 {
        mp + 3
    } else {
        mp - 9
    }
}

/// Within a 400-year cycle, day `doe` falls in year `year_of_era(doe)`: at
/// most 365 days after the start of that year, and 365 days after only when
/// the year ends with a 29 February.
#[verifier::rlimit(100)]
proof fn lemma_year_of_era(doe: u32)
    by (bit_vector)
    requires
        doe < 146097,
    ensures
        ({
            let yoe = (doe - doe / 1460 + doe / 36524 - doe / 146096) / 365;
            let start = 365 * yoe + yoe / 4 - yoe / 100;
            let next = yoe + 1;
            &&& yoe <= 399
            &&& start <= doe
            &&& doe - start <= 365
            &&& doe - start == 365 ==> (next % 4 == 0 && (next % 100 != 0 || next % 400 == 0))
        }),
{
}

/// Within a year counted from 1 March, day `doy` falls in the month
/// `shifted_month(doy)` on a day of that month that exists; 29 February only
/// on the 366th day.
#[verifier::rlimit(100)]
proof fn lemma_month_of_year(doy: u32)
    by (bit_vector)
    requires
        doy <= 365,
    ensures
        ({
            let mp = (5 * doy + 2) / 153;
            let first = (153 * mp + 2) / 5;
            let m = if mp < 10 { mp + 3 } else { mp - 9 };
            &&& mp <= 11
            &&& first <= doy
            &&& m == 2 ==> doy - first <= 28 && (doy - first == 28 ==> doy == 365)
            &&& (m == 4 || m == 6 || m == 9 || m == 11) ==> doy - first <= 29
            &&& doy - first <= 30
        }),
{
}

/// The days from 1970-01-01 to the date `d`/`m`/`y` of the proleptic
/// Gregorian calendar (negative before it), counted in 400-year cycles of
/// 146097 days that start on 1 March.
pub open spec fn days_from_civil(y: int, m: int, d: int) -> int {
    let y2 = if m <= 2 {
        y - 1
    } else {
        y
    };
    let era = y2 / 400;
    let yoe = y2 - era * 400;
    let mp = if m > 2 {
        m - 3
    } else {
        m + 9
    };
    let doy = (153 * mp + 2) / 5 + d - 1;
    let doe = yoe * 365 + yoe / 4 - yoe / 100 + doy;
    era * 146097 + doe - 719468
}

/// The day of a 400-year cycle on which year `yoe` of the cycle has its day
/// `doy` lies in that year again.
#[verifier::rlimit(100)]
proof fn lemma_day_in_year(yoe: u32, doy: u32)
    by (bit_vector)
    requires
        yoe <= 399,
        doy <= 365,
        doy == 365 ==> yoe % 4 == 3 && (yoe % 100 != 99 || yoe == 399),
    ensures
        ({
            let doe = 365 * yoe + yoe / 4 - yoe / 100 + doy;
            &&& doe <= 146096
            &&& (doe - doe / 1460 + doe / 36524 - doe / 146096) / 365 == yoe
        }),
{
}

/// The day of the year (from 1 March) of day `d` of the month `mp` counted
/// from March lies in that month again.
#[verifier::rlimit(100)]
proof fn lemma_day_in_month(mp: u32, d: u32)
    by (bit_vector)
    requires
        mp <= 11,
        1 <= d,
        d <= 31,
        (mp == 1 || mp == 3 || mp == 6 || mp == 8) ==> d <= 30,
        mp == 11 ==> d <= 29,
    ensures
        ({
            let doy = (153 * mp + 2) / 5 + d - 1;
            &&& doy <= 365
            &&& (5 * doy + 2) / 153 == mp
            &&& (mp == 11 && d == 29) ==> doy == 365
        }),
{
}

/// A valid date: a month from 1 to 12 and a day that month has.
pub open spec fn valid_date(y: int, m: int, d: int) -> bool {
    1 <= m <= 12 && 1 <= d <= days_in_month(y, m)
}

/// The position of a valid date within its 400-year cycle.
proof fn lemma_date_parts(y: int, m: int, d: int)
    requires
        valid_date(y, m, d),
    ensures
        ({
            let y2 = if m <= 2 { y - 1 } else { y };
            let era = y2 / 400;
            let yoe = y2 - era * 400;
            let mp = if m > 2 { m - 3 } else { m + 9 };
            let doy = (153 * mp + 2) / 5 + d - 1;
            let doe = yoe * 365 + yoe / 4 - yoe / 100 + doy;
            &&& 0 <= yoe <= 399
            &&& 0 <= doe <= 146096
            &&& year_of_era(doe) == yoe
            &&& day_of_year(doe) == doy
            &&& shifted_month(doy) == mp
            &&& days_from_civil(y, m, d) == era * 146097 + doe - 719468
        }),
{
    let y2 = if m <= 2 { y - 1 } else { y };
    let era = y2 / 400;
    let yoe = y2 - era * 400;
    vstd::arithmetic::div_mod::lemma_fundamental_div_mod(y2, 400);
    let mp = if m > 2 { m - 3 } else { m + 9 };
    let doy = (153 * mp + 2) / 5 + d - 1;
    lemma_day_in_month(mp as u32, d as u32);
    lemma_leap_cycle(era, yoe + 1);
    assert(y == era * 400 + (if m <= 2 { yoe + 1 } else { yoe }));
    if doy == 365 {
        assert(m == 2 && d == 29);
        assert(is_leap_year(yoe + 1));
        assert(yoe % 4 == 3 && (yoe % 100 != 99 || yoe == 399));
    }
    lemma_day_in_year(yoe as u32, doy as u32);
}

/// Different valid dates are different days: a day count names at most one
/// valid date.
pub proof fn lemma_days_from_civil_injective(y1: int, m1: int, d1: int, y2: int, m2: int, d2: int)
    requires
        valid_date(y1, m1, d1),
        valid_date(y2, m2, d2),
        days_from_civil(y1, m1, d1) == days_from_civil(y2, m2, d2),
    ensures
        y1 == y2 && m1 == m2 && d1 == d2,
{
    lemma_date_parts(y1, m1, d1);
    lemma_date_parts(y2, m2, d2);
    let a1 = if m1 <= 2 { y1 - 1 } else { y1 };
    let a2 = if m2 <= 2 { y2 - 1 } else { y2 };
    let e1 = a1 / 400;
    let e2 = a2 / 400;
    let o1 = a1 - e1 * 400;
    let o2 = a2 - e2 * 400;
    let p1 = if m1 > 2 { m1 - 3 } else { m1 + 9 };
    let p2 = if m2 > 2 { m2 - 3 } else { m2 + 9 };
    let doe1 = o1 * 365 + o1 / 4 - o1 / 100 + ((153 * p1 + 2) / 5 + d1 - 1);
    let doe2 = o2 * 365 + o2 / 4 - o2 / 100 + ((153 * p2 + 2) / 5 + d2 - 1);
    assert(e1 * 146097 + doe1 == e2 * 146097 + doe2);
    vstd::arithmetic::div_mod::lemma_fundamental_div_mod_converse(e1 * 146097 + doe1, 146097, e1, doe1);
    vstd::arithmetic::div_mod::lemma_fundamental_div_mod_converse(e2 * 146097 + doe2, 146097, e2, doe2);
    assert(e1 == e2 && doe1 == doe2);
}

/// `(era * 400 + k)` is a leap year exactly when `k` is.
proof fn lemma_leap_cycle(era: int, k: int)
    ensures
        is_leap_year(era * 400 + k) == is_leap_year(k),
{
    vstd::arithmetic::div_mod::lemma_mod_multiples_vanish(era * 100, k, 4);
    vstd::arithmetic::div_mod::lemma_mod_multiples_vanish(era * 4, k, 100);
    vstd::arithmetic::div_mod::lemma_mod_multiples_vanish(era, k, 400);
    assert(4 * (era * 100) == era * 400) by (nonlinear_arith);
    assert(100 * (era * 4) == era * 400) by (nonlinear_arith);
    assert(400 * era == era * 400) by (nonlinear_arith);
}

/// Days since the Unix epoch to (year, month, day) of the proleptic
/// Gregorian calendar, after Howard Hinnant's `civil_from_days`.
pub fn civil_from_days(days: i64) -> (r: (i64, u32, u32))
    requires
        days <= i64::MAX - 719_468,
    ensures
        1 <= r.1 <= 12,
        1 <= r.2 <= days_in_month(r.0 as int, r.1 as int),
        days_from_civil(r.0 as int, r.1 as int, r.2 as int) == days,
{
    let z: i64 = days + 719_468;
    let era: i64 = if z >= 0 {
        z / 146_097
    } else {
        -((146_096 - z) / 146_097)
    };
    proof {
        let ze = z as int;
        if z >= 0 {
            assert(era == ze / 146097);
        } else {
            let q = (146096 - ze) / 146097;
            let r = (146096 - ze) % 146097;
            vstd::arithmetic::div_mod::lemma_fundamental_div_mod(146096 - ze, 146097);
            assert(0 <= r < 146097);
            assert(ze == (-q) * 146097 + (146096 - r)) by (nonlinear_arith)
                requires
                    146096 - ze == 146097 * q + r;
            vstd::arithmetic::div_mod::lemma_fundamental_div_mod_converse(ze, 146097, -q, 146096 - r);
        }
        vstd::arithmetic::div_mod::lemma_fundamental_div_mod(ze, 146097);
        assert(0 <= ze - (ze / 146097) * 146097 < 146097) by (nonlinear_arith)
            requires
                ze == 146097 * (ze / 146097) + ze % 146097,
                0 <= ze % 146097 < 146097;
    }
    let doe: i64 = z - era * 146_097;
    let doe32: u32 = doe as u32;
    proof {
        lemma_year_of_era(doe32);
    }
    let yoe: i64 = (doe - doe / 1460 + doe / 36_524 - doe / 146_096) / 365;
    let year: i64 = yoe + era * 400;
    let doy: i64 = doe - (365 * yoe + yoe / 4 - yoe / 100);
    let doy32: u32 = doy as u32;
    proof {
        lemma_month_of_year(doy32);
    }
    let mp: i64 = (5 * doy + 2) / 153;
    let day = (doy - (153 * mp + 2) / 5 + 1) as u32;
    let month = if mp < 10 {
        mp + 3
    } else {
        mp - 9
    } as u32;
    let full_year: i64 = if month <= 2 {
        year + 1
    } else {
        year
    };
    proof {
        let k = if month <= 2 { yoe + 1 } else { yoe as int };
        lemma_leap_cycle(era as int, k);
        assert(full_year == era * 400 + k);
        let y2 = if month <= 2 { full_year - 1 } else { full_year as int };
        assert(y2 == era * 400 + yoe);
        assert(y2 / 400 == era && y2 - (y2 / 400) * 400 == yoe) by {
            vstd::arithmetic::div_mod::lemma_fundamental_div_mod_converse(y2, 400, era as int, yoe as int);
        }
        assert(days_from_civil(full_year as int, month as int, day as int) == era * 146097 + doe - 719468);
    }
    (full_year, month, day)
}

// ---------------------------------------------------------------------------
// Timestamps
// ---------------------------------------------------------------------------

/// `k` zeros (none when `k` is not positive).
pub open spec fn zeros(k: int) -> Seq<char> {
    Seq::new(if k > 0 { k as nat } else { 0 }, |i: int| '0')
}

/// `n` in decimal, zero-padded to `width` characters as `{n:0width$}`
/// writes it: a minus sign first, then zeros, then the digits.
pub open spec fn zero_padded(n: int, width: int) -> Seq<char> {
    if n >= 0 {
        zeros(width - decimal(n as nat).len()) + decimal(n as nat)
    } else {
        seq!['-'] + zeros(width - 1 - decimal((-n) as nat).len()) + decimal((-n) as nat)
    }
}

/// Appends `n`, zero-padded to `width` characters, to `v`.
pub fn push_zero_padded(v: &mut Vec<char>, n: i64, width: usize)
    ensures
        final(v)@ == old(v)@ + zero_padded(n as int, width as int),
{
    let magnitude: u64 = if n < 0 {
        (-(n + 1)) as u64 + 1
    } else {
        n as u64
    };
    let mut digits: Vec<char> = Vec::new();
    push_decimal(&mut digits, magnitude);
    assert(digits@ =~= decimal(magnitude as nat));
    let ghost start = v@;
    let mut pad: usize = if n < 0 {
        v.push('-');
        if width > 0 && width - 1 > digits.len() {
            width - 1 - digits.len()
        } else {
            0
        }
    } else if width > digits.len() {
        width - digits.len()
    } else {
        0
    };
    let ghost head = v@;
    let ghost total = pad;
    let mut i: usize = 0;
    while i < pad
        invariant
            i <= pad,
            v@ == head + zeros(i as int),
        decreases pad - i,
    {
        v.push('0');
        assert(head + zeros(i + 1) =~= (head + zeros(i as int)).push('0'));
        i += 1;
    }
    append_chars(v, &digits);
    proof {
        if n < 0 {
            assert(magnitude == -n);
            assert(head == start + seq!['-']);
            assert(zeros(pad as int) =~= zeros(width - 1 - decimal(magnitude as nat).len()));
            assert(v@ =~= start + zero_padded(n as int, width as int));
        } else {
            assert(zeros(pad as int) =~= zeros(width - decimal(magnitude as nat).len()));
            assert(v@ =~= start + zero_padded(n as int, width as int));
        }
    }
}

/// The ISO 8601 UTC text of `seconds` whole seconds and `millis`
/// milliseconds after the Unix epoch:
/// `YYYY-MM-DDTHH:MM:SS.mmmZ`.
pub open spec fn iso8601_spec(year: int, month: int, day: int, seconds: int, millis: int) -> Seq<char> {
    let rem = seconds % 86400;
    zero_padded(year, 4) + seq!['-'] + zero_padded(month, 2) + seq!['-'] + zero_padded(day, 2) + seq!['T']
        + zero_padded(rem / 3600, 2) + seq![':'] + zero_padded((rem % 3600) / 60, 2) + seq![':']
        + zero_padded(rem % 60, 2) + seq!['.'] + zero_padded(millis, 3) + seq!['Z']
}

/// Format `seconds` and `millis` since the epoch as an ISO 8601 UTC
/// timestamp: the date is the one `seconds / 86400` days after 1970-01-01
/// (see [`civil_from_days`]), the time what is left over.
pub fn iso8601_utc(seconds: i64, millis: i64) -> (r: String)
    ensures
        exists|y: int, m: int, d: int|
            1 <= m <= 12 && 1 <= d <= days_in_month(y, m) && days_from_civil(y, m, d) == seconds / 86400
                && r@ == iso8601_spec(y, m, d, seconds as int, millis as int),
{
    let days: i64 = if seconds >= 0 {
        seconds / 86_400
    } else {
        let before = (-(seconds + 1)) as u64;
        -((before / 86_400) as i64) - 1
    };
    proof {
        let s = seconds as int;
        if seconds < 0 {
            let a = -s - 1;
            let q = a / 86400;
            let r = a % 86400;
            vstd::arithmetic::div_mod::lemma_fundamental_div_mod(a, 86400);
            assert(s == (-q - 1) * 86400 + (86399 - r)) by (nonlinear_arith)
                requires
                    a == 86400 * q + r,
                    a == -s - 1;
            vstd::arithmetic::div_mod::lemma_fundamental_div_mod_converse(s, 86400, -q - 1, 86399 - r);
        }
        vstd::arithmetic::div_mod::lemma_fundamental_div_mod(s, 86400);
    }
    let remainder: i64 = if seconds >= 0 {
        seconds % 86_400
    } else {
        let before = (-(seconds + 1)) as u64;
        86_399 - ((before % 86_400) as i64)
    };
    let (year, month, day) = civil_from_days(days);
    let mut v: Vec<char> = Vec::new();
    push_zero_padded(&mut v, year, 4);
    v.push('-');
    push_zero_padded(&mut v, month as i64, 2);
    v.push('-');
    push_zero_padded(&mut v, day as i64, 2);
    v.push('T');
    push_zero_padded(&mut v, remainder / 3600, 2);
    v.push(':');
    push_zero_padded(&mut v, (remainder % 3600) / 60, 2);
    v.push(':');
    push_zero_padded(&mut v, remainder % 60, 2);
    v.push('.');
    push_zero_padded(&mut v, millis, 3);
    v.push('Z');
    proof {
        assert(remainder == seconds % 86400);
        assert(v@ =~= iso8601_spec(year as int, month as int, day as int, seconds as int, millis as int));
    }
    string_of(&v)
}

// ---------------------------------------------------------------------------
// Records
// ---------------------------------------------------------------------------

/// A committed main-frame navigation.
#[derive(Debug)]
pub struct NavigationEvent {
    /// The URL that was navigated to.
    pub url: String,
    /// The frame id.
    pub frame_id: String,
    /// The loader id of the committed document.
    pub loader_id: Option<String>,
    /// The document MIME type.
    pub mime_type: String,
}

/// A JavaScript dialog (alert/confirm/prompt/beforeunload) observed on a page.
#[derive(Debug)]
pub struct DialogInfo {
    /// The dialog type.
    pub dialog_type: String,
    /// The dialog message.
    pub message: String,
    /// Default prompt text, if any.
    pub default_prompt: Option<String>,
}

/// A serialized `localStorage` item.
#[derive(Debug)]
pub struct StorageItem {
    /// Item name.
    pub name: String,
    /// Item value.
    pub value: String,
}

/// `localStorage` for a single origin.
#[derive(Debug)]
pub struct OriginStorage {
    /// The origin, e.g. `https://example.com`.
    pub origin: String,
    /// The stored items.
    pub local_storage: Vec<StorageItem>,
}

/// A snapshot of how the browser was launched and what it is running.
#[derive(Debug)]
pub struct BrowserDiagnostics {
    /// The browser product and version string.
    pub product: String,
    /// The CDP protocol version.
    pub protocol_version: String,
    /// The browser user agent.
    pub user_agent: String,
    /// Path to the browser executable, if the library launched it.
    pub executable: Option<String>,
    /// Launch flags used, if the library launched the browser.
    pub launch_args: Vec<String>,
    /// The user data directory in use.
    pub user_data_dir: Option<String>,
    /// The DevTools HTTP endpoint.
    pub endpoint: Option<String>,
    /// The OS process id, if the library launched the browser.
    pub pid: Option<u32>,
    /// Whether the profile is temporary.
    pub ephemeral_profile: bool,
    /// Path to the captured browser log, if any.
    pub browser_log: Option<String>,
}


/// What the library knows of a browser process it launched.
#[derive(Debug)]
pub struct LaunchRecord {
    /// The browser executable.
    pub executable: String,
    /// The flags the browser was launched with.
    pub launch_args: Vec<String>,
    /// The user data directory.
    pub user_data_dir: String,
    /// The DevTools HTTP endpoint.
    pub endpoint: crate::http::HttpEndpoint,
    /// The OS process id.
    pub pid: u32,
    /// Whether the profile is temporary.
    pub ephemeral: bool,
    /// The captured browser log, if any.
    pub stderr_log: Option<String>,
}

/// A snapshot of how the browser was launched and what it is running: the
/// product, protocol and user agent from its version, and what the library
/// knows of the process when it launched it (nothing, an empty flag list
/// and a persistent profile otherwise).
pub fn browser_diagnostics(
    version: &crate::protocol::version::BrowserVersion,
    launched: Option<&LaunchRecord>,
) -> (r: BrowserDiagnostics)
    ensures
        r.product == version.browser,
        r.protocol_version == version.protocol_version,
        r.user_agent == version.user_agent,
        match launched {
            Some(l) => {
                &&& r.executable == Some(l.executable)
                &&& crate::chrome::strings_view(r.launch_args@) == crate::chrome::strings_view(l.launch_args@)
                &&& r.user_data_dir == Some(l.user_data_dir)
                &&& (r.endpoint matches Some(e) && e@ == crate::http::base_url_spec(l.endpoint.host@, l.endpoint.port))
                &&& r.pid == Some(l.pid)
                &&& r.ephemeral_profile == l.ephemeral
                &&& r.browser_log == l.stderr_log
            },
            None => {
                &&& r.executable is None
                &&& r.launch_args@.len() == 0
                &&& r.user_data_dir is None
                &&& r.endpoint is None
                &&& r.pid is None
                &&& !r.ephemeral_profile
                &&& r.browser_log is None
            },
        },
{
    match launched {
        Some(l) => {
            let mut args: Vec<String> = Vec::new();
            let mut i: usize = 0;
            while i < l.launch_args.len()
                invariant
                    i <= l.launch_args@.len(),
                    crate::chrome::strings_view(args@) == crate::chrome::strings_view(l.launch_args@.take(i as int)),
                decreases l.launch_args@.len() - i,
            {
                crate::chrome::push_string(&mut args, l.launch_args[i].clone());
                assert(crate::chrome::strings_view(l.launch_args@.take(i + 1)) =~= crate::chrome::strings_view(
                    l.launch_args@.take(i as int),
                ).push(l.launch_args@[i as int]@));
                i += 1;
            }
            assert(l.launch_args@.take(l.launch_args@.len() as int) =~= l.launch_args@);
            BrowserDiagnostics {
                product: version.browser.clone(),
                protocol_version: version.protocol_version.clone(),
                user_agent: version.user_agent.clone(),
                executable: Some(l.executable.clone()),
                launch_args: args,
                user_data_dir: Some(l.user_data_dir.clone()),
                endpoint: Some(l.endpoint.base_url()),
                pid: Some(l.pid),
                ephemeral_profile: l.ephemeral,
                browser_log: match &l.stderr_log {
                    Some(p) => Some(p.clone()),
                    None => None,
                },
            }
        },
        None => BrowserDiagnostics {
            product: version.browser.clone(),
            protocol_version: version.protocol_version.clone(),
            user_agent: version.user_agent.clone(),
            executable: None,
            launch_args: Vec::new(),
            user_data_dir: None,
            endpoint: None,
            pid: None,
            ephemeral_profile: false,
            browser_log: None,
        },
    }
}

/// The version of a browser as `Browser.getVersion` reports it over the
/// browser-level WebSocket `ws_url`: the product, protocol, user agent and
/// JavaScript engine version, no WebKit version, and `ws_url` itself.
pub fn browser_version_from(
    result: crate::protocol::target::GetVersionResult,
    ws_url: &str,
) -> (r: crate::protocol::version::BrowserVersion)
    ensures
        r.browser == result.product,
        r.protocol_version == result.protocol_version,
        r.user_agent == result.user_agent,
        r.v8_version == result.js_version,
        r.webkit_version@.len() == 0,
        r.web_socket_debugger_url@ == ws_url@,
{
    crate::protocol::version::BrowserVersion {
        browser: result.product,
        protocol_version: result.protocol_version,
        user_agent: result.user_agent,
        v8_version: result.js_version,
        webkit_version: String::new(),
        web_socket_debugger_url: ws_url.to_owned(),
    }
}

}
