//! WebDriver BiDi: endpoints, keys, network monitoring, cookies and
//! browsing contexts.
use vstd::prelude::*;

use crate::chrome::opt_view;
use crate::http::{strip_prefixes, strip_prefixes_from, strip_trailing, strip_trailing_from};
use crate::json::{
    as_array, as_bool, as_i64, as_int, as_str, as_string, field, get, items_view, lemma_items_view, opt_json_view,
    str_or_empty, Json, JsonSpec,
};
use crate::text::{append_chars, append_str, chars_are, chars_of, has_prefix, slice_of, starts_with_at, str_from, string_of};

verus! {

/// The WebSocket URL of a BiDi endpoint: a `ws://` or `wss://` URL as it is,
/// otherwise `ws://{host:port}/session` from an HTTP endpoint without its
/// `http://` / `https://` prefixes and trailing slashes.
pub open spec fn bidi_ws_url_spec(endpoint: Seq<char>) -> Seq<char> {
    if has_prefix(endpoint, "ws://"@) || has_prefix(endpoint, "wss://"@) {
        endpoint
    } else {
        "ws://"@ + strip_trailing(strip_prefixes(strip_prefixes(endpoint, "http://"@), "https://"@), '/')
            + "/session"@
    }
}

/// The WebSocket URL to open for the BiDi endpoint `endpoint`.
pub fn bidi_ws_url(endpoint: &str) -> (r: String)
    ensures
        r@ == bidi_ws_url_spec(endpoint@),
{
    let v = chars_of(endpoint);
    let ws = chars_of("ws://");
    let wss = chars_of("wss://");
    assert(v@.subrange(0, v@.len() as int) =~= v@);
    if starts_with_at(&v, &ws, 0, v.len()) || starts_with_at(&v, &wss, 0, v.len()) {
        return str_from(endpoint);
    }
    let http = chars_of("http://");
    let https = chars_of("https://");
    let a = strip_prefixes_from(&v, 0, v.len(), &http);
    let b = strip_prefixes_from(&v, a, v.len(), &https);
    let e = strip_trailing_from(&v, b, v.len(), '/');
    let mut out = chars_of("ws://");
    let core = slice_of(&v, b, e);
    append_chars(&mut out, &core);
    append_str(&mut out, "/session");
    string_of(&out)
}

/// The BiDi key value for a friendly key name: special keys map to their
/// code points in the Unicode private use area, `Space` to a space, and any
/// other key is sent as it is.
pub open spec fn key_value_spec(key: Seq<char>) -> Seq<char> {
    if key == "Enter"@ || key == "\n"@ {
        seq!['\u{E007}']
    } else if key == "Tab"@ {
        seq!['\u{E004}']
    } else if key == "Escape"@ || key == "Esc"@ {
        seq!['\u{E00C}']
    } else if key == "Backspace"@ {
        seq!['\u{E003}']
    } else if key == "Delete"@ {
        seq!['\u{E017}']
    } else if key == "ArrowUp"@ || key == "Up"@ {
        seq!['\u{E013}']
    } else if key == "ArrowDown"@ || key == "Down"@ {
        seq!['\u{E015}']
    } else if key == "ArrowLeft"@ || key == "Left"@ {
        seq!['\u{E012}']
    } else if key == "ArrowRight"@ || key == "Right"@ {
        seq!['\u{E014}']
    } else if key == " "@ || key == "Space"@ {
        seq![' ']
    } else {
        key
    }
}

/// A string of the one character `c`.
fn one_char(c: char) -> (r: String)
    ensures
        r@ == seq![c],
{
    let v: Vec<char> = vec![c];
    assert(v@ =~= seq![c]);
    string_of(&v)
}

/// Map a friendly key name to the BiDi key value (a character or a Unicode
/// private use code point for special keys).
pub fn key_value(key: &str) -> (r: String)
    ensures
        r@ == key_value_spec(key@),
{
    let k = chars_of(key);
    if chars_are(&k, "Enter") || chars_are(&k, "\n") {
        one_char('\u{E007}')
    } else if chars_are(&k, "Tab") {
        one_char('\u{E004}')
    } else if chars_are(&k, "Escape") || chars_are(&k, "Esc") {
        one_char('\u{E00C}')
    } else if chars_are(&k, "Backspace") {
        one_char('\u{E003}')
    } else if chars_are(&k, "Delete") {
        one_char('\u{E017}')
    } else if chars_are(&k, "ArrowUp") || chars_are(&k, "Up") {
        one_char('\u{E013}')
    } else if chars_are(&k, "ArrowDown") || chars_are(&k, "Down") {
        one_char('\u{E015}')
    } else if chars_are(&k, "ArrowLeft") || chars_are(&k, "Left") {
        one_char('\u{E012}')
    } else if chars_are(&k, "ArrowRight") || chars_are(&k, "Right") {
        one_char('\u{E014}')
    } else if chars_are(&k, " ") || chars_are(&k, "Space") {
        one_char(' ')
    } else {
        str_from(key)
    }
}


/// A keyboard action: `{"type": kind, "value": value}`.
pub open spec fn key_action_spec(kind: Seq<char>, value: Seq<char>) -> JsonSpec {
    JsonSpec::Object(seq![("type"@, JsonSpec::Str(kind)), ("value"@, JsonSpec::Str(value))])
}

/// Pressing and releasing the key `value`.
pub open spec fn key_stroke_spec(value: Seq<char>) -> Seq<JsonSpec> {
    seq![key_action_spec("keyDown"@, value), key_action_spec("keyUp"@, value)]
}

/// The `actions` parameter of `input.performActions` for one keyboard
/// input source performing `actions`.
pub open spec fn keyboard_spec(actions: Seq<JsonSpec>) -> JsonSpec {
    JsonSpec::Array(
        seq![
            JsonSpec::Object(
                seq![
                    ("type"@, JsonSpec::Str("key"@)),
                    ("id"@, JsonSpec::Str("rustwright-keyboard"@)),
                    ("actions"@, JsonSpec::Array(actions)),
                ],
            ),
        ],
    )
}

/// A key stroke for each character of `text`, in order.
pub open spec fn typing_spec(text: Seq<char>) -> Seq<JsonSpec>
    decreases text.len(),
{
    if text.len() == 0 {
        seq![]
    } else {
        typing_spec(text.drop_last()) + key_stroke_spec(seq![text.last()])
    }
}

fn key_action(kind: &str, value: &String) -> (r: Json)
    ensures
        r@ == key_action_spec(kind@, value@),
{
    let mut entries: Vec<(String, Json)> = Vec::new();
    entries.push((str_from("type"), Json::String(str_from(kind))));
    entries.push((str_from("value"), Json::String(value.clone())));
    proof {
        crate::json::lemma_entries_view(entries@);
        assert(crate::json::entries_view(entries@) =~= seq![("type"@, JsonSpec::Str(kind@)), ("value"@, JsonSpec::Str(value@))]);
    }
    Json::Object(entries)
}

fn push_key_stroke(actions: &mut Vec<Json>, value: &String)
    ensures
        items_view(final(actions)@) == items_view(old(actions)@) + key_stroke_spec(value@),
{
    let ghost before = items_view(actions@);
    proof {
        lemma_items_view(actions@);
    }
    actions.push(key_action("keyDown", value));
    actions.push(key_action("keyUp", value));
    proof {
        lemma_items_view(actions@);
        assert(items_view(actions@) =~= before + key_stroke_spec(value@));
    }
}

fn keyboard_source(actions: Vec<Json>) -> (r: Json)
    ensures
        r@ == keyboard_spec(items_view(actions@)),
{
    let ghost acts = items_view(actions@);
    let mut entries: Vec<(String, Json)> = Vec::new();
    entries.push((str_from("type"), Json::String(str_from("key"))));
    entries.push((str_from("id"), Json::String(str_from("rustwright-keyboard"))));
    entries.push((str_from("actions"), Json::Array(actions)));
    proof {
        crate::json::lemma_entries_view(entries@);
        assert(crate::json::entries_view(entries@) =~= seq![
            ("type"@, JsonSpec::Str("key"@)),
            ("id"@, JsonSpec::Str("rustwright-keyboard"@)),
            ("actions"@, JsonSpec::Array(acts)),
        ]);
    }
    let source = Json::Object(entries);
    let ghost sv = source@;
    let mut sources: Vec<Json> = Vec::new();
    sources.push(source);
    proof {
        lemma_items_view(sources@);
        assert(items_view(sources@) =~= seq![sv]);
    }
    Json::Array(sources)
}

/// The `actions` parameter that presses and releases the key named `key`
/// (see [`key_value_spec`]).
pub fn press_key_actions(key: &str) -> (r: Json)
    ensures
        r@ == keyboard_spec(key_stroke_spec(key_value_spec(key@))),
{
    let value = key_value(key);
    let mut actions: Vec<Json> = Vec::new();
    assert(items_view(actions@) =~= Seq::<JsonSpec>::empty());
    push_key_stroke(&mut actions, &value);
    assert(Seq::<JsonSpec>::empty() + key_stroke_spec(value@) =~= key_stroke_spec(value@));
    keyboard_source(actions)
}

/// The `actions` parameter that types `text` one character at a time, or
/// nothing to send when `text` is empty.
pub fn typing_actions(text: &str) -> (r: Option<Json>)
    ensures
        match r {
            Some(j) => text@.len() > 0 && j@ == keyboard_spec(typing_spec(text@)),
            None => text@.len() == 0,
        },
{
    let chars = chars_of(text);
    let mut actions: Vec<Json> = Vec::new();
    let mut i: usize = 0;
    while i < chars.len()
        invariant
            i <= chars@.len(),
            chars@ == text@,
            items_view(actions@) == typing_spec(chars@.take(i as int)),
        decreases chars@.len() - i,
    {
        let one: Vec<char> = vec![chars[i]];
        let value = string_of(&one);
        assert(one@ =~= seq![chars@[i as int]]);
        push_key_stroke(&mut actions, &value);
        proof {
            let pre = chars@.take(i + 1);
            assert(pre.drop_last() =~= chars@.take(i as int));
            assert(pre.last() == chars@[i as int]);
        }
        i += 1;
    }
    assert(chars@.take(chars@.len() as int) =~= chars@);
    if chars.len() == 0 {
        return None;
    }
    Some(keyboard_source(actions))
}

/// The first frame whose URL holds `src`, when `src` is not empty: the
/// frame an `<iframe>` with that `src` shows.
pub fn frame_for_src(urls: &[String], src: &str) -> (r: Option<usize>)
    ensures
        match r {
            Some(i) => src@.len() > 0 && i < urls@.len() && crate::text::contains_subseq(urls@[i as int]@, src@)
                && forall|k: int| 0 <= k < i ==> !crate::text::contains_subseq(#[trigger] urls@[k]@, src@),
            None => src@.len() == 0 || forall|k: int|
                0 <= k < urls@.len() ==> !crate::text::contains_subseq(#[trigger] urls@[k]@, src@),
        },
{
    let needle = chars_of(src);
    if needle.len() == 0 {
        return None;
    }
    let mut i: usize = 0;
    while i < urls.len()
        invariant
            i <= urls@.len(),
            needle@ == src@,
            src@.len() > 0,
            forall|k: int| 0 <= k < i ==> !crate::text::contains_subseq(#[trigger] urls@[k]@, src@),
        decreases urls@.len() - i,
    {
        let hay = chars_of(urls[i].as_str());
        if let Some(at) = crate::text::find_subseq(&hay, &needle) {
            assert(hay@ == urls@[i as int]@);
            assert(crate::text::occurs_at(urls@[i as int]@, src@, at as int));
            return Some(i);
        }
        i += 1;
    }
    None
}

// ---------------------------------------------------------------------------
// Network monitoring
// ---------------------------------------------------------------------------

/// A network request observed over BiDi.
#[derive(Debug)]
pub struct BidiNetworkRequest {
    /// The BiDi request id.
    pub request_id: String,
    /// Request URL.
    pub url: String,
    /// HTTP method.
    pub method: String,
    /// Response status once known.
    pub status: Option<i64>,
    /// Response status text once known.
    pub status_text: Option<String>,
    /// Response MIME type once known.
    pub mime_type: Option<String>,
    /// Failure text if the request failed.
    pub failure: Option<String>,
}

/// The model of a [`BidiNetworkRequest`].
pub ghost struct RequestRecord {
    pub id: Seq<char>,
    pub url: Seq<char>,
    pub method: Seq<char>,
    pub status: Option<i64>,
    pub status_text: Option<Seq<char>>,
    pub mime_type: Option<Seq<char>>,
    pub failure: Option<Seq<char>>,
}

impl View for BidiNetworkRequest {
    type V = RequestRecord;

    open spec fn view(&self) -> RequestRecord {
        RequestRecord {
            id: self.request_id@,
            url: self.url@,
            method: self.method@,
            status: self.status,
            status_text: opt_view(self.status_text),
            mime_type: opt_view(self.mime_type),
            failure: opt_view(self.failure),
        }
    }
}

/// The request part of a BiDi network event (`network.RequestData`).
#[derive(Debug)]
pub struct BidiRequest {
    /// The request id.
    pub request: String,
    /// Request URL.
    pub url: String,
    /// HTTP method.
    pub method: String,
}

/// The response part of a BiDi network event (`network.ResponseData`).
#[derive(Debug)]
pub struct BidiResponse {
    /// HTTP status.
    pub status: i64,
    /// HTTP status text.
    pub status_text: String,
    /// Response MIME type.
    pub mime_type: String,
}

/// The BiDi network events that monitoring follows.
#[derive(Debug, Clone, Copy)]
pub enum NetworkEventKind {
    /// `network.beforeRequestSent`
    BeforeRequestSent,
    /// `network.responseCompleted`
    ResponseCompleted,
    /// `network.fetchError`
    FetchError,
}

/// A BiDi network event of a browsing context.
#[derive(Debug)]
pub enum NetworkEvent {
    /// A request is about to be sent.
    BeforeRequestSent { context: String, request: BidiRequest },
    /// A response arrived in full.
    ResponseCompleted { context: String, request: BidiRequest, response: BidiResponse },
    /// A request failed.
    FetchError { context: String, request: BidiRequest, error_text: String },
}

/// The kind of network event a BiDi event method names.
pub open spec fn network_event_kind_spec(method: Seq<char>) -> Option<NetworkEventKind> {
    if method == "network.beforeRequestSent"@ {
        Some(NetworkEventKind::BeforeRequestSent)
    } else if method == "network.responseCompleted"@ {
        Some(NetworkEventKind::ResponseCompleted)
    } else if method == "network.fetchError"@ {
        Some(NetworkEventKind::FetchError)
    } else {
        None
    }
}

/// The BiDi method of each network event kind.
pub open spec fn network_event_method(kind: NetworkEventKind) -> Seq<char> {
    match kind {
        NetworkEventKind::BeforeRequestSent => "network.beforeRequestSent"@,
        NetworkEventKind::ResponseCompleted => "network.responseCompleted"@,
        NetworkEventKind::FetchError => "network.fetchError"@,
    }
}

/// Each network event monitoring follows is recognised by its own BiDi
/// method and by no other.
pub proof fn lemma_network_events_by_method(method: Seq<char>, kind: NetworkEventKind)
    ensures
        network_event_kind_spec(method) == Some(kind) <==> method == network_event_method(kind),
{
    reveal_strlit("network.beforeRequestSent");
    reveal_strlit("network.responseCompleted");
    reveal_strlit("network.fetchError");
    if method == network_event_method(kind) {
        match kind {
            NetworkEventKind::BeforeRequestSent => {

            },
            NetworkEventKind::ResponseCompleted => {
                assert("network.responseCompleted"@[8] != "network.beforeRequestSent"@[8]);
            },
            NetworkEventKind::FetchError => {
                assert("network.fetchError"@.len() != "network.beforeRequestSent"@.len());
                assert("network.fetchError"@.len() != "network.responseCompleted"@.len());
            },
        }
    }
}

/// The kind of network event a BiDi event method names, if monitoring
/// follows it.
pub fn network_event_kind(method: &str) -> (r: Option<NetworkEventKind>)
    ensures
        r == network_event_kind_spec(method@),
{
    let m = chars_of(method);
    if chars_are(&m, "network.beforeRequestSent") {
        Some(NetworkEventKind::BeforeRequestSent)
    } else if chars_are(&m, "network.responseCompleted") {
        Some(NetworkEventKind::ResponseCompleted)
    } else if chars_are(&m, "network.fetchError") {
        Some(NetworkEventKind::FetchError)
    } else {
        None
    }
}

/// The record of a request just sent: its id, URL and method, nothing else
/// known yet.
pub open spec fn new_record(request: BidiRequest) -> RequestRecord {
    RequestRecord {
        id: request.request@,
        url: request.url@,
        method: request.method@,
        status: None,
        status_text: None,
        mime_type: None,
        failure: None,
    }
}

/// The position of the first record of `log` with request id `id`.
pub open spec fn request_index(log: Seq<RequestRecord>, id: Seq<char>) -> Option<int> {
    if exists|i: int| 0 <= i < log.len() && log[i].id == id {
        Some(choose|i: int| 0 <= i < log.len() && log[i].id == id && forall|k: int| 0 <= k < i ==> log[k].id != id)
    } else {
        None
    }
}

proof fn lemma_least_request(log: Seq<RequestRecord>, id: Seq<char>, w: int)
    requires
        0 <= w < log.len(),
        log[w].id == id,
    ensures
        exists|i: int| 0 <= i < log.len() && log[i].id == id && forall|k: int| 0 <= k < i ==> log[k].id != id,
    decreases w,
{
    if exists|k: int| 0 <= k < w && log[k].id == id {
        let k = choose|k: int| 0 <= k < w && log[k].id == id;
        lemma_least_request(log, id, k);
    }
}

/// What `request_index` gives.
pub proof fn lemma_request_index(log: Seq<RequestRecord>, id: Seq<char>)
    ensures
        match request_index(log, id) {
            Some(i) => 0 <= i < log.len() && log[i].id == id && forall|k: int| 0 <= k < i ==> log[k].id != id,
            None => forall|k: int| 0 <= k < log.len() ==> log[k].id != id,
        },
{
    if exists|i: int| 0 <= i < log.len() && log[i].id == id {
        let w = choose|i: int| 0 <= i < log.len() && log[i].id == id;
        lemma_least_request(log, id, w);
    }
}

/// The records of `requests`.
pub open spec fn records(requests: Seq<BidiNetworkRequest>) -> Seq<RequestRecord> {
    requests.map_values(|r: BidiNetworkRequest| r@)
}

/// The request log after `event` from the browsing context `context`: a
/// request sent from the context is added unless its id is empty or already
/// logged; a completed response or a failure of the context is noted on the
/// first logged request with its id; anything else leaves the log as it is.
pub open spec fn dispatch_spec(log: Seq<RequestRecord>, context: Seq<char>, event: NetworkEvent) -> Seq<RequestRecord> {
    match event {
        NetworkEvent::BeforeRequestSent { context: c, request } => {
            if c@ != context || request.request@.len() == 0 || request_index(log, request.request@) is Some {
                log
            } else {
                log.push(new_record(request))
            }
        },
        NetworkEvent::ResponseCompleted { context: c, request, response } => {
            if c@ != context {
                log
            } else {
                match request_index(log, request.request@) {
                    Some(i) => log.update(
                        i,
                        RequestRecord {
                            status: Some(response.status),
                            status_text: Some(response.status_text@),
                            mime_type: Some(response.mime_type@),
                            ..log[i]
                        },
                    ),
                    None => log,
                }
            }
        },
        NetworkEvent::FetchError { context: c, request, error_text } => {
            if c@ != context {
                log
            } else {
                match request_index(log, request.request@) {
                    Some(i) => log.update(i, RequestRecord { failure: Some(error_text@), ..log[i] }),
                    None => log,
                }
            }
        },
    }
}

/// No two records share a request id.
pub open spec fn ids_unique(log: Seq<RequestRecord>) -> bool {
    forall|i: int, j: int| 0 <= i < j < log.len() ==> log[i].id != log[j].id
}

/// Every record has a request id.
pub open spec fn ids_present(log: Seq<RequestRecord>) -> bool {
    forall|i: int| 0 <= i < log.len() ==> log[i].id.len() > 0
}

/// Network events never log a request twice, nor one without an id: both
/// hold of the log after any event if they held before it.
pub proof fn lemma_dispatch_keeps_ids(log: Seq<RequestRecord>, context: Seq<char>, event: NetworkEvent)
    requires
        ids_unique(log),
        ids_present(log),
    ensures
        ids_unique(dispatch_spec(log, context, event)),
        ids_present(dispatch_spec(log, context, event)),
{
    lemma_request_index(log, event_request_id(event));
    let next = dispatch_spec(log, context, event);
    assert forall|i: int, j: int| 0 <= i < j < next.len() implies next[i].id != next[j].id by {
        if j == log.len() {
            assert(log[i].id == next[i].id);
        } else {
            assert(next[i].id == log[i].id && next[j].id == log[j].id);
        }
    }
    assert forall|i: int| 0 <= i < next.len() implies next[i].id.len() > 0 by {
        if i < log.len() {
            assert(next[i].id == log[i].id);
        }
    }
}

/// The request id an event is about.
pub open spec fn event_request_id(event: NetworkEvent) -> Seq<char> {
    match event {
        NetworkEvent::BeforeRequestSent { request, .. } => request.request@,
        NetworkEvent::ResponseCompleted { request, .. } => request.request@,
        NetworkEvent::FetchError { request, .. } => request.request@,
    }
}

fn clone_opt(o: &Option<String>) -> (r: Option<String>)
    ensures
        r == *o,
{
    match o {
        Some(s) => Some(s.clone()),
        None => None,
    }
}

impl BidiNetworkRequest {
    /// The record of a request just sent (see [`new_record`]).
    pub fn from_request(request: &BidiRequest) -> (r: BidiNetworkRequest)
        ensures
            r@ == new_record(*request),
    {
        BidiNetworkRequest {
            request_id: request.request.clone(),
            url: request.url.clone(),
            method: request.method.clone(),
            status: None,
            status_text: None,
            mime_type: None,
            failure: None,
        }
    }
}

/// The position of the first request logged with id `id`.
#[verifier::spinoff_prover]
fn find_request(requests: &Vec<BidiNetworkRequest>, id: &String) -> (r: Option<usize>)
    ensures
        match r {
            Some(i) => i < requests@.len() && request_index(records(requests@), id@) == Some(i as int),
            None => request_index(records(requests@), id@) is None,
        },
{
    let ghost log = records(requests@);
    proof {
        lemma_request_index(log, id@);
    }
    let mut i: usize = 0;
    while i < requests.len()
        invariant
            i <= requests@.len(),
            log == records(requests@),
            forall|k: int| 0 <= k < i ==> log[k].id != id@,
        decreases requests@.len() - i,
    {
        if requests[i].request_id == *id {
            proof {
                let w = request_index(log, id@)->0;
                if w < i {
                    assert(log[w].id != id@);
                }
                if w > i {
                    assert(log[i as int].id == id@);
                }
            }
            return Some(i);
        }
        i += 1;
    }
    None
}

/// Applies a network event of the browsing context `context` to the request
/// log `requests` (see [`dispatch_spec`]).
pub fn dispatch(requests: &mut Vec<BidiNetworkRequest>, context: &str, event: &NetworkEvent)
    ensures
        records(final(requests)@) == dispatch_spec(records(old(requests)@), context@, *event),
{
    let ghost before = records(requests@);
    let ctx = str_from(context);
    match event {
        NetworkEvent::BeforeRequestSent { context: c, request } => {
            if *c != ctx || request.request.as_str().is_empty() {
                return;
            }
            if find_request(requests, &request.request).is_some() {
                return;
            }
            requests.push(BidiNetworkRequest::from_request(request));
            assert(records(requests@) =~= before.push(new_record(*request)));
        },
        NetworkEvent::ResponseCompleted { context: c, request, response } => {
            if *c != ctx {
                return;
            }
            if let Some(i) = find_request(requests, &request.request) {
                let old_entry = &requests[i];
                let updated = BidiNetworkRequest {
                    request_id: old_entry.request_id.clone(),
                    url: old_entry.url.clone(),
                    method: old_entry.method.clone(),
                    status: Some(response.status),
                    status_text: Some(response.status_text.clone()),
                    mime_type: Some(response.mime_type.clone()),
                    failure: clone_opt(&old_entry.failure),
                };
                requests.set(i, updated);
                assert(records(requests@) =~= dispatch_spec(before, context@, *event));
            }
        },
        NetworkEvent::FetchError { context: c, request, error_text } => {
            if *c != ctx {
                return;
            }
            if let Some(i) = find_request(requests, &request.request) {
                let old_entry = &requests[i];
                let updated = BidiNetworkRequest {
                    request_id: old_entry.request_id.clone(),
                    url: old_entry.url.clone(),
                    method: old_entry.method.clone(),
                    status: old_entry.status,
                    status_text: clone_opt(&old_entry.status_text),
                    mime_type: clone_opt(&old_entry.mime_type),
                    failure: Some(error_text.clone()),
                };
                requests.set(i, updated);
                assert(records(requests@) =~= dispatch_spec(before, context@, *event));
            }
        },
    }
}


// ---------------------------------------------------------------------------
// Errors
// ---------------------------------------------------------------------------

/// Errors produced by the WebDriver BiDi client.
#[derive(Debug)]
pub enum BidiError {
    /// The browser process could not be launched.
    Browser(crate::browser_error::BrowserError),
    /// The WebSocket transport failed.
    WebSocket(tokio_tungstenite::tungstenite::Error),
    /// The remote end returned a BiDi error.
    Protocol {
        /// The command that failed.
        method: String,
        /// The BiDi error code.
        error: String,
        /// The human-readable message.
        message: String,
    },
    /// The connection closed before a response arrived.
    Closed,
    /// A message could not be (de)serialized.
    Json(serde_json::Error),
    /// An I/O error occurred.
    Io(std::io::Error),
    /// A command did not receive a response in time.
    Timeout {
        /// The command that timed out.
        method: String,
        /// The configured timeout.
        timeout: std::time::Duration,
    },
    /// A response was missing an expected field.
    Unexpected(String),
    /// No element matched a locator.
    ElementNotFound(String),
    /// A wait exceeded its deadline.
    WaitTimeout(String),
}

// ---------------------------------------------------------------------------
// Cookies and storage
// ---------------------------------------------------------------------------

/// A cookie reported by BiDi `storage.getCookies`.
#[derive(Debug)]
pub struct BidiCookie {
    /// Cookie name.
    pub name: String,
    /// Cookie value.
    pub value: String,
    /// Cookie domain.
    pub domain: String,
    /// Cookie path.
    pub path: String,
    /// Whether the cookie is HTTP-only.
    pub http_only: bool,
    /// Whether the cookie is secure.
    pub secure: bool,
    /// SameSite policy.
    pub same_site: Option<String>,
    /// Expiry as seconds since the epoch.
    pub expiry: Option<i64>,
}

/// A serialized `localStorage` item.
#[derive(Debug)]
pub struct BidiStorageItem {
    /// Item name.
    pub name: String,
    /// Item value.
    pub value: String,
}

/// `localStorage` for a single origin.
#[derive(Debug)]
pub struct BidiOriginStorage {
    /// The origin, e.g. `https://example.com`.
    pub origin: String,
    /// The stored items.
    pub local_storage: Vec<BidiStorageItem>,
}

/// A portable snapshot of cookies and local storage (BiDi flavour).
#[derive(Debug)]
pub struct BidiStorageState {
    /// Cookies visible to the page.
    pub cookies: Vec<BidiCookie>,
    /// Per-origin local storage.
    pub origins: Vec<BidiOriginStorage>,
}

/// The local-storage items of every stored origin that is `origin`, in
/// order: what restoring a snapshot writes into a page showing `origin`.
pub open spec fn items_for_origin(origins: Seq<BidiOriginStorage>, origin: Seq<char>) -> Seq<(Seq<char>, Seq<char>)>
    decreases origins.len(),
{
    if origins.len() == 0 {
        seq![]
    } else {
        let last = origins.last();
        let rest = items_for_origin(origins.drop_last(), origin);
        if last.origin@ == origin {
            rest + last.local_storage@.map_values(|i: BidiStorageItem| (i.name@, i.value@))
        } else {
            rest
        }
    }
}

/// The (name, value) pairs to restore into a page showing `origin` (see
/// [`items_for_origin`]).
pub fn restore_items(state: &BidiStorageState, origin: &str) -> (r: Vec<(String, String)>)
    ensures
        crate::chrome::pairs_view(r@) == items_for_origin(state.origins@, origin@),
{
    let mut out: Vec<(String, String)> = Vec::new();
    let mut i: usize = 0;
    while i < state.origins.len()
        invariant
            i <= state.origins@.len(),
            crate::chrome::pairs_view(out@) == items_for_origin(state.origins@.take(i as int), origin@),
        decreases state.origins@.len() - i,
    {
        let stored = &state.origins[i];
        let ghost prev = crate::chrome::pairs_view(out@);
        let ghost items = stored.local_storage@.map_values(|it: BidiStorageItem| (it.name@, it.value@));
        let stored_chars = chars_of(stored.origin.as_str());
        let origin_chars = chars_of(origin);
        let same = crate::text::chars_eq(&stored_chars, &origin_chars);
        proof {
            let pre = state.origins@.take(i + 1);
            assert(pre.drop_last() =~= state.origins@.take(i as int));
            assert(pre.last() == state.origins@[i as int]);
            assert(same == (stored.origin@ == origin@));
            assert(items_for_origin(pre, origin@) == if same {
                prev + items
            } else {
                prev
            });
        }
        if same {
            let ghost start = crate::chrome::pairs_view(out@);
            let mut k: usize = 0;
            while k < stored.local_storage.len()
                invariant
                    k <= stored.local_storage@.len(),
                    crate::chrome::pairs_view(out@) == start + stored.local_storage@.take(k as int).map_values(
                        |it: BidiStorageItem| (it.name@, it.value@),
                    ),
                decreases stored.local_storage@.len() - k,
            {
                let item = &stored.local_storage[k];
                let ghost before = out@;
                out.push((item.name.clone(), item.value.clone()));
                assert(crate::chrome::pairs_view(out@) =~= crate::chrome::pairs_view(before).push((item.name@, item.value@)));
                assert(stored.local_storage@.take(k + 1).map_values(|it: BidiStorageItem| (it.name@, it.value@))
                    =~= stored.local_storage@.take(k as int).map_values(|it: BidiStorageItem| (it.name@, it.value@)).push(
                    (item.name@, item.value@),
                ));
                k += 1;
            }
            assert(stored.local_storage@.take(stored.local_storage@.len() as int) =~= stored.local_storage@);
            assert(crate::chrome::pairs_view(out@) == prev + items);
        }
        i += 1;
    }
    assert(state.origins@.take(state.origins@.len() as int) =~= state.origins@);
    out
}

impl BidiStorageState {
    /// A snapshot with no cookies and no storage.
    pub fn empty() -> (r: BidiStorageState)
        ensures
            r.cookies@.len() == 0,
            r.origins@.len() == 0,
    {
        BidiStorageState { cookies: Vec::new(), origins: Vec::new() }
    }
}

/// The text of the string field `key` of `value`, or the empty text.
pub open spec fn string_field_spec(value: JsonSpec, key: Seq<char>) -> Seq<char> {
    str_or_empty(field(value, key))
}

/// The text of the string field `key` of `value`, or the empty string.
pub fn string_field(value: &Json, key: &str) -> (r: String)
    ensures
        r@ == string_field_spec(value@, key@),
{
    match as_string(get(value, key)) {
        Some(s) => s,
        None => String::new(),
    }
}

/// The text of a BiDi `BytesValue` (`{type, value}`): its string `value`, or
/// the empty text.
pub open spec fn bytes_value_spec(value: Option<JsonSpec>) -> Seq<char> {
    match value {
        Some(v) => str_or_empty(field(v, "value"@)),
        None => seq![],
    }
}

/// Extract a string from a BiDi `BytesValue` (`{type, value}`).
pub fn bytes_value_string(value: Option<&Json>) -> (r: String)
    ensures
        r@ == bytes_value_spec(opt_json_view(value)),
{
    match value {
        Some(v) => string_field(v, "value"),
        None => String::new(),
    }
}

/// `cookie` is what `storage.getCookies` reported as `j`: text fields that
/// are missing or not strings are empty, flags missing or not booleans are
/// off, and `sameSite` and `expiry` are there only as a string and an `i64`.
pub open spec fn cookie_from_spec(cookie: BidiCookie, j: JsonSpec) -> bool {
    &&& cookie.name@ == string_field_spec(j, "name"@)
    &&& cookie.value@ == bytes_value_spec(field(j, "value"@))
    &&& cookie.domain@ == string_field_spec(j, "domain"@)
    &&& cookie.path@ == string_field_spec(j, "path"@)
    &&& cookie.http_only == (as_bool(field(j, "httpOnly"@)) == Some(true))
    &&& cookie.secure == (as_bool(field(j, "secure"@)) == Some(true))
    &&& opt_view(cookie.same_site) == as_str(field(j, "sameSite"@))
    &&& cookie.expiry == as_int(field(j, "expiry"@))
}

/// `Value::as_bool`, or `false`.
fn bool_or_false(value: Option<&Json>) -> (r: bool)
    ensures
        r == (as_bool(opt_json_view(value)) == Some(true)),
{
    match value {
        Some(Json::Bool(b)) => *b,
        _ => false,
    }
}

/// `Value::as_i64`.
fn int_of(value: Option<&Json>) -> (r: Option<i64>)
    ensures
        r == as_int(opt_json_view(value)),
{
    match value {
        Some(Json::Number(n)) => as_i64(*n),
        _ => None,
    }
}

/// The cookie `storage.getCookies` reports as `cookie`.
pub fn cookie_from_json(cookie: &Json) -> (r: BidiCookie)
    ensures
        cookie_from_spec(r, cookie@),
{
    BidiCookie {
        name: string_field(cookie, "name"),
        value: bytes_value_string(get(cookie, "value")),
        domain: string_field(cookie, "domain"),
        path: string_field(cookie, "path"),
        http_only: bool_or_false(get(cookie, "httpOnly")),
        secure: bool_or_false(get(cookie, "secure")),
        same_site: as_string(get(cookie, "sameSite")),
        expiry: int_of(get(cookie, "expiry")),
    }
}

/// The cookies of a `storage.getCookies` result: one for each item of its
/// `cookies` array, in order (none when there is no such array).
pub fn cookies_from_result(result: &Json) -> (r: Vec<BidiCookie>)
    ensures
        match as_array(field(result@, "cookies"@)) {
            Some(items) => r@.len() == items.len() && forall|i: int| 0 <= i < items.len() ==> #[trigger] cookie_from_spec(r@[i], items[i]),
            None => r@.len() == 0,
        },
{
    let mut out: Vec<BidiCookie> = Vec::new();
    match get(result, "cookies") {
        Some(Json::Array(items)) => {
            proof {
                lemma_items_view(items@);
            }
            let mut i: usize = 0;
            while i < items.len()
                invariant
                    i <= items@.len(),
                    out@.len() == i,
                    items_view(items@).len() == items@.len(),
                    forall|k: int| 0 <= k < items@.len() ==> #[trigger] items_view(items@)[k] == items@[k]@,
                    forall|k: int| 0 <= k < i ==> #[trigger] cookie_from_spec(out@[k], items_view(items@)[k]),
                decreases items@.len() - i,
            {
                let c = cookie_from_json(&items[i]);
                out.push(c);
                proof {
                    assert(items_view(items@)[i as int] == items@[i as int]@);
                }
                i += 1;
            }
            out
        },
        _ => out,
    }
}

/// The capability `browserVersion` of a BiDi session, when it is a string.
pub fn browser_version(capabilities: &Json) -> (r: Option<String>)
    ensures
        opt_view(r) == as_str(field(capabilities@, "browserVersion"@)),
{
    as_string(get(capabilities, "browserVersion"))
}

// ---------------------------------------------------------------------------
// Browsing contexts
// ---------------------------------------------------------------------------

/// Information about a browsing context (tab or frame).
#[derive(Debug)]
pub struct BrowsingContextInfo {
    /// The context id.
    pub context: String,
    /// The current URL.
    pub url: String,
    /// The parent context, for frames.
    pub parent: Option<String>,
    /// The user context (isolated profile) this context belongs to.
    pub user_context: Option<String>,
    /// Child contexts, for frames.
    pub children: Option<Vec<BrowsingContextInfo>>,
}

/// The descendants of `info`, depth first: each child's context and URL,
/// followed by its own descendants.
pub open spec fn frames_spec(info: BrowsingContextInfo) -> Seq<(Seq<char>, Seq<char>)>
    decreases info,
{
    match info.children {
        Some(children) => frames_of(children@),
        None => seq![],
    }
}

/// The frames of each of `children`, in order (see [`frames_spec`]).
pub open spec fn frames_of(children: Seq<BrowsingContextInfo>) -> Seq<(Seq<char>, Seq<char>)>
    decreases children,
{
    if children.len() == 0 {
        seq![]
    } else {
        let last = children.last();
        frames_of(children.drop_last()) + seq![(last.context@, last.url@)] + frames_spec(last)
    }
}

/// Appends the descendants of `info` (see [`frames_spec`]) to `out`.
pub fn collect_frames(info: &BrowsingContextInfo, out: &mut Vec<(String, String)>)
    ensures
        crate::chrome::pairs_view(final(out)@) == crate::chrome::pairs_view(old(out)@) + frames_spec(*info),
    decreases info,
{
    let ghost start = crate::chrome::pairs_view(out@);
    match &info.children {
        Some(children) => {
            let mut i: usize = 0;
            assert(children@.subrange(0, 0) =~= Seq::<BrowsingContextInfo>::empty());
            assert(start + frames_of(Seq::<BrowsingContextInfo>::empty()) =~= start);
            while i < children.len()
                invariant
                    i <= children@.len(),
                    info.children == Some(*children),
                    crate::chrome::pairs_view(out@) == start + frames_of(children@.subrange(0, i as int)),
                decreases children@.len() - i,
            {
                proof {
                    let kids = info.children;
                    assert(decreases_to!(*info => kids));
                    assert(decreases_to!(kids => kids->0));
                    assert(decreases_to!(kids->0 => kids->0@));
                    assert(decreases_to!(kids->0@ => children@[i as int]));
                    assert(decreases_to!(*info => children@[i as int]));
                }
                let child = &children[i];
                let ghost before = crate::chrome::pairs_view(out@);
                out.push((child.context.clone(), child.url.clone()));
                assert(crate::chrome::pairs_view(out@) =~= before + seq![(child.context@, child.url@)]);
                collect_frames(child, out);
                proof {
                    let pre = children@.subrange(0, i + 1);
                    assert(pre.drop_last() =~= children@.subrange(0, i as int));
                    assert(pre.last() == *child);
                    assert(crate::chrome::pairs_view(out@) =~= start + frames_of(pre));
                }
                i += 1;
            }
            assert(children@.subrange(0, children@.len() as int) =~= children@);
        },
        None => {
            assert(crate::chrome::pairs_view(out@) =~= start + frames_spec(*info));
        },
    }
}

/// The `contexts` of a `browsingContext.getTree` result, or the error
/// reported when it has none.
pub fn tree_contexts(result: &Json) -> (r: Result<&Json, BidiError>)
    ensures
        match field(result@, "contexts"@) {
            Some(c) => r matches Ok(v) && v@ == c,
            None => r matches Err(BidiError::Unexpected(m)) && m@ == "getTree missing contexts"@,
        },
{
    match get(result, "contexts") {
        Some(c) => Ok(c),
        None => Err(BidiError::Unexpected(str_from("getTree missing contexts"))),
    }
}


/// The PNG bytes of a `browsingContext.captureScreenshot` result's base64
/// `data`, or [`BidiError::Unexpected`] `invalid screenshot data: ...` with
/// the decoder's message.
pub fn decode_screenshot(data: &str) -> (r: Result<Vec<u8>, BidiError>)
    ensures
        match r {
            Ok(b) => crate::encoding::base64_spec(b@) == data@,
            Err(e) => (forall|b: Seq<u8>| crate::encoding::base64_spec(b) != data@) && (e matches BidiError::Unexpected(m)
                && m@ == "invalid screenshot data: "@ + crate::encoding::spec_base64_error(data@)),
        },
{
    match crate::encoding::base64_decode(data) {
        Ok(bytes) => Ok(bytes),
        Err(message) => {
            let mut v: Vec<char> = Vec::new();
            append_str(&mut v, "invalid screenshot data: ");
            append_str(&mut v, message.as_str());
            Err(BidiError::Unexpected(string_of(&v)))
        },
    }
}


/// Whether a browsing context is a tab (a top-level context) of the user
/// context `user_context`.
pub fn is_tab_of(info: &BrowsingContextInfo, user_context: &str) -> (r: bool)
    ensures
        r == (info.parent is None && (info.user_context matches Some(u) && u@ == user_context@)),
{
    if info.parent.is_some() {
        return false;
    }
    match &info.user_context {
        Some(u) => {
            let a = chars_of(u.as_str());
            let b = chars_of(user_context);
            crate::text::chars_eq(&a, &b)
        },
        None => false,
    }
}

}
