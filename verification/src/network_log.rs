//! The requests a page observed over the CDP `Network` domain.
//!
//! Times are carried as the bit patterns of the `f64` seconds the browser
//! reported: the log stores them and hands them back, and never computes
//! with them.
use vstd::prelude::*;

use crate::chrome::opt_view;
use crate::json::{clone_json, entries_view, Json, JsonSpec};
use crate::protocol::network::{LoadingFailedParams, RequestWillBeSentParams, Response, ResponseReceivedParams};

verus! {

/// A network request observed by a page.
#[derive(Debug)]
pub struct NetworkRequest {
    /// CDP request id.
    pub request_id: String,
    /// Request URL.
    pub url: String,
    /// HTTP method.
    pub method: String,
    /// Resource type (`Document`, `Script`, ...).
    pub resource_type: String,
    /// Request headers.
    pub request_headers: Vec<(String, Json)>,
    /// Response headers once known.
    pub response_headers: Vec<(String, Json)>,
    /// Response status once known.
    pub status: Option<i64>,
    /// Response status text once known.
    pub status_text: Option<String>,
    /// Response MIME type once known.
    pub mime_type: Option<String>,
    /// Failure text if the request failed.
    pub failure: Option<String>,
    /// Wall-clock start time (seconds since the epoch), as `f64` bits.
    pub wall_time: Option<u64>,
    /// Monotonic start timestamp (seconds), as `f64` bits.
    pub started: Option<u64>,
    /// Monotonic timestamp when the response headers arrived, as `f64` bits.
    pub responded: Option<u64>,
    /// Monotonic timestamp when the request finished, as `f64` bits.
    pub finished: Option<u64>,
}

/// The model of a [`NetworkRequest`].
pub ghost struct RequestEntry {
    pub id: Seq<char>,
    pub url: Seq<char>,
    pub method: Seq<char>,
    pub resource_type: Seq<char>,
    pub request_headers: Seq<(Seq<char>, JsonSpec)>,
    pub response_headers: Seq<(Seq<char>, JsonSpec)>,
    pub status: Option<i64>,
    pub status_text: Option<Seq<char>>,
    pub mime_type: Option<Seq<char>>,
    pub failure: Option<Seq<char>>,
    pub wall_time: Option<u64>,
    pub started: Option<u64>,
    pub responded: Option<u64>,
    pub finished: Option<u64>,
}

impl View for NetworkRequest {
    type V = RequestEntry;

    open spec fn view(&self) -> RequestEntry {
        RequestEntry {
            id: self.request_id@,
            url: self.url@,
            method: self.method@,
            resource_type: self.resource_type@,
            request_headers: entries_view(self.request_headers@),
            response_headers: entries_view(self.response_headers@),
            status: self.status,
            status_text: opt_view(self.status_text),
            mime_type: opt_view(self.mime_type),
            failure: opt_view(self.failure),
            wall_time: self.wall_time,
            started: self.started,
            responded: self.responded,
            finished: self.finished,
        }
    }
}

/// The entry of a request just sent: its id, URL, method, headers and
/// times; no resource type, response or failure yet.
pub open spec fn sent_entry(p: RequestWillBeSentParams) -> RequestEntry {
    RequestEntry {
        id: p.request_id@,
        url: p.request.url@,
        method: p.request.method@,
        resource_type: Seq::empty(),
        request_headers: entries_view(p.request.headers@),
        response_headers: Seq::empty(),
        status: None,
        status_text: None,
        mime_type: None,
        failure: None,
        wall_time: Some(p.wall_time),
        started: Some(p.timestamp),
        responded: None,
        finished: None,
    }
}

/// `e` once `response` arrived at `timestamp`.
pub open spec fn with_response(e: RequestEntry, response: Response, timestamp: u64) -> RequestEntry {
    RequestEntry {
        status: Some(response.status),
        status_text: Some(response.status_text@),
        mime_type: Some(response.mime_type@),
        response_headers: entries_view(response.headers@),
        responded: Some(timestamp),
        ..e
    }
}

fn clone_opt(o: &Option<String>) -> (r: Option<String>)
    ensures
        r == *o,
{
    match o {
        Some(s) => Some(s.clone()),
        None => None,
    }
}

/// A copy of a header list.
fn clone_entries(entries: &Vec<(String, Json)>) -> (r: Vec<(String, Json)>)
    ensures
        entries_view(r@) == entries_view(entries@),
{
    let mut out: Vec<(String, Json)> = Vec::new();
    let mut i: usize = 0;
    while i < entries.len()
        invariant
            i <= entries@.len(),
            entries_view(out@) == entries_view(entries@.subrange(0, i as int)),
        decreases entries@.len() - i,
    {
        let ghost before = out@;
        out.push((entries[i].0.clone(), clone_json(&entries[i].1)));
        proof {
            assert(out@.drop_last() =~= before);
            assert(entries@.subrange(0, i + 1).drop_last() =~= entries@.subrange(0, i as int));
        }
        i += 1;
    }
    assert(entries@.subrange(0, entries@.len() as int) =~= entries@);
    out
}

impl NetworkRequest {
    /// The entry of a request just sent (see [`sent_entry`]).
    pub fn from_request(params: &RequestWillBeSentParams) -> (r: NetworkRequest)
        ensures
            r@ == sent_entry(*params),
    {
        let r = NetworkRequest {
            request_id: params.request_id.clone(),
            url: params.request.url.clone(),
            method: params.request.method.clone(),
            resource_type: String::new(),
            request_headers: clone_entries(&params.request.headers),
            response_headers: Vec::new(),
            status: None,
            status_text: None,
            mime_type: None,
            failure: None,
            wall_time: Some(params.wall_time),
            started: Some(params.timestamp),
            responded: None,
            finished: None,
        };
        assert(r@.response_headers =~= Seq::<(Seq<char>, JsonSpec)>::empty());
        assert(r@ =~= sent_entry(*params));
        r
    }

    /// Notes the response that arrived at `timestamp` (see [`with_response`]).
    pub fn apply_response(&mut self, response: &Response, timestamp: u64)
        ensures
            final(self)@ == with_response(old(self)@, *response, timestamp),
    {
        self.status = Some(response.status);
        self.status_text = Some(response.status_text.clone());
        self.mime_type = Some(response.mime_type.clone());
        self.response_headers = clone_entries(&response.headers);
        self.responded = Some(timestamp);
    }

    /// Notes that the request finished at `timestamp`.
    pub fn finish(&mut self, timestamp: u64)
        ensures
            final(self)@ == (RequestEntry { finished: Some(timestamp), ..old(self)@ }),
    {
        self.finished = Some(timestamp);
    }
}

/// A `Network` event that the request log follows.
#[derive(Debug)]
pub enum NetworkEvent {
    /// `Network.requestWillBeSent`
    RequestWillBeSent(RequestWillBeSentParams),
    /// `Network.responseReceived`
    ResponseReceived(ResponseReceivedParams),
    /// `Network.loadingFailed`
    LoadingFailed(LoadingFailedParams),
}

/// The position of the first entry of `log` with request id `id`.
pub open spec fn log_index(log: Seq<RequestEntry>, id: Seq<char>) -> Option<int> {
    if exists|i: int| 0 <= i < log.len() && log[i].id == id {
        Some(choose|i: int| 0 <= i < log.len() && log[i].id == id && forall|k: int| 0 <= k < i ==> log[k].id != id)
    } else {
        None
    }
}

proof fn lemma_least_index(log: Seq<RequestEntry>, id: Seq<char>, w: int)
    requires
        0 <= w < log.len(),
        log[w].id == id,
    ensures
        exists|i: int| 0 <= i < log.len() && log[i].id == id && forall|k: int| 0 <= k < i ==> log[k].id != id,
    decreases w,
{
    if exists|k: int| 0 <= k < w && log[k].id == id {
        let k = choose|k: int| 0 <= k < w && log[k].id == id;
        lemma_least_index(log, id, k);
    }
}

/// What `log_index` gives.
pub proof fn lemma_log_index(log: Seq<RequestEntry>, id: Seq<char>)
    ensures
        match log_index(log, id) {
            Some(i) => 0 <= i < log.len() && log[i].id == id && forall|k: int| 0 <= k < i ==> log[k].id != id,
            None => forall|k: int| 0 <= k < log.len() ==> log[k].id != id,
        },
{
    if exists|i: int| 0 <= i < log.len() && log[i].id == id {
        let w = choose|i: int| 0 <= i < log.len() && log[i].id == id;
        lemma_least_index(log, id, w);
    }
}

/// The models of the entries of `requests`.
pub open spec fn entries_of(requests: Seq<NetworkRequest>) -> Seq<RequestEntry> {
    requests.map_values(|r: NetworkRequest| r@)
}

/// The request id an event is about.
pub open spec fn event_id(event: NetworkEvent) -> Seq<char> {
    match event {
        NetworkEvent::RequestWillBeSent(p) => p.request_id@,
        NetworkEvent::ResponseReceived(p) => p.request_id@,
        NetworkEvent::LoadingFailed(p) => p.request_id@,
    }
}

/// The log after `event`: a request sent replaces the first entry with its
/// id (a redirect) or is added; a response is noted, with its resource
/// type, on the first entry with its id; a failure is noted there too; an
/// event about a request not logged leaves the log as it is.
pub open spec fn record_spec(log: Seq<RequestEntry>, event: NetworkEvent) -> Seq<RequestEntry> {
    match event {
        NetworkEvent::RequestWillBeSent(p) => match log_index(log, p.request_id@) {
            Some(i) => log.update(i, sent_entry(p)),
            None => log.push(sent_entry(p)),
        },
        NetworkEvent::ResponseReceived(p) => match log_index(log, p.request_id@) {
            Some(i) => log.update(
                i,
                RequestEntry { resource_type: p.resource_type@, ..with_response(log[i], p.response, p.timestamp) },
            ),
            None => log,
        },
        NetworkEvent::LoadingFailed(p) => match log_index(log, p.request_id@) {
            Some(i) => log.update(i, RequestEntry { failure: Some(p.error_text@), ..log[i] }),
            None => log,
        },
    }
}

/// No two entries share a request id.
pub open spec fn log_ids_unique(log: Seq<RequestEntry>) -> bool {
    forall|i: int, j: int| 0 <= i < j < log.len() ==> log[i].id != log[j].id
}

/// The log never holds a request twice: if no id was logged twice before an
/// event, none is after it; and an event leaves every other request's entry
/// as it was.
pub proof fn lemma_record_keeps_ids(log: Seq<RequestEntry>, event: NetworkEvent)
    requires
        log_ids_unique(log),
    ensures
        log_ids_unique(record_spec(log, event)),
        forall|k: int|
            0 <= k < log.len() && log[k].id != event_id(event) ==> #[trigger] record_spec(log, event)[k] == log[k],
{
    lemma_log_index(log, event_id(event));
    let next = record_spec(log, event);
    assert forall|i: int, j: int| 0 <= i < j < next.len() implies next[i].id != next[j].id by {
        if j == log.len() {
            assert(log[i].id == next[i].id);
        } else {
            assert(next[i].id == log[i].id && next[j].id == log[j].id);
        }
    }
}

/// The position of the first request logged with id `id`.
fn find_entry(requests: &Vec<NetworkRequest>, id: &String) -> (r: Option<usize>)
    ensures
        match r {
            Some(i) => i < requests@.len() && log_index(entries_of(requests@), id@) == Some(i as int),
            None => log_index(entries_of(requests@), id@) is None,
        },
{
    let ghost log = entries_of(requests@);
    proof {
        lemma_log_index(log, id@);
    }
    let mut i: usize = 0;
    while i < requests.len()
        invariant
            i <= requests@.len(),
            log == entries_of(requests@),
            forall|k: int| 0 <= k < i ==> log[k].id != id@,
        decreases requests@.len() - i,
    {
        if requests[i].request_id == *id {
            proof {
                let w = log_index(log, id@)->0;
                if w < i {
                    assert(log[w].id != id@);
                }
                if w > i {
                    assert(log[i as int].id == id@);
                }
            }
            return Some(i);
        }
        i += 1;
    }
    None
}

/// Applies a `Network` event to the request log (see [`record_spec`]).
pub fn record_network_event(requests: &mut Vec<NetworkRequest>, event: &NetworkEvent)
    ensures
        entries_of(final(requests)@) == record_spec(entries_of(old(requests)@), *event),
{
    let ghost before = entries_of(requests@);
    match event {
        NetworkEvent::RequestWillBeSent(p) => {
            let entry = NetworkRequest::from_request(p);
            match find_entry(requests, &p.request_id) {
                Some(i) => {
                    requests.set(i, entry);
                    assert(entries_of(requests@) =~= before.update(i as int, sent_entry(*p)));
                },
                None => {
                    requests.push(entry);
                    assert(entries_of(requests@) =~= before.push(sent_entry(*p)));
                },
            }
        },
        NetworkEvent::ResponseReceived(p) => {
            if let Some(i) = find_entry(requests, &p.request_id) {
                let mut updated = take_entry(requests, i);
                let ghost taken = updated@;
                assert(taken == before[i as int]);
                updated.apply_response(&p.response, p.timestamp);
                updated.resource_type = p.resource_type.clone();
                requests.set(i, updated);
                assert(entries_of(requests@) =~= record_spec(before, *event));
            }
        },
        NetworkEvent::LoadingFailed(p) => {
            if let Some(i) = find_entry(requests, &p.request_id) {
                let mut updated = take_entry(requests, i);
                assert(updated@ == before[i as int]);
                updated.failure = Some(p.error_text.clone());
                requests.set(i, updated);
                assert(entries_of(requests@) =~= record_spec(before, *event));
            }
        },
    }
}

/// A copy of the entry at `i`.
fn take_entry(requests: &Vec<NetworkRequest>, i: usize) -> (r: NetworkRequest)
    requires
        i < requests@.len(),
    ensures
        r@ == requests@[i as int]@,
{
    let e = &requests[i];
    NetworkRequest {
        request_id: e.request_id.clone(),
        url: e.url.clone(),
        method: e.method.clone(),
        resource_type: e.resource_type.clone(),
        request_headers: clone_entries(&e.request_headers),
        response_headers: clone_entries(&e.response_headers),
        status: e.status,
        status_text: clone_opt(&e.status_text),
        mime_type: clone_opt(&e.mime_type),
        failure: clone_opt(&e.failure),
        wall_time: e.wall_time,
        started: e.started,
        responded: e.responded,
        finished: e.finished,
    }
}

} // verus!
