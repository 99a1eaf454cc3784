//! HAR 1.2 (HTTP Archive) documents of the requests a page observed.
//!
//! The timings of an entry are differences of the browser's floating-point
//! timestamps; they come in computed, as the bits of their `f64`s, and so
//! does the entry's start as ISO 8601 text. Everything else an entry says is
//! decided here.
use vstd::prelude::*;

use crate::http::utf8_len;
use crate::json::{entries_view, items_view, json_view, Json, JsonNumber, JsonSpec};
use crate::chrome::{opt_view, pairs_view};
use crate::network_log::{NetworkRequest, RequestEntry};
use crate::selectors::i64_json;
use crate::text::str_from;

verus! {

/// The timings of an entry in milliseconds, each as the bits of an `f64`:
/// the whole request, the wait for the response headers, and the rest.
pub struct HarTimings {
    /// From the request's start to its end.
    pub time: u64,
    /// From the request's start to its response headers.
    pub wait: u64,
    /// The rest of the request's time.
    pub receive: u64,
}

/// The status an entry reports: 0 for a failed request, else the response
/// status, or 0 when no response arrived.
pub open spec fn har_status(r: RequestEntry) -> i64 {
    if r.failure is Some {
        0
    } else {
        match r.status {
            Some(s) => s,
            None => 0,
        }
    }
}

/// The text of an optional string, empty when there is none.
pub open spec fn text_or_empty(o: Option<Seq<char>>) -> Seq<char> {
    match o {
        Some(s) => s,
        None => Seq::empty(),
    }
}

/// A JSON string.
pub open spec fn jstr(s: Seq<char>) -> JsonSpec {
    JsonSpec::Str(s)
}

/// The JSON number of an `f64`, by its bits.
pub open spec fn jfloat(bits: u64) -> JsonSpec {
    JsonSpec::Number(JsonNumber::Other(bits))
}

/// A header as a HAR `{name, value}` object.
pub open spec fn har_header(h: (Seq<char>, Seq<char>)) -> JsonSpec {
    JsonSpec::Object(seq![("name"@, jstr(h.0)), ("value"@, jstr(h.1))])
}

/// The HAR headers of a request or response, in their order.
pub open spec fn har_headers(pairs: Seq<(Seq<char>, Seq<char>)>) -> JsonSpec {
    JsonSpec::Array(pairs.map_values(|h: (Seq<char>, Seq<char>)| har_header(h)))
}

/// The size of a body: its length in UTF-8 bytes (`str::len`).
pub open spec fn body_size(text: Seq<char>) -> u64 {
    (utf8_len(text) as usize) as u64
}

/// A response's `content`: its size and MIME type, and, when its body was
/// captured, the body's text and size, and `encoding: base64` when the text
/// is base64.
pub open spec fn har_content(mime: Option<Seq<char>>, body: Option<(Seq<char>, bool)>) -> JsonSpec {
    match body {
        None => JsonSpec::Object(
            seq![("size"@, JsonSpec::Number(JsonNumber::PosInt(0))), ("mimeType"@, jstr(text_or_empty(mime)))],
        ),
        Some((text, base64)) => {
            let entries = seq![
                ("size"@, JsonSpec::Number(JsonNumber::PosInt(body_size(text)))),
                ("mimeType"@, jstr(text_or_empty(mime))),
                ("text"@, jstr(text)),
            ];
            if base64 {
                JsonSpec::Object(entries.push(("encoding"@, jstr("base64"@))))
            } else {
                JsonSpec::Object(entries)
            }
        },
    }
}

/// The HAR entry of a request: the request and response as sent and
/// received over HTTP/1.1, with unknown sizes as -1, the response's status
/// by [`har_status`], its content by [`har_content`], the timings as given
/// (nothing for sending), the resource type and the failure, if any.
pub open spec fn har_entry_spec(
    r: RequestEntry,
    request_headers: Seq<(Seq<char>, Seq<char>)>,
    response_headers: Seq<(Seq<char>, Seq<char>)>,
    body: Option<(Seq<char>, bool)>,
    started: Seq<char>,
    t: HarTimings,
) -> JsonSpec {
    let unknown = JsonSpec::Number(JsonNumber::NegInt(-1i64));
    let request = JsonSpec::Object(
        seq![
            ("method"@, jstr(r.method)),
            ("url"@, jstr(r.url)),
            ("httpVersion"@, jstr("HTTP/1.1"@)),
            ("headers"@, har_headers(request_headers)),
            ("queryString"@, JsonSpec::Array(Seq::empty())),
            ("cookies"@, JsonSpec::Array(Seq::empty())),
            ("headersSize"@, unknown),
            ("bodySize"@, unknown),
        ],
    );
    let response = JsonSpec::Object(
        seq![
            ("status"@, i64_json(har_status(r))),
            ("statusText"@, jstr(text_or_empty(r.status_text))),
            ("httpVersion"@, jstr("HTTP/1.1"@)),
            ("headers"@, har_headers(response_headers)),
            ("content"@, har_content(r.mime_type, body)),
            ("redirectURL"@, jstr(Seq::empty())),
            ("headersSize"@, unknown),
            ("bodySize"@, unknown),
        ],
    );
    let timings = JsonSpec::Object(seq![("send"@, jfloat(0)), ("wait"@, jfloat(t.wait)), ("receive"@, jfloat(t.receive))]);
    let error = match r.failure {
        Some(f) => jstr(f),
        None => JsonSpec::Null,
    };
    JsonSpec::Object(
        seq![
            ("startedDateTime"@, jstr(started)),
            ("time"@, jfloat(t.time)),
            ("request"@, request),
            ("response"@, response),
            ("cache"@, JsonSpec::Object(Seq::empty())),
            ("timings"@, timings),
            ("_resourceType"@, jstr(r.resource_type)),
            ("_error"@, error),
        ],
    )
}

/// A HAR document: version 1.2, made by Rustwright at `version`, of the
/// given entries.
pub open spec fn har_document_spec(entries: Seq<JsonSpec>, version: Seq<char>) -> JsonSpec {
    JsonSpec::Object(
        seq![
            (
                "log"@,
                JsonSpec::Object(
                    seq![
                        ("version"@, jstr("1.2"@)),
                        ("creator"@, JsonSpec::Object(seq![("name"@, jstr("Rustwright"@)), ("version"@, jstr(version))])),
                        ("entries"@, JsonSpec::Array(entries)),
                    ],
                ),
            ),
        ],
    )
}

/// Add an entry at the end of an object's entries.
fn push_entry(v: &mut Vec<(String, Json)>, key: &str, value: Json)
    ensures
        entries_view(final(v)@) == entries_view(old(v)@).push((key@, value@)),
{
    let ghost before = v@;
    v.push((str_from(key), value));
    assert(v@.drop_last() =~= before);
}

/// A JSON string value.
fn text_json(s: &str) -> (r: Json)
    ensures
        r@ == jstr(s@),
{
    Json::String(str_from(s))
}

/// The text of a header value when it is a JSON string.
pub fn header_text(value: &Json) -> (r: Option<String>)
    ensures
        match value@ {
            JsonSpec::Str(s) => r matches Some(t) && t@ == s,
            _ => r is None,
        },
{
    match value {
        Json::String(s) => Some(s.clone()),
        _ => None,
    }
}

/// The HAR headers of header pairs, in their order.
pub fn har_headers_json(pairs: &[(String, String)]) -> (r: Json)
    ensures
        r@ == har_headers(pairs_view(pairs@)),
{
    let mut out: Vec<Json> = Vec::new();
    let mut i: usize = 0;
    while i < pairs.len()
        invariant
            i <= pairs.len(),
            items_view(out@) == pairs_view(pairs@.take(i as int)).map_values(
                |h: (Seq<char>, Seq<char>)| har_header(h),
            ),
        decreases pairs.len() - i,
    {
        let mut fields: Vec<(String, Json)> = Vec::new();
        push_entry(&mut fields, "name", text_json(pairs[i].0.as_str()));
        push_entry(&mut fields, "value", text_json(pairs[i].1.as_str()));
        let ghost before = out@;
        out.push(Json::Object(fields));
        proof {
            assert(out@.drop_last() =~= before);
            assert(pairs@.take(i + 1) =~= pairs@.take(i as int).push(pairs@[i as int]));
            assert(entries_view(fields@) =~= seq![("name"@, jstr(pairs@[i as int].0@)), ("value"@, jstr(pairs@[i as int].1@))]);
            let h = (pairs@[i as int].0@, pairs@[i as int].1@);
            assert(pairs_view(pairs@.take(i + 1)) =~= pairs_view(pairs@.take(i as int)).push(h));
            assert(json_view(out@.last()) == har_header(h));
            assert(items_view(out@) == items_view(before).push(har_header(h)));
            assert(pairs_view(pairs@.take(i + 1)).map_values(|h: (Seq<char>, Seq<char>)| har_header(h))
                =~= pairs_view(pairs@.take(i as int)).map_values(|h: (Seq<char>, Seq<char>)| har_header(h)).push(
                har_header(h),
            ));
        }
        i = i + 1;
    }
    proof {
        assert(pairs@.take(pairs@.len() as int) =~= pairs@);
    }
    Json::Array(out)
}


/// The model of a captured body: its text and whether it is base64.
pub open spec fn body_view(body: Option<(&str, bool)>) -> Option<(Seq<char>, bool)> {
    match body {
        Some((text, base64)) => Some((text@, base64)),
        None => None,
    }
}

/// The text of an optional string, empty when there is none.
fn text_or_empty_json(o: &Option<String>) -> (r: Json)
    ensures
        r@ == jstr(text_or_empty(opt_view(*o))),
{
    match o {
        Some(s) => Json::String(s.clone()),
        None => Json::String(String::new()),
    }
}

/// A response's `content`; see [`har_content`].
pub fn har_content_json(mime: &Option<String>, body: Option<(&str, bool)>) -> (r: Json)
    ensures
        r@ == har_content(opt_view(*mime), body_view(body)),
{
    let mut fields: Vec<(String, Json)> = Vec::new();
    let ghost mime_json = jstr(text_or_empty(opt_view(*mime)));
    match body {
        None => {
            push_entry(&mut fields, "size", Json::Number(JsonNumber::PosInt(0)));
            push_entry(&mut fields, "mimeType", text_or_empty_json(mime));
            assert(entries_view(fields@) =~= seq![
                ("size"@, JsonSpec::Number(JsonNumber::PosInt(0))),
                ("mimeType"@, mime_json),
            ]);
        },
        Some((text, base64)) => {
            push_entry(&mut fields, "size", Json::Number(JsonNumber::PosInt(text.len() as u64)));
            push_entry(&mut fields, "mimeType", text_or_empty_json(mime));
            push_entry(&mut fields, "text", text_json(text));
            let ghost three = seq![
                ("size"@, JsonSpec::Number(JsonNumber::PosInt(body_size(text@)))),
                ("mimeType"@, mime_json),
                ("text"@, jstr(text@)),
            ];
            assert(entries_view(fields@) =~= three);
            if base64 {
                push_entry(&mut fields, "encoding", text_json("base64"));
                assert(entries_view(fields@) =~= three.push(("encoding"@, jstr("base64"@))));
            }
        },
    }
    Json::Object(fields)
}

/// The HAR entry of a request, with its headers as text, its captured body
/// (if any), its start as ISO 8601 text and its timings; see
/// [`har_entry_spec`].
pub fn har_entry(
    request: &NetworkRequest,
    request_headers: &[(String, String)],
    response_headers: &[(String, String)],
    body: Option<(&str, bool)>,
    started: &str,
    timings: &HarTimings,
) -> (r: Json)
    ensures
        r@ == har_entry_spec(
            request@,
            pairs_view(request_headers@),
            pairs_view(response_headers@),
            body_view(body),
            started@,
            *timings,
        ),
{
    let status: i64 = if request.failure.is_some() {
        0
    } else {
        match request.status {
            Some(s) => s,
            None => 0,
        }
    };
    let status_json = if status >= 0 {
        Json::Number(JsonNumber::PosInt(status as u64))
    } else {
        Json::Number(JsonNumber::NegInt(status))
    };
    let mut req: Vec<(String, Json)> = Vec::new();
    push_entry(&mut req, "method", Json::String(request.method.clone()));
    push_entry(&mut req, "url", Json::String(request.url.clone()));
    push_entry(&mut req, "httpVersion", text_json("HTTP/1.1"));
    push_entry(&mut req, "headers", har_headers_json(request_headers));
    push_entry(&mut req, "queryString", Json::Array(Vec::new()));
    push_entry(&mut req, "cookies", Json::Array(Vec::new()));
    push_entry(&mut req, "headersSize", Json::Number(JsonNumber::NegInt(-1)));
    push_entry(&mut req, "bodySize", Json::Number(JsonNumber::NegInt(-1)));
    let mut resp: Vec<(String, Json)> = Vec::new();
    push_entry(&mut resp, "status", status_json);
    push_entry(&mut resp, "statusText", text_or_empty_json(&request.status_text));
    push_entry(&mut resp, "httpVersion", text_json("HTTP/1.1"));
    push_entry(&mut resp, "headers", har_headers_json(response_headers));
    push_entry(&mut resp, "content", har_content_json(&request.mime_type, body));
    push_entry(&mut resp, "redirectURL", Json::String(String::new()));
    push_entry(&mut resp, "headersSize", Json::Number(JsonNumber::NegInt(-1)));
    push_entry(&mut resp, "bodySize", Json::Number(JsonNumber::NegInt(-1)));
    let mut times: Vec<(String, Json)> = Vec::new();
    push_entry(&mut times, "send", Json::Number(JsonNumber::Other(0)));
    push_entry(&mut times, "wait", Json::Number(JsonNumber::Other(timings.wait)));
    push_entry(&mut times, "receive", Json::Number(JsonNumber::Other(timings.receive)));
    let error = match &request.failure {
        Some(f) => Json::String(f.clone()),
        None => Json::Null,
    };
    let mut entry: Vec<(String, Json)> = Vec::new();
    push_entry(&mut entry, "startedDateTime", text_json(started));
    push_entry(&mut entry, "time", Json::Number(JsonNumber::Other(timings.time)));
    push_entry(&mut entry, "request", Json::Object(req));
    push_entry(&mut entry, "response", Json::Object(resp));
    push_entry(&mut entry, "cache", Json::Object(Vec::new()));
    push_entry(&mut entry, "timings", Json::Object(times));
    push_entry(&mut entry, "_resourceType", Json::String(request.resource_type.clone()));
    push_entry(&mut entry, "_error", error);
    proof {
        let rv = request@;
        let unknown = JsonSpec::Number(JsonNumber::NegInt(-1i64));
        let http = jstr("HTTP/1.1"@);
        assert(status_json@ == i64_json(har_status(rv)));
        let reqv = seq![
            ("method"@, jstr(rv.method)),
            ("url"@, jstr(rv.url)),
            ("httpVersion"@, http),
            ("headers"@, har_headers(pairs_view(request_headers@))),
            ("queryString"@, JsonSpec::Array(Seq::empty())),
            ("cookies"@, JsonSpec::Array(Seq::empty())),
            ("headersSize"@, unknown),
            ("bodySize"@, unknown),
        ];
        assert(items_view(Seq::<Json>::empty()) =~= Seq::<JsonSpec>::empty());
        assert(entries_view(req@) =~= reqv);
        let respv = seq![
            ("status"@, i64_json(har_status(rv))),
            ("statusText"@, jstr(text_or_empty(rv.status_text))),
            ("httpVersion"@, http),
            ("headers"@, har_headers(pairs_view(response_headers@))),
            ("content"@, har_content(rv.mime_type, body_view(body))),
            ("redirectURL"@, jstr(Seq::empty())),
            ("headersSize"@, unknown),
            ("bodySize"@, unknown),
        ];
        assert(entries_view(resp@) =~= respv);
        let timesv = seq![("send"@, jfloat(0)), ("wait"@, jfloat(timings.wait)), ("receive"@, jfloat(timings.receive))];
        assert(entries_view(times@) =~= timesv);
        assert(entries_view(Seq::<(String, Json)>::empty()) =~= Seq::<(Seq<char>, JsonSpec)>::empty());
        let ev = seq![
            ("startedDateTime"@, jstr(started@)),
            ("time"@, jfloat(timings.time)),
            ("request"@, JsonSpec::Object(reqv)),
            ("response"@, JsonSpec::Object(respv)),
            ("cache"@, JsonSpec::Object(Seq::empty())),
            ("timings"@, JsonSpec::Object(timesv)),
            ("_resourceType"@, jstr(rv.resource_type)),
            ("_error"@, match rv.failure { Some(f) => jstr(f), None => JsonSpec::Null }),
        ];
        assert(entries_view(entry@) =~= ev);
        let s = har_entry_spec(
            rv,
            pairs_view(request_headers@),
            pairs_view(response_headers@),
            body_view(body),
            started@,
            *timings,
        );
        // the entries of the spec's object, entry by entry
        assert(s->Object_0 =~= ev);
    }
    Json::Object(entry)
}

/// A HAR document of `entries`, made by Rustwright at `version`; see
/// [`har_document_spec`].
pub fn har_document(entries: Vec<Json>, version: &str) -> (r: Json)
    ensures
        r@ == har_document_spec(items_view(entries@), version@),
{
    let mut creator: Vec<(String, Json)> = Vec::new();
    push_entry(&mut creator, "name", text_json("Rustwright"));
    push_entry(&mut creator, "version", text_json(version));
    let mut log: Vec<(String, Json)> = Vec::new();
    push_entry(&mut log, "version", text_json("1.2"));
    push_entry(&mut log, "creator", Json::Object(creator));
    push_entry(&mut log, "entries", Json::Array(entries));
    let mut doc: Vec<(String, Json)> = Vec::new();
    push_entry(&mut doc, "log", Json::Object(log));
    let r = Json::Object(doc);
    proof {
        reveal_strlit("Rustwright");
        reveal_strlit("1.2");
        let cv = seq![("name"@, jstr("Rustwright"@)), ("version"@, jstr(version@))];
        assert(entries_view(creator@) =~= cv);
        let lv = seq![("version"@, jstr("1.2"@)), ("creator"@, JsonSpec::Object(cv)), ("entries"@, JsonSpec::Array(items_view(entries@)))];
        assert(entries_view(log@) =~= lv);
        assert(entries_view(doc@) =~= seq![("log"@, JsonSpec::Object(lv))]);
    }
    r
}

}
