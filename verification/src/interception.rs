//! What a page answers for a request that the `Fetch` domain paused.
use vstd::prelude::*;


use crate::protocol::fetch::{
    ContinueRequestParams, ContinueResponseParams, FailRequestParams, FulfillRequestParams, HeaderEntry,
    RequestPausedParams,
};
use crate::chrome::pairs_view;
use crate::json::Json;
use crate::text::{chars_eq, chars_of, lower_ascii_seq, to_ascii_lowercase};
use crate::route::{first_matching_route, first_route, Route, RouteAction};
use crate::encoding::{base64_encode, base64_len, base64_spec};
use crate::text::str_from;
use crate::diagnostics::DialogInfo;
use crate::protocol::page::{HandleJavaScriptDialogParams, JavascriptDialogOpeningParams};

verus! {

/// What a page sends for a paused request.
#[derive(Debug)]
pub enum PausedReply {
    /// `Fetch.failRequest`
    Fail(FailRequestParams),
    /// `Fetch.fulfillRequest`
    Fulfill(FulfillRequestParams),
    /// `Fetch.continueRequest`
    Continue(ContinueRequestParams),
    /// `Fetch.continueResponse`
    ContinueResponse(ContinueResponseParams),
}

/// Headers as (name, value) text pairs.
pub open spec fn header_pairs(hs: Seq<HeaderEntry>) -> Seq<(Seq<char>, Seq<char>)> {
    hs.map_values(|h: HeaderEntry| (h.name@, h.value@))
}

/// Whether two header names are the same, ASCII letters compared without
/// regard to case (HTTP header names are case-insensitive).
pub open spec fn same_header_name(a: Seq<char>, b: Seq<char>) -> bool {
    lower_ascii_seq(a) == lower_ascii_seq(b)
}

/// `hs` without the headers named `name`.
pub open spec fn without_header(hs: Seq<(Seq<char>, Seq<char>)>, name: Seq<char>) -> Seq<(Seq<char>, Seq<char>)>
    decreases hs.len(),
{
    if hs.len() == 0 {
        seq![]
    } else {
        let rest = without_header(hs.drop_last(), name);
        if same_header_name(hs.last().0, name) {
            rest
        } else {
            rest.push(hs.last())
        }
    }
}

/// `extra` merged onto `base`, one header after the other: each replaces the
/// headers of its name (or is added when there is none).
pub open spec fn merge_headers(
    base: Seq<(Seq<char>, Seq<char>)>,
    extra: Seq<(Seq<char>, Seq<char>)>,
) -> Seq<(Seq<char>, Seq<char>)>
    decreases extra.len(),
{
    if extra.len() == 0 {
        base
    } else {
        without_header(merge_headers(base, extra.drop_last()), extra.last().0).push(extra.last())
    }
}

/// The request headers of a paused request as text: those whose value is a
/// string (the protocol sends no others).
pub open spec fn request_header_texts(hs: Seq<(String, Json)>) -> Seq<(Seq<char>, Seq<char>)>
    decreases hs.len(),
{
    if hs.len() == 0 {
        seq![]
    } else {
        let rest = request_header_texts(hs.drop_last());
        match hs.last().1 {
            Json::String(v) => rest.push((hs.last().0@, v@)),
            _ => rest,
        }
    }
}

/// A paused request is at the response stage when the browser reports the
/// response's status or error.
pub open spec fn at_response_stage(paused: RequestPausedParams) -> bool {
    paused.response_status_code is Some || paused.response_error_reason is Some
}

/// The reply to a paused request: the first route whose pattern matches its
/// URL decides. At the response stage, `SetResponseHeaders` continues the
/// response with its headers merged onto the response's, and anything else
/// continues the response unchanged. At the request stage, `Abort` fails it
/// as `Aborted`, `Fulfill` answers it with the status, a `Content-Type`
/// header and the body in base64, `SetRequestHeaders` continues it with its
/// headers merged onto the request's, and any other action (or no matching
/// route) lets it continue unchanged.
pub open spec fn reply_spec(routes: Seq<Route>, paused: RequestPausedParams, r: PausedReply) -> bool {
    let id = paused.request_id@;
    let action = match first_route(routes, paused.request.url@) {
        Some(i) => Some(routes[i].action),
        None => None,
    };
    if at_response_stage(paused) {
        r matches PausedReply::ContinueResponse(p) && p.request_id@ == id && p.response_code is None
            && p.response_phrase is None && match action {
            Some(RouteAction::SetResponseHeaders(hs)) => p.response_headers matches Some(h) && header_pairs(h@)
                == merge_headers(header_pairs(paused.response_headers@), pairs_view(hs@)),
            _ => p.response_headers is None,
        }
    } else {
    match action {
        Some(RouteAction::Abort) => r matches PausedReply::Fail(p) && p.request_id@ == id
            && p.error_reason@ == "Aborted"@,
        Some(RouteAction::Fulfill { status, content_type, body }) => r matches PausedReply::Fulfill(p)
            && p.request_id@ == id && p.response_code == status && p.response_headers@.len() == 1
            && p.response_headers@[0].name@ == "Content-Type"@ && p.response_headers@[0].value@ == content_type@
            && (p.body matches Some(b) && b@ == base64_spec(body@)),
        Some(RouteAction::SetRequestHeaders(hs)) => r matches PausedReply::Continue(p) && p.request_id@ == id
            && (p.headers matches Some(h) && header_pairs(h@) == merge_headers(
            request_header_texts(paused.request.headers@),
            pairs_view(hs@),
        )),
        _ => r matches PausedReply::Continue(p) && p.request_id@ == id && p.headers is None,
    }
    }
}

/// Whether two header names are the same (see [`same_header_name`]).
fn header_name_eq(a: &str, b: &str) -> (r: bool)
    ensures
        r == same_header_name(a@, b@),
{
    let la = to_ascii_lowercase(chars_of(a).as_slice());
    let lb = to_ascii_lowercase(chars_of(b).as_slice());
    chars_eq(la.as_slice(), lb.as_slice())
}

/// `hs` without the headers named `name`.
fn drop_header(hs: Vec<HeaderEntry>, name: &str) -> (r: Vec<HeaderEntry>)
    ensures
        header_pairs(r@) == without_header(header_pairs(hs@), name@),
{
    let mut out: Vec<HeaderEntry> = Vec::new();
    let mut i: usize = 0;
    while i < hs.len()
        invariant
            i <= hs@.len(),
            header_pairs(out@) == without_header(header_pairs(hs@.take(i as int)), name@),
        decreases hs@.len() - i,
    {
        let ghost before = out@;
        proof {
            assert(header_pairs(hs@.take(i + 1)).drop_last() =~= header_pairs(hs@.take(i as int)));
            assert(header_pairs(hs@.take(i + 1)).last() == (hs@[i as int].name@, hs@[i as int].value@));
        }
        if !header_name_eq(hs[i].name.as_str(), name) {
            out.push(HeaderEntry { name: hs[i].name.clone(), value: hs[i].value.clone() });
            assert(header_pairs(out@) =~= header_pairs(before).push((hs@[i as int].name@, hs@[i as int].value@)));
        }
        i += 1;
    }
    assert(hs@.take(hs@.len() as int) =~= hs@);
    out
}

/// `extra` merged onto `base` (see [`merge_headers`]).
fn merge_onto(base: Vec<HeaderEntry>, extra: &Vec<(String, String)>) -> (r: Vec<HeaderEntry>)
    ensures
        header_pairs(r@) == merge_headers(header_pairs(base@), pairs_view(extra@)),
{
    let mut out = base;
    let ghost b = header_pairs(out@);
    let mut i: usize = 0;
    while i < extra.len()
        invariant
            i <= extra@.len(),
            header_pairs(out@) == merge_headers(b, pairs_view(extra@.take(i as int))),
        decreases extra@.len() - i,
    {
        proof {
            assert(pairs_view(extra@.take(i + 1)).drop_last() =~= pairs_view(extra@.take(i as int)));
            assert(pairs_view(extra@.take(i + 1)).last() == (extra@[i as int].0@, extra@[i as int].1@));
        }
        let name = extra[i].0.as_str();
        let mut kept = drop_header(out, name);
        let ghost before = kept@;
        kept.push(HeaderEntry { name: extra[i].0.clone(), value: extra[i].1.clone() });
        assert(header_pairs(kept@) =~= header_pairs(before).push((extra@[i as int].0@, extra@[i as int].1@)));
        out = kept;
        i += 1;
    }
    assert(extra@.take(extra@.len() as int) =~= extra@);
    out
}

/// The request headers of a paused request as text (see
/// [`request_header_texts`]).
fn request_headers(hs: &Vec<(String, Json)>) -> (r: Vec<HeaderEntry>)
    ensures
        header_pairs(r@) == request_header_texts(hs@),
{
    let mut out: Vec<HeaderEntry> = Vec::new();
    let mut i: usize = 0;
    while i < hs.len()
        invariant
            i <= hs@.len(),
            header_pairs(out@) == request_header_texts(hs@.take(i as int)),
        decreases hs@.len() - i,
    {
        let ghost before = out@;
        proof {
            assert(hs@.take(i + 1).drop_last() =~= hs@.take(i as int));
            assert(hs@.take(i + 1).last() == hs@[i as int]);
        }
        match &hs[i].1 {
            Json::String(v) => {
                out.push(HeaderEntry { name: hs[i].0.clone(), value: v.clone() });
                assert(header_pairs(out@) =~= header_pairs(before).push((hs@[i as int].0@, v@)));
            },
            _ => {},
        }
        i += 1;
    }
    assert(hs@.take(hs@.len() as int) =~= hs@);
    out
}

/// Copies of `hs`.
fn copy_headers(hs: &Vec<HeaderEntry>) -> (r: Vec<HeaderEntry>)
    ensures
        header_pairs(r@) == header_pairs(hs@),
{
    let mut out: Vec<HeaderEntry> = Vec::new();
    let mut i: usize = 0;
    while i < hs.len()
        invariant
            i <= hs@.len(),
            header_pairs(out@) == header_pairs(hs@.take(i as int)),
        decreases hs@.len() - i,
    {
        let ghost before = out@;
        out.push(HeaderEntry { name: hs[i].name.clone(), value: hs[i].value.clone() });
        proof {
            let pair = (hs@[i as int].name@, hs@[i as int].value@);
            assert(header_pairs(out@) =~= header_pairs(before).push(pair));
            assert(header_pairs(hs@.take(i + 1)) =~= header_pairs(hs@.take(i as int)).push(pair));
        }
        i += 1;
    }
    assert(hs@.take(hs@.len() as int) =~= hs@);
    out
}

/// Whether every body a route fulfills with has a base64 text whose length
/// fits in a `usize`.
pub open spec fn bodies_encodable(routes: Seq<Route>) -> bool {
    forall|i: int|
        0 <= i < routes.len() ==> (#[trigger] routes[i].action matches RouteAction::Fulfill { body, .. } ==> base64_len(
            body@.len() as int,
        ) <= usize::MAX)
}

/// The reply to the paused request `paused` under the page's `routes` (see
/// [`reply_spec`]).
pub fn paused_request_reply(routes: &[Route], paused: &RequestPausedParams) -> (r: PausedReply)
    requires
        bodies_encodable(routes@),
    ensures
        reply_spec(routes@, *paused, r),
{
    let request_id = paused.request_id.clone();
    let found = first_matching_route(routes, paused.request.url.as_str());
    if paused.response_status_code.is_some() || paused.response_error_reason.is_some() {
        let response_headers = match found {
            Some(i) => match &routes[i].action {
                RouteAction::SetResponseHeaders(hs) => Some(
                    merge_onto(copy_headers(&paused.response_headers), hs),
                ),
                _ => None,
            },
            None => None,
        };
        return PausedReply::ContinueResponse(
            ContinueResponseParams { request_id, response_code: None, response_phrase: None, response_headers },
        );
    }
    match found {
        Some(i) => match &routes[i].action {
            RouteAction::Abort => PausedReply::Fail(
                FailRequestParams { request_id, error_reason: str_from("Aborted") },
            ),
            RouteAction::Fulfill { status, content_type, body } => {
                assert(routes@[i as int].action matches RouteAction::Fulfill { .. });
                let mut headers: Vec<HeaderEntry> = Vec::new();
                headers.push(HeaderEntry { name: str_from("Content-Type"), value: content_type.clone() });
                PausedReply::Fulfill(
                    FulfillRequestParams {
                        request_id,
                        response_code: *status,
                        response_headers: headers,
                        body: Some(base64_encode(body.as_slice())),
                    },
                )
            },
            RouteAction::SetRequestHeaders(hs) => PausedReply::Continue(
                ContinueRequestParams {
                    request_id,
                    headers: Some(merge_onto(request_headers(&paused.request.headers), hs)),
                },
            ),
            _ => PausedReply::Continue(ContinueRequestParams { request_id, headers: None }),
        },
        None => PausedReply::Continue(ContinueRequestParams { request_id, headers: None }),
    }
}


/// What a page records and answers when a JavaScript dialog opens: the
/// dialog's type, message and default prompt are kept, and the dialog is
/// dismissed (never accepted, no prompt text), so that automation cannot hang
/// on an alert.
pub fn dialog_reply(opening: JavascriptDialogOpeningParams) -> (r: (DialogInfo, HandleJavaScriptDialogParams))
    ensures
        r.0.dialog_type@ == opening.dialog_type@,
        r.0.message@ == opening.message@,
        r.0.default_prompt == opening.default_prompt,
        !r.1.accept,
        r.1.prompt_text is None,
{
    let info = DialogInfo {
        dialog_type: opening.dialog_type,
        message: opening.message,
        default_prompt: opening.default_prompt,
    };
    (info, HandleJavaScriptDialogParams { accept: false, prompt_text: None })
}

}
