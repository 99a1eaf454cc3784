//! Routing the messages of the CDP and BiDi WebSocket transports: replies to
//! pending commands, events, and the commands sent.
use vstd::prelude::*;

use crate::bidi::BidiError;
use crate::cdp_error::CdpError;
use crate::json::{Json, JsonNumber};
use crate::text::{chars_are, chars_of, str_from};

verus! {

/// The method name of the synthetic event emitted when the connection closes.
pub const DISCONNECTED_EVENT: &'static str = "__rustwright_disconnected__";

/// An event emitted by the browser for a session.
#[derive(Debug)]
pub struct CdpEvent {
    /// The session the event belongs to, or `None` for browser-level events.
    pub session_id: Option<String>,
    /// The CDP method name, for example `Page.loadEventFired`.
    pub method: String,
    /// The event parameters.
    pub params: Json,
}

impl CdpEvent {
    /// Whether this is the synthetic disconnection marker.
    pub fn is_disconnected(&self) -> (r: bool)
        ensures
            r == (self.method@ == DISCONNECTED_EVENT@),
    {
        let m = chars_of(self.method.as_str());
        chars_are(&m, DISCONNECTED_EVENT)
    }

    /// The synthetic event that marks the end of the connection.
    pub fn disconnected() -> (r: CdpEvent)
        ensures
            r.session_id is None,
            r.method@ == DISCONNECTED_EVENT@,
            r.params is Null,
    {
        CdpEvent { session_id: None, method: str_from(DISCONNECTED_EVENT), params: Json::Null }
    }
}

/// The error part of a CDP reply.
#[derive(Debug)]
pub struct IncomingError {
    /// CDP error code.
    pub code: i64,
    /// Error message.
    pub message: String,
    /// Optional structured data.
    pub data: Option<String>,
}

/// A message received over a CDP connection.
#[derive(Debug)]
pub struct IncomingMessage {
    /// The id of the command this replies to.
    pub id: Option<u64>,
    /// The event method.
    pub method: Option<String>,
    /// The event parameters.
    pub params: Option<Json>,
    /// The command result.
    pub result: Option<Json>,
    /// The command error.
    pub error: Option<IncomingError>,
    /// The session an event belongs to.
    pub session_id: Option<String>,
}

/// Where a received CDP message goes.
#[derive(Debug)]
pub enum Routed {
    /// The reply to the pending command `id`.
    Reply { id: u64, result: Result<Json, CdpError> },
    /// An event for the subscribers.
    Event(CdpEvent),
    /// Neither a reply nor an event.
    Ignored,
}

/// A JSON value, or null when there is none.
pub open spec fn or_null(v: Option<Json>) -> Json {
    match v {
        Some(j) => j,
        None => Json::Null,
    }
}

fn take_or_null(v: Option<Json>) -> (r: Json)
    ensures
        r == or_null(v),
{
    match v {
        Some(j) => j,
        None => Json::Null,
    }
}

/// Routes a received CDP message: a message with an id is the reply to that
/// command (its error as a protocol error without a method name, else its
/// result or null); one with a method is an event; anything else is ignored.
pub fn route_message(message: IncomingMessage) -> (r: Routed)
    ensures
        match message.id {
            Some(id) => match message.error {
                Some(e) => r matches Routed::Reply { id: i, result: Err(CdpError::Protocol { method, code, message: m, data }) }
                    && i == id && method@.len() == 0 && code == e.code && m == e.message && data == e.data,
                None => r matches Routed::Reply { id: i, result: Ok(v) } && i == id && v == or_null(message.result),
            },
            None => match message.method {
                Some(method) => r matches Routed::Event(ev) && ev.session_id == message.session_id && ev.method == method
                    && ev.params == or_null(message.params),
                None => r is Ignored,
            },
        },
{
    if let Some(id) = message.id {
        let result = match message.error {
            Some(error) => Err(
                CdpError::Protocol { method: String::new(), code: error.code, message: error.message, data: error.data },
            ),
            None => Ok(take_or_null(message.result)),
        };
        return Routed::Reply { id, result };
    }
    match message.method {
        Some(method) => Routed::Event(
            CdpEvent { session_id: message.session_id, method, params: take_or_null(message.params) },
        ),
        None => Routed::Ignored,
    }
}

/// The JSON text of a CDP command: `id`, `method`, then `params` and
/// `sessionId` when present.
pub open spec fn command_entries(
    id: u64,
    method: Seq<char>,
    params: Option<Json>,
    session_id: Option<Seq<char>>,
) -> Seq<(Seq<char>, crate::json::JsonSpec)> {
    let base = seq![
        ("id"@, crate::json::JsonSpec::Number(JsonNumber::PosInt(id))),
        ("method"@, crate::json::JsonSpec::Str(method)),
    ];
    let with_params = match params {
        Some(p) => base.push(("params"@, p@)),
        None => base,
    };
    match session_id {
        Some(s) => with_params.push(("sessionId"@, crate::json::JsonSpec::Str(s))),
        None => with_params,
    }
}

/// The JSON object sent for a CDP command.
pub fn command_message(id: u64, method: &str, params: Option<Json>, session_id: Option<&str>) -> (r: Json)
    ensures
        r@ == crate::json::JsonSpec::Object(
            command_entries(id, method@, params, match session_id { Some(s) => Some(s@), None => None }),
        ),
{
    let mut entries: Vec<(String, Json)> = Vec::new();
    entries.push((str_from("id"), Json::Number(JsonNumber::PosInt(id))));
    entries.push((str_from("method"), Json::String(str_from(method))));
    let ghost p = params;
    match params {
        Some(value) => entries.push((str_from("params"), value)),
        None => {},
    }
    match session_id {
        Some(s) => entries.push((str_from("sessionId"), Json::String(str_from(s)))),
        None => {},
    }
    let r = Json::Object(entries);
    proof {
        let sid = match session_id { Some(s) => Some(s@), None => None };
        assert(r@ == crate::json::JsonSpec::Object(crate::json::entries_view(entries@)));
        assert(crate::json::entries_view(entries@) =~= command_entries(id, method@, p, sid)) by {
            crate::json::lemma_entries_view(entries@);
        }
    }
    r
}

// ---------------------------------------------------------------------------
// BiDi
// ---------------------------------------------------------------------------

/// An event emitted by the BiDi remote end.
#[derive(Debug)]
pub struct BidiEvent {
    /// The BiDi event method, for example `browsingContext.load`.
    pub method: String,
    /// The event parameters.
    pub params: Json,
}

/// A message received over a BiDi connection.
#[derive(Debug)]
pub struct BidiIncoming {
    /// The id of the command this replies to.
    pub id: Option<u64>,
    /// The message type (`success`, `error`, `event`).
    pub kind: Option<String>,
    /// The command result.
    pub result: Option<Json>,
    /// The error code.
    pub error: Option<String>,
    /// The error message.
    pub message: Option<String>,
    /// The event method.
    pub method: Option<String>,
    /// The event parameters.
    pub params: Option<Json>,
}

/// Where a received BiDi message goes.
#[derive(Debug)]
pub enum BidiRouted {
    /// The reply to the pending command `id`.
    Reply { id: u64, result: Result<Json, BidiError> },
    /// An event for the subscribers.
    Event(BidiEvent),
    /// Neither a reply nor an event.
    Ignored,
}

/// Routes a received BiDi message: a message with an id is the reply to that
/// command (of type `error`: a protocol error without a method name, its
/// code `unknown` when missing and its message empty when missing; else its
/// result or null); one with a method is an event; anything else is ignored.
pub fn route_bidi_message(message: BidiIncoming) -> (r: BidiRouted)
    ensures
        match message.id {
            Some(id) => if crate::chrome::opt_view(message.kind) == Some("error"@) {
                r matches BidiRouted::Reply { id: i, result: Err(BidiError::Protocol { method, error, message: m }) }
                    && i == id && method@.len() == 0 && error@ == (match message.error {
                    Some(e) => e@,
                    None => "unknown"@,
                }) && m@ == (match message.message {
                    Some(t) => t@,
                    None => Seq::<char>::empty(),
                })
            } else {
                r matches BidiRouted::Reply { id: i, result: Ok(v) } && i == id && v == or_null(message.result)
            },
            None => match message.method {
                Some(method) => r matches BidiRouted::Event(ev) && ev.method == method && ev.params == or_null(
                    message.params,
                ),
                None => r is Ignored,
            },
        },
{
    if let Some(id) = message.id {
        let is_error = match &message.kind {
            Some(k) => {
                let kv = chars_of(k.as_str());
                chars_are(&kv, "error")
            },
            None => false,
        };
        let result = if is_error {
            let error = match message.error {
                Some(e) => e,
                None => str_from("unknown"),
            };
            let text = match message.message {
                Some(t) => t,
                None => String::new(),
            };
            Err(BidiError::Protocol { method: String::new(), error, message: text })
        } else {
            Ok(take_or_null(message.result))
        };
        return BidiRouted::Reply { id, result };
    }
    match message.method {
        Some(method) => BidiRouted::Event(BidiEvent { method, params: take_or_null(message.params) }),
        None => BidiRouted::Ignored,
    }
}

/// The JSON object sent for a BiDi command: `id`, `method`, `params`.
pub fn bidi_command_message(id: u64, method: &str, params: Json) -> (r: Json)
    ensures
        r@ == crate::json::JsonSpec::Object(
            seq![
                ("id"@, crate::json::JsonSpec::Number(JsonNumber::PosInt(id))),
                ("method"@, crate::json::JsonSpec::Str(method@)),
                ("params"@, params@),
            ],
        ),
{
    let mut entries: Vec<(String, Json)> = Vec::new();
    entries.push((str_from("id"), Json::Number(JsonNumber::PosInt(id))));
    entries.push((str_from("method"), Json::String(str_from(method))));
    let ghost p = params;
    entries.push((str_from("params"), params));
    let r = Json::Object(entries);
    proof {
        crate::json::lemma_entries_view(entries@);
        assert(crate::json::entries_view(entries@) =~= seq![
            ("id"@, crate::json::JsonSpec::Number(JsonNumber::PosInt(id))),
            ("method"@, crate::json::JsonSpec::Str(method@)),
            ("params"@, p@),
        ]);
    }
    r
}

// ---------------------------------------------------------------------------
// Page events
// ---------------------------------------------------------------------------

/// The CDP events a page follows.
#[derive(Debug, Clone, Copy, PartialEq, Eq, Structural)]
pub enum PageEventKind {
    /// `Page.lifecycleEvent`
    Lifecycle,
    /// `Page.frameNavigated`
    FrameNavigated,
    /// `Page.frameAttached`
    FrameAttached,
    /// `Page.frameDetached`
    FrameDetached,
    /// `Page.javascriptDialogOpening`
    DialogOpening,
    /// `Runtime.executionContextCreated`
    ContextCreated,
    /// `Runtime.executionContextDestroyed`
    ContextDestroyed,
    /// `Runtime.consoleAPICalled`
    ConsoleApiCalled,
    /// `Runtime.exceptionThrown`
    ExceptionThrown,
    /// `Network.requestWillBeSent`
    RequestWillBeSent,
    /// `Network.responseReceived`
    ResponseReceived,
    /// `Network.loadingFailed`
    LoadingFailed,
    /// `Fetch.requestPaused`
    RequestPaused,
    /// `Tracing.dataCollected`
    TracingDataCollected,
    /// `Tracing.tracingComplete`
    TracingComplete,
}

/// The kind of page event a CDP event method names.
pub open spec fn page_event_kind_spec(method: Seq<char>) -> Option<PageEventKind> {
    if method == "Page.lifecycleEvent"@ {
        Some(PageEventKind::Lifecycle)
    } else if method == "Page.frameNavigated"@ {
        Some(PageEventKind::FrameNavigated)
    } else if method == "Page.frameAttached"@ {
        Some(PageEventKind::FrameAttached)
    } else if method == "Page.frameDetached"@ {
        Some(PageEventKind::FrameDetached)
    } else if method == "Page.javascriptDialogOpening"@ {
        Some(PageEventKind::DialogOpening)
    } else if method == "Runtime.executionContextCreated"@ {
        Some(PageEventKind::ContextCreated)
    } else if method == "Runtime.executionContextDestroyed"@ {
        Some(PageEventKind::ContextDestroyed)
    } else if method == "Runtime.consoleAPICalled"@ {
        Some(PageEventKind::ConsoleApiCalled)
    } else if method == "Runtime.exceptionThrown"@ {
        Some(PageEventKind::ExceptionThrown)
    } else if method == "Network.requestWillBeSent"@ {
        Some(PageEventKind::RequestWillBeSent)
    } else if method == "Network.responseReceived"@ {
        Some(PageEventKind::ResponseReceived)
    } else if method == "Network.loadingFailed"@ {
        Some(PageEventKind::LoadingFailed)
    } else if method == "Fetch.requestPaused"@ {
        Some(PageEventKind::RequestPaused)
    } else if method == "Tracing.dataCollected"@ {
        Some(PageEventKind::TracingDataCollected)
    } else if method == "Tracing.tracingComplete"@ {
        Some(PageEventKind::TracingComplete)
    } else {
        None
    }
}

/// The CDP method of each kind of page event.
pub open spec fn event_method(kind: PageEventKind) -> Seq<char> {
    match kind {
        PageEventKind::Lifecycle => "Page.lifecycleEvent"@,
        PageEventKind::FrameNavigated => "Page.frameNavigated"@,
        PageEventKind::FrameAttached => "Page.frameAttached"@,
        PageEventKind::FrameDetached => "Page.frameDetached"@,
        PageEventKind::DialogOpening => "Page.javascriptDialogOpening"@,
        PageEventKind::ContextCreated => "Runtime.executionContextCreated"@,
        PageEventKind::ContextDestroyed => "Runtime.executionContextDestroyed"@,
        PageEventKind::ConsoleApiCalled => "Runtime.consoleAPICalled"@,
        PageEventKind::ExceptionThrown => "Runtime.exceptionThrown"@,
        PageEventKind::RequestWillBeSent => "Network.requestWillBeSent"@,
        PageEventKind::ResponseReceived => "Network.responseReceived"@,
        PageEventKind::LoadingFailed => "Network.loadingFailed"@,
        PageEventKind::RequestPaused => "Fetch.requestPaused"@,
        PageEventKind::TracingDataCollected => "Tracing.dataCollected"@,
        PageEventKind::TracingComplete => "Tracing.tracingComplete"@,
    }
}

/// Every event a page follows is recognised by its own CDP method and by no
/// other: a method names the kind `kind` exactly when it is `kind`'s method.
/// So no followed event is dropped, and no two events are confused.
pub proof fn lemma_page_events_by_method(method: Seq<char>, kind: PageEventKind)
    ensures
        page_event_kind_spec(method) == Some(kind) <==> method == event_method(kind),
{
    reveal_strlit("Page.lifecycleEvent");
    reveal_strlit("Page.frameNavigated");
    reveal_strlit("Page.frameAttached");
    reveal_strlit("Page.frameDetached");
    reveal_strlit("Page.javascriptDialogOpening");
    reveal_strlit("Runtime.executionContextCreated");
    reveal_strlit("Runtime.executionContextDestroyed");
    reveal_strlit("Runtime.consoleAPICalled");
    reveal_strlit("Runtime.exceptionThrown");
    reveal_strlit("Network.requestWillBeSent");
    reveal_strlit("Network.responseReceived");
    reveal_strlit("Network.loadingFailed");
    reveal_strlit("Fetch.requestPaused");
    reveal_strlit("Tracing.dataCollected");
    reveal_strlit("Tracing.tracingComplete");
    if method == event_method(kind) {
        match kind {
            PageEventKind::Lifecycle => {

            },
            PageEventKind::FrameNavigated => {
                assert("Page.frameNavigated"@[5] != "Page.lifecycleEvent"@[5]);
            },
            PageEventKind::FrameAttached => {
                assert("Page.frameAttached"@.len() != "Page.lifecycleEvent"@.len());
                assert("Page.frameAttached"@.len() != "Page.frameNavigated"@.len());
            },
            PageEventKind::FrameDetached => {
                assert("Page.frameDetached"@.len() != "Page.lifecycleEvent"@.len());
                assert("Page.frameDetached"@.len() != "Page.frameNavigated"@.len());
                assert("Page.frameDetached"@[10] != "Page.frameAttached"@[10]);
            },
            PageEventKind::DialogOpening => {
                assert("Page.javascriptDialogOpening"@.len() != "Page.lifecycleEvent"@.len());
                assert("Page.javascriptDialogOpening"@.len() != "Page.frameNavigated"@.len());
                assert("Page.javascriptDialogOpening"@.len() != "Page.frameAttached"@.len());
                assert("Page.javascriptDialogOpening"@.len() != "Page.frameDetached"@.len());
            },
            PageEventKind::ContextCreated => {
                assert("Runtime.executionContextCreated"@.len() != "Page.lifecycleEvent"@.len());
                assert("Runtime.executionContextCreated"@.len() != "Page.frameNavigated"@.len());
                assert("Runtime.executionContextCreated"@.len() != "Page.frameAttached"@.len());
                assert("Runtime.executionContextCreated"@.len() != "Page.frameDetached"@.len());
                assert("Runtime.executionContextCreated"@.len() != "Page.javascriptDialogOpening"@.len());
            },
            PageEventKind::ContextDestroyed => {
                assert("Runtime.executionContextDestroyed"@.len() != "Page.lifecycleEvent"@.len());
                assert("Runtime.executionContextDestroyed"@.len() != "Page.frameNavigated"@.len());
                assert("Runtime.executionContextDestroyed"@.len() != "Page.frameAttached"@.len());
                assert("Runtime.executionContextDestroyed"@.len() != "Page.frameDetached"@.len());
                assert("Runtime.executionContextDestroyed"@.len() != "Page.javascriptDialogOpening"@.len());
                assert("Runtime.executionContextDestroyed"@.len() != "Runtime.executionContextCreated"@.len());
            },
            PageEventKind::ConsoleApiCalled => {
                assert("Runtime.consoleAPICalled"@.len() != "Page.lifecycleEvent"@.len());
                assert("Runtime.consoleAPICalled"@.len() != "Page.frameNavigated"@.len());
                assert("Runtime.consoleAPICalled"@.len() != "Page.frameAttached"@.len());
                assert("Runtime.consoleAPICalled"@.len() != "Page.frameDetached"@.len());
                assert("Runtime.consoleAPICalled"@.len() != "Page.javascriptDialogOpening"@.len());
                assert("Runtime.consoleAPICalled"@.len() != "Runtime.executionContextCreated"@.len());
                assert("Runtime.consoleAPICalled"@.len() != "Runtime.executionContextDestroyed"@.len());
            },
            PageEventKind::ExceptionThrown => {
                assert("Runtime.exceptionThrown"@.len() != "Page.lifecycleEvent"@.len());
                assert("Runtime.exceptionThrown"@.len() != "Page.frameNavigated"@.len());
                assert("Runtime.exceptionThrown"@.len() != "Page.frameAttached"@.len());
                assert("Runtime.exceptionThrown"@.len() != "Page.frameDetached"@.len());
                assert("Runtime.exceptionThrown"@.len() != "Page.javascriptDialogOpening"@.len());
                assert("Runtime.exceptionThrown"@.len() != "Runtime.executionContextCreated"@.len());
                assert("Runtime.exceptionThrown"@.len() != "Runtime.executionContextDestroyed"@.len());
                assert("Runtime.exceptionThrown"@.len() != "Runtime.consoleAPICalled"@.len());
            },
            PageEventKind::RequestWillBeSent => {
                assert("Network.requestWillBeSent"@.len() != "Page.lifecycleEvent"@.len());
                assert("Network.requestWillBeSent"@.len() != "Page.frameNavigated"@.len());
                assert("Network.requestWillBeSent"@.len() != "Page.frameAttached"@.len());
                assert("Network.requestWillBeSent"@.len() != "Page.frameDetached"@.len());
                assert("Network.requestWillBeSent"@.len() != "Page.javascriptDialogOpening"@.len());
                assert("Network.requestWillBeSent"@.len() != "Runtime.executionContextCreated"@.len());
                assert("Network.requestWillBeSent"@.len() != "Runtime.executionContextDestroyed"@.len());
                assert("Network.requestWillBeSent"@.len() != "Runtime.consoleAPICalled"@.len());
                assert("Network.requestWillBeSent"@.len() != "Runtime.exceptionThrown"@.len());
            },
            PageEventKind::ResponseReceived => {
                assert("Network.responseReceived"@.len() != "Page.lifecycleEvent"@.len());
                assert("Network.responseReceived"@.len() != "Page.frameNavigated"@.len());
                assert("Network.responseReceived"@.len() != "Page.frameAttached"@.len());
                assert("Network.responseReceived"@.len() != "Page.frameDetached"@.len());
                assert("Network.responseReceived"@.len() != "Page.javascriptDialogOpening"@.len());
                assert("Network.responseReceived"@.len() != "Runtime.executionContextCreated"@.len());
                assert("Network.responseReceived"@.len() != "Runtime.executionContextDestroyed"@.len());
                assert("Network.responseReceived"@[0] != "Runtime.consoleAPICalled"@[0]);
                assert("Network.responseReceived"@.len() != "Runtime.exceptionThrown"@.len());
                assert("Network.responseReceived"@.len() != "Network.requestWillBeSent"@.len());
            },
            PageEventKind::LoadingFailed => {
                assert("Network.loadingFailed"@.len() != "Page.lifecycleEvent"@.len());
                assert("Network.loadingFailed"@.len() != "Page.frameNavigated"@.len());
                assert("Network.loadingFailed"@.len() != "Page.frameAttached"@.len());
                assert("Network.loadingFailed"@.len() != "Page.frameDetached"@.len());
                assert("Network.loadingFailed"@.len() != "Page.javascriptDialogOpening"@.len());
                assert("Network.loadingFailed"@.len() != "Runtime.executionContextCreated"@.len());
                assert("Network.loadingFailed"@.len() != "Runtime.executionContextDestroyed"@.len());
                assert("Network.loadingFailed"@.len() != "Runtime.consoleAPICalled"@.len());
                assert("Network.loadingFailed"@.len() != "Runtime.exceptionThrown"@.len());
                assert("Network.loadingFailed"@.len() != "Network.requestWillBeSent"@.len());
                assert("Network.loadingFailed"@.len() != "Network.responseReceived"@.len());
            },
            PageEventKind::RequestPaused => {
                assert("Fetch.requestPaused"@[0] != "Page.lifecycleEvent"@[0]);
                assert("Fetch.requestPaused"@[0] != "Page.frameNavigated"@[0]);
                assert("Fetch.requestPaused"@.len() != "Page.frameAttached"@.len());
                assert("Fetch.requestPaused"@.len() != "Page.frameDetached"@.len());
                assert("Fetch.requestPaused"@.len() != "Page.javascriptDialogOpening"@.len());
                assert("Fetch.requestPaused"@.len() != "Runtime.executionContextCreated"@.len());
                assert("Fetch.requestPaused"@.len() != "Runtime.executionContextDestroyed"@.len());
                assert("Fetch.requestPaused"@.len() != "Runtime.consoleAPICalled"@.len());
                assert("Fetch.requestPaused"@.len() != "Runtime.exceptionThrown"@.len());
                assert("Fetch.requestPaused"@.len() != "Network.requestWillBeSent"@.len());
                assert("Fetch.requestPaused"@.len() != "Network.responseReceived"@.len());
                assert("Fetch.requestPaused"@.len() != "Network.loadingFailed"@.len());
            },
            PageEventKind::TracingDataCollected => {
                assert("Tracing.dataCollected"@.len() != "Page.lifecycleEvent"@.len());
                assert("Tracing.dataCollected"@.len() != "Page.frameNavigated"@.len());
                assert("Tracing.dataCollected"@.len() != "Page.frameAttached"@.len());
                assert("Tracing.dataCollected"@.len() != "Page.frameDetached"@.len());
                assert("Tracing.dataCollected"@.len() != "Page.javascriptDialogOpening"@.len());
                assert("Tracing.dataCollected"@.len() != "Runtime.executionContextCreated"@.len());
                assert("Tracing.dataCollected"@.len() != "Runtime.executionContextDestroyed"@.len());
                assert("Tracing.dataCollected"@.len() != "Runtime.consoleAPICalled"@.len());
                assert("Tracing.dataCollected"@.len() != "Runtime.exceptionThrown"@.len());
                assert("Tracing.dataCollected"@.len() != "Network.requestWillBeSent"@.len());
                assert("Tracing.dataCollected"@.len() != "Network.responseReceived"@.len());
                assert("Tracing.dataCollected"@[0] != "Network.loadingFailed"@[0]);
                assert("Tracing.dataCollected"@.len() != "Fetch.requestPaused"@.len());
            },
            PageEventKind::TracingComplete => {
                assert("Tracing.tracingComplete"@.len() != "Page.lifecycleEvent"@.len());
                assert("Tracing.tracingComplete"@.len() != "Page.frameNavigated"@.len());
                assert("Tracing.tracingComplete"@.len() != "Page.frameAttached"@.len());
                assert("Tracing.tracingComplete"@.len() != "Page.frameDetached"@.len());
                assert("Tracing.tracingComplete"@.len() != "Page.javascriptDialogOpening"@.len());
                assert("Tracing.tracingComplete"@.len() != "Runtime.executionContextCreated"@.len());
                assert("Tracing.tracingComplete"@.len() != "Runtime.executionContextDestroyed"@.len());
                assert("Tracing.tracingComplete"@.len() != "Runtime.consoleAPICalled"@.len());
                assert("Tracing.tracingComplete"@[0] != "Runtime.exceptionThrown"@[0]);
                assert("Tracing.tracingComplete"@.len() != "Network.requestWillBeSent"@.len());
                assert("Tracing.tracingComplete"@.len() != "Network.responseReceived"@.len());
                assert("Tracing.tracingComplete"@.len() != "Network.loadingFailed"@.len());
                assert("Tracing.tracingComplete"@.len() != "Fetch.requestPaused"@.len());
                assert("Tracing.tracingComplete"@.len() != "Tracing.dataCollected"@.len());
            },
        }
    }
}

/// The kind of page event `method` names, if a page follows it.
pub fn page_event_kind(method: &str) -> (r: Option<PageEventKind>)
    ensures
        r == page_event_kind_spec(method@),
{
    let m = chars_of(method);
    if chars_are(&m, "Page.lifecycleEvent") {
        Some(PageEventKind::Lifecycle)
    } else if chars_are(&m, "Page.frameNavigated") {
        Some(PageEventKind::FrameNavigated)
    } else if chars_are(&m, "Page.frameAttached") {
        Some(PageEventKind::FrameAttached)
    } else if chars_are(&m, "Page.frameDetached") {
        Some(PageEventKind::FrameDetached)
    } else if chars_are(&m, "Page.javascriptDialogOpening") {
        Some(PageEventKind::DialogOpening)
    } else if chars_are(&m, "Runtime.executionContextCreated") {
        Some(PageEventKind::ContextCreated)
    } else if chars_are(&m, "Runtime.executionContextDestroyed") {
        Some(PageEventKind::ContextDestroyed)
    } else if chars_are(&m, "Runtime.consoleAPICalled") {
        Some(PageEventKind::ConsoleApiCalled)
    } else if chars_are(&m, "Runtime.exceptionThrown") {
        Some(PageEventKind::ExceptionThrown)
    } else if chars_are(&m, "Network.requestWillBeSent") {
        Some(PageEventKind::RequestWillBeSent)
    } else if chars_are(&m, "Network.responseReceived") {
        Some(PageEventKind::ResponseReceived)
    } else if chars_are(&m, "Network.loadingFailed") {
        Some(PageEventKind::LoadingFailed)
    } else if chars_are(&m, "Fetch.requestPaused") {
        Some(PageEventKind::RequestPaused)
    } else if chars_are(&m, "Tracing.dataCollected") {
        Some(PageEventKind::TracingDataCollected)
    } else if chars_are(&m, "Tracing.tracingComplete") {
        Some(PageEventKind::TracingComplete)
    } else {
        None
    }
}

/// Whether an event belongs to the session `session_id`: browser-level
/// events (no session) belong to none.
pub fn is_session_event(event_session: &Option<String>, session_id: &str) -> (r: bool)
    ensures
        r == (crate::chrome::opt_view(*event_session) == Some(session_id@)),
{
    match event_session {
        Some(s) => {
            let a = chars_of(s.as_str());
            let b = chars_of(session_id);
            crate::text::chars_eq(&a, &b)
        },
        None => false,
    }
}

}
