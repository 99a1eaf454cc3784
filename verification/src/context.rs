//! Which browser targets belong to a browser context.
use vstd::prelude::*;

use crate::chrome::opt_view;
use crate::error::AutomationError;
use crate::protocol::target::TargetInfo;
use crate::text::{chars_are, chars_of, str_from};
use std::time::Duration;

verus! {

/// A target belongs to the context with id `context_id`: the default context
/// (no id) adopts every target, an isolated context only its own.
pub open spec fn in_context(context_id: Option<Seq<char>>, target: TargetInfo) -> bool {
    match context_id {
        None => true,
        Some(c) => opt_view(target.browser_context_id) == Some(c),
    }
}

/// Whether `target` belongs to the context with id `context_id`.
pub fn matches_context(context_id: &Option<String>, target: &TargetInfo) -> (r: bool)
    ensures
        r == in_context(opt_view(*context_id), *target),
{
    match context_id {
        None => true,
        Some(c) => match &target.browser_context_id {
            Some(b) => *b == *c,
            None => false,
        },
    }
}

/// A page target of the context with id `context_id`.
pub open spec fn is_context_page(context_id: Option<Seq<char>>, target: TargetInfo) -> bool {
    target.target_type@ == "page"@ && in_context(context_id, target)
}

/// Whether `target` is a page of the context with id `context_id`.
pub fn is_page_of(context_id: &Option<String>, target: &TargetInfo) -> (r: bool)
    ensures
        r == is_context_page(opt_view(*context_id), *target),
{
    let kind = chars_of(target.target_type.as_str());
    chars_are(&kind, "page") && matches_context(context_id, target)
}

/// The page targets of the context with id `context_id`, in order.
pub fn page_targets(context_id: &Option<String>, targets: Vec<TargetInfo>) -> (r: Vec<TargetInfo>)
    ensures
        r@ == targets@.filter(|t: TargetInfo| is_context_page(opt_view(*context_id), t)),
{
    let ghost all = targets@;
    let ghost keep = |t: TargetInfo| is_context_page(opt_view(*context_id), t);
    let n = targets.len();
    let mut rest = targets;
    let mut out: Vec<TargetInfo> = Vec::new();
    let mut i: usize = 0;
    assert(all.take(0).filter(keep) =~= Seq::<TargetInfo>::empty()) by {
        reveal(Seq::filter);
    }
    assert(all.skip(0) =~= all);
    while rest.len() > 0
        invariant
            n == all.len(),
            i + rest@.len() == all.len(),
            rest@ == all.skip(i as int),
            out@ == all.take(i as int).filter(keep),
            keep == (|t: TargetInfo| is_context_page(opt_view(*context_id), t)),
        decreases rest@.len(),
    {
        let t = rest.remove(0);
        let page = is_page_of(context_id, &t);
        proof {
            reveal(Seq::filter);
            assert(t == all[i as int]);
            let pre = all.take(i + 1);
            assert(pre.len() == i + 1);
            assert(pre.drop_last() =~= all.take(i as int));
            assert(pre.last() == t);
            assert(keep(t) == page);
            assert(pre.filter(keep) == (if keep(pre.last()) {
                pre.drop_last().filter(keep).push(pre.last())
            } else {
                pre.drop_last().filter(keep)
            }));
            assert(rest@ =~= all.skip(i + 1));
        }
        if page {
            out.push(t);
        }
        i += 1;
    }
    assert(all.take(all.len() as int) =~= all);
    out
}

/// Whether `id` is among `known`.
fn is_known(known: &[String], id: &String) -> (r: bool)
    ensures
        r == exists|k: int| 0 <= k < known@.len() && known@[k]@ == id@,
{
    let mut i: usize = 0;
    while i < known.len()
        invariant
            i <= known@.len(),
            forall|k: int| 0 <= k < i ==> known@[k]@ != id@,
        decreases known@.len() - i,
    {
        if known[i] == *id {
            return true;
        }
        i += 1;
    }
    false
}

/// A page of the context that is not tracked yet.
pub open spec fn is_new_page(context_id: Option<Seq<char>>, target: TargetInfo, known: Seq<String>) -> bool {
    is_context_page(context_id, target) && !(exists|k: int| 0 <= k < known.len() && known[k]@ == target.target_id@)
}

/// Whether a `Target.targetCreated` event announced `target`, a page of the
/// context with id `context_id` that is not among the tracked pages `known`:
/// the page that waiting for a new page attaches to.
pub fn is_new_page_event(method: &str, target: &TargetInfo, context_id: &Option<String>, known: &[String]) -> (r: bool)
    ensures
        r == (method@ == "Target.targetCreated"@ && is_new_page(opt_view(*context_id), *target, known@)),
{
    let m = chars_of(method);
    chars_are(&m, "Target.targetCreated") && is_page_of(context_id, target) && !is_known(known, &target.target_id)
}

/// Whether a target of the context can be attached: a page not tracked yet.
pub fn is_untracked_page(target: &TargetInfo, context_id: &Option<String>, known: &[String]) -> (r: bool)
    ensures
        r == is_new_page(opt_view(*context_id), *target, known@),
{
    is_page_of(context_id, target) && !is_known(known, &target.target_id)
}

/// A context can be used while neither it nor the browser connection is
/// closed; a closed context is reported before a closed connection.
pub fn ensure_open(context_closed: bool, connection_closed: bool) -> (r: Result<(), AutomationError>)
    ensures
        context_closed ==> r matches Err(AutomationError::ContextClosed),
        !context_closed && connection_closed ==> r matches Err(AutomationError::BrowserClosed),
        !context_closed && !connection_closed ==> r is Ok,
{
    if context_closed {
        return Err(AutomationError::ContextClosed);
    }
    if connection_closed {
        return Err(AutomationError::BrowserClosed);
    }
    Ok(())
}


/// What a wait for a new page of a context observed.
pub enum PageWaitEvent {
    /// A browser event arrived: its method, and the target it announces when
    /// its parameters are those of `Target.targetCreated`.
    Event(String, Option<TargetInfo>),
    /// Events were missed because the receiver fell behind.
    Lagged,
    /// The browser connection closed.
    Closed,
    /// The deadline passed.
    TimedOut,
    /// Attaching to the page announced last failed.
    AttachFailed,
}

/// What a wait for a new page does next.
pub enum PageWaitStep {
    /// Attach to the target with this id.
    Attach(String),
    /// Keep waiting.
    Wait,
    /// Give up with this error.
    Fail(AutomationError),
}

/// One step of waiting for a new page of the context `context_id`, whose
/// tracked pages are `known`: attach to a new page of the context that a
/// `Target.targetCreated` event announces; fail with a timeout on `a new
/// page` once the deadline passes, or with `BrowserClosed` once the
/// connection closes; otherwise (another event, missed events, a failed
/// attach) keep waiting.
pub fn page_wait_step(event: &PageWaitEvent, context_id: &Option<String>, known: &[String], timeout: Duration) -> (r:
    PageWaitStep)
    ensures
        match event {
            PageWaitEvent::Event(method, Some(target)) => if method@ == "Target.targetCreated"@ && is_new_page(
                opt_view(*context_id),
                *target,
                known@,
            ) {
                r matches PageWaitStep::Attach(id) && id@ == target.target_id@
            } else {
                r is Wait
            },
            PageWaitEvent::Event(_, None) => r is Wait,
            PageWaitEvent::Lagged => r is Wait,
            PageWaitEvent::AttachFailed => r is Wait,
            PageWaitEvent::Closed => r matches PageWaitStep::Fail(AutomationError::BrowserClosed),
            PageWaitEvent::TimedOut => r matches PageWaitStep::Fail(AutomationError::Timeout { what, timeout: t })
                && what@ == "a new page"@ && t == timeout,
        },
{
    match event {
        PageWaitEvent::Event(method, Some(target)) => {
            if is_new_page_event(method.as_str(), target, context_id, known) {
                PageWaitStep::Attach(target.target_id.clone())
            } else {
                PageWaitStep::Wait
            }
        },
        PageWaitEvent::Event(_, None) => PageWaitStep::Wait,
        PageWaitEvent::Lagged => PageWaitStep::Wait,
        PageWaitEvent::AttachFailed => PageWaitStep::Wait,
        PageWaitEvent::Closed => PageWaitStep::Fail(AutomationError::BrowserClosed),
        PageWaitEvent::TimedOut => PageWaitStep::Fail(
            AutomationError::Timeout { what: str_from("a new page"), timeout },
        ),
    }
}

}
