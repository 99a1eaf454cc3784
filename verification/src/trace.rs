//! The Chrome trace a page records: started once, fed the chunks of trace
//! events the browser reports, and stopped to hand them over.
use vstd::prelude::*;

use crate::error::AutomationError;
use crate::text::str_from;

verus! {

/// The model of a [`TraceRecorder`]: whether a trace is being recorded, the
/// chunks of events collected, and who waits for the browser to finish the
/// trace, if anyone does.
pub ghost struct TraceModel<C, W> {
    pub recording: bool,
    pub chunks: Seq<C>,
    pub waiter: Option<W>,
}

/// The message of starting a trace while one is recorded.
pub open spec fn already_active() -> Seq<char> {
    "tracing is already active on this page"@
}

/// The message of stopping a trace while none is recorded.
pub open spec fn not_active() -> Seq<char> {
    "tracing is not active on this page"@
}

/// A recorder that records nothing.
pub open spec fn idle_trace<C, W>() -> TraceModel<C, W> {
    TraceModel { recording: false, chunks: Seq::empty(), waiter: None }
}

/// Starting: refused while recording, else a fresh trace with no chunks and
/// nobody waiting.
pub open spec fn start_spec<C, W>(m: TraceModel<C, W>) -> Option<TraceModel<C, W>> {
    if m.recording {
        None
    } else {
        Some(TraceModel { recording: true, chunks: Seq::empty(), waiter: None })
    }
}

/// A chunk of events arrives: it is kept after the others.
pub open spec fn collect_spec<C, W>(m: TraceModel<C, W>, chunk: C) -> TraceModel<C, W> {
    TraceModel { chunks: m.chunks.push(chunk), ..m }
}

/// Chunks arrive one after the other.
pub open spec fn collect_all<C, W>(m: TraceModel<C, W>, chunks: Seq<C>) -> TraceModel<C, W>
    decreases chunks.len(),
{
    if chunks.len() == 0 {
        m
    } else {
        collect_spec(collect_all(m, chunks.drop_last()), chunks.last())
    }
}

/// Finishing a stop: the chunks are handed over and the recorder is idle.
pub open spec fn finish_spec<C, W>(m: TraceModel<C, W>) -> (Seq<C>, TraceModel<C, W>) {
    (m.chunks, idle_trace())
}

/// The trace a page records.
pub struct TraceRecorder<C, W> {
    recording: bool,
    chunks: Vec<C>,
    waiter: Option<W>,
}

impl<C, W> View for TraceRecorder<C, W> {
    type V = TraceModel<C, W>;

    closed spec fn view(&self) -> TraceModel<C, W> {
        TraceModel { recording: self.recording, chunks: self.chunks@, waiter: self.waiter }
    }
}

impl<C, W> TraceRecorder<C, W> {
    /// A recorder that records nothing.
    pub fn new() -> (r: TraceRecorder<C, W>)
        ensures
            r@ == idle_trace::<C, W>(),
    {
        let r = TraceRecorder { recording: false, chunks: Vec::new(), waiter: None };
        assert(r@.chunks =~= Seq::<C>::empty());
        r
    }

    /// Whether a trace is being recorded.
    pub fn is_recording(&self) -> (r: bool)
        ensures
            r == self@.recording,
    {
        self.recording
    }

    /// Start a trace; refused, with nothing changed, while one is recorded.
    pub fn start(&mut self) -> (r: Result<(), AutomationError>)
        ensures
            match start_spec(old(self)@) {
                Some(m) => r is Ok && final(self)@ == m,
                None => (r matches Err(AutomationError::JavaScript(msg)) && msg@ == already_active())
                    && final(self)@ == old(self)@,
            },
    {
        if self.recording {
            return Err(AutomationError::JavaScript(str_from("tracing is already active on this page")));
        }
        self.recording = true;
        self.chunks = Vec::new();
        self.waiter = None;
        assert(self.chunks@ =~= Seq::<C>::empty());
        Ok(())
    }

    /// The browser refused to start: nothing is recorded after all.
    pub fn start_failed(&mut self)
        ensures
            final(self)@ == (TraceModel { recording: false, ..old(self)@ }),
    {
        self.recording = false;
    }

    /// A chunk of trace events arrived.
    pub fn data_collected(&mut self, chunk: C)
        ensures
            final(self)@ == collect_spec(old(self)@, chunk),
    {
        self.chunks.push(chunk);
    }

    /// Begin stopping: `waiter` waits for the browser to finish the trace;
    /// refused, with nothing changed, while no trace is recorded.
    pub fn begin_stop(&mut self, waiter: W) -> (r: Result<(), AutomationError>)
        ensures
            old(self)@.recording ==> r is Ok && final(self)@ == (TraceModel { waiter: Some(waiter), ..old(self)@ }),
            !old(self)@.recording ==> (r matches Err(AutomationError::JavaScript(msg)) && msg@ == not_active())
                && final(self)@ == old(self)@,
    {
        if !self.recording {
            return Err(AutomationError::JavaScript(str_from("tracing is not active on this page")));
        }
        self.waiter = Some(waiter);
        Ok(())
    }

    /// The browser finished the trace: recording ends, the chunks stay, and
    /// whoever waited is handed back to be told.
    pub fn tracing_complete(&mut self) -> (r: Option<W>)
        ensures
            r == old(self)@.waiter,
            final(self)@ == (TraceModel { recording: false, waiter: None, ..old(self)@ }),
    {
        self.recording = false;
        let mut waiter = None;
        std::mem::swap(&mut waiter, &mut self.waiter);
        waiter
    }

    /// Finish stopping: the collected chunks, in the order they arrived; the
    /// recorder is idle again.
    pub fn finish_stop(&mut self) -> (r: Vec<C>)
        ensures
            r@ == finish_spec(old(self)@).0,
            final(self)@ == finish_spec(old(self)@).1,
    {
        self.recording = false;
        self.waiter = None;
        let mut chunks = Vec::new();
        std::mem::swap(&mut chunks, &mut self.chunks);
        assert(self.chunks@ =~= Seq::<C>::empty());
        chunks
    }
}

/// A trace that was started and then stopped holds exactly the chunks that
/// arrived in between, in the order they arrived; starting again while it
/// records is refused.
pub proof fn lemma_trace_holds_what_was_collected<C, W>(m: TraceModel<C, W>, chunks: Seq<C>)
    requires
        !m.recording,
    ensures
        start_spec(m) is Some,
        start_spec(collect_all(start_spec(m).unwrap(), chunks)) is None,
        finish_spec(collect_all(start_spec(m).unwrap(), chunks)).0 == chunks,
        finish_spec(collect_all(start_spec(m).unwrap(), chunks)).1 == idle_trace::<C, W>(),
{
    let s = start_spec(m).unwrap();
    lemma_collect_all(s, chunks);
    assert(Seq::<C>::empty() + chunks =~= chunks);
}

/// Collecting keeps the recording flag and the waiter, and appends the chunks.
proof fn lemma_collect_all<C, W>(m: TraceModel<C, W>, chunks: Seq<C>)
    ensures
        collect_all(m, chunks).recording == m.recording,
        collect_all(m, chunks).waiter == m.waiter,
        collect_all(m, chunks).chunks == m.chunks + chunks,
    decreases chunks.len(),
{
    if chunks.len() > 0 {
        lemma_collect_all(m, chunks.drop_last());
        assert(m.chunks + chunks.drop_last().push(chunks.last()) =~= m.chunks + chunks) by {
            assert(chunks.drop_last().push(chunks.last()) =~= chunks);
        }
        assert((m.chunks + chunks.drop_last()).push(chunks.last()) =~= m.chunks + chunks);
    } else {
        assert(m.chunks + chunks =~= m.chunks);
    }
}

}
