//! The table of commands sent over a connection and still waiting for their
//! reply, and what a waiting command finally returns.
//!
//! The socket and the waiting are the caller's part: this module keeps the
//! waiters of the pending commands in a map keyed by id, and decides which id
//! a command gets, which waiter a reply goes to, which waiters are failed when
//! the connection closes, and the result the caller of a command sees.
use vstd::prelude::*;

use std::collections::HashMap;
use std::time::Duration;

use crate::bidi::BidiError;
use crate::cdp_error::CdpError;
use crate::json::Json;

verus! {

/// The model of a [`RequestTable`]: the id the next command gets, the ids of
/// the commands waiting for a reply (oldest first), who waits for each of
/// them, and whether the connection has closed.
pub ghost struct TableModel<W> {
    pub next: u64,
    pub pending: Seq<u64>,
    pub waiters: Map<u64, W>,
    pub closed: bool,
}

/// The commands of one connection that wait for their reply, keyed by id,
/// each with its waiter `W` (what the reply is handed to).
#[derive(Debug)]
pub struct RequestTable<W> {
    next_id: u64,
    order: Vec<u64>,
    waiting: HashMap<u64, W>,
    closed: bool,
}

impl<W> View for RequestTable<W> {
    type V = TableModel<W>;

    closed spec fn view(&self) -> TableModel<W> {
        TableModel { next: self.next_id, pending: self.order@, waiters: self.waiting@, closed: self.closed }
    }
}

/// A table's waiting ids are distinct and are exactly the keys of its
/// waiters.
pub open spec fn table_wf<W>(t: TableModel<W>) -> bool {
    &&& t.pending.no_duplicates()
    &&& forall|id: u64| #[trigger] t.waiters.contains_key(id) <==> t.pending.contains(id)
}

/// The counter after handing out an id: one more, wrapping at the top of
/// the range as the connection's atomic counter does.
pub open spec fn bump(n: u64) -> u64 {
    if n == u64::MAX {
        0
    } else {
        (n + 1) as u64
    }
}

/// `s` without the value `id`.
pub open spec fn without(s: Seq<u64>, id: u64) -> Seq<u64> {
    if s.contains(id) {
        s.remove(s.index_of(id))
    } else {
        s
    }
}

/// Sending a command whose reply `w` waits for: refused once the connection
/// has closed; otherwise the command gets the counter's value as its id and
/// `w` waits under that id.
pub open spec fn begin_spec<W>(t: TableModel<W>, w: W) -> (Option<u64>, TableModel<W>) {
    if t.closed {
        (None, t)
    } else {
        (
            Some(t.next),
            TableModel {
                next: bump(t.next),
                pending: if t.pending.contains(t.next) {
                    t.pending
                } else {
                    t.pending.push(t.next)
                },
                waiters: t.waiters.insert(t.next, w),
                closed: false,
            },
        )
    }
}

/// A reply (or an abandoned command) for `id`: the waiter of the command
/// waiting for it, if one was, and the table without it.
pub open spec fn settle_spec<W>(t: TableModel<W>, id: u64) -> (Option<W>, TableModel<W>) {
    (
        if t.pending.contains(id) {
            Some(t.waiters[id])
        } else {
            None
        },
        TableModel { pending: without(t.pending, id), waiters: t.waiters.remove(id), ..t },
    )
}

/// The connection closes: the waiters of every waiting command, oldest
/// first, are handed back to be failed, and no command is sent any more.
pub open spec fn close_spec<W>(t: TableModel<W>) -> (Seq<W>, TableModel<W>) {
    (
        t.pending.map_values(|id: u64| t.waiters[id]),
        TableModel { pending: Seq::empty(), waiters: Map::empty(), closed: true, ..t },
    )
}

/// Every waiting id is below the counter, so the counter's value is not
/// waiting yet.
pub open spec fn counter_ahead<W>(t: TableModel<W>) -> bool {
    forall|i: int| 0 <= i < t.pending.len() ==> #[trigger] t.pending[i] < t.next
}

impl<W> RequestTable<W> {
    /// No id waits twice, and the waiters are those of the waiting ids.
    #[verifier::type_invariant]
    spec fn well_formed(self) -> bool {
        table_wf(self@)
    }

    /// An open table with nothing pending whose first id is 1.
    pub fn new() -> (r: RequestTable<W>)
        ensures
            r@ == (TableModel::<W> { next: 1, pending: Seq::empty(), waiters: Map::empty(), closed: false }),
    {
        let r = RequestTable { next_id: 1, order: Vec::new(), waiting: HashMap::new(), closed: false };
        assert(r@.pending =~= Seq::<u64>::empty());
        r
    }

    /// The parts of the table, leaving an empty one in its place.
    fn take_parts(&mut self) -> (r: (u64, Vec<u64>, HashMap<u64, W>, bool))
        ensures
            r.0 == old(self)@.next,
            r.1@ == old(self)@.pending,
            r.2@ == old(self)@.waiters,
            r.3 == old(self)@.closed,
            table_wf(old(self)@),
    {
        proof {
            use_type_invariant(&*self);
        }
        let mut parts = RequestTable { next_id: 0, order: Vec::new(), waiting: HashMap::new(), closed: false };
        proof {
            assert(parts@.pending =~= Seq::<u64>::empty());
        }
        std::mem::swap(self, &mut parts);
        let RequestTable { next_id, order, waiting, closed } = parts;
        (next_id, order, waiting, closed)
    }

    /// Whether the connection has closed.
    pub fn is_closed(&self) -> (r: bool)
        ensures
            r == self@.closed,
    {
        self.closed
    }

    /// The ids of the commands still waiting, oldest first.
    pub fn pending_ids(&self) -> (r: Vec<u64>)
        ensures
            r@ == self@.pending,
    {
        self.order.clone()
    }

    /// Registers a command about to be sent, whose reply `waiter` waits for
    /// (see [`begin_spec`]); a refused command hands `waiter` back.
    pub fn begin(&mut self, waiter: W) -> (r: Result<u64, W>)
        ensures
            match r {
                Ok(id) => (Some(id), final(self)@) == begin_spec(old(self)@, waiter),
                Err(w) => w == waiter && (None::<u64>, final(self)@) == begin_spec(old(self)@, waiter),
            },
    {
        broadcast use vstd::std_specs::hash::group_hash_axioms;
        proof {
            use_type_invariant(&*self);
        }
        if self.closed {
            return Err(waiter);
        }
        let id = self.next_id;
        let next = if id == u64::MAX {
            0
        } else {
            id + 1
        };
        let (next_id, mut order, mut waiting, closed) = self.take_parts();
        let ghost before = order@;
        if !contains_id(&order, id) {
            order.push(id);
            assert forall|i: int, j: int|
                0 <= i < order@.len() && 0 <= j < order@.len() && i != j implies order@[i] != order@[j] by {
                if i < before.len() && j < before.len() {
                    assert(order@[i] == before[i] && order@[j] == before[j]);
                }
            }
            assert forall|k: u64| order@.contains(k) <==> before.contains(k) || k == id by {
                if order@.contains(k) {
                    let q = choose|q: int| 0 <= q < order@.len() && order@[q] == k;
                    if q < before.len() {
                        assert(before[q] == k);
                    }
                }
                if before.contains(k) {
                    let q = choose|q: int| 0 <= q < before.len() && before[q] == k;
                    assert(order@[q] == k);
                }
                if k == id {
                    assert(order@[before.len() as int] == k);
                }
            }
        }
        waiting.insert(id, waiter);
        *self = RequestTable { next_id: next, order, waiting, closed: false };
        Ok(id)
    }

    /// A reply for `id` arrived, or the command `id` was abandoned (see
    /// [`settle_spec`]): the waiter of the command waiting for it, if one was.
    pub fn settle(&mut self, id: u64) -> (r: Option<W>)
        ensures
            (r, final(self)@) == settle_spec(old(self)@, id),
    {
        broadcast use vstd::std_specs::hash::group_hash_axioms;
        proof {
            use_type_invariant(&*self);
        }
        let (next_id, mut order, mut waiting, closed) = self.take_parts();
        let ghost before = order@;
        let ghost wbefore = waiting@;
        let found = position_of(&order, id);
        match found {
            Some(i) => {
                proof {
                    let k = before.index_of(id);
                    assert(before.contains(id));
                    assert(0 <= k < before.len() && before[k] == id);
                    assert(k == i as int);
                }
                order.remove(i);
                assert(order@ =~= before.remove(i as int));
                assert forall|x: int, y: int|
                    0 <= x < order@.len() && 0 <= y < order@.len() && x != y implies order@[x] != order@[y] by {
                    let bx = if x < i { x } else { x + 1 };
                    let by_ = if y < i { y } else { y + 1 };
                    assert(order@[x] == before[bx] && order@[y] == before[by_]);
                }
                assert forall|k: u64| order@.contains(k) <==> before.contains(k) && k != id by {
                    if order@.contains(k) {
                        let q = choose|q: int| 0 <= q < order@.len() && order@[q] == k;
                        let bq = if q < i { q } else { q + 1 };
                        assert(before[bq] == k);
                        assert(bq != i as int);
                    }
                    if before.contains(k) && k != id {
                        let q = choose|q: int| 0 <= q < before.len() && before[q] == k;
                        assert(q != i as int);
                        let oq = if q < i { q } else { q - 1 };
                        assert(order@[oq] == k);
                    }
                }
            },
            None => {},
        }
        let r = waiting.remove(&id);
        assert(waiting@ =~= wbefore.remove(id));
        *self = RequestTable { next_id, order, waiting, closed };
        r
    }

    /// The connection closed (see [`close_spec`]): returns the waiters of the
    /// commands to fail, oldest first.
    pub fn close(&mut self) -> (r: Vec<W>)
        ensures
            (r@, final(self)@) == close_spec(old(self)@),
    {
        broadcast use vstd::std_specs::hash::group_hash_axioms;
        proof {
            use_type_invariant(&*self);
        }
        let (next_id, mut order, mut waiting, closed) = self.take_parts();
        let ghost w0 = waiting@;
        let mut out: Vec<W> = Vec::new();
        let mut i: usize = 0;
        while i < order.len()
            invariant
                i <= order@.len(),
                order@.no_duplicates(),
                forall|id: u64| #[trigger] w0.contains_key(id) <==> order@.contains(id),
                out@ == order@.take(i as int).map_values(|id: u64| w0[id]),
                forall|j: int| i <= j < order@.len() ==> #[trigger] waiting@.contains_key(order@[j])
                    && waiting@[order@[j]] == w0[order@[j]],
            decreases order@.len() - i,
        {
            let id = order[i];
            let ghost wb = waiting@;
            let taken = waiting.remove(&id);
            match taken {
                Some(w) => {
                    out.push(w);
                },
                None => {
                    assert(false);
                },
            }
            proof {
                assert(order@.take(i + 1) =~= order@.take(i as int).push(id));
                assert(out@ =~= order@.take(i + 1).map_values(|id: u64| w0[id]));
                assert forall|j: int| i + 1 <= j < order@.len() implies #[trigger] waiting@.contains_key(order@[j])
                    && waiting@[order@[j]] == w0[order@[j]] by {
                    assert(order@[j] != order@[i as int]);
                    assert(wb.contains_key(order@[j]));
                }
            }
            i += 1;
        }
        assert(order@.take(order@.len() as int) =~= order@);
        *self = RequestTable { next_id, order: Vec::new(), waiting: HashMap::new(), closed: true };
        assert(self@.pending =~= Seq::<u64>::empty());
        assert(self@.waiters =~= Map::<u64, W>::empty());
        out
    }
}

fn contains_id(v: &Vec<u64>, id: u64) -> (r: bool)
    ensures
        r == v@.contains(id),
{
    let mut i: usize = 0;
    while i < v.len()
        invariant
            i <= v@.len(),
            forall|k: int| 0 <= k < i ==> v@[k] != id,
        decreases v@.len() - i,
    {
        if v[i] == id {
            assert(v@[i as int] == id);
            return true;
        }
        i += 1;
    }
    false
}

fn position_of(v: &Vec<u64>, id: u64) -> (r: Option<usize>)
    ensures
        match r {
            Some(i) => i < v@.len() && v@[i as int] == id,
            None => !v@.contains(id),
        },
{
    let mut i: usize = 0;
    while i < v.len()
        invariant
            i <= v@.len(),
            forall|k: int| 0 <= k < i ==> v@[k] != id,
        decreases v@.len() - i,
    {
        if v[i] == id {
            return Some(i);
        }
        i += 1;
    }
    None
}

/// A sent command's id is not among those already waiting, and the counter
/// stays ahead of every waiting id until it reaches the top of its range.
pub proof fn lemma_fresh_ids<W>(t: TableModel<W>, w: W)
    requires
        counter_ahead(t),
        !t.closed,
    ensures
        !t.pending.contains(t.next),
        begin_spec(t, w).1.pending == t.pending.push(t.next),
        t.next < u64::MAX ==> counter_ahead(begin_spec(t, w).1),
{
    if t.pending.contains(t.next) {
        let k = choose|k: int| 0 <= k < t.pending.len() && t.pending[k] == t.next;
        assert(t.pending[k] < t.next);
    }
    let t1 = begin_spec(t, w).1;
    if t.next < u64::MAX {
        assert forall|i: int| 0 <= i < t1.pending.len() implies #[trigger] t1.pending[i] < t1.next by {
            if i < t.pending.len() {
                assert(t1.pending[i] == t.pending[i]);
            }
        }
    }
}

/// The reply to a command just sent finds it waiting and hands back its
/// waiter; the table then waits for the same commands, with the same
/// waiters, as before the command was sent.
pub proof fn lemma_reply_settles_sent<W>(t: TableModel<W>, w: W)
    requires
        table_wf(t),
        counter_ahead(t),
        !t.closed,
    ensures
        ({
            let (id, t1) = begin_spec(t, w);
            let (found, t2) = settle_spec(t1, id->0);
            found == Some(w) && t2.pending == t.pending && t2.waiters == t.waiters && t2.next == bump(t.next)
                && !t2.closed
        }),
{
    lemma_fresh_ids(t, w);
    let p = t.pending.push(t.next);
    assert(p.contains(t.next)) by {
        assert(p[t.pending.len() as int] == t.next);
    }
    let k = p.index_of(t.next);
    assert(0 <= k < p.len() && p[k] == t.next);
    if k < t.pending.len() {
        assert(t.pending[k] == t.next);
        assert(t.pending.contains(t.next));
    }
    assert(k == t.pending.len());
    assert(p.remove(k) =~= t.pending);
    assert(!t.waiters.contains_key(t.next));
    assert(t.waiters.insert(t.next, w).remove(t.next) =~= t.waiters);
}

/// A command is answered at most once: after its reply, another reply with
/// the same id finds nothing waiting.
pub proof fn lemma_settled_once<W>(t: TableModel<W>, id: u64)
    requires
        table_wf(t),
    ensures
        settle_spec(settle_spec(t, id).1, id).0 is None,
{
    let s = t.pending;
    if s.contains(id) {
        let k = s.index_of(id);
        assert(0 <= k < s.len() && s[k] == id);
        let r = s.remove(k);
        if r.contains(id) {
            let j = choose|j: int| 0 <= j < r.len() && r[j] == id;
            let bj = if j < k { j } else { j + 1 };
            assert(s[bj] == id);
        }
    }
}

/// After the connection closes, the waiter of every command that was
/// waiting has been handed back, oldest first; nothing waits, no command is
/// sent and no reply finds a command.
pub proof fn lemma_close_fails_all<W>(t: TableModel<W>, id: u64, w: W)
    ensures
        close_spec(t).0.len() == t.pending.len(),
        forall|i: int| 0 <= i < t.pending.len() ==> #[trigger] close_spec(t).0[i] == t.waiters[t.pending[i]],
        close_spec(t).1.pending.len() == 0,
        begin_spec(close_spec(t).1, w).0 is None,
        settle_spec(close_spec(t).1, id).0 is None,
{
}

/// How a sent command ended, as the caller saw it.
#[derive(Debug)]
pub enum Outcome<E> {
    /// The reply arrived: the result routed to the command.
    Replied(Result<Json, E>),
    /// No reply came within the timeout.
    TimedOut(Duration),
    /// The command was dropped without a reply (the connection closed).
    Dropped,
}

/// What a CDP command returns: its result; a protocol error named after the
/// command; a timeout naming the command; `Closed` when it was dropped; any
/// other error as it came.
pub fn cdp_command_result(method: &str, outcome: Outcome<CdpError>) -> (r: Result<Json, CdpError>)
    ensures
        match outcome {
            Outcome::Replied(Ok(v)) => r == Ok::<Json, CdpError>(v),
            Outcome::Replied(Err(CdpError::Protocol { code, message, data, .. })) => r matches Err(
                CdpError::Protocol { method: m, code: c, message: msg, data: d },
            ) && m@ == method@ && c == code && msg == message && d == data,
            Outcome::Replied(Err(e)) => r == Err::<Json, CdpError>(e),
            Outcome::TimedOut(d) => r matches Err(CdpError::Timeout { method: m, timeout }) && m@ == method@ && timeout
                == d,
            Outcome::Dropped => r matches Err(CdpError::Closed),
        },
{
    match outcome {
        Outcome::Replied(Ok(v)) => Ok(v),
        Outcome::Replied(Err(CdpError::Protocol { code, message, data, .. })) => Err(
            CdpError::Protocol { method: method.to_owned(), code, message, data },
        ),
        Outcome::Replied(Err(e)) => Err(e),
        Outcome::TimedOut(d) => Err(CdpError::Timeout { method: method.to_owned(), timeout: d }),
        Outcome::Dropped => Err(CdpError::Closed),
    }
}

/// What a BiDi command returns: its result; a protocol error named after
/// the command; a timeout naming the command; `Closed` when it was dropped;
/// any other error as it came.
pub fn bidi_command_result(method: &str, outcome: Outcome<BidiError>) -> (r: Result<Json, BidiError>)
    ensures
        match outcome {
            Outcome::Replied(Ok(v)) => r == Ok::<Json, BidiError>(v),
            Outcome::Replied(Err(BidiError::Protocol { error, message, .. })) => r matches Err(
                BidiError::Protocol { method: m, error: e, message: msg },
            ) && m@ == method@ && e == error && msg == message,
            Outcome::Replied(Err(e)) => r == Err::<Json, BidiError>(e),
            Outcome::TimedOut(d) => r matches Err(BidiError::Timeout { method: m, timeout }) && m@ == method@
                && timeout == d,
            Outcome::Dropped => r matches Err(BidiError::Closed),
        },
{
    match outcome {
        Outcome::Replied(Ok(v)) => Ok(v),
        Outcome::Replied(Err(BidiError::Protocol { error, message, .. })) => Err(
            BidiError::Protocol { method: method.to_owned(), error, message },
        ),
        Outcome::Replied(Err(e)) => Err(e),
        Outcome::TimedOut(d) => Err(BidiError::Timeout { method: method.to_owned(), timeout: d }),
        Outcome::Dropped => Err(BidiError::Closed),
    }
}

} // verus!
