//! The message bus: a bounded, multi-subscriber broadcast channel.
//!
//! Every subscriber owns an independent cursor into one shared publish
//! history. Only the most recent `capacity` messages stay buffered; a
//! subscriber whose cursor falls behind the retained window is told it
//! lagged, skips forward to the oldest retained message, and keeps
//! receiving from there — it is never torn down for lagging. The bus
//! itself performs no per-room filtering: every message reaches every
//! subscriber, and room scoping is left to consumers by design.

use vstd::prelude::*;

use crate::message::Message;

verus! {

/// The spec-level state of a bus: the full publish history, the index of
/// the oldest message still buffered, the buffer capacity, and whether
/// the bus has been shut down.
pub ghost struct BusModel {
    pub history: Seq<Message>,
    pub oldest: nat,
    pub capacity: nat,
    pub closed: bool,
}

impl BusModel {
    /// Well-formedness of a bus model: the capacity is positive, the
    /// history fits machine indices, and exactly the most recent
    /// `capacity` messages are retained.
    pub open spec fn inv(self) -> bool {
        &&& 1 <= self.capacity
        &&& self.history.len() <= usize::MAX
        &&& self.oldest == if self.history.len() <= self.capacity {
            0nat
        } else {
            (self.history.len() - self.capacity) as nat
        }
    }
}

/// What one bus publish does to the model: a closed bus is unchanged;
/// otherwise the message is appended to the history and the retained
/// window slides forward once the capacity is full.
pub open spec fn publish_transition(m: BusModel, msg: Message) -> BusModel {
    if m.closed {
        m
    } else {
        let h = m.history.push(msg);
        BusModel {
            history: h,
            oldest: if h.len() <= m.capacity {
                0nat
            } else {
                (h.len() - m.capacity) as nat
            },
            capacity: m.capacity,
            closed: false,
        }
    }
}

/// The outcome of one receive attempt by a subscriber.
pub enum RecvOutcome {
    /// The next message in publish order.
    Received(Message),
    /// The subscriber fell behind the retained window; it skipped
    /// forward and should try again.
    Lagged,
    /// Nothing new yet; the bus is still open.
    Pending,
    /// The bus was shut down and everything buffered has been drained.
    Closed,
}

/// What one receive attempt does: the outcome handed to the subscriber
/// and its new cursor. A cursor behind the retained window lags and
/// skips to the oldest retained message; a cursor inside the history
/// receives the message at its own position, exactly once; a cursor at
/// the end sees `Closed` on a shut-down bus and `Pending` otherwise.
pub open spec fn recv_transition(m: BusModel, cursor: nat) -> (RecvOutcome, nat) {
    if cursor < m.oldest {
        (RecvOutcome::Lagged, m.oldest)
    } else if cursor < m.history.len() {
        (RecvOutcome::Received(m.history[cursor as int]), (cursor + 1) as nat)
    } else if m.closed {
        (RecvOutcome::Closed, cursor)
    } else {
        (RecvOutcome::Pending, cursor)
    }
}

/// Error returned by `publish` once the bus has been shut down.
#[derive(Clone, Copy, Debug, PartialEq, Eq, Structural)]
pub struct BusClosed;

/// One live subscription: an independent receive cursor into the bus.
pub struct Subscriber {
    cursor: usize,
}

impl Subscriber {
    /// The position in the publish history this subscriber will read next.
    pub closed spec fn cursor(self) -> nat {
        self.cursor as nat
    }
}

/// The bus itself. The buffer holds the messages of the history from
/// `head` on; `head` counts the messages already discarded.
pub struct Bus {
    buffer: Vec<Message>,
    head: usize,
    capacity: usize,
    closed: bool,
    history: Ghost<Seq<Message>>,
}

impl View for Bus {
    type V = BusModel;

    closed spec fn view(&self) -> BusModel {
        BusModel {
            history: self.history@,
            oldest: self.head as nat,
            capacity: self.capacity as nat,
            closed: self.closed,
        }
    }
}

impl Bus {
    /// Internal well-formedness: the model invariant holds and the
    /// buffer is exactly the retained tail of the history.
    pub closed spec fn wf(self) -> bool {
        &&& self@.inv()
        &&& self.buffer@.len() == self.history@.len() - self.head
        &&& forall|i: int|
            0 <= i < self.buffer@.len() ==> self.buffer@[i] == self.history@[self.head + i]
    }

    /// A well-formed bus has a well-formed model.
    pub proof fn lemma_wf_inv(self)
        requires
            self.wf(),
        ensures
            self@.inv(),
    {
    }

    /// A fresh, open bus that retains up to `capacity` messages.
    pub fn new(capacity: usize) -> (b: Bus)
        requires
            1 <= capacity,
        ensures
            b.wf(),
            b@.history =~= Seq::<Message>::empty(),
            b@.capacity == capacity,
            b@.oldest == 0,
            !b@.closed,
    {
        Bus {
            buffer: Vec::new(),
            head: 0,
            capacity,
            closed: false,
            history: Ghost(Seq::empty()),
        }
    }

    /// Publishes a message: fire-and-forget, succeeding even with zero
    /// subscribers; fails only once the bus has been shut down, and a
    /// failed publish leaves the history untouched.
    pub fn publish(&mut self, msg: Message) -> (r: Result<(), BusClosed>)
        requires
            old(self).wf(),
            old(self)@.history.len() < usize::MAX,
        ensures
            final(self).wf(),
            final(self)@ == publish_transition(old(self)@, msg),
            r is Ok <==> !old(self)@.closed,
    {
        if self.closed {
            return Err(BusClosed);
        }
        self.history = Ghost(self.history@.push(msg));
        self.buffer.push(msg);
        if self.buffer.len() > self.capacity {
            self.buffer.remove(0);
            self.head = self.head + 1;
        }
        Ok(())
    }

    /// Opens a new subscription. Its cursor starts at the end of the
    /// history: only messages published afterwards are visible.
    pub fn subscribe(&self) -> (s: Subscriber)
        requires
            self.wf(),
        ensures
            s.cursor() == self@.history.len(),
    {
        Subscriber { cursor: self.head + self.buffer.len() }
    }

    /// One receive attempt by `sub`, following `recv_transition`.
    pub fn recv(&self, sub: &mut Subscriber) -> (out: RecvOutcome)
        requires
            self.wf(),
            old(sub).cursor() <= self@.history.len(),
        ensures
            (out, final(sub).cursor()) == recv_transition(self@, old(sub).cursor()),
    {
        if sub.cursor < self.head {
            sub.cursor = self.head;
            RecvOutcome::Lagged
        } else {
            let idx = sub.cursor - self.head;
            if idx < self.buffer.len() {
                let msg = self.buffer[idx].clone();
                sub.cursor = sub.cursor + 1;
                RecvOutcome::Received(msg)
            } else if self.closed {
                RecvOutcome::Closed
            } else {
                RecvOutcome::Pending
            }
        }
    }

    /// Process-wide teardown: no further publishes succeed; subscribers
    /// still drain what is buffered and then see `Closed`.
    pub fn close(&mut self)
        requires
            old(self).wf(),
        ensures
            final(self).wf(),
            final(self)@ == (BusModel { closed: true, ..old(self)@ }),
    {
        self.closed = true;
    }

    /// Total number of messages published so far.
    pub fn history_len(&self) -> (n: usize)
        requires
            self.wf(),
        ensures
            n == self@.history.len(),
    {
        self.head + self.buffer.len()
    }

    /// Whether the bus has been shut down.
    pub fn is_closed(&self) -> (c: bool)
        ensures
            c == self@.closed,
    {
        self.closed
    }
}

/// The messages a subscriber at `cursor` still receives if it drains the
/// bus as it stands: what repeated receive attempts deliver, skipping
/// one lag, until the subscriber would block or the stream ends.
pub open spec fn drained(m: BusModel, cursor: nat) -> Seq<Message>
    decreases m.history.len() - cursor,
    when m.inv() && cursor <= m.history.len()
{
    let (out, c2) = recv_transition(m, cursor);
    match out {
        RecvOutcome::Received(msg) => seq![msg] + drained(m, c2),
        RecvOutcome::Lagged => drained(m, c2),
        _ => Seq::<Message>::empty(),
    }
}

/// Fan-out law: a subscriber that has not fallen behind the retained
/// window receives exactly the messages published at or after its
/// cursor, each exactly once (one delivery per history position), in
/// publish order. In particular, a subscriber connected before a message
/// was published, whose cursor is therefore at or below that message's
/// position, receives it exactly once and in order when it drains.
pub proof fn lemma_drain_in_order_exactly_once(m: BusModel, cursor: nat)
    requires
        m.inv(),
        m.oldest <= cursor <= m.history.len(),
    ensures
        drained(m, cursor) =~= m.history.subrange(cursor as int, m.history.len() as int),
    decreases m.history.len() - cursor,
{
    if cursor < m.history.len() {
        lemma_drain_in_order_exactly_once(m, (cursor + 1) as nat);
        assert(m.history.subrange(cursor as int, m.history.len() as int) =~= seq![
            m.history[cursor as int],
        ] + m.history.subrange(cursor as int + 1, m.history.len() as int));
    }
}

/// No backlog replay: a subscriber whose cursor is already past position
/// `i` — as it is from the moment it subscribes, for every message
/// published before the subscription — receives only messages at
/// positions beyond `i`, so the message published at `i` never reaches it.
pub proof fn lemma_no_replay(m: BusModel, cursor: nat, i: nat)
    requires
        m.inv(),
        m.oldest <= cursor <= m.history.len(),
        i < cursor,
    ensures
        forall|k: int|
            0 <= k < drained(m, cursor).len() ==> drained(m, cursor)[k] == m.history[cursor + k]
                && cursor + k > i,
{
    lemma_drain_in_order_exactly_once(m, cursor);
}

/// Publishing only appends: every message already in the history keeps
/// its position and value, so the publish order seen by one subscriber
/// is the publish order seen by all.
pub proof fn lemma_publish_appends(m: BusModel, msg: Message)
    ensures
        m.history.len() <= publish_transition(m, msg).history.len(),
        forall|i: int|
            0 <= i < m.history.len() ==> #[trigger] publish_transition(m, msg).history[i]
                == m.history[i],
{
}

/// The cursor never moves backwards, whatever a receive attempt returns.
pub proof fn lemma_cursor_monotone(m: BusModel, cursor: nat)
    requires
        m.inv(),
        cursor <= m.history.len(),
    ensures
        recv_transition(m, cursor).1 >= cursor,
{
}

/// A subscriber lags exactly when its backlog exceeds the bus capacity.
pub proof fn lemma_lag_iff_backlog_exceeds_capacity(m: BusModel, cursor: nat)
    requires
        m.inv(),
        cursor <= m.history.len(),
    ensures
        recv_transition(m, cursor).0 is Lagged <==> m.history.len() - cursor > m.capacity,
{
}

/// Lag-skip law: a subscriber that fell behind is told so once, skips
/// the overflow, and then resumes receiving every retained message in
/// order — lagging never costs it the rest of the stream and never
/// disconnects it.
pub proof fn lemma_lag_skip_resumes(m: BusModel, cursor: nat)
    requires
        m.inv(),
        cursor < m.oldest,
    ensures
        recv_transition(m, cursor).0 is Lagged,
        recv_transition(m, cursor).1 == m.oldest,
        drained(m, cursor) =~= m.history.subrange(m.oldest as int, m.history.len() as int),
{
    lemma_drain_in_order_exactly_once(m, m.oldest);
}

} // verus!
