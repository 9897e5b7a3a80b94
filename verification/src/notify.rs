//! The notification server's fan-out discipline and line protocol.
//!
//! A single signal is relayed to every connected peer: each connection
//! subscribes to a shared fan-out channel when it is accepted, and every
//! published message reaches every subscriber exactly once, in publish order,
//! unless the subscriber falls behind the bounded retention window — then it
//! skips forward to the next retained message and continues, by design,
//! rather than stalling the publisher or being disconnected.
//!
//! Each connection owns its own subscriber cursor; receiving never touches
//! the channel or any other subscriber, so a failure on one connection has no
//! effect on the others or on the channel itself.

use vstd::prelude::*;
use vstd::string::*;

verus! {

/// How many outstanding messages the fan-out channel retains for a slow
/// subscriber before it must skip forward.
pub const FANOUT_CAPACITY: usize = 10;

/// Where a trigger originated: inside this process, or from a connected peer
/// (identified by its rendered peer address).
#[derive(Debug)]
pub enum Source {
    Internal,
    Socket(String),
}

/// The single message variant the fan-out channel carries.
#[derive(Debug)]
pub enum Message {
    DingDong(Source),
}

/// The shared fan-out channel: the full publish history and whether the
/// sending side has shut down. Subscribers address the history through their
/// own cursors; the channel itself never tracks them, so publishing can
/// never be blocked by a slow subscriber.
pub struct Channel {
    messages: Vec<Message>,
    closed: bool,
}

/// One subscriber's position in the publish history.
pub struct Subscriber {
    cursor: usize,
}

/// What one receive attempt yields.
#[derive(Debug)]
pub enum RecvOutcome {
    /// The next message, delivered exactly once and in publish order.
    Message(Message),
    /// The subscriber fell behind the retention window: this many messages
    /// were skipped, and the cursor resynchronized to the next retained one.
    Lagged(usize),
    /// The sending side has shut down and everything published was consumed.
    Closed,
    /// Nothing published yet beyond the cursor: the caller suspends until
    /// woken by a publish or a shutdown.
    Pending,
}

/// What one receive attempt does, as a function of the publish history, the
/// shutdown flag and the subscriber's cursor: the new cursor and the outcome.
pub open spec fn recv_spec(msgs: Seq<Message>, closed: bool, cursor: nat) -> (nat, RecvOutcome) {
    if cursor + FANOUT_CAPACITY < msgs.len() {
        (
            (msgs.len() - FANOUT_CAPACITY) as nat,
            RecvOutcome::Lagged((msgs.len() - FANOUT_CAPACITY - cursor) as usize),
        )
    } else if cursor < msgs.len() {
        ((cursor + 1) as nat, RecvOutcome::Message(msgs[cursor as int]))
    } else if closed {
        (cursor, RecvOutcome::Closed)
    } else {
        (cursor, RecvOutcome::Pending)
    }
}

impl Clone for Source {
    fn clone(&self) -> (r: Source)
        ensures
            r == *self,
    {
        match self {
            Source::Internal => Source::Internal,
            Source::Socket(addr) => Source::Socket(addr.clone()),
        }
    }
}

impl Clone for Message {
    fn clone(&self) -> (r: Message)
        ensures
            r == *self,
    {
        match self {
            Message::DingDong(s) => Message::DingDong(s.clone()),
        }
    }
}

impl Channel {
    pub closed spec fn spec_messages(&self) -> Seq<Message> {
        self.messages@
    }

    pub closed spec fn spec_closed(&self) -> bool {
        self.closed
    }

    /// A fresh channel: nothing published, sender alive.
    pub fn new() -> (r: Channel)
        ensures
            r.spec_messages() == Seq::<Message>::empty(),
            !r.spec_closed(),
    {
        let r = Channel { messages: Vec::new(), closed: false };
        proof {
            assert(r.messages@ =~= Seq::<Message>::empty());
        }
        r
    }

    /// Subscribe at the present moment: the new subscriber sees only messages
    /// published after this call.
    pub fn subscribe(&self) -> (r: Subscriber)
        ensures
            r.spec_cursor() == self.spec_messages().len(),
            r.valid_for(self),
    {
        Subscriber { cursor: self.messages.len() }
    }

    /// Publish one message to every current subscriber. Publishing appends to
    /// the history unconditionally: no subscriber, however slow, can block or
    /// fail it.
    pub fn publish(&mut self, m: Message)
        requires
            !old(self).spec_closed(),
        ensures
            final(self).spec_messages() == old(self).spec_messages().push(m),
            !final(self).spec_closed(),
    {
        self.messages.push(m);
    }

    /// Shut the sending side down. Subscribers still drain what was already
    /// published, then observe `Closed`.
    pub fn close(&mut self)
        ensures
            final(self).spec_messages() == old(self).spec_messages(),
            final(self).spec_closed(),
    {
        self.closed = true;
    }

    /// One receive attempt by `sub`. Touches nothing but the subscriber's own
    /// cursor: the channel and every other subscriber are left as they are.
    pub fn recv(&self, sub: &mut Subscriber) -> (r: RecvOutcome)
        requires
            old(sub).valid_for(self),
        ensures
            final(sub).valid_for(self),
            (final(sub).spec_cursor() as nat, r) == recv_spec(
                self.spec_messages(),
                self.spec_closed(),
                old(sub).spec_cursor() as nat,
            ),
    {
        let len = self.messages.len();
        if sub.cursor < len && len - sub.cursor > FANOUT_CAPACITY {
            let missed = len - FANOUT_CAPACITY - sub.cursor;
            sub.cursor = len - FANOUT_CAPACITY;
            RecvOutcome::Lagged(missed)
        } else if sub.cursor < len {
            let m = self.messages[sub.cursor].clone();
            sub.cursor = sub.cursor + 1;
            RecvOutcome::Message(m)
        } else if self.closed {
            RecvOutcome::Closed
        } else {
            RecvOutcome::Pending
        }
    }
}

impl Subscriber {
    pub closed spec fn spec_cursor(&self) -> usize {
        self.cursor
    }

    /// A subscriber never points past the channel's publish history.
    pub open spec fn valid_for(&self, ch: &Channel) -> bool {
        self.spec_cursor() <= ch.spec_messages().len()
    }
}

/// What the per-connection write loop does with one receive outcome.
#[derive(Clone, Copy, Debug, PartialEq, Eq, Structural)]
pub enum WriteAction {
    /// Write the literal trigger line and flush.
    Send,
    /// Fell behind: resynchronize and continue; never an error, never a
    /// disconnect.
    Skip,
    /// Sending side gone: end this connection's write loop.
    Stop,
    /// Nothing to deliver yet: suspend until woken.
    Wait,
}

pub open spec fn write_step_spec(r: RecvOutcome) -> WriteAction {
    match r {
        RecvOutcome::Message(_) => WriteAction::Send,
        RecvOutcome::Lagged(_) => WriteAction::Skip,
        RecvOutcome::Closed => WriteAction::Stop,
        RecvOutcome::Pending => WriteAction::Wait,
    }
}

/// Decide what the write loop does with one receive outcome: every delivered
/// message becomes exactly one outbound trigger line; lag is absorbed, never
/// propagated.
pub fn write_step(r: &RecvOutcome) -> (a: WriteAction)
    ensures
        a == write_step_spec(*r),
{
    match r {
        RecvOutcome::Message(_) => WriteAction::Send,
        RecvOutcome::Lagged(_) => WriteAction::Skip,
        RecvOutcome::Closed => WriteAction::Stop,
        RecvOutcome::Pending => WriteAction::Wait,
    }
}

/// The one inbound line the protocol recognizes.
pub fn is_trigger_line(line: &String) -> (r: bool)
    ensures
        r == (line@ == "dingdong"@),
{
    let t: String = String::from_str("dingdong");
    *line == t
}

/// What the per-connection read loop publishes for one inbound line: a
/// trigger attributed to the peer for the recognized line, nothing for any
/// other line (silently ignored).
pub fn read_step(line: &String, peer: String) -> (r: Option<Message>)
    ensures
        line@ == "dingdong"@ ==> r == Some(Message::DingDong(Source::Socket(peer))),
        line@ != "dingdong"@ ==> r is None,
{
    if is_trigger_line(line) {
        Some(Message::DingDong(Source::Socket(peer)))
    } else {
        None
    }
}

/// The one outbound line, written once per message reaching a connection.
pub fn ding_dong_line() -> (r: String)
    ensures
        r@ == "dingdong\n"@,
{
    String::from_str("dingdong\n")
}

/// The outcomes of `k` successive receive attempts from `cursor`.
pub open spec fn outcomes_from(msgs: Seq<Message>, closed: bool, cursor: nat, k: nat) -> Seq<
    RecvOutcome,
>
    decreases k,
{
    if k == 0 {
        Seq::empty()
    } else {
        let (c2, r) = recv_spec(msgs, closed, cursor);
        seq![r] + outcomes_from(msgs, closed, c2, (k - 1) as nat)
    }
}

/// Law (fan-out): a subscriber that stays within the retention window
/// receives each published message exactly once and in publish order: its
/// next `k` receive attempts deliver precisely the messages at positions
/// `cursor` through `cursor + k - 1` of the publish history.
pub proof fn lemma_fan_out_in_order(msgs: Seq<Message>, closed: bool, cursor: nat, k: nat)
    requires
        cursor + k <= msgs.len(),
        msgs.len() - cursor <= FANOUT_CAPACITY,
    ensures
        outcomes_from(msgs, closed, cursor, k) =~= msgs.subrange(
            cursor as int,
            (cursor + k) as int,
        ).map_values(|m: Message| RecvOutcome::Message(m)),
    decreases k,
{
    if k > 0 {
        lemma_fan_out_in_order(msgs, closed, cursor + 1, (k - 1) as nat);
    }
}

/// Law (lag handling): a subscriber that has fallen more than the retention
/// window behind observes a lag event that says how many messages it lost,
/// resynchronizes to the next retained message, and its write loop continues
/// rather than erroring out or disconnecting.
pub proof fn lemma_lag_resynchronizes(msgs: Seq<Message>, closed: bool, cursor: nat)
    requires
        cursor + FANOUT_CAPACITY < msgs.len(),
    ensures
        recv_spec(msgs, closed, cursor).0 == msgs.len() - FANOUT_CAPACITY,
        recv_spec(msgs, closed, cursor).1 == RecvOutcome::Lagged(
            (msgs.len() - FANOUT_CAPACITY - cursor) as usize,
        ),
        write_step_spec(recv_spec(msgs, closed, cursor).1) == WriteAction::Skip,
        msgs.len() - recv_spec(msgs, closed, cursor).0 == FANOUT_CAPACITY,
{
}

} // verus!
