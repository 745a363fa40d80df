//! One delivery of a notification, as a state machine that the caller drives:
//! it asks for a connection, for the encoded bytes to be written (retrying
//! short writes), and for one bounded read of whatever reply may come.

use crate::wire::{encodable, encode_notification, notification_bytes};
use vstd::prelude::*;
use vstd::slice::slice_subrange;

verus! {

/// The ways a delivery fails.
#[derive(Clone, Copy, Debug, PartialEq, Eq, Structural)]
pub enum NotifyError {
    /// The endpoint could not be connected to.
    ConnectFailed,
    /// The command could not be put in the wire format.
    EncodeFailed,
    /// Sending the message failed; it may not have arrived.
    WriteFailed,
    /// Waiting for a reply failed other than by running out of time.
    ReadFailed,
}

/// How an I/O operation on the channel failed.
#[derive(Clone, Copy, Debug, PartialEq, Eq, Structural)]
pub enum IoFailure {
    /// The bound on the operation elapsed.
    TimedOut,
    /// No data was ready; on a channel with a timeout this is how an elapsed
    /// bound shows on some systems.
    WouldBlock,
    /// A signal cut the operation short before it did anything.
    Interrupted,
    /// Any other failure (reset, broken pipe, ...).
    Other,
}

/// What the caller reports after doing what a `Step` asked.
#[derive(Clone, Copy, Debug, PartialEq, Eq, Structural)]
pub enum Event {
    Connected,
    ConnectError,
    /// A write took this many bytes from the front of `unsent`.
    Wrote(usize),
    WriteError(IoFailure),
    /// The read returned, with this many bytes (which are not looked at).
    Replied(usize),
    ReadError(IoFailure),
}

/// What the caller is asked to do next.
#[derive(Clone, Copy, Debug, PartialEq, Eq, Structural)]
pub enum Step {
    /// Connect to the endpoint.
    Connect,
    /// Write the bytes of `unsent`, or a prefix of them.
    Write,
    /// Make one bounded read.
    Read,
    /// Stop: `outcome` holds the result.
    Finish,
}

/// Where a delivery stands.
#[derive(Clone, Copy, Debug, PartialEq, Eq, Structural)]
pub enum Phase {
    Unconnected,
    Sending,
    AwaitingReply,
    Delivered,
    Failed(NotifyError),
}

/// The abstract state of a delivery: the encoded message (absent where the
/// command could not be encoded), how many of its bytes were sent, the phase.
pub struct DeliveryState {
    pub payload: Option<Seq<u8>>,
    pub sent: nat,
    pub phase: Phase,
}

/// A delivery in progress.
pub struct Delivery {
    payload: Option<Vec<u8>>,
    sent: usize,
    phase: Phase,
}

/// The bytes of the message, or none.
pub open spec fn payload_of(s: DeliveryState) -> Seq<u8> {
    match s.payload {
        Some(p) => p,
        None => Seq::empty(),
    }
}

/// The state of a delivery of `command` before anything was done.
pub open spec fn initial(command: Seq<char>) -> DeliveryState {
    DeliveryState {
        payload: if encodable(command) {
            Some(notification_bytes(command))
        } else {
            None
        },
        sent: 0,
        phase: Phase::Unconnected,
    }
}

/// What a delivery in `phase` asks for.
pub open spec fn step_of(phase: Phase) -> Step {
    match phase {
        Phase::Unconnected => Step::Connect,
        Phase::Sending => Step::Write,
        Phase::AwaitingReply => Step::Read,
        _ => Step::Finish,
    }
}

/// The result of a delivery in `phase`, once it has one.
pub open spec fn outcome_of(phase: Phase) -> Option<Result<(), NotifyError>> {
    match phase {
        Phase::Delivered => Some(Ok(())),
        Phase::Failed(e) => Some(Err(e)),
        _ => None,
    }
}

/// Whether a failed read means only that no reply came within the bound.
pub open spec fn is_timeout(f: IoFailure) -> bool {
    f == IoFailure::TimedOut || f == IoFailure::WouldBlock
}

/// The state after `e` is reported in state `s`. An event that does not
/// answer what the phase asked for changes nothing; so does an interrupted
/// write, which is tried again. A write that reports taking no bytes, or more
/// than were left, is a failed write.
pub open spec fn next(s: DeliveryState, e: Event) -> DeliveryState {
    match (s.phase, e) {
        (Phase::Unconnected, Event::Connected) => match s.payload {
            Some(p) => DeliveryState {
                phase: if p.len() == 0 {
                    Phase::AwaitingReply
                } else {
                    Phase::Sending
                },
                ..s
            },
            None => DeliveryState { phase: Phase::Failed(NotifyError::EncodeFailed), ..s },
        },
        (Phase::Unconnected, Event::ConnectError) => DeliveryState {
            phase: Phase::Failed(NotifyError::ConnectFailed),
            ..s
        },
        (Phase::Sending, Event::Wrote(n)) => {
            let len = payload_of(s).len();
            if n == 0 || s.sent + n > len {
                DeliveryState { phase: Phase::Failed(NotifyError::WriteFailed), ..s }
            } else {
                DeliveryState {
                    sent: (s.sent + n) as nat,
                    phase: if s.sent + n == len {
                        Phase::AwaitingReply
                    } else {
                        Phase::Sending
                    },
                    ..s
                }
            }
        },
        (Phase::Sending, Event::WriteError(f)) => if f == IoFailure::Interrupted {
            s
        } else {
            DeliveryState { phase: Phase::Failed(NotifyError::WriteFailed), ..s }
        },
        (Phase::AwaitingReply, Event::Replied(_)) => DeliveryState {
            phase: Phase::Delivered,
            ..s
        },
        (Phase::AwaitingReply, Event::ReadError(f)) => if is_timeout(f) {
            DeliveryState { phase: Phase::Delivered, ..s }
        } else {
            DeliveryState { phase: Phase::Failed(NotifyError::ReadFailed), ..s }
        },
        _ => s,
    }
}

/// The state after the events `es`, in order, starting from `s`.
pub open spec fn run(s: DeliveryState, es: Seq<Event>) -> DeliveryState
    decreases es.len(),
{
    if es.len() == 0 {
        s
    } else {
        run(next(s, es[0]), es.drop_first())
    }
}

/// The invariant of a delivery: no more bytes sent than the message has, the
/// message present once sending starts, and all of it sent once a reply is
/// awaited.
pub open spec fn well_formed(s: DeliveryState) -> bool {
    &&& s.sent <= payload_of(s).len()
    &&& s.phase == Phase::Unconnected ==> s.sent == 0
    &&& (s.phase == Phase::Sending || s.phase == Phase::AwaitingReply || s.phase
        == Phase::Delivered) ==> s.payload.is_some()
    &&& s.phase == Phase::Sending ==> s.sent < payload_of(s).len()
    &&& (s.phase == Phase::AwaitingReply || s.phase == Phase::Delivered) ==> s.sent == payload_of(
        s,
    ).len()
}

/// Every event keeps a delivery well formed.
pub proof fn lemma_next_well_formed(s: DeliveryState, e: Event)
    requires
        well_formed(s),
    ensures
        well_formed(next(s, e)),
{
}

/// A delivery that has its result keeps it, whatever is reported after.
pub proof fn lemma_finished_is_final(s: DeliveryState, es: Seq<Event>)
    requires
        outcome_of(s.phase).is_some(),
    ensures
        run(s, es) == s,
    decreases es.len(),
{
    if es.len() > 0 {
        lemma_finished_is_final(next(s, es[0]), es.drop_first());
    }
}

/// A failed connection ends the delivery with `ConnectFailed`, with nothing sent.
pub proof fn lemma_connect_error(command: Seq<char>)
    ensures
        run(initial(command), seq![Event::ConnectError]).phase == Phase::Failed(
            NotifyError::ConnectFailed,
        ),
        run(initial(command), seq![Event::ConnectError]).sent == 0,
{
    reveal_with_fuel(run, 2);
}

/// A write that takes the rest of the message, then a read that runs out of
/// time, ends in success.
pub proof fn lemma_timeout_after_write(s: DeliveryState, n: usize, f: IoFailure)
    requires
        well_formed(s),
        s.phase == Phase::Sending,
        s.sent + n == payload_of(s).len(),
        is_timeout(f),
    ensures
        run(s, seq![Event::Wrote(n), Event::ReadError(f)]).phase == Phase::Delivered,
{
    reveal_with_fuel(run, 3);
}

/// A write that takes the rest of the message, then a read that returns any
/// number of bytes, ends in success.
pub proof fn lemma_reply_after_write(s: DeliveryState, n: usize, m: usize)
    requires
        well_formed(s),
        s.phase == Phase::Sending,
        s.sent + n == payload_of(s).len(),
    ensures
        run(s, seq![Event::Wrote(n), Event::Replied(m)]).phase == Phase::Delivered,
{
    reveal_with_fuel(run, 3);
}

/// A write that fails, or reports taking nothing, ends the delivery with
/// `WriteFailed`, counting as sent only the bytes taken before it.
pub proof fn lemma_failed_write(s: DeliveryState, e: Event)
    requires
        well_formed(s),
        s.phase == Phase::Sending,
        e == Event::Wrote(0) || (e matches Event::WriteError(f) && f != IoFailure::Interrupted),
    ensures
        next(s, e).phase == Phase::Failed(NotifyError::WriteFailed),
        next(s, e).sent == s.sent,
{
}

/// The count of bytes sent grows only by what a write reported taking.
pub proof fn lemma_sent_as_reported(s: DeliveryState, e: Event)
    ensures
        next(s, e).sent == s.sent || (e matches Event::Wrote(n) && next(s, e).sent == s.sent + n),
{
}

/// The sum of the counts `ns`.
pub open spec fn total(ns: Seq<usize>) -> nat
    decreases ns.len(),
{
    if ns.len() == 0 {
        0
    } else {
        ns[0] as nat + total(ns.drop_first())
    }
}

/// Reports of writes that took `ns[0]`, `ns[1]`, ... bytes, in order.
pub open spec fn writes(ns: Seq<usize>) -> Seq<Event> {
    ns.map_values(|n: usize| Event::Wrote(n))
}

/// No event changes the message that is being delivered.
pub proof fn lemma_payload_kept(s: DeliveryState, e: Event)
    ensures
        next(s, e).payload == s.payload,
{
}

/// Writes of any sizes, each taking some bytes and together the rest of the
/// message, leave the message unchanged, all of it counted as sent, and a
/// reply awaited: nothing further is asked to be written.
pub proof fn lemma_chunked_writes(s: DeliveryState, ns: Seq<usize>)
    requires
        well_formed(s),
        s.phase == Phase::Sending,
        forall|i: int| 0 <= i < ns.len() ==> ns[i] > 0,
        s.sent + total(ns) == payload_of(s).len(),
    ensures
        run(s, writes(ns)).phase == Phase::AwaitingReply,
        run(s, writes(ns)).sent == payload_of(s).len(),
        run(s, writes(ns)).payload == s.payload,
    decreases ns.len(),
{
    let rest = ns.drop_first();
    let s1 = next(s, Event::Wrote(ns[0]));
    assert(writes(ns).drop_first() =~= writes(rest));
    assert(writes(ns)[0] == Event::Wrote(ns[0]));
    if rest.len() == 0 {
        assert(writes(rest) =~= Seq::<Event>::empty());
        reveal_with_fuel(total, 2);
        reveal_with_fuel(run, 2);
    } else {
        assert(total(rest) >= rest[0] as nat) by {
            reveal_with_fuel(total, 2);
        }
        lemma_chunked_writes(s1, rest);
    }
}

/// A reply that comes just as the bound elapses ends the delivery in success
/// whether the read returns it or runs out of time.
pub proof fn lemma_reply_at_bound(s: DeliveryState, n: usize, f: IoFailure)
    requires
        s.phase == Phase::AwaitingReply,
        is_timeout(f),
    ensures
        outcome_of(next(s, Event::Replied(n)).phase) == Some(Ok::<(), NotifyError>(())),
        outcome_of(next(s, Event::ReadError(f)).phase) == Some(Ok::<(), NotifyError>(())),
{
}

/// A delivery of an encodable command over a channel that connects and takes
/// the whole message in one write sends exactly the encoded notification and
/// succeeds, whether a reply comes or the read runs out of time.
pub proof fn lemma_whole_delivery(command: Seq<char>, n: usize, reply: Event)
    requires
        encodable(command),
        n == notification_bytes(command).len(),
        (reply matches Event::Replied(_)) || (reply matches Event::ReadError(f) && is_timeout(f)),
    ensures
        ({
            let end = run(
                initial(command),
                seq![Event::Connected, Event::Wrote(n), reply],
            );
            &&& end.phase == Phase::Delivered
            &&& end.payload == Some(notification_bytes(command))
            &&& end.sent == n
        }),
{
    reveal_with_fuel(run, 4);
}

impl View for Delivery {
    type V = DeliveryState;

    closed spec fn view(&self) -> DeliveryState {
        DeliveryState {
            payload: match self.payload {
                Some(p) => Some(p@),
                None => None,
            },
            sent: self.sent as nat,
            phase: self.phase,
        }
    }
}

impl Delivery {
    /// Starts a delivery of `command`, encoding it up front.
    pub fn new(command: &str) -> (r: Delivery)
        ensures
            r@ == initial(command@),
            well_formed(r@),
    {
        Delivery { payload: encode_notification(command), sent: 0, phase: Phase::Unconnected }
    }

    /// What the caller has to do next.
    pub fn next_step(&self) -> (r: Step)
        ensures
            r == step_of(self@.phase),
    {
        match self.phase {
            Phase::Unconnected => Step::Connect,
            Phase::Sending => Step::Write,
            Phase::AwaitingReply => Step::Read,
            _ => Step::Finish,
        }
    }

    /// Takes in what came of the last step.
    pub fn handle(&mut self, e: Event)
        requires
            well_formed(old(self)@),
        ensures
            final(self)@ == next(old(self)@, e),
            well_formed(final(self)@),
    {
        match (self.phase, e) {
            (Phase::Unconnected, Event::Connected) => {
                match &self.payload {
                    Some(p) => {
                        self.phase =
                        if p.len() == 0 {
                            Phase::AwaitingReply
                        } else {
                            Phase::Sending
                        };
                    },
                    None => {
                        self.phase = Phase::Failed(NotifyError::EncodeFailed);
                    },
                }
            },
            (Phase::Unconnected, Event::ConnectError) => {
                self.phase = Phase::Failed(NotifyError::ConnectFailed);
            },
            (Phase::Sending, Event::Wrote(n)) => {
                let len = match &self.payload {
                    Some(p) => p.len(),
                    None => 0,
                };
                if n == 0 || n > len - self.sent {
                    self.phase = Phase::Failed(NotifyError::WriteFailed);
                } else {
                    self.sent = self.sent + n;
                    if self.sent == len {
                        self.phase = Phase::AwaitingReply;
                    }
                }
            },
            (Phase::Sending, Event::WriteError(f)) => {
                if f != IoFailure::Interrupted {
                    self.phase = Phase::Failed(NotifyError::WriteFailed);
                }
            },
            (Phase::AwaitingReply, Event::Replied(_)) => {
                self.phase = Phase::Delivered;
            },
            (Phase::AwaitingReply, Event::ReadError(f)) => {
                if f == IoFailure::TimedOut || f == IoFailure::WouldBlock {
                    self.phase = Phase::Delivered;
                } else {
                    self.phase = Phase::Failed(NotifyError::ReadFailed);
                }
            },
            _ => {},
        }
    }

    /// The bytes of the message that are still to be written.
    pub fn unsent(&self) -> (r: &[u8])
        requires
            well_formed(self@),
        ensures
            r@ == payload_of(self@).subrange(self@.sent as int, payload_of(self@).len() as int),
    {
        match &self.payload {
            Some(p) => slice_subrange(p.as_slice(), self.sent, p.len()),
            None => &[],
        }
    }

    /// How many bytes of the message the channel has taken.
    pub fn sent(&self) -> (r: usize)
        ensures
            r == self@.sent,
    {
        self.sent
    }

    /// Where the delivery stands.
    pub fn phase(&self) -> (r: Phase)
        ensures
            r == self@.phase,
    {
        self.phase
    }

    /// The result, once the delivery is over.
    pub fn outcome(&self) -> (r: Option<Result<(), NotifyError>>)
        ensures
            r == outcome_of(self@.phase),
    {
        match self.phase {
            Phase::Delivered => Some(Ok(())),
            Phase::Failed(e) => Some(Err(e)),
            _ => None,
        }
    }
}

} // verus!
