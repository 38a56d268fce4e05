//! The push-stream state machine: what one long-lived client connection
//! does on each turn of its event loop, racing "next message available"
//! against "cancellation requested". The caller performs the waiting and
//! the wire I/O; the decision of what each turn means is made — and
//! verified — here.

use vstd::prelude::*;

use crate::bus::{recv_transition, Bus, RecvOutcome, Subscriber};
use crate::message::Message;

verus! {

/// What the push stream does after one race of "next message" against
/// the cancellation signal.
pub enum StreamAction {
    /// Deliver this message to the client as one discrete push event
    /// carrying its room, username and text.
    Emit(Message),
    /// A lagged read: skip the overflow silently and go on; no error
    /// event is emitted and the stream is not torn down.
    Skip,
    /// Nothing available yet: run the race again.
    Wait,
    /// Terminate the stream cleanly (cancellation won, or the bus was
    /// shut down and drained).
    Terminate,
}

/// One turn of the push-stream loop, given which side won the race.
/// Cancellation wins outright: once it is requested, nothing more is
/// emitted, whatever was received.
pub fn stream_step(cancelled: bool, received: RecvOutcome) -> (a: StreamAction)
    ensures
        cancelled ==> a is Terminate,
        !cancelled ==> match received {
            RecvOutcome::Received(m) => a == StreamAction::Emit(m),
            RecvOutcome::Lagged => a is Skip,
            RecvOutcome::Pending => a is Wait,
            RecvOutcome::Closed => a is Terminate,
        },
{
    if cancelled {
        StreamAction::Terminate
    } else {
        match received {
            RecvOutcome::Received(m) => StreamAction::Emit(m),
            RecvOutcome::Lagged => StreamAction::Skip,
            RecvOutcome::Pending => StreamAction::Wait,
            RecvOutcome::Closed => StreamAction::Terminate,
        }
    }
}

/// One full turn against a live bus: checks cancellation first — an
/// already-cancelled stream abandons its buffered messages untouched —
/// and otherwise receives once and maps the outcome to an action.
pub fn stream_poll(bus: &Bus, sub: &mut Subscriber, cancelled: bool) -> (a: StreamAction)
    requires
        bus.wf(),
        old(sub).cursor() <= bus@.history.len(),
    ensures
        final(sub).cursor() <= bus@.history.len(),
        cancelled ==> a is Terminate && *final(sub) == *old(sub),
        !cancelled ==> ({
            let (out, c2) = recv_transition(bus@, old(sub).cursor());
            &&& final(sub).cursor() == c2
            &&& match out {
                RecvOutcome::Received(m) => a == StreamAction::Emit(m),
                RecvOutcome::Lagged => a is Skip,
                RecvOutcome::Pending => a is Wait,
                RecvOutcome::Closed => a is Terminate,
            }
        }),
{
    if cancelled {
        StreamAction::Terminate
    } else {
        proof {
            bus.lemma_wf_inv();
        }
        let out = bus.recv(sub);
        stream_step(false, out)
    }
}

} // verus!
