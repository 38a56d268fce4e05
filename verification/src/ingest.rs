//! The ingest endpoint: validation in front of the bus.

use vstd::prelude::*;

use crate::bus::{publish_transition, Bus};
use crate::message::{Message, ValidationError, MAX_TAG_LEN};

verus! {

/// Accepts a submitted message. An invalid message (oversized `room` or
/// `username`) is rejected before any publish attempt and the bus is
/// left untouched; a valid one is published. A bus-closed publish
/// failure is swallowed, not surfaced to the submitting client: the
/// relay is deliberately lenient there, and the caller still sees `Ok`.
pub fn ingest(bus: &mut Bus, msg: Message) -> (r: Result<(), ValidationError>)
    requires
        old(bus).wf(),
        old(bus)@.history.len() < usize::MAX,
    ensures
        final(bus).wf(),
        r is Ok <==> msg.is_valid(),
        !msg.is_valid() ==> final(bus)@ == old(bus)@,
        msg.is_valid() ==> final(bus)@ == publish_transition(old(bus)@, msg),
        msg.room@.len() > MAX_TAG_LEN ==> r == Err::<(), ValidationError>(
            ValidationError::RoomTooLong,
        ),
        msg.room@.len() <= MAX_TAG_LEN && msg.username@.len() > MAX_TAG_LEN ==> r == Err::<
            (),
            ValidationError,
        >(ValidationError::UsernameTooLong),
{
    match msg.validate() {
        Ok(()) => {
            let _ = bus.publish(msg);
            Ok(())
        },
        Err(e) => Err(e),
    }
}

} // verus!
