//! The message record carried by the bus, and its ingest validity rule.

use vstd::prelude::*;

verus! {

/// Longest permitted `room` or `username` field, in characters.
pub const MAX_TAG_LEN: usize = 30;

/// One chat message: a room tag, the sender's display name, and the text.
/// Immutable once published; it exists only for the duration of fan-out.
pub struct Message {
    pub room: String,
    pub username: String,
    pub text: String,
}

impl Message {
    /// The ingest validity rule: `room` and `username` are at most
    /// `MAX_TAG_LEN` characters; `text` is unconstrained.
    pub open spec fn is_valid(self) -> bool {
        self.room@.len() <= MAX_TAG_LEN && self.username@.len() <= MAX_TAG_LEN
    }
}

impl Clone for Message {
    fn clone(&self) -> (r: Self)
        ensures
            r == *self,
    {
        Message {
            room: self.room.clone(),
            username: self.username.clone(),
            text: self.text.clone(),
        }
    }
}

/// Why a submitted message was rejected at ingest.
#[derive(Clone, Copy, Debug, PartialEq, Eq, Structural)]
pub enum ValidationError {
    RoomTooLong,
    UsernameTooLong,
}

impl Message {
    /// Checks the validity rule. Returns `Ok` exactly on valid messages;
    /// an oversized `room` is reported before an oversized `username`.
    pub fn validate(&self) -> (r: Result<(), ValidationError>)
        ensures
            r is Ok <==> self.is_valid(),
            self.room@.len() > MAX_TAG_LEN ==> r == Err::<(), ValidationError>(
                ValidationError::RoomTooLong,
            ),
            self.room@.len() <= MAX_TAG_LEN && self.username@.len() > MAX_TAG_LEN ==> r
                == Err::<(), ValidationError>(ValidationError::UsernameTooLong),
    {
        if self.room.as_str().unicode_len() > MAX_TAG_LEN {
            Err(ValidationError::RoomTooLong)
        } else if self.username.as_str().unicode_len() > MAX_TAG_LEN {
            Err(ValidationError::UsernameTooLong)
        } else {
            Ok(())
        }
    }
}

} // verus!
