//! An ephemeral, anonymous chat relay core: a bounded multi-subscriber
//! message bus with per-subscriber cursors and lag-skip, a push-stream
//! state machine that drains one subscription, a matchmaker that pairs
//! waiting usernames into freshly numbered rooms, and the ingest
//! validation in front of the bus.

pub mod bus;
pub mod ingest;
pub mod matchmaker;
pub mod message;
pub mod room;
pub mod stream;
