//! Wire protocol for controlling a networked signal-processing node (an
//! "animus"): the `Command` request and `Report` response schema, and the
//! canonical binary codec that maps each to an exact byte sequence and back.

pub mod codec;
pub mod protocol;
pub mod error;
