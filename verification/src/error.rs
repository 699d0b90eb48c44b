use vstd::prelude::*;

verus! {

/// Failure kinds for processing protocol messages, non-overlapping.
///
/// The codec itself only ever reports `Decode` (bytes that do not form a
/// valid message) and `Encode` (a value that cannot be serialized). `Io`
/// classifies a failure of the byte source or sink for the transport code
/// that carries the frames; nothing in this crate performs such I/O itself.
#[derive(Clone, Copy, Debug, PartialEq, Eq, Structural)]
pub enum ProtocolError {
    /// The underlying transport or byte source failed before or during a
    /// decode or encode attempt.
    Io,
    /// Bytes were read but did not form a valid message under the codec
    /// rules: truncated input, an invalid variant tag, an invalid length
    /// prefix, or invalid text encoding.
    Decode,
    /// A value could not be serialized, because a variable-length field is
    /// too large for its length prefix.
    Encode,
}

/// The descriptive text of each error kind.
pub open spec fn error_text(e: ProtocolError) -> Seq<char> {
    match e {
        ProtocolError::Io => "IO operation failed"@,
        ProtocolError::Decode => "Failed to Decode message"@,
        ProtocolError::Encode => "Failed to Encode message"@,
    }
}

impl ProtocolError {
    /// Renders this error kind as text.
    pub fn to_text(&self) -> (r: String)
        ensures
            r@ == error_text(*self),
    {
        let s: &str = match self {
            ProtocolError::Io => "IO operation failed",
            ProtocolError::Decode => "Failed to Decode message",
            ProtocolError::Encode => "Failed to Encode message",
        };
        s.to_owned()
    }
}

} // verus!
