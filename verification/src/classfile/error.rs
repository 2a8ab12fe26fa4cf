use vstd::prelude::*;

verus! {

/// Why decoding of a class file stopped.
#[derive(Clone, Copy, Debug, PartialEq, Eq, Structural)]
pub enum DecodeError {
    /// A constant-pool index was 0, past the end of the pool, or named an
    /// entry that is not UTF-8 text.
    MalformedIndex,
    /// A declared length or count asked for more bytes than the stream
    /// still holds.
    TruncatedStream,
    /// `Code` attributes were nested more deeply than the caller allowed.
    RecursionLimitExceeded,
}

} // verus!
