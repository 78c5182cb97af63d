use vstd::prelude::*;

verus! {

/// What can go wrong while decoding a book.
#[derive(Clone, Copy, Debug, PartialEq, Eq, Structural)]
pub enum DecodeError {
    /// A read at an offset, or of a length, past the end of the buffer.
    OutOfBounds,
    /// A fixed-size header region does not fit in the buffer.
    TruncatedHeader,
    /// The record directory points outside the buffer or is not in increasing order.
    MalformedDirectory,
    /// A back-reference reaches before the start of the produced output.
    InvalidBackReference,
    /// A compressed record ends in the middle of a control sequence.
    MalformedRecord,
    /// The compression method is neither "none" nor the dictionary method.
    UnsupportedCompression,
    /// An extended-metadata record overruns the buffer or declares a length under 8.
    MalformedMetadataRecord,
}

} // verus!
