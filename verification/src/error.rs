//! Error kinds surfaced by the codec, the operation registry, the chunked
//! transfer receiver and the dispatch layer.

use vstd::prelude::*;

verus! {

/// Why a byte buffer failed to decode into a record.
///
/// Decoding never fails merely because the buffer holds extra, unknown
/// fields, or omits a field that has a declared default.
#[derive(Clone, Copy, Debug, PartialEq, Eq, Structural)]
pub enum DecodeError {
    /// The byte stream is structurally malformed: an unknown format tag,
    /// a truncated value, an invalid text encoding, or trailing bytes.
    Malformed,
    /// A required field is absent and has no declared default.
    MissingField,
    /// A field is present but its wire type does not match the declared
    /// semantic type, or the decoded top-level value is not a record at all.
    TypeMismatch,
}

/// Why a value could not be encoded.
#[derive(Clone, Copy, Debug, PartialEq, Eq, Structural)]
pub enum EncodeError {
    /// A string, byte sequence or collection exceeds the largest length the
    /// wire format can carry, or an integer variant holds an out-of-range
    /// value.
    Unencodable,
}

/// A protocol violation detected while reassembling a chunked transfer.
#[derive(Clone, Copy, Debug, PartialEq, Eq, Structural)]
pub enum ChunkError {
    /// The chunk's sequence number was already consumed.
    Duplicate,
    /// The chunk arrived ahead of the next expected sequence number.
    OutOfOrder,
    /// The chunk carries no payload bytes.
    Empty,
    /// Accepting the chunk would push the cumulative byte count past the
    /// negotiated total size.
    Oversized,
}

/// The failure kinds shared across the dispatch contract.
#[derive(Clone, Debug, PartialEq, Eq)]
pub enum Error {
    /// A payload failed to decode; see [`DecodeError`].
    Decode(DecodeError),
    /// A response failed to encode; see [`EncodeError`].
    Encode(EncodeError),
    /// An operation string did not resolve in the registry.
    UnknownOperation,
    /// A domain-specific failure raised by a provider's business logic.
    Provider(String),
    /// The null dispatcher was invoked before a live channel was configured.
    DispatchUnavailable,
}

} // verus!
