//! The ways decoding and encoding can fail. Every failure aborts the whole operation.

use vstd::prelude::*;

verus! {

/// Why a buffer could not be decoded.
#[derive(Clone, Copy, Debug, PartialEq, Eq, Structural)]
pub enum DecodeError {
    /// The buffer does not start with the container's magic tag.
    BadMagic,
    /// The buffer ends inside a field, a string, a table or a payload.
    Truncated,
    /// A track header names a key format that no key layout is known for.
    UnsupportedKeyFormat,
    /// A stream-frame entry names an entry format that no layout is known for.
    UnsupportedEntryFormat,
    /// A count read from the buffer is negative.
    NegativeCount,
    /// An index read from the buffer points outside the table it refers to.
    IndexOutOfRange,
}

/// Why a value could not be encoded.
#[derive(Clone, Copy, Debug, PartialEq, Eq, Structural)]
pub enum EncodeError {
    /// A count or a size does not fit the field that carries it.
    TooLarge,
    /// A track header names a key format that no key layout is known for.
    UnsupportedKeyFormat,
    /// An entry does not hold one track for each of its track headers.
    TrackCountMismatch,
    /// A track does not hold as many keys as its header's frame count says.
    FrameCountMismatch,
    /// A key is not of the shape that its track's key format asks for.
    KeyShapeMismatch,
    /// A stream-frame entry's payload is not the one its entry format asks for.
    EntryFormatMismatch,
    /// A name holds a NUL byte, which ends a string in the index tables.
    NulInName,
    /// A morph model's block is not eight bytes and eight more for each of a whole number
    /// of items, so that no count says its length.
    BlockLengthMismatch,
    /// A stream says that more of its indices belong to unknown entries than it has
    /// indices.
    EntryCountMismatch,
}

} // verus!
