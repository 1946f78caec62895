use vstd::prelude::*;

verus! {

use vstd::string::StringExecFns;

/// The single error channel of the codec. Every failure of a constructor or
/// of `parse` is one of these variants.
#[derive(Clone, Copy, Debug, PartialEq, Eq, Structural)]
pub enum ChunkError {
    /// A chunk-type byte lies outside the ASCII alphabetic ranges.
    NotAlphabetic,
    /// Fewer bytes than the fixed minimum that the fields need.
    TooShort,
    /// The buffer ends before the declared payload and trailing checksum.
    Truncated,
    /// The declared checksum differs from the one recomputed over the content.
    ChecksumMismatch,
    /// A payload byte could not be decoded as text.
    DecodeError,
}

impl ChunkError {
    /// A fixed diagnostic line for each variant.
    pub fn message(&self) -> (r: String)
        ensures
            self is NotAlphabetic ==> r@ == "chunk-type byte outside the ASCII ranges 65-90 and 97-122"@,
            self is TooShort ==> r@ == "fewer bytes than the fields need"@,
            self is Truncated ==> r@ == "buffer ends before the declared payload and checksum"@,
            self is ChecksumMismatch ==> r@ == "declared checksum differs from the recomputed one"@,
            self is DecodeError ==> r@ == "payload byte could not be decoded as text"@,
    {
        match self {
            ChunkError::NotAlphabetic => String::from_str(
                "chunk-type byte outside the ASCII ranges 65-90 and 97-122",
            ),
            ChunkError::TooShort => String::from_str("fewer bytes than the fields need"),
            ChunkError::Truncated => String::from_str(
                "buffer ends before the declared payload and checksum",
            ),
            ChunkError::ChecksumMismatch => String::from_str(
                "declared checksum differs from the recomputed one",
            ),
            ChunkError::DecodeError => String::from_str(
                "payload byte could not be decoded as text",
            ),
        }
    }
}

} // verus!
