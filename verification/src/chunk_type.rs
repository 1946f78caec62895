use vstd::prelude::*;

verus! {

use crate::errors::ChunkError;
use vstd::string::StringSliceAdditionalSpecFns;
use vstd::string::StringExecFns;

/// An ASCII letter: a byte in one of the ranges 65-90 (A-Z) or 97-122 (a-z).
pub open spec fn spec_is_alphabetic(b: u8) -> bool {
    (65 <= b && b <= 90) || (97 <= b && b <= 122)
}

/// Every byte of the sequence is an ASCII letter.
pub open spec fn all_alphabetic(s: Seq<u8>) -> bool {
    forall|i: int| 0 <= i < s.len() ==> spec_is_alphabetic(#[trigger] s[i])
}

/// Whether the bit of weight 32 in a byte is clear; for an ASCII letter this
/// is exactly whether the letter is upper case.
pub open spec fn spec_bit5_clear(b: u8) -> bool {
    (b >> 5) & 1 == 0
}

/// For an ASCII letter, the bit of weight 32 is clear exactly when the
/// letter is upper case; the four chunk properties read letter casing this
/// way.
pub proof fn lemma_bit5_is_upper_case(b: u8)
    requires
        spec_is_alphabetic(b),
    ensures
        spec_bit5_clear(b) <==> (65 <= b && b <= 90),
{
    assert(((65 <= b && b <= 90) || (97 <= b && b <= 122)) ==> (((b >> 5) & 1 == 0) <==> (65 <= b
        && b <= 90))) by (bit_vector);
}

/// A four-byte chunk-type code whose bytes are all ASCII letters. The casing
/// of each letter carries one boolean property of the chunk.
#[derive(Clone, Copy, Debug)]
pub struct ChunkType {
    code: [u8; 4],
}

impl PartialEq for ChunkType {
    /// Equality is byte-wise equality of the code.
    fn eq(&self, other: &Self) -> (r: bool) {
        self.code[0] == other.code[0] && self.code[1] == other.code[1] && self.code[2]
            == other.code[2] && self.code[3] == other.code[3]
    }
}

impl Eq for ChunkType {

}

impl vstd::std_specs::cmp::PartialEqSpecImpl for ChunkType {
    open spec fn obeys_eq_spec() -> bool {
        true
    }

    open spec fn eq_spec(&self, other: &ChunkType) -> bool {
        self@ =~= other@
    }
}

impl View for ChunkType {
    type V = Seq<u8>;

    closed spec fn view(&self) -> Seq<u8> {
        self.code@
    }
}

/// The ASCII-letter test that the constructors apply to each byte.
fn is_alphabetic_byte(b: u8) -> (r: bool)
    ensures
        r == spec_is_alphabetic(b),
{
    (65 <= b && b <= 90) || (97 <= b && b <= 122)
}

impl ChunkType {
    /// Invariant: the code holds exactly four bytes, all ASCII letters.
    #[verifier::type_invariant]
    pub open spec fn wf(self) -> bool {
        all_alphabetic(self@)
    }

    /// Succeeds on exactly the inputs whose four bytes are all ASCII letters;
    /// any other input is rejected with `NotAlphabetic`.
    pub fn from_bytes(value: [u8; 4]) -> (r: Result<ChunkType, ChunkError>)
        ensures
            all_alphabetic(value@) ==> (r matches Ok(t) && t@ == value@),
            !all_alphabetic(value@) ==> r == Err::<ChunkType, ChunkError>(
                ChunkError::NotAlphabetic,
            ),
    {
        let mut i: usize = 0;
        while i < 4
            invariant
                i <= 4,
                forall|j: int| 0 <= j < i ==> spec_is_alphabetic(#[trigger] value@[j]),
            decreases 4 - i,
        {
            if !is_alphabetic_byte(value[i]) {
                return Err(ChunkError::NotAlphabetic);
            }
            i += 1;
        }
        Ok(ChunkType { code: value })
    }

    /// Takes the first four bytes of the text's byte representation; fails
    /// with `TooShort` when fewer than four bytes are available, then applies
    /// the same ASCII-letter gate as `from_bytes`.
    pub fn from_text(s: &str) -> (r: Result<ChunkType, ChunkError>)
        ensures
            s.spec_bytes().len() < 4 ==> r == Err::<ChunkType, ChunkError>(ChunkError::TooShort),
            s.spec_bytes().len() >= 4 && all_alphabetic(s.spec_bytes().take(4)) ==> (r matches
                Ok(t) && t@ == s.spec_bytes().take(4)),
            s.spec_bytes().len() >= 4 && !all_alphabetic(s.spec_bytes().take(4)) ==> r == Err::<
                ChunkType,
                ChunkError,
            >(ChunkError::NotAlphabetic),
    {
        let b: &[u8] = s.as_bytes();
        if b.len() < 4 {
            return Err(ChunkError::TooShort);
        }
        let code: [u8; 4] = [b[0], b[1], b[2], b[3]];
        proof {
            assert(code@ =~= s.spec_bytes().take(4));
        }
        ChunkType::from_bytes(code)
    }

    /// A copy of the stored code.
    pub fn bytes(&self) -> (r: [u8; 4])
        ensures
            r@ == self@,
    {
        self.code
    }

    /// Critical: the first letter is upper case (its bit of weight 32 is
    /// clear).
    pub fn is_critical(&self) -> (r: bool)
        ensures
            r == spec_bit5_clear(self@[0]),
    {
        let byte: u8 = self.code[0];
        let bit: u8 = (byte >> 5) & 1;
        bit == 0
    }

    /// Public: the second letter is upper case.
    pub fn is_public(&self) -> (r: bool)
        ensures
            r == spec_bit5_clear(self@[1]),
    {
        let byte: u8 = self.code[1];
        let bit: u8 = (byte >> 5) & 1;
        bit == 0
    }

    /// Reserved bit valid: the third letter is upper case.
    pub fn is_reserved_bit_valid(&self) -> (r: bool)
        ensures
            r == spec_bit5_clear(self@[2]),
    {
        let byte: u8 = self.code[2];
        let bit: u8 = (byte >> 5) & 1;
        bit == 0
    }

    /// Safe to copy: the fourth letter is lower case (its bit of weight 32 is
    /// set).
    pub fn is_safe_to_copy(&self) -> (r: bool)
        ensures
            r == !spec_bit5_clear(self@[3]),
    {
        let byte: u8 = self.code[3];
        let bit: u8 = (byte >> 5) & 1;
        proof {
            assert((byte >> 5) & 1 == 0 || (byte >> 5) & 1 == 1) by (bit_vector);
        }
        bit == 1
    }

    /// Valid as a whole: deliberately defined as exactly the reserved-bit
    /// test, nothing more.
    pub fn is_valid(&self) -> (r: bool)
        ensures
            r == spec_bit5_clear(self@[2]),
    {
        self.is_reserved_bit_valid()
    }

    /// The four code bytes decoded as ASCII characters.
    pub fn to_text(&self) -> (r: String)
        ensures
            r@.len() == 4,
            forall|i: int| 0 <= i < 4 ==> r@[i] == #[trigger] (self@[i] as char),
    {
        let mut s = String::from_str("");
        proof {
            reveal_strlit("");
        }
        let mut i: usize = 0;
        while i < 4
            invariant
                i <= 4,
                s@.len() == i,
                forall|j: int| 0 <= j < i ==> s@[j] == #[trigger] (self@[j] as char),
            decreases 4 - i,
        {
            let byte: u8 = self.code[i];
            push_char(&mut s, byte as char);
            i += 1;
        }
        s
    }
}

/// Relies on `String::push` of std: appends the given character to the end of
/// the string.
#[verifier::external_body]
pub(crate) fn push_char(s: &mut String, c: char)
    ensures
        final(s)@ == old(s)@.push(c),
{
    s.push(c);
}

} // verus!
