use vstd::prelude::*;

verus! {

use crate::chunk_type::{ChunkType, all_alphabetic, push_char};
use crate::errors::ChunkError;
use crate::wire::{
    spec_u32_to_be,
    spec_u32_from_be,
    push_u32_be,
    read_u32_be,
    lemma_u32_be_round_trip,
    lemma_u32_from_be_injective,
};

/// The CRC-32 digest (ISO-HDLC polynomial, the one PNG uses) of a byte
/// sequence. The digest is a pure function of the bytes; its value is pinned
/// only by the checksum implementation that `crc32_checksum` calls.
pub uninterp spec fn crc32_of(bytes: Seq<u8>) -> u32;

/// Relies on `crc::Crc::<u32>::checksum` with the `CRC_32_ISO_HDLC`
/// algorithm: the digest depends on the input bytes alone.
#[verifier::external_body]
fn crc32_checksum(bytes: &Vec<u8>) -> (r: u32)
    ensures
        r == crc32_of(bytes@),
{
    crc::Crc::<u32>::new(&crc::CRC_32_ISO_HDLC).checksum(bytes.as_slice())
}

/// The mathematical content of a chunk: the four code bytes, the payload
/// bytes, and the two stored 32-bit fields.
#[verifier::ext_equal]
pub ghost struct ChunkV {
    pub code: Seq<u8>,
    pub data: Seq<u8>,
    pub length: u32,
    pub crc: u32,
}

impl ChunkV {
    /// Well-formed: four ASCII-letter code bytes, a payload short enough to
    /// count in 32 bits, the denormalized length equal to the payload's byte
    /// count, and the checksum equal to the digest of payload-then-code.
    pub open spec fn wf(self) -> bool {
        &&& self.code.len() == 4
        &&& all_alphabetic(self.code)
        &&& self.data.len() <= u32::MAX
        &&& self.length as int == self.data.len() as int
        &&& self.crc == crc32_of(self.data + self.code)
    }
}

/// A chunk: a validated type code, an owned payload, the payload's byte
/// count, and the CRC-32 checksum over payload-then-code.
#[derive(Debug)]
pub struct Chunk {
    chunk_type: ChunkType,
    chunk_data: Vec<u8>,
    length: u32,
    crc: u32,
}

impl View for Chunk {
    type V = ChunkV;

    closed spec fn view(&self) -> ChunkV {
        ChunkV {
            code: self.chunk_type@,
            data: self.chunk_data@,
            length: self.length,
            crc: self.crc,
        }
    }
}

/// The on-wire byte layout of a chunk: big-endian length, the four code
/// bytes, the payload, and the big-endian checksum, in that order.
pub open spec fn spec_serialize(c: ChunkV) -> Seq<u8> {
    spec_u32_to_be(c.length) + c.code + c.data + spec_u32_to_be(c.crc)
}

/// The meaning of parsing a buffer: the parsed fields, or the first failure
/// in the order the checks run (minimum size, letter gate, declared payload
/// length, checksum).
pub open spec fn spec_parse(bytes: Seq<u8>) -> Result<ChunkV, ChunkError> {
    if bytes.len() < 12 {
        Err(ChunkError::TooShort)
    } else {
        let length = spec_u32_from_be(bytes.subrange(0, 4));
        let code = bytes.subrange(4, 8);
        if !all_alphabetic(code) {
            Err(ChunkError::NotAlphabetic)
        } else if bytes.len() - 12 < length as int {
            Err(ChunkError::Truncated)
        } else {
            let data = bytes.subrange(8, 8 + length as int);
            let declared = spec_u32_from_be(
                bytes.subrange(8 + length as int, 12 + length as int),
            );
            if declared != crc32_of(data + code) {
                Err(ChunkError::ChecksumMismatch)
            } else {
                Ok(ChunkV { code, data, length, crc: declared })
            }
        }
    }
}

/// A parse result seen at the specification level: the chunk replaced by its
/// mathematical content.
pub open spec fn parse_view(r: Result<Chunk, ChunkError>) -> Result<ChunkV, ChunkError> {
    match r {
        Ok(c) => Ok(c@),
        Err(e) => Err(e),
    }
}

impl Chunk {
    /// Invariant: every chunk that exists is well-formed.
    #[verifier::type_invariant]
    spec fn inv(self) -> bool {
        self@.wf()
    }

    /// The checksum that a chunk carries: the CRC-32 digest of the payload
    /// followed by the four bytes of the type code, in that order.
    pub fn get_checksum(chunk_data: &Vec<u8>, chunk_type_code: &[u8; 4]) -> (r: u32)
        ensures
            r == crc32_of(chunk_data@ + chunk_type_code@),
    {
        let mut buf: Vec<u8> = Vec::new();
        let mut i: usize = 0;
        let n: usize = chunk_data.len();
        proof {
            assert(buf@ =~= chunk_data@.take(0));
        }
        while i < n
            invariant
                i <= n,
                n == chunk_data@.len(),
                buf@ == chunk_data@.take(i as int),
            decreases n - i,
        {
            buf.push(chunk_data[i]);
            proof {
                assert(buf@ =~= chunk_data@.take(i + 1));
            }
            i += 1;
        }
        let mut j: usize = 0;
        proof {
            assert(buf@ =~= chunk_data@ + chunk_type_code@.take(0));
        }
        while j < 4
            invariant
                j <= 4,
                buf@ == chunk_data@ + chunk_type_code@.take(j as int),
            decreases 4 - j,
        {
            buf.push(chunk_type_code[j]);
            proof {
                assert(buf@ =~= chunk_data@ + chunk_type_code@.take(j + 1));
            }
            j += 1;
        }
        proof {
            assert(buf@ =~= chunk_data@ + chunk_type_code@);
        }
        crc32_checksum(&buf)
    }

    /// Builds a chunk from a type code and an owned payload; always succeeds.
    /// The length is the payload's byte count and the checksum is computed
    /// fresh over payload-then-code.
    pub fn new(chunk_type: ChunkType, chunk_data: Vec<u8>) -> (r: Chunk)
        requires
            chunk_data@.len() <= u32::MAX,
        ensures
            r@.code == chunk_type@,
            r@.data == chunk_data@,
            r@.length as int == chunk_data@.len() as int,
            r@.crc == crc32_of(chunk_data@ + chunk_type@),
            r@.wf(),
    {
        proof {
            use_type_invariant(&chunk_type);
        }
        let length: u32 = chunk_data.len() as u32;
        let code: [u8; 4] = chunk_type.bytes();
        let crc_sum: u32 = Chunk::get_checksum(&chunk_data, &code);
        Chunk { chunk_type, chunk_data, length, crc: crc_sum }
    }

    /// The payload's byte count, as stored.
    pub fn length(&self) -> (r: u32)
        ensures
            r == self@.length,
    {
        self.length
    }

    /// The chunk's type code.
    pub fn chunk_type(&self) -> (r: &ChunkType)
        ensures
            r@ == self@.code,
    {
        &self.chunk_type
    }

    /// The payload bytes.
    pub fn data(&self) -> (r: &[u8])
        ensures
            r@ == self@.data,
    {
        self.chunk_data.as_slice()
    }

    /// The stored checksum.
    pub fn crc(&self) -> (r: u32)
        ensures
            r == self@.crc,
    {
        self.crc
    }

    /// The payload decoded as text, one character per byte. Every byte maps
    /// to the character with its code point, so the result is always `Ok`.
    pub fn data_as_string(&self) -> (r: Result<String, ChunkError>)
        ensures
            r matches Ok(s) && s@.len() == self@.data.len(),
            r matches Ok(s) ==> forall|i: int|
                0 <= i < self@.data.len() ==> s@[i] == #[trigger] (self@.data[i] as char),
    {
        let mut s = String::from_str("");
        proof {
            reveal_strlit("");
        }
        let mut i: usize = 0;
        let n: usize = self.chunk_data.len();
        while i < n
            invariant
                i <= n,
                n == self@.data.len(),
                s@.len() == i,
                forall|j: int| 0 <= j < i ==> s@[j] == #[trigger] (self@.data[j] as char),
            decreases n - i,
        {
            let byte: u8 = self.chunk_data[i];
            push_char(&mut s, byte as char);
            i += 1;
        }
        Ok(s)
    }

    /// A human-readable summary of the chunk: its four type-code characters.
    /// The wire format never depends on this rendering.
    pub fn to_text(&self) -> (r: String)
        ensures
            r@.len() == 4,
            forall|i: int| 0 <= i < 4 ==> r@[i] == #[trigger] (self@.code[i] as char),
    {
        self.chunk_type.to_text()
    }

    /// The on-wire layout of the chunk, exactly `spec_serialize` of its
    /// content: 12 + length bytes in all.
    pub fn as_bytes(&self) -> (r: Vec<u8>)
        ensures
            r@ == spec_serialize(self@),
            self@.wf(),
    {
        proof {
            use_type_invariant(&*self);
        }
        let mut out: Vec<u8> = Vec::new();
        push_u32_be(&mut out, self.length);
        let code: [u8; 4] = self.chunk_type.bytes();
        let mut i: usize = 0;
        proof {
            assert(out@ =~= spec_u32_to_be(self@.length) + self@.code.take(0));
        }
        while i < 4
            invariant
                i <= 4,
                code@ == self@.code,
                out@ == spec_u32_to_be(self@.length) + self@.code.take(i as int),
            decreases 4 - i,
        {
            out.push(code[i]);
            proof {
                assert(out@ =~= spec_u32_to_be(self@.length) + self@.code.take(i + 1));
            }
            i += 1;
        }
        let n: usize = self.chunk_data.len();
        let mut j: usize = 0;
        proof {
            assert(out@ =~= spec_u32_to_be(self@.length) + self@.code + self@.data.take(0));
        }
        while j < n
            invariant
                j <= n,
                n == self@.data.len(),
                out@ == spec_u32_to_be(self@.length) + self@.code + self@.data.take(j as int),
            decreases n - j,
        {
            out.push(self.chunk_data[j]);
            proof {
                assert(out@ =~= spec_u32_to_be(self@.length) + self@.code + self@.data.take(
                    j + 1,
                ));
            }
            j += 1;
        }
        push_u32_be(&mut out, self.crc);
        proof {
            assert(out@ =~= spec_serialize(self@));
        }
        out
    }

    /// The inverse of `as_bytes`. Checks run in a fixed order: a buffer of
    /// fewer than 12 bytes is `TooShort`; a non-letter in the code bytes is
    /// `NotAlphabetic`; a buffer that ends before the declared payload and
    /// trailing checksum is `Truncated`; a declared checksum that differs
    /// from the recomputed one is `ChecksumMismatch`. A chunk is produced
    /// exactly when every check passes.
    pub fn parse(bytes: &Vec<u8>) -> (r: Result<Chunk, ChunkError>)
        ensures
            parse_view(r) == spec_parse(bytes@),
            bytes@.len() < 12 ==> r == Err::<Chunk, ChunkError>(ChunkError::TooShort),
            r matches Ok(c) ==> c@.wf(),
    {
        let n: usize = bytes.len();
        if n < 12 {
            return Err(ChunkError::TooShort);
        }
        let length: u32 = read_u32_be(bytes, 0);
        let code: [u8; 4] = [bytes[4], bytes[5], bytes[6], bytes[7]];
        proof {
            assert(code@ =~= bytes@.subrange(4, 8));
        }
        let chunk_type: ChunkType = match ChunkType::from_bytes(code) {
            Ok(t) => t,
            Err(_) => {
                return Err(ChunkError::NotAlphabetic);
            },
        };
        let len_us: usize = length as usize;
        if n - 12 < len_us {
            return Err(ChunkError::Truncated);
        }
        let mut data: Vec<u8> = Vec::new();
        let mut i: usize = 0;
        proof {
            assert(data@ =~= bytes@.subrange(8, 8));
        }
        while i < len_us
            invariant
                i <= len_us,
                len_us + 12 <= n,
                n == bytes@.len(),
                data@ == bytes@.subrange(8, 8 + i as int),
            decreases len_us - i,
        {
            data.push(bytes[8 + i]);
            proof {
                assert(data@ =~= bytes@.subrange(8, 8 + (i + 1)));
            }
            i += 1;
        }
        let declared: u32 = read_u32_be(bytes, 8 + len_us);
        let computed: u32 = Chunk::get_checksum(&data, &code);
        if declared != computed {
            return Err(ChunkError::ChecksumMismatch);
        }
        let c = Chunk { chunk_type, chunk_data: data, length, crc: declared };
        proof {
            assert(c@ =~= spec_parse(bytes@)->Ok_0);
        }
        Ok(c)
    }
}

/// Law (round trip): serializing a well-formed chunk and parsing the bytes
/// back succeeds and yields a chunk with the same code, payload, length and
/// checksum.
pub proof fn lemma_round_trip(code: Seq<u8>, data: Seq<u8>)
    requires
        code.len() == 4,
        all_alphabetic(code),
        data.len() <= u32::MAX,
    ensures
        ({
            let c = ChunkV {
                code,
                data,
                length: data.len() as u32,
                crc: crc32_of(data + code),
            };
            spec_parse(spec_serialize(c)) == Ok::<ChunkV, ChunkError>(c)
        }),
{
    let c = ChunkV { code, data, length: data.len() as u32, crc: crc32_of(data + code) };
    let bytes = spec_serialize(c);
    lemma_u32_be_round_trip(c.length);
    lemma_u32_be_round_trip(c.crc);
    assert(bytes.len() == 12 + data.len());
    assert(bytes.subrange(0, 4) =~= spec_u32_to_be(c.length));
    assert(bytes.subrange(4, 8) =~= code);
    assert(bytes.subrange(8, 8 + c.length as int) =~= data);
    assert(bytes.subrange(8 + c.length as int, 12 + c.length as int) =~= spec_u32_to_be(c.crc));
    assert(spec_parse(bytes)->Ok_0 =~= c);
}

/// Law (tamper detection): take a buffer whose declared payload length fits
/// and whose code bytes are letters, and change one byte inside its four-byte
/// checksum field. If the buffer parsed successfully before, parsing now
/// fails with `ChecksumMismatch`.
pub proof fn lemma_crc_tamper_detected(bytes: Seq<u8>, pos: int, value: u8)
    requires
        bytes.len() >= 12,
        all_alphabetic(bytes.subrange(4, 8)),
        bytes.len() - 12 >= spec_u32_from_be(bytes.subrange(0, 4)) as int,
        8 + spec_u32_from_be(bytes.subrange(0, 4)) as int <= pos < 12 + spec_u32_from_be(
            bytes.subrange(0, 4),
        ) as int,
        value != bytes[pos],
    ensures
        spec_parse(bytes) is Ok ==> spec_parse(bytes.update(pos, value)) == Err::<
            ChunkV,
            ChunkError,
        >(ChunkError::ChecksumMismatch),
{
    let tam = bytes.update(pos, value);
    let length = spec_u32_from_be(bytes.subrange(0, 4));
    assert(tam.subrange(0, 4) =~= bytes.subrange(0, 4));
    assert(tam.subrange(4, 8) =~= bytes.subrange(4, 8));
    assert(tam.subrange(8, 8 + length as int) =~= bytes.subrange(8, 8 + length as int));
    let field = bytes.subrange(8 + length as int, 12 + length as int);
    let tam_field = tam.subrange(8 + length as int, 12 + length as int);
    assert(tam_field[pos - (8 + length as int)] == value);
    assert(!(field =~= tam_field));
    lemma_u32_from_be_injective(field, tam_field);
}

/// Law (checksum determinism): the checksum is a pure function of the
/// payload and the type code; byte-for-byte equal inputs carry equal digests.
pub proof fn lemma_checksum_deterministic(
    data1: Seq<u8>,
    code1: Seq<u8>,
    data2: Seq<u8>,
    code2: Seq<u8>,
)
    requires
        data1 =~= data2,
        code1 =~= code2,
    ensures
        crc32_of(data1 + code1) == crc32_of(data2 + code2),
{
    assert(data1 + code1 =~= data2 + code2);
}

} // verus!
