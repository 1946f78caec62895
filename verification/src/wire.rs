use vstd::prelude::*;

verus! {

/// The four big-endian bytes of a 32-bit integer, most significant first.
pub open spec fn spec_u32_to_be(n: u32) -> Seq<u8> {
    seq![(n >> 24) as u8, (n >> 16) as u8, (n >> 8) as u8, n as u8]
}

/// The 32-bit integer read from four bytes, most significant first.
pub open spec fn spec_u32_from_be(s: Seq<u8>) -> u32
    recommends
        s.len() == 4,
{
    ((s[0] as u32) << 24) | ((s[1] as u32) << 16) | ((s[2] as u32) << 8) | (s[3] as u32)
}

/// Writing a 32-bit integer big-endian and reading the four bytes back gives
/// the integer again.
pub proof fn lemma_u32_be_round_trip(n: u32)
    ensures
        spec_u32_from_be(spec_u32_to_be(n)) == n,
{
    assert((((((n >> 24) as u8) as u32) << 24) | ((((n >> 16) as u8) as u32) << 16) | ((((n
        >> 8) as u8) as u32) << 8) | ((n as u8) as u32)) == n) by (bit_vector);
}

/// Reading four bytes big-endian is injective: equal integers can only come
/// from equal bytes.
pub proof fn lemma_u32_from_be_injective(s1: Seq<u8>, s2: Seq<u8>)
    requires
        s1.len() == 4,
        s2.len() == 4,
    ensures
        spec_u32_from_be(s1) == spec_u32_from_be(s2) ==> s1 =~= s2,
{
    let a0 = s1[0];
    let a1 = s1[1];
    let a2 = s1[2];
    let a3 = s1[3];
    let b0 = s2[0];
    let b1 = s2[1];
    let b2 = s2[2];
    let b3 = s2[3];
    assert(((((a0 as u32) << 24) | ((a1 as u32) << 16) | ((a2 as u32) << 8) | (a3 as u32)) == (((
    b0 as u32) << 24) | ((b1 as u32) << 16) | ((b2 as u32) << 8) | (b3 as u32))) ==> (a0 == b0
        && a1 == b1 && a2 == b2 && a3 == b3)) by (bit_vector);
}

/// Appends the big-endian bytes of `n` to the buffer.
pub fn push_u32_be(out: &mut Vec<u8>, n: u32)
    ensures
        final(out)@ == old(out)@ + spec_u32_to_be(n),
{
    out.push(#[verifier::truncate] ((n >> 24) as u8));
    out.push(#[verifier::truncate] ((n >> 16) as u8));
    out.push(#[verifier::truncate] ((n >> 8) as u8));
    out.push(#[verifier::truncate] (n as u8));
    proof {
        assert(out@ =~= old(out)@ + spec_u32_to_be(n));
    }
}

/// Reads the 32-bit big-endian integer that starts at offset `off`.
pub fn read_u32_be(bytes: &Vec<u8>, off: usize) -> (r: u32)
    requires
        off + 4 <= bytes@.len(),
    ensures
        r == spec_u32_from_be(bytes@.subrange(off as int, off as int + 4)),
{
    let n: usize = bytes.len();
    proof {
        assert(off + 4 <= n);
    }
    let b0: u8 = bytes[off];
    let b1: u8 = bytes[off + 1];
    let b2: u8 = bytes[off + 2];
    let b3: u8 = bytes[off + 3];
    let r: u32 = ((b0 as u32) << 24) | ((b1 as u32) << 16) | ((b2 as u32) << 8) | (b3 as u32);
    proof {
        let s = bytes@.subrange(off as int, off as int + 4);
        assert(s[0] == b0 && s[1] == b1 && s[2] == b2 && s[3] == b3);
    }
    r
}

} // verus!
