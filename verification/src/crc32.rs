//! Incremental CRC32C (Castagnoli) over the coded byte stream, in the
//! reflected bit order with the conventional pre- and post-inversion folded
//! into each update so that updates chain.
use vstd::prelude::*;

verus! {

/// The reflected Castagnoli polynomial.
pub const CRC32C_POLY: u32 = 0x82F63B78;

/// One bit of the reflected division: shift out the low bit and fold the
/// polynomial back in when that bit was set.
pub open spec fn crc32c_bit_step(c: u32) -> u32 {
    if c & 1 == 1 {
        (c >> 1u32) ^ CRC32C_POLY
    } else {
        c >> 1u32
    }
}

/// `n` bit steps in sequence.
pub open spec fn crc32c_bits(c: u32, n: nat) -> u32
    decreases n,
{
    if n == 0 {
        c
    } else {
        crc32c_bits(crc32c_bit_step(c), (n - 1) as nat)
    }
}

/// One byte folded into the running remainder: eight bit steps after mixing
/// the byte into the low bits.
pub open spec fn crc32c_byte_step(c: u32, b: u8) -> u32 {
    crc32c_bits(c ^ (b as u32), 8)
}

/// A whole byte sequence folded into the running remainder.
pub open spec fn crc32c_fold(c: u32, s: Seq<u8>) -> u32
    decreases s.len(),
{
    if s.len() == 0 {
        c
    } else {
        crc32c_fold(crc32c_byte_step(c, s[0]), s.subrange(1, s.len() as int))
    }
}

/// The chained checksum: invert, fold the bytes, invert back. Chaining from
/// zero gives the standard CRC32C of the concatenated stream.
pub open spec fn spec_crc32c_update(crc: u32, s: Seq<u8>) -> u32 {
    !crc32c_fold(!crc, s)
}

/// Applying one more bit step commutes with the iteration.
proof fn lemma_crc32c_bits_snoc(c: u32, n: nat)
    ensures
        crc32c_bits(c, n + 1) == crc32c_bit_step(crc32c_bits(c, n)),
    decreases n,
{
    if n == 0 {
        assert(crc32c_bits(c, 1) == crc32c_bits(crc32c_bit_step(c), 0));
        assert(crc32c_bits(crc32c_bit_step(c), 0) == crc32c_bit_step(c));
    } else {
        lemma_crc32c_bits_snoc(crc32c_bit_step(c), (n - 1) as nat);
        assert(crc32c_bits(c, n + 1) == crc32c_bits(crc32c_bit_step(c), n));
        assert(crc32c_bits(c, n) == crc32c_bits(crc32c_bit_step(c), (n - 1) as nat));
    }
}

/// Folding a sequence extended by one byte is folding, then one byte step.
proof fn lemma_crc32c_fold_push(c: u32, s: Seq<u8>, b: u8)
    ensures
        crc32c_fold(c, s.push(b)) == crc32c_byte_step(crc32c_fold(c, s), b),
    decreases s.len(),
{
    if s.len() == 0 {
        assert(s.push(b).subrange(1, 1) =~= Seq::<u8>::empty());
        assert(s.push(b)[0] == b);
        assert(crc32c_fold(c, s.push(b)) == crc32c_fold(
            crc32c_byte_step(c, b),
            Seq::<u8>::empty(),
        ));
        assert(crc32c_fold(crc32c_byte_step(c, b), Seq::<u8>::empty()) == crc32c_byte_step(c, b));
        assert(crc32c_fold(c, s) == c);
    } else {
        assert(s.push(b)[0] == s[0]);
        assert(s.push(b).subrange(1, s.len() as int + 1) =~= s.subrange(1, s.len() as int).push(
            b,
        ));
        lemma_crc32c_fold_push(crc32c_byte_step(c, s[0]), s.subrange(1, s.len() as int), b);
    }
}

/// Folding distributes over concatenation.
proof fn lemma_crc32c_fold_append(c: u32, a: Seq<u8>, b: Seq<u8>)
    ensures
        crc32c_fold(c, a + b) == crc32c_fold(crc32c_fold(c, a), b),
    decreases a.len(),
{
    if a.len() == 0 {
        assert(a + b =~= b);
    } else {
        assert((a + b).subrange(1, (a + b).len() as int) =~= a.subrange(1, a.len() as int) + b);
        assert((a + b)[0] == a[0]);
        lemma_crc32c_fold_append(crc32c_byte_step(c, a[0]), a.subrange(1, a.len() as int), b);
    }
}

/// Updating over two pieces equals updating over their concatenation: the
/// checksum of a stream does not depend on how the stream was chunked.
pub proof fn lemma_crc32c_update_append(crc: u32, a: Seq<u8>, b: Seq<u8>)
    ensures
        spec_crc32c_update(spec_crc32c_update(crc, a), b) == spec_crc32c_update(crc, a + b),
{
    let m = crc32c_fold(!crc, a);
    assert(!(!m) == m) by (bit_vector);
    lemma_crc32c_fold_append(!crc, a, b);
}

/// The chained checksum of an empty piece changes nothing.
pub proof fn lemma_crc32c_update_empty(crc: u32)
    ensures
        spec_crc32c_update(crc, Seq::<u8>::empty()) == crc,
{
    assert(!(!crc) == crc) by (bit_vector);
}

/// The checksum chain starts at zero.
pub fn crc32c_init() -> (r: u32)
    ensures
        r == 0,
{
    0
}

/// Fold `data` into a running chained checksum.
pub fn crc32c_update(crc: u32, data: &[u8]) -> (r: u32)
    ensures
        r == spec_crc32c_update(crc, data@),
{
    let mut state: u32 = !crc;
    let mut i: usize = 0;
    while i < data.len()
        invariant
            i <= data.len(),
            state == crc32c_fold(!crc, data@.take(i as int)),
        decreases data.len() - i,
    {
        let byte = data[i];
        let mut c: u32 = state ^ (byte as u32);
        let ghost c_in = c;
        let mut bit: usize = 0;
        while bit < 8
            invariant
                bit <= 8,
                c == crc32c_bits(c_in, bit as nat),
            decreases 8 - bit,
        {
            proof {
                lemma_crc32c_bits_snoc(c_in, bit as nat);
            }
            c = if c & 1 == 1 {
                (c >> 1u32) ^ CRC32C_POLY
            } else {
                c >> 1u32
            };
            bit += 1;
        }
        state = c;
        proof {
            lemma_crc32c_fold_push(!crc, data@.take(i as int), data@[i as int]);
            assert(data@.take(i + 1) =~= data@.take(i as int).push(data@[i as int]));
        }
        i += 1;
    }
    proof {
        assert(data@.take(data@.len() as int) =~= data@);
    }
    !state
}

} // verus!
