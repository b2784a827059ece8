use vstd::prelude::*;
use vstd::arithmetic::power2::{pow2, lemma_pow2_adds, lemma2_to64, lemma_pow2_strictly_increases};

verus! {

/// The number that `bytes` write in big-endian order.
pub open spec fn be_value(bytes: Seq<u8>) -> nat
    decreases bytes.len(),
{
    if bytes.len() == 0 {
        0
    } else {
        be_value(bytes.drop_last()) * 256 + bytes.last() as nat
    }
}

proof fn lemma_be_value_bound(bytes: Seq<u8>)
    ensures
        be_value(bytes) < pow2((8 * bytes.len()) as nat),
    decreases bytes.len(),
{
    if bytes.len() == 0 {
        lemma2_to64();
    } else {
        let n = bytes.len();
        lemma_be_value_bound(bytes.drop_last());
        let p = pow2((8 * (n - 1)) as nat);
        lemma_pow2_adds((8 * (n - 1)) as nat, 8);
        lemma2_to64();
        let v = be_value(bytes.drop_last());
        assert(v * 256 + bytes.last() < p * 256) by (nonlinear_arith)
            requires
                v < p,
                bytes.last() < 256,
        ;
        assert((8 * (n - 1)) as nat + 8 == (8 * n) as nat);
    }
}

proof fn lemma_be_value_concat(a: Seq<u8>, b: Seq<u8>)
    ensures
        be_value(a + b) == be_value(a) * pow2((8 * b.len()) as nat) + be_value(b),
    decreases b.len(),
{
    if b.len() == 0 {
        assert(a + b =~= a);
        lemma2_to64();
        assert(pow2((8 * b.len()) as nat) == 1);
        assert(be_value(b) == 0);
        assert(be_value(a) * 1 == be_value(a));
    } else {
        assert((a + b).drop_last() =~= a + b.drop_last());
        lemma_be_value_concat(a, b.drop_last());
        let k = (8 * (b.len() - 1)) as nat;
        lemma_pow2_adds(k, 8);
        lemma2_to64();
        assert(k + 8 == (8 * b.len()) as nat);
        let x = be_value(a);
        let p = pow2(k);
        let y = be_value(b.drop_last());
        assert((x * p + y) * 256 == x * (p * 256) + y * 256) by (nonlinear_arith);
        assert((a + b).last() == b.last());
        assert(be_value(a + b) == be_value((a + b).drop_last()) * 256 + (a + b).last());
        assert(be_value(b) == y * 256 + b.last());
        assert(pow2((8 * b.len()) as nat) == p * 256);
        assert(be_value(a + b) == x * (p * 256) + be_value(b));
    }
}

/// Bytes read in big-endian order: a byte alone is its own value, and
/// bytes written after others multiply the earlier ones by `2^8` each.
pub proof fn law_big_endian_value_of_joined_bytes(a: Seq<u8>, b: Seq<u8>, x: u8)
    ensures
        be_value(seq![x]) == x as nat,
        be_value(a + b) == be_value(a) * pow2((8 * b.len()) as nat) + be_value(b),
{
    reveal_with_fuel(be_value, 2);
    assert(seq![x].drop_last() =~= Seq::<u8>::empty());
    lemma_be_value_concat(a, b);
}

proof fn lemma_pow2_128()
    ensures
        pow2(128) == u128::MAX + 1,
{
    lemma2_to64();
    lemma_pow2_adds(64, 64);
    assert(0x1_0000_0000_0000_0000nat * 0x1_0000_0000_0000_0000nat == 0x1_0000_0000_0000_0000_0000_0000_0000_0000nat)
        by (nonlinear_arith);
}

/// Reads `bytes[from..to]` (at most 16 bytes) as a big-endian number.
fn be_u128(bytes: &[u8], from: usize, to: usize) -> (r: u128)
    requires
        from <= to <= bytes@.len(),
        to - from <= 16,
    ensures
        r == be_value(bytes@.subrange(from as int, to as int)),
{
    let mut acc: u128 = 0;
    let mut i: usize = from;
    assert(bytes@.subrange(from as int, from as int) =~= Seq::<u8>::empty());
    while i < to
        invariant
            from <= i <= to <= bytes@.len(),
            to - from <= 16,
            acc == be_value(bytes@.subrange(from as int, i as int)),
        decreases to - i,
    {
        let ghost s = bytes@.subrange(from as int, i + 1);
        assert(s.drop_last() =~= bytes@.subrange(from as int, i as int));
        proof {
            lemma_be_value_bound(s);
            lemma_pow2_128();
            if 8 * s.len() < 128 {
                lemma_pow2_strictly_increases((8 * s.len()) as nat, 128);
            }
        }
        acc = acc * 256 + bytes[i] as u128;
        i = i + 1;
    }
    acc
}

/// Splits a 32-byte file hash into the two 128-bit words of the 256-bit
/// number it writes in big-endian order: `(high, low)`, so that the number
/// is `high * 2^128 + low`.
pub fn hash_words(hash: &[u8]) -> (r: (u128, u128))
    requires
        hash@.len() == 32,
    ensures
        r.0 == be_value(hash@.subrange(0, 16)),
        r.1 == be_value(hash@.subrange(16, 32)),
        r.0 * pow2(128) + r.1 == be_value(hash@),
{
    let high = be_u128(hash, 0, 16);
    let low = be_u128(hash, 16, 32);
    proof {
        lemma_be_value_concat(hash@.subrange(0, 16), hash@.subrange(16, 32));
        assert(hash@.subrange(0, 16) + hash@.subrange(16, 32) =~= hash@);
    }
    (high, low)
}

} // verus!
