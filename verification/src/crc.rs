//! CRC16 (CCITT/XMODEM) checksum: seed 0, polynomial 0x1021, MSB first.

use vstd::prelude::*;

verus! {

/// One shift-and-conditional-XOR round of the MSB-first CRC16 update.
pub open spec fn crc_round(c: u16) -> u16 {
    if c & 0x8000 != 0 {
        (c << 1) ^ 0x1021
    } else {
        c << 1
    }
}

/// `n` successive CRC rounds applied to `c`.
pub open spec fn crc_rounds(c: u16, n: nat) -> u16
    decreases n,
{
    if n == 0 {
        c
    } else {
        crc_round(crc_rounds(c, (n - 1) as nat))
    }
}

/// Folding one byte into a running CRC: XOR into the top 8 bits, 8 rounds.
pub open spec fn crc_byte(c: u16, b: u8) -> u16 {
    crc_rounds(c ^ ((b as u16) << 8), 8)
}

/// The CRC16 of a byte sequence, seeded with 0.
pub open spec fn crc16(s: Seq<u8>) -> u16
    decreases s.len(),
{
    if s.len() == 0 {
        0u16
    } else {
        crc_byte(crc16(s.drop_last()), s.last())
    }
}

/// CRC16 (CCITT) calculation over a byte slice.
pub fn calc_crc(data: &[u8]) -> (crc: u16)
    ensures
        crc == crc16(data@),
{
    let mut crc: u16 = 0;
    let mut idx: usize = 0;
    while idx < data.len()
        invariant
            idx <= data@.len(),
            crc == crc16(data@.take(idx as int)),
        decreases data@.len() - idx,
    {
        let byte: u8 = data[idx];
        crc = crc ^ ((byte as u16) << 8);
        let ghost folded: u16 = crc;
        let mut round: usize = 0;
        while round < 8
            invariant
                round <= 8,
                crc == crc_rounds(folded, round as nat),
            decreases 8 - round,
        {
            crc = if crc & 0x8000 != 0 {
                (crc << 1) ^ 0x1021
            } else {
                crc << 1
            };
            round = round + 1;
        }
        idx = idx + 1;
        proof {
            assert(data@.take(idx as int).drop_last() =~= data@.take(idx - 1));
            assert(data@.take(idx as int).last() == data@[idx - 1]);
        }
    }
    proof {
        assert(data@.take(data@.len() as int) =~= data@);
    }
    crc
}

/// Pointwise XOR of two equal-length byte sequences.
pub open spec fn xor_bytes(s1: Seq<u8>, s2: Seq<u8>) -> Seq<u8> {
    Seq::new(s1.len(), |i: int| s1[i] ^ s2[i])
}

pub proof fn lemma_crc_round_linear()
    by (bit_vector)
    ensures
        forall|a: u16, b: u16| #[trigger] crc_round(a ^ b) == crc_round(a) ^ crc_round(b),
{
}

pub proof fn lemma_crc_round_injective()
    by (bit_vector)
    ensures
        forall|a: u16, b: u16|
            #![trigger crc_round(a), crc_round(b)]
            crc_round(a) == crc_round(b) ==> a == b,
        crc_round(0) == 0,
{
}

pub proof fn lemma_crc_rounds_linear(a: u16, b: u16, n: nat)
    ensures
        crc_rounds(a ^ b, n) == crc_rounds(a, n) ^ crc_rounds(b, n),
    decreases n,
{
    if n > 0 {
        lemma_crc_rounds_linear(a, b, (n - 1) as nat);
        lemma_crc_round_linear();
    }
}

pub proof fn lemma_crc_rounds_injective(a: u16, b: u16, n: nat)
    ensures
        crc_rounds(a, n) == crc_rounds(b, n) ==> a == b,
        crc_rounds(0, n) == 0,
    decreases n,
{
    if n > 0 {
        lemma_crc_rounds_injective(a, b, (n - 1) as nat);
        lemma_crc_round_injective();
    }
}

pub proof fn lemma_byte_fold_xor()
    by (bit_vector)
    ensures
        forall|c1: u16, c2: u16, b1: u8, b2: u8|
            #![trigger (c1 ^ ((b1 as u16) << 8u16)) ^ (c2 ^ ((b2 as u16) << 8u16))]
            (c1 ^ ((b1 as u16) << 8u16)) ^ (c2 ^ ((b2 as u16) << 8u16)) == (c1 ^ c2) ^ (((b1
                ^ b2) as u16) << 8u16),
        forall|b: u8| b != 0 ==> #[trigger] ((b as u16) << 8u16) != 0,
        0u16 ^ ((0u8 as u16) << 8u16) == 0,
        forall|a: u8, b: u8| #[trigger] (a ^ b) == 0 <==> a == b,
{
}

pub proof fn lemma_crc_byte_linear(c1: u16, b1: u8, c2: u16, b2: u8)
    ensures
        crc_byte(c1 ^ c2, b1 ^ b2) == crc_byte(c1, b1) ^ crc_byte(c2, b2),
{
    lemma_byte_fold_xor();
    lemma_crc_rounds_linear(c1 ^ ((b1 as u16) << 8), c2 ^ ((b2 as u16) << 8), 8);
}

/// The CRC16 of an all-zero sequence is 0.
pub proof fn lemma_crc16_zero(s: Seq<u8>)
    requires
        forall|i: int| 0 <= i < s.len() ==> s[i] == 0,
    ensures
        crc16(s) == 0,
    decreases s.len(),
{
    if s.len() > 0 {
        lemma_crc16_zero(s.drop_last());
        lemma_byte_fold_xor();
        lemma_crc_rounds_injective(0, 0, 8);
        assert(crc16(s) == crc_rounds(0u16 ^ ((0u8 as u16) << 8), 8));
    }
}

/// The CRC16 of a sequence that is zero except for one nonzero byte is
/// itself nonzero.
pub proof fn lemma_crc16_single_nonzero(e: Seq<u8>, k: int)
    requires
        0 <= k < e.len(),
        e[k] != 0,
        forall|i: int| 0 <= i < e.len() && i != k ==> e[i] == 0,
    ensures
        crc16(e) != 0,
    decreases e.len(),
{
    lemma_byte_fold_xor();
    if k == e.len() - 1 {
        lemma_crc16_zero(e.drop_last());
        let eb: u8 = e[k];
        let folded: u16 = 0u16 ^ ((eb as u16) << 8);
        assert(eb != 0 ==> (0u16 ^ ((eb as u16) << 8u16)) != 0) by (bit_vector);
        lemma_crc_rounds_injective(folded, 0, 8);
    } else {
        lemma_crc16_single_nonzero(e.drop_last(), k);
        let c: u16 = crc16(e.drop_last());
        let folded: u16 = c ^ ((0u8 as u16) << 8);
        assert(c != 0 ==> (c ^ ((0u8 as u16) << 8u16)) != 0) by (bit_vector);
        lemma_crc_rounds_injective(folded, 0, 8);
    }
}

/// CRC16 is linear over XOR: the CRC of a pointwise XOR of two equal-length
/// sequences is the XOR of their CRCs.
pub proof fn lemma_crc16_linear(s1: Seq<u8>, s2: Seq<u8>)
    requires
        s1.len() == s2.len(),
    ensures
        crc16(xor_bytes(s1, s2)) == crc16(s1) ^ crc16(s2),
    decreases s1.len(),
{
    if s1.len() == 0 {
        assert(crc16(xor_bytes(s1, s2)) == 0);
        assert((0u16 ^ 0u16) == 0) by (bit_vector);
    } else {
        lemma_crc16_linear(s1.drop_last(), s2.drop_last());
        assert(xor_bytes(s1, s2).drop_last() =~= xor_bytes(s1.drop_last(), s2.drop_last()));
        lemma_crc_byte_linear(crc16(s1.drop_last()), s1.last(), crc16(s2.drop_last()), s2.last());
        assert(crc16(xor_bytes(s1, s2)) == crc_byte(
            crc16(xor_bytes(s1, s2).drop_last()),
            xor_bytes(s1, s2).last(),
        ));
    }
}

/// Flipping one bit of a message changes its CRC16.
pub proof fn lemma_crc16_bit_flip(s1: Seq<u8>, s2: Seq<u8>, k: int)
    requires
        s1.len() == s2.len(),
        0 <= k < s1.len(),
        s1[k] != s2[k],
        forall|i: int| 0 <= i < s1.len() && i != k ==> s1[i] == s2[i],
    ensures
        crc16(s1) != crc16(s2),
{
    let e: Seq<u8> = xor_bytes(s1, s2);
    lemma_byte_fold_xor();
    lemma_crc16_single_nonzero(e, k);
    lemma_crc16_linear(s1, s2);
    assert(forall|a: u16, b: u16| #[trigger] (a ^ b) == 0 <==> a == b) by (bit_vector);
}

} // verus!
