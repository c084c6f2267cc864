//! Big-endian encoding of 64-bit machine words as eight bytes, the layout that
//! PUSH immediates and memory words use.
use vstd::prelude::*;
use vstd::arithmetic::power2::pow2;

verus! {

/// The word whose big-endian bytes are the first eight of `b`.
pub open spec fn be_word(b: Seq<u8>) -> u64 {
    ((b[0] as u64) << 56u64) | ((b[1] as u64) << 48u64) | ((b[2] as u64) << 40u64) | ((b[3] as u64)
        << 32u64) | ((b[4] as u64) << 24u64) | ((b[5] as u64) << 16u64) | ((b[6] as u64) << 8u64) | (
    b[7] as u64)
}

/// The eight big-endian bytes of `v`, most significant first.
pub open spec fn be_bytes(v: u64) -> Seq<u8> {
    seq![
        (v >> 56u64) as u8,
        (v >> 48u64) as u8,
        (v >> 40u64) as u8,
        (v >> 32u64) as u8,
        (v >> 24u64) as u8,
        (v >> 16u64) as u8,
        (v >> 8u64) as u8,
        v as u8,
    ]
}

/// Reads the word stored big-endian in the eight bytes of `b`.
pub fn word_from_be_bytes(b: &[u8]) -> (v: u64)
    requires
        b@.len() == 8,
    ensures
        v == be_word(b@),
{
    ((b[0] as u64) << 56u64) | ((b[1] as u64) << 48u64) | ((b[2] as u64) << 40u64) | ((b[3] as u64)
        << 32u64) | ((b[4] as u64) << 24u64) | ((b[5] as u64) << 16u64) | ((b[6] as u64) << 8u64) | (
    b[7] as u64)
}

/// The eight big-endian bytes of `v`.
pub fn word_to_be_bytes(v: u64) -> (b: Vec<u8>)
    ensures
        b@ == be_bytes(v),
{
    let b = vec![
        (v >> 56u64) as u8,
        (v >> 48u64) as u8,
        (v >> 40u64) as u8,
        (v >> 32u64) as u8,
        (v >> 24u64) as u8,
        (v >> 16u64) as u8,
        (v >> 8u64) as u8,
        v as u8,
    ];
    proof {
        assert(b@ =~= be_bytes(v));
    }
    b
}

/// Decoding the encoding of a word gives the word back.
pub proof fn lemma_word_of_bytes(v: u64)
    ensures
        be_word(be_bytes(v)) == v,
{
    let b = be_bytes(v);
    let (b0, b1, b2, b3, b4, b5, b6, b7) = (b[0], b[1], b[2], b[3], b[4], b[5], b[6], b[7]);
    assert(((b0 as u64) << 56u64) | ((b1 as u64) << 48u64) | ((b2 as u64) << 40u64) | ((b3 as u64)
        << 32u64) | ((b4 as u64) << 24u64) | ((b5 as u64) << 16u64) | ((b6 as u64) << 8u64) | (
    b7 as u64) == v) by (bit_vector)
        requires
            b0 == (v >> 56u64) as u8,
            b1 == (v >> 48u64) as u8,
            b2 == (v >> 40u64) as u8,
            b3 == (v >> 32u64) as u8,
            b4 == (v >> 24u64) as u8,
            b5 == (v >> 16u64) as u8,
            b6 == (v >> 8u64) as u8,
            b7 == v as u8,
    ;
}

/// Encoding the word that eight bytes decode to gives the bytes back.
pub proof fn lemma_bytes_of_word(b: Seq<u8>)
    requires
        b.len() == 8,
    ensures
        be_bytes(be_word(b)) == b,
{
    let (b0, b1, b2, b3, b4, b5, b6, b7) = (b[0], b[1], b[2], b[3], b[4], b[5], b[6], b[7]);
    let w = be_word(b);
    assert(
        (w >> 56u64) as u8 == b0 && (w >> 48u64) as u8 == b1 && (w >> 40u64) as u8 == b2 && (w
            >> 32u64) as u8 == b3 && (w >> 24u64) as u8 == b4 && (w >> 16u64) as u8 == b5 && (w
            >> 8u64) as u8 == b6 && w as u8 == b7
    ) by (bit_vector)
        requires
            w == ((b0 as u64) << 56u64) | ((b1 as u64) << 48u64) | ((b2 as u64) << 40u64) | ((
            b3 as u64) << 32u64) | ((b4 as u64) << 24u64) | ((b5 as u64) << 16u64) | ((b6 as u64)
                << 8u64) | (b7 as u64),
    ;
    assert(be_bytes(w) =~= b);
}

/// Bit `i` of `x`, bit 0 being the least significant.
pub open spec fn bit(x: u64, i: u64) -> bool {
    (x >> i) & 1u64 == 1u64
}

/// Shifting left by `s` multiplies by 2^s and wraps at 2^64.
pub proof fn lemma_shl_wraps(x: u64, s: u64)
    requires
        s < 64,
    ensures
        (x << s) as int == (x as int * pow2(s as nat)) % 0x1_0000_0000_0000_0000,
    decreases s,
{
    let m: int = 0x1_0000_0000_0000_0000;
    if s == 0 {
        assert(x << 0u64 == x) by (bit_vector);
        vstd::arithmetic::power2::lemma2_to64();
        assert(pow2(0) == 1);
        vstd::arithmetic::div_mod::lemma_small_mod(x as nat, m as nat);
    } else {
        let y = x << ((s - 1) as u64);
        assert((x << s) as int == (y as int * 2) % 0x1_0000_0000_0000_0000) by (bit_vector)
            requires
                0 < s < 64,
                y == x << ((s - 1) as u64),
        ;
        lemma_shl_wraps(x, (s - 1) as u64);
        let p = pow2((s - 1) as nat);
        assert(y as int == (x as int * p) % m);
        vstd::arithmetic::power2::lemma_pow2_unfold(s as nat);
        assert(pow2(s as nat) == 2 * p);
        vstd::arithmetic::div_mod::lemma_mul_mod_noop_left(x as int * p, 2, m);
        assert(((x as int * p) % m) * 2 % m == (x as int * p) * 2 % m);
        vstd::arithmetic::mul::lemma_mul_is_associative(x as int, p as int, 2);
        assert((x as int * p) * 2 == x as int * (p * 2));
        assert(x as int * pow2(s as nat) == x as int * (p * 2));
    }
}

/// Shifting right by `s` divides by 2^s, rounding down.
pub proof fn lemma_shr_divides(x: u64, s: u64)
    requires
        s < 64,
    ensures
        (x >> s) as int == x as int / (pow2(s as nat) as int),
{
    vstd::bits::lemma_u64_shr_is_div(x, s);
}

/// And, or and xor act bit by bit.
pub proof fn lemma_bitwise_bits(a: u64, b: u64)
    ensures
        forall|i: u64| i < 64 ==> #[trigger] bit(a & b, i) == (bit(a, i) && bit(b, i)),
        forall|i: u64| i < 64 ==> #[trigger] bit(a | b, i) == (bit(a, i) || bit(b, i)),
        forall|i: u64| i < 64 ==> #[trigger] bit(a ^ b, i) == (bit(a, i) != bit(b, i)),
{
    assert forall|i: u64| i < 64 implies #[trigger] bit(a & b, i) == (bit(a, i) && bit(b, i)) by {
        assert((((a & b) >> i) & 1u64 == 1u64) == (((a >> i) & 1u64 == 1u64) && ((b >> i) & 1u64 == 1u64)))
            by (bit_vector);
    }
    assert forall|i: u64| i < 64 implies #[trigger] bit(a | b, i) == (bit(a, i) || bit(b, i)) by {
        assert((((a | b) >> i) & 1u64 == 1u64) == (((a >> i) & 1u64 == 1u64) || ((b >> i) & 1u64 == 1u64)))
            by (bit_vector);
    }
    assert forall|i: u64| i < 64 implies #[trigger] bit(a ^ b, i) == (bit(a, i) != bit(b, i)) by {
        assert((((a ^ b) >> i) & 1u64 == 1u64) == (((a >> i) & 1u64 == 1u64) != ((b >> i) & 1u64 == 1u64)))
            by (bit_vector);
    }
}

/// The word eight bytes decode to is their value as base-256 digits, most
/// significant first.
pub proof fn lemma_be_word_value(b: Seq<u8>)
    requires
        b.len() == 8,
    ensures
        be_word(b) as int == b[0] * 0x100_0000_0000_0000 + b[1] * 0x1_0000_0000_0000 + b[2] * 0x100_0000_0000
            + b[3] * 0x1_0000_0000 + b[4] * 0x100_0000 + b[5] * 0x1_0000 + b[6] * 0x100 + b[7],
{
    let (b0, b1, b2, b3, b4, b5, b6, b7) = (b[0], b[1], b[2], b[3], b[4], b[5], b[6], b[7]);
    let w = be_word(b);
    assert(w as int == b0 * 0x100_0000_0000_0000 + b1 * 0x1_0000_0000_0000 + b2 * 0x100_0000_0000 + b3
        * 0x1_0000_0000 + b4 * 0x100_0000 + b5 * 0x1_0000 + b6 * 0x100 + b7) by (bit_vector)
        requires
            w == ((b0 as u64) << 56u64) | ((b1 as u64) << 48u64) | ((b2 as u64) << 40u64) | ((
            b3 as u64) << 32u64) | ((b4 as u64) << 24u64) | ((b5 as u64) << 16u64) | ((b6 as u64)
                << 8u64) | (b7 as u64),
    ;
}

/// The encoding of a word lists its base-256 digits, most significant first.
pub proof fn lemma_be_bytes_digits(v: u64)
    ensures
        be_bytes(v).len() == 8,
        be_bytes(v)[0] as int == (v / 0x100_0000_0000_0000) % 0x100,
        be_bytes(v)[1] as int == (v / 0x1_0000_0000_0000) % 0x100,
        be_bytes(v)[2] as int == (v / 0x100_0000_0000) % 0x100,
        be_bytes(v)[3] as int == (v / 0x1_0000_0000) % 0x100,
        be_bytes(v)[4] as int == (v / 0x100_0000) % 0x100,
        be_bytes(v)[5] as int == (v / 0x1_0000) % 0x100,
        be_bytes(v)[6] as int == (v / 0x100) % 0x100,
        be_bytes(v)[7] as int == v % 0x100,
{
    assert(
        ((v >> 56u64) as u8) as int == (v / 0x100_0000_0000_0000) % 0x100 && ((v >> 48u64) as u8) as int
            == (v / 0x1_0000_0000_0000) % 0x100 && ((v >> 40u64) as u8) as int == (v / 0x100_0000_0000)
            % 0x100 && ((v >> 32u64) as u8) as int == (v / 0x1_0000_0000) % 0x100 && ((v >> 24u64) as u8)
            as int == (v / 0x100_0000) % 0x100 && ((v >> 16u64) as u8) as int == (v / 0x1_0000) % 0x100
            && ((v >> 8u64) as u8) as int == (v / 0x100) % 0x100 && (v as u8) as int == v % 0x100
    ) by (bit_vector);
}

} // verus!
