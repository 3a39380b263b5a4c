//! The bits of a 32-bit word.

use vstd::arithmetic::power2;
use vstd::prelude::*;

verus! {

/// Bit `b` of `word`.
pub open spec fn bit(word: u32, b: nat) -> bool {
    (word >> (b as u32)) & 1 == 1
}

pub proof fn lemma_zero_word(b: nat)
    requires
        b < 32,
    ensures
        !bit(0, b),
{
    let k = b as u32;
    assert((0u32 >> k) & 1 == 0) by (bit_vector);
}

/// A set bit of a word that is not zero.
pub proof fn lemma_some_bit(z: u32) -> (b: nat)
    requires
        z != 0,
    ensures
        b < 32,
        bit(z, b),
    decreases z,
{
    if z & 1 == 1 {
        assert((z >> 0) & 1 == 1) by (bit_vector)
            requires
                z & 1 == 1,
        ;
        0
    } else {
        let half = z >> 1;
        assert(half != 0 && half < z) by (bit_vector)
            requires
                z != 0,
                z & 1 != 1,
                half == z >> 1,
        ;
        let b = lemma_some_bit(half);
        let k = b as u32;
        assert(k < 31 && (z >> ((k + 1) as u32)) & 1 == 1) by (bit_vector)
            requires
                k < 32,
                half == z >> 1,
                (half >> k) & 1 == 1,
        ;
        b + 1
    }
}

/// Two words with the same bits are the same.
pub proof fn lemma_same_bits(x: u32, y: u32)
    requires
        forall|b: nat| b < 32 ==> #[trigger] bit(x, b) == bit(y, b),
    ensures
        x == y,
{
    let z = x ^ y;
    if z != 0 {
        let b = lemma_some_bit(z);
        let k = b as u32;
        assert(bit(x, b) == bit(y, b));
        assert(((x >> k) & 1 == 1) != ((y >> k) & 1 == 1)) by (bit_vector)
            requires
                k < 32,
                z == x ^ y,
                (z >> k) & 1 == 1,
        ;
    }
    assert(x == y) by (bit_vector)
        requires
            z == x ^ y,
            z == 0,
    ;
}

/// Bit `b` of `word`.
pub fn get_bit(word: u32, b: u32) -> (set: bool)
    requires
        b < 32,
    ensures
        set == bit(word, b as nat),
{
    assert((word & (1u32 << b) != 0) == ((word >> b) & 1 == 1)) by (bit_vector)
        requires
            b < 32,
    ;
    word & (1u32 << b) != 0
}

/// `word` with bit `b` set.
pub fn set_bit(word: u32, b: u32) -> (r: u32)
    requires
        b < 32,
    ensures
        forall|c: nat| c < 32 ==> #[trigger] bit(r, c) == (c == b || bit(word, c)),
{
    let r = word | (1u32 << b);
    assert forall|c: nat| c < 32 implies #[trigger] bit(r, c) == (c == b || bit(word, c)) by {
        let k = c as u32;
        assert(((word | (1u32 << b)) >> k) & 1 == 1 <==> (k == b || (word >> k) & 1 == 1))
            by (bit_vector)
            requires
                b < 32,
                k < 32,
        ;
    }
    r
}

/// `word` with bit `b` cleared.
pub fn clear_bit(word: u32, b: u32) -> (r: u32)
    requires
        b < 32,
    ensures
        forall|c: nat| c < 32 ==> #[trigger] bit(r, c) == (c != b && bit(word, c)),
{
    let r = word & !(1u32 << b);
    assert forall|c: nat| c < 32 implies #[trigger] bit(r, c) == (c != b && bit(word, c)) by {
        let k = c as u32;
        assert(((word & !(1u32 << b)) >> k) & 1 == 1 <==> (k != b && (word >> k) & 1 == 1))
            by (bit_vector)
            requires
                b < 32,
                k < 32,
        ;
    }
    r
}

/// The word whose bits from `used` on are set.
pub open spec fn high_mask(used: nat) -> u32 {
    !(((1u32 << (used as u32)) - 1) as u32)
}

/// The bits of the mask are those from `used` on.
pub proof fn lemma_high_mask(used: nat)
    requires
        used < 32,
    ensures
        forall|b: nat| b < 32 ==> (#[trigger] bit(high_mask(used), b) <==> b >= used),
{
    let u = used as u32;
    assert forall|b: nat| b < 32 implies (#[trigger] bit(high_mask(used), b) <==> b >= used) by {
        let k = b as u32;
        assert((!(((1u32 << u) - 1) as u32) >> k) & 1 == 1 <==> k >= u) by (bit_vector)
            requires
                u < 32,
                k < 32,
        ;
    }
}

/// The word whose bits from `used` on are set.
pub fn high_mask_word(used: u32) -> (mask: u32)
    requires
        used < 32,
    ensures
        mask == high_mask(used as nat),
        forall|word: u32| #[trigger]
            (word & mask) != 0 <==> exists|b: nat| used <= b < 32 && #[trigger] bit(word, b),
{
    assert((1u32 << used) >= 1) by (bit_vector)
        requires
            used < 32,
    ;
    let mask = !((1u32 << used) - 1);
    assert forall|word: u32| #[trigger] (word & mask) != 0 implies exists|b: nat|
        used <= b < 32 && #[trigger] bit(word, b) by {
        let z = word & mask;
        let b = lemma_some_bit(z);
        let k = b as u32;
        assert(used <= k && (word >> k) & 1 == 1) by (bit_vector)
            requires
                used < 32,
                k < 32,
                mask == !(((1u32 << used) - 1) as u32),
                z == word & mask,
                (z >> k) & 1 == 1,
        ;
        assert(bit(word, b));
    }
    assert forall|word: u32|
        (exists|b: nat| used <= b < 32 && #[trigger] bit(word, b)) implies #[trigger] (word & mask)
        != 0 by {
        let b = choose|b: nat| used <= b < 32 && #[trigger] bit(word, b);
        let k = b as u32;
        assert(word & mask != 0) by (bit_vector)
            requires
                used <= k < 32,
                mask == !(((1u32 << used) - 1) as u32),
                (word >> k) & 1 == 1,
        ;
    }
    mask
}

/// A bit of a word is a digit of the word as a number: bit `b` is set where the word, divided by
/// 2 to the power `b`, is odd.
pub proof fn law_bits_are_digits(word: u32, b: nat)
    requires
        b < 32,
    ensures
        bit(word, b) <==> word as int / power2::pow2(b) as int % 2 == 1,
    decreases b,
{
    power2::lemma_pow2_pos(b);
    if b == 0 {
        let k = b as u32;
        assert((word >> k) & 1 == word % 2) by (bit_vector)
            requires
                k == 0,
        ;
        power2::lemma2_to64();
        assert(power2::pow2(b) == 1);
        assert(word as int / 1 == word);
    } else {
        let c = (b - 1) as nat;
        let k = c as u32;
        let half = word / 2;
        assert((word >> ((k + 1) as u32)) & 1 == ((word / 2) >> k) & 1) by (bit_vector)
            requires
                k < 31,
        ;
        assert((k + 1) as u32 == b as u32);
        assert(bit(word, b) == bit(half, c));
        law_bits_are_digits(half, c);
        power2::lemma_pow2_unfold(b);
        power2::lemma_pow2_pos(c);
        vstd::arithmetic::div_mod::lemma_div_denominator(word as int, 2, power2::pow2(c) as int);
    }
}

} // verus!
