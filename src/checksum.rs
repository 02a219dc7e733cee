//! Internet checksum (RFC 1071) and its incremental update (RFC 1624).
//!
//! A checksum is the one's complement of the one's-complement sum of the
//! 16-bit words it covers. For a plain integer sum `s > 0` of those words the
//! folded one's-complement sum lies in `1..=0xFFFF` and is congruent to `s`
//! modulo `0xFFFF`, so the checksum is `(0xFFFF - s % 0xFFFF) % 0xFFFF`.
use vstd::prelude::*;
use vstd::arithmetic::div_mod::{
    lemma_add_mod_noop_right,
    lemma_mod_multiples_vanish,
    lemma_sub_mod_noop_right,
};

verus! {

/// The checksum field value for words whose plain integer sum is `s`.
#[verifier::opaque]
pub open spec fn internet_checksum(s: nat) -> int {
    if s == 0 {
        65535
    } else {
        (65535 - (s % 65535) as int) % 65535
    }
}

/// The contribution of a 32-bit field to a sum of 16-bit words.
#[verifier::opaque]
pub open spec fn word_sum32(v: u32) -> nat {
    (v / 65536) as nat + (v % 65536) as nat
}

/// Adding a multiple of the modulus in the middle of a sum changes no residue.
pub proof fn lemma_mod_absorb(x: int, y: int)
    ensures
        ((x % 65535) + y) % 65535 == (x + y) % 65535,
{
    lemma_add_mod_noop_right(y, x, 65535);
}

/// The checksum of a non-zero sum is never `0xFFFF`.
pub proof fn lemma_checksum_range(s: nat)
    requires
        s > 0,
    ensures
        0 <= internet_checksum(s) < 65535,
{
    reveal(internet_checksum);
}

/// Shifting a checksum by `d` is the checksum of the sum shifted by `-d`.
pub proof fn lemma_checksum_shift(s: int, d: int)
    requires
        s > 0,
        s - d > 0,
    ensures
        (internet_checksum(s as nat) + d) % 65535 == internet_checksum((s - d) as nat),
{
    reveal(internet_checksum);
    lemma_sub_mod_noop_right(65535, s, 65535);
    lemma_sub_mod_noop_right(65535, s - d, 65535);
    lemma_mod_absorb(65535 - s, d);
}

/// Folds a sum into 16 bits by adding the carries back in (end-around carry).
pub fn fold_carries(s: u64) -> (r: u16)
    ensures
        s == 0 ==> r == 0,
        s > 0 ==> 1 <= r && r as int % 65535 == s as int % 65535,
{
    let mut t: u64 = s;
    while t > 65535
        invariant
            t as int % 65535 == s as int % 65535,
            s == 0 ==> t == 0,
            s > 0 ==> t > 0,
        decreases t,
    {
        let q: u64 = t / 65536;
        let r: u64 = t % 65536;
        proof {
            assert(t == 65536 * q + r);
            lemma_mod_multiples_vanish(q as int, (q + r) as int, 65535);
            assert(65535 * q + (q + r) == t);
        }
        t = q + r;
    }
    t as u16
}

/// The checksum field value for words whose plain integer sum is `s`.
pub fn checksum_from_sum(s: u64) -> (r: u16)
    ensures
        r as int == internet_checksum(s as nat),
{
    reveal(internet_checksum);
    let f = fold_carries(s);
    65535 - f
}

/// RFC 1624 (eqn. 3): the checksum after one 16-bit word changed from `old`
/// to `new`, computed as `~(~csum + ~old + new)` in one's-complement
/// arithmetic.
pub fn checksum_adjust(csum: u16, old: u16, new: u16) -> (r: u16)
    ensures
        csum < 65535 ==> r < 65535 && r as int == (csum as int + old as int - new as int) % 65535,
{
    let s: u64 = (65535 - csum) as u64 + (65535 - old) as u64 + new as u64;
    let f = fold_carries(s);
    proof {
        if csum < 65535 {
            assert(s > 0);
            lemma_mod_multiples_vanish(2, csum as int + old as int - new as int, 65535);
            lemma_sub_mod_noop_right(65535, s as int, 65535);
            lemma_sub_mod_noop_right(65535, f as int, 65535);
        }
    }
    65535 - f
}

/// Folds a 32-bit field into one 16-bit word of equal residue.
pub fn fold_word32(v: u32) -> (r: u16)
    ensures
        r as int % 65535 == word_sum32(v) as int % 65535,
{
    reveal(word_sum32);
    let f = fold_carries(v as u64);
    proof {
        let q = v / 65536;
        let m = v % 65536;
        assert(v == 65536 * q + m);
        lemma_mod_multiples_vanish(q as int, (q + m) as int, 65535);
        assert(65535 * q + (q + m) == v);
    }
    f
}

/// The checksum after a 32-bit field changed from `old` to `new`.
pub fn checksum_adjust32(csum: u16, old: u32, new: u32) -> (r: u16)
    ensures
        csum < 65535 ==> r < 65535 && r as int == (csum as int + word_sum32(old) as int
            - word_sum32(new) as int) % 65535,
{
    reveal(word_sum32);
    let a = fold_word32(old);
    let b = fold_word32(new);
    let r = checksum_adjust(csum, a, b);
    proof {
        if csum < 65535 {
            lemma_add_mod_noop_right(csum as int - b as int, a as int, 65535);
            lemma_add_mod_noop_right(csum as int - b as int, word_sum32(old) as int, 65535);
            lemma_sub_mod_noop_right(csum as int + word_sum32(old) as int, b as int, 65535);
            lemma_sub_mod_noop_right(csum as int + word_sum32(old) as int, word_sum32(new) as int, 65535);
        }
    }
    r
}

} // verus!
