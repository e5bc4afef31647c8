//! The Internet one's-complement checksum (RFC 1071) over a byte range.
//!
//! The buffer is read two bytes at a time as 16-bit words, least-significant
//! byte first — the in-memory order of a 16-bit value on a little-endian
//! host, so a word's two bytes are *not* swapped into network order before
//! summing.  Because of that fixed read order the checksum is sensitive to
//! the order of the input bytes: reversing a multi-byte buffer generally
//! changes the result.

use vstd::prelude::*;
use vstd::arithmetic::div_mod::lemma_add_mod_noop;
use vstd::arithmetic::div_mod::lemma_add_mod_noop_right;
use vstd::arithmetic::div_mod::lemma_small_mod;
use vstd::arithmetic::div_mod::lemma_fundamental_div_mod;
use vstd::arithmetic::div_mod::lemma_mod_multiples_vanish;
use vstd::arithmetic::div_mod::lemma_sub_mod_noop;

verus! {

/// The 16-bit word formed by two adjacent bytes, least-significant byte first.
pub open spec fn word16(lo: u8, hi: u8) -> int {
    lo + 0x100 * hi
}

/// The plain (unfolded) sum of the buffer's 16-bit words; a trailing odd byte
/// is added as-is, not widened into a padded word.
pub open spec fn sum_words(s: Seq<u8>) -> int
    decreases s.len(),
{
    if s.len() >= 2 {
        word16(s[0], s[1]) + sum_words(s.skip(2))
    } else if s.len() == 1 {
        s[0] as int
    } else {
        0
    }
}

/// The end-around-carry fold and final complement applied to the word sum,
/// exactly as a 32-bit signed accumulator computes it: the accumulator holds
/// `total` reduced modulo 2^32 (`w` is its bit pattern, the first branch its
/// signed value divided by 2^16, i.e. an arithmetic shift right by 16);
/// `f1` and `f2` are the two fold steps, and the result is the bitwise
/// complement of `f2` truncated to 16 bits.
pub open spec fn fold_complement(total: int) -> u16 {
    let w = total % 0x1_0000_0000;
    let f1 = (if w < 0x8000_0000 {
        w / 0x10000
    } else {
        w / 0x10000 - 0x10000
    }) + w % 0x10000;
    let f2 = f1 + f1 / 0x10000;
    (0xFFFF - f2 % 0x10000) as u16
}

/// The checksum of a byte sequence: fold and complement of its word sum.
/// The empty sequence's sum is 0, so its checksum is `0xFFFF`.
pub open spec fn checksum_spec(s: Seq<u8>) -> u16 {
    fold_complement(sum_words(s))
}

/// Computes the Internet checksum over the first `len` bytes of `header`.
pub fn checksum(header: &[u8], len: usize) -> (r: u16)
    requires
        len <= header@.len(),
    ensures
        r == checksum_spec(header@.take(len as int)),
{
    let ghost s = header@.take(len as int);
    let ghost total = sum_words(s);
    let mut sum: u64 = 0;
    let mut left: usize = len;
    let mut i: usize = 0;

    proof {
        assert(s.skip(0) =~= s);
    }

    while left > 1
        invariant
            len <= header@.len(),
            s == header@.take(len as int),
            total == sum_words(s),
            i + left == len,
            sum < 0x1_0000_0000,
            (sum + sum_words(s.skip(i as int))) % 0x1_0000_0000 == total % 0x1_0000_0000,
        decreases left,
    {
        let w: u64 = header[i] as u64 + 0x100 * (header[i + 1] as u64);
        proof {
            let rest = s.skip(i as int);
            assert(rest.len() == len - i);
            assert(rest[0] == s[i as int]);
            assert(rest[1] == s[i as int + 1]);
            assert(rest.skip(2) =~= s.skip(i as int + 2));
            assert(sum_words(rest) == word16(s[i as int], s[i as int + 1]) + sum_words(
                s.skip(i as int + 2),
            ));
            // ((sum + w) % m + rest') % m == (sum + w + rest') % m
            lemma_add_mod_noop(sum as int + w as int, sum_words(s.skip(i as int + 2)),
                0x1_0000_0000);
            lemma_add_mod_noop_right((sum + w) as int % 0x1_0000_0000,
                sum_words(s.skip(i as int + 2)), 0x1_0000_0000);
            lemma_add_mod_noop_right(sum as int + w as int, sum_words(s.skip(i as int + 2)),
                0x1_0000_0000);
        }
        sum = (sum + w) % 0x1_0000_0000;
        i = i + 2;
        left = left - 2;
    }

    if left == 1 {
        proof {
            let rest = s.skip(i as int);
            assert(rest.len() == 1);
            assert(rest[0] == s[i as int]);
            assert(sum_words(rest) == s[i as int] as int);
            lemma_add_mod_noop(sum as int + s[i as int] as int, 0, 0x1_0000_0000);
        }
        sum = (sum + header[i] as u64) % 0x1_0000_0000;
        i = i + 1;
    }

    proof {
        assert(s.skip(i as int).len() == 0);
        assert(sum_words(s.skip(i as int)) == 0);
        lemma_small_mod(sum as nat, 0x1_0000_0000);
        assert(sum == total % 0x1_0000_0000);
    }

    // End-around-carry fold of a 32-bit signed accumulator whose bit pattern
    // is `sum`, then the complement of the low 16 bits.
    let q: i64 = if sum >= 0x8000_0000 {
        (sum / 0x10000) as i64 - 0x10000
    } else {
        (sum / 0x10000) as i64
    };
    let f1: i64 = q + (sum % 0x10000) as i64;
    proof {
        assert(-0x8000 <= f1 < 0x1_8000);
        assert(f1 < 0 ==> f1 as int / 0x10000 == -1);
        assert(0 <= f1 < 0x10000 ==> f1 as int / 0x10000 == 0);
        assert(f1 >= 0x10000 ==> f1 as int / 0x10000 == 1);
    }
    let f2: i64 = if f1 < 0 {
        f1 - 1
    } else if f1 >= 0x10000 {
        f1 + 1
    } else {
        f1
    };
    proof {
        assert(f2 as int == {
            let ff = f1 as int;
            ff + ff / 0x10000
        });
        assert(f2 < 0 ==> f2 as int % 0x10000 == f2 + 0x10000);
        assert(0 <= f2 < 0x10000 ==> f2 as int % 0x10000 == f2);
        assert(f2 >= 0x10000 ==> f2 as int % 0x10000 == f2 - 0x10000);
    }
    let low: i64 = if f2 < 0 {
        f2 + 0x10000
    } else if f2 >= 0x10000 {
        f2 - 0x10000
    } else {
        f2
    };
    (0xFFFF - low) as u16
}

/// The word sum is non-negative and at most `0xFFFF` per word.
pub proof fn lemma_sum_words_bound(s: Seq<u8>)
    ensures
        0 <= sum_words(s) <= 0xFFFF * ((s.len() + 1) / 2),
    decreases s.len(),
{
    if s.len() >= 2 {
        lemma_sum_words_bound(s.skip(2));
        assert((s.len() - 2 + 1) / 2 + 1 == (s.len() + 1) / 2);
        assert(0xFFFF * ((s.len() - 2 + 1) / 2) + 0xFFFF == 0xFFFF * ((s.len() + 1) / 2))
            by (nonlinear_arith)
        requires
            (s.len() - 2 + 1) / 2 + 1 == (s.len() + 1) / 2,
        ;
    }
}

/// Replacing the two bytes of a word-aligned 16-bit field changes the word
/// sum by exactly the difference of the old and new word.
pub proof fn lemma_sum_words_replace_word(s: Seq<u8>, off: int, lo: u8, hi: u8)
    requires
        0 <= off,
        off % 2 == 0,
        off + 2 <= s.len(),
    ensures
        sum_words(s.update(off, lo).update(off + 1, hi)) == sum_words(s) - word16(
            s[off],
            s[off + 1],
        ) + word16(lo, hi),
    decreases off,
{
    let t = s.update(off, lo).update(off + 1, hi);
    if off == 0 {
        assert(t.skip(2) =~= s.skip(2));
        assert(t[0] == lo && t[1] == hi);
    } else {
        assert(t.skip(2) =~= s.skip(2).update(off - 2, lo).update(off - 1, hi));
        lemma_sum_words_replace_word(s.skip(2), off - 2, lo, hi);
        assert(t[0] == s[0] && t[1] == s[1]);
        assert(s.skip(2)[off - 2] == s[off] && s.skip(2)[off - 1] == s[off + 1]);
    }
}

/// For a word sum small enough not to wrap the 32-bit accumulator, the fold
/// keeps the sum's residue modulo `0xFFFF`: the complement of the result is a
/// value in `[0, 0xFFFF]` congruent to the sum, and it is `0` only for the
/// sum `0`.
pub proof fn lemma_fold_congruence(t: int)
    requires
        0 <= t < 0x7FFF_0000,
    ensures
        ({
            let low = 0xFFFF - fold_complement(t);
            &&& 0 <= low <= 0xFFFF
            &&& low % 0xFFFF == t % 0xFFFF
            &&& (low == 0 ==> t == 0)
        }),
{
    let q = t / 0x10000;
    let r = t % 0x10000;
    lemma_small_mod(t as nat, 0x1_0000_0000);
    lemma_fundamental_div_mod(t, 0x10000);
    assert(0 <= q < 0x8000 && 0 <= r < 0x10000);
    let f1 = q + r;
    // t == 0xFFFF * q + (q + r), so t and f1 share a residue modulo 0xFFFF.
    lemma_mod_multiples_vanish(q, q + r, 0xFFFF);
    assert(0xFFFF * q + (q + r) == 0x10000 * q + r);
    if f1 < 0x10000 {
        lemma_small_mod(f1 as nat, 0x10000 as nat);
        assert(fold_complement(t) == 0xFFFF - f1);
        if f1 == 0 {
            assert(q == 0 && r == 0);
        }
    } else {
        assert(f1 / 0x10000 == 1);
        let f2 = f1 + 1;
        assert(f2 % 0x10000 == f2 - 0x10000) by {
            lemma_fundamental_div_mod(f2, 0x10000);
            lemma_small_mod((f2 - 0x10000) as nat, 0x10000 as nat);
            lemma_mod_multiples_vanish(1, f2 - 0x10000, 0x10000);
        }
        assert(fold_complement(t) == 0xFFFF - (f1 - 0xFFFF));
        // (f1 - 0xFFFF) % 0xFFFF == f1 % 0xFFFF
        lemma_mod_multiples_vanish(-1, f1, 0xFFFF);
        assert(0xFFFF * -1 + f1 == f1 - 0xFFFF);
    }
}

/// The standard self-check of the Internet checksum: take a buffer whose
/// 16-bit checksum field (two bytes at a word-aligned offset) is zero,
/// compute the checksum, and store it in that field with the same byte order
/// the summing loop reads.  Recomputing the checksum over the filled buffer
/// then yields `0x0000`.  The buffer must be small enough that the word sum
/// cannot wrap the 32-bit accumulator; every protocol header here is.
pub proof fn lemma_checksum_self_check(data: Seq<u8>, off: int)
    requires
        0 <= off,
        off % 2 == 0,
        off + 2 <= data.len(),
        data[off] == 0,
        data[off + 1] == 0,
        data.len() <= 0xFFFE,
    ensures
        ({
            let c = checksum_spec(data);
            checksum_spec(
                data.update(off, (c % 0x100) as u8).update(off + 1, (c / 0x100) as u8),
            ) == 0
        }),
{
    let total = sum_words(data);
    lemma_sum_words_bound(data);
    assert((data.len() + 1) / 2 <= 0x7FFF);
    assert(0xFFFF * ((data.len() + 1) / 2) <= 0xFFFF * 0x7FFF) by (nonlinear_arith)
    requires
        (data.len() + 1) / 2 <= 0x7FFF,
    ;
    assert(0 <= total < 0x7FFF_0000);

    let c = checksum_spec(data);
    lemma_fold_congruence(total);
    let low = 0xFFFF - c;
    assert(c == 0xFFFF - low);

    let lo = (c % 0x100) as u8;
    let hi = (c / 0x100) as u8;
    lemma_fundamental_div_mod(c as int, 0x100);
    assert(word16(lo, hi) == c);
    lemma_sum_words_replace_word(data, off, lo, hi);
    let filled = data.update(off, lo).update(off + 1, hi);
    assert(word16(data[off], data[off + 1]) == 0);
    assert(sum_words(filled) == total + c);

    let total2 = total + c;
    // total2 is congruent to 0 modulo 0xFFFF: it is total - low plus 0xFFFF.
    lemma_sub_mod_noop(total, low, 0xFFFF);
    assert((total - low) % 0xFFFF == 0);
    lemma_mod_multiples_vanish(1, total - low, 0xFFFF);
    assert(0xFFFF * 1 + (total - low) == total2);
    assert(total2 % 0xFFFF == 0);

    // total2 is positive: a zero sum gets the checksum 0xFFFF written in.
    if total == 0 {
        assert(low == 0);
        assert(total2 == 0xFFFF);
    }
    assert(total2 > 0);
    assert(total2 < 0x7FFF_0000);

    lemma_fold_congruence(total2);
    let low2 = 0xFFFF - fold_complement(total2);
    assert(low2 % 0xFFFF == 0);
    assert(low2 != 0);
    if low2 < 0xFFFF {
        lemma_small_mod(low2 as nat, 0xFFFF as nat);
        assert(false);
    }
    assert(low2 == 0xFFFF);
    assert(fold_complement(total2) == 0);
}

} // verus!
