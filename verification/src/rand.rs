//! A small linear-congruential pseudo-random generator.
//!
//! The generator steps a byte-sized congruential state once per output byte,
//! assembles the sixteen bytes into one 128-bit value, and returns its
//! bitwise complement.  Seeding from the clock is the one effect here; the
//! number built from a given seed is a pure function of it.

use vstd::prelude::*;
use vstd::arithmetic::div_mod::lemma_add_mod_noop;
use vstd::arithmetic::div_mod::lemma_mod_mod;
use vstd::arithmetic::div_mod::lemma_small_mod;
use vstd::arithmetic::mul::lemma_mul_inequality;
use vstd::arithmetic::power::lemma_pow0;
use vstd::arithmetic::power::lemma_pow1;
use vstd::arithmetic::power::lemma_pow_adds;
use vstd::arithmetic::power::pow;

verus! {

/// The numeric type the generator produces.
pub type RandomNumber = u128;

/// One step of the byte-sized congruential state: the low byte of nine
/// times the previous state plus five (the 128-bit products wrap, which the
/// final reduction to a byte makes irrelevant).
pub open spec fn lcg_next(seed: u128) -> u128 {
    ((9 * seed + 5) % 0x100) as u128
}

/// The congruential state after `n` steps from `seed`.
pub open spec fn lcg_state(seed: u128, n: nat) -> u128
    decreases n,
{
    if n == 0 {
        seed
    } else {
        lcg_next(lcg_state(seed, (n - 1) as nat))
    }
}

/// The value assembled from the first `n` generated bytes, byte `i` at
/// weight `256^i`.
pub open spec fn lcg_acc(seed: u128, n: nat) -> int
    decreases n,
{
    if n == 0 {
        0
    } else {
        lcg_acc(seed, (n - 1) as nat) + lcg_state(seed, n) * pow(256, (n - 1) as nat)
    }
}

/// The number generated from a seed: the bitwise complement of the sixteen
/// assembled bytes.
pub open spec fn random_of(seed: u128) -> u128 {
    (u128::MAX - lcg_acc(seed, 16)) as u128
}

/// Each byte weight is 256 times the one before it.
proof fn lemma_pow256_step(n: nat)
    requires
        n >= 1,
    ensures
        pow(256, n) == 256 * pow(256, (n - 1) as nat),
{
    lemma_pow1(256);
    lemma_pow_adds(256, (n - 1) as nat, 1);
}

/// The numeric value of the highest byte weight used.
proof fn lemma_pow256_15()
    ensures
        pow(256, 15) == 0x100_0000_0000_0000_0000_0000_0000_0000,
{
    reveal_with_fuel(pow, 16);
}

/// The assembled bytes fit below `256^n`.
proof fn lemma_lcg_acc_bound(seed: u128, n: nat)
    ensures
        0 <= lcg_acc(seed, n) < pow(256, n),
    decreases n,
{
    if n == 0 {
        lemma_pow0(256);
    } else {
        lemma_lcg_acc_bound(seed, (n - 1) as nat);
        assert(lcg_state(seed, n) <= 255);
        lemma_mul_inequality(lcg_state(seed, n) as int, 255, pow(256, (n - 1) as nat));
        lemma_pow256_step(n);
    }
}

/// Steps the congruential state exactly as specified, with wrapping
/// products.
fn lcg_step(seed: u128) -> (r: u128)
    ensures
        r == lcg_next(seed),
        r < 0x100,
{
    let raw: u128 = seed.wrapping_mul(9).wrapping_add(5);
    proof {
        let m: int = 0x100int * 0x100_0000_0000_0000_0000_0000_0000_0000int;
        let a: int = 9 * seed;
        lemma_small_mod(5, m as nat);
        lemma_add_mod_noop(a, 5, m);
        assert(raw == (a + 5) % m);
        lemma_mod_mod(a + 5, 0x100, 0x100_0000_0000_0000_0000_0000_0000_0000);
        assert(0x100 * 0x100_0000_0000_0000_0000_0000_0000_0000 == m);
    }
    raw % 0x100
}

/// Generates the pseudo-random number determined by `seed`: sixteen
/// congruential bytes assembled least-significant first, complemented.
pub fn random_with_seed(seed: RandomNumber) -> (r: RandomNumber)
    ensures
        r == random_of(seed),
{
    let mut s: u128 = seed;
    let mut result: u128 = 0;
    let mut m: u128 = 1;
    let mut i: usize = 0;

    proof {
        lemma_pow0(256);
    }
    while i < 16
        invariant
            i <= 16,
            s == lcg_state(seed, i as nat),
            i > 0 ==> s < 0x100,
            i < 16 ==> m == pow(256, i as nat),
            result == lcg_acc(seed, i as nat),
        decreases 16 - i,
    {
        proof {
            lemma_lcg_acc_bound(seed, i as nat);
            lemma_pow256_15();
            if i < 15 {
                lemma_pow256_step((i + 1) as nat);
                vstd::arithmetic::power::lemma_pow_increases(256, (i + 1) as nat, 15);
            }
            lemma_mul_inequality(lcg_next(s) as int, 255, pow(256, i as nat));
        }
        s = lcg_step(s);
        result = result + s * m;
        if i < 15 {
            m = m * 256;
        }
        i = i + 1;
    }
    u128::MAX - result
}

#[verifier::external_type_specification]
#[verifier::external_body]
pub struct ExSystemTimeError(std::time::SystemTimeError);

/// Relies on `SystemTime::elapsed`, applied to `std::time::UNIX_EPOCH`: the
/// wall-clock duration since the Unix epoch, or the clock's error when the
/// clock reads earlier than the epoch.  The result depends on the clock, so
/// nothing is promised of it.
#[verifier::external_body]
fn unix_epoch_elapsed() -> Result<std::time::Duration, std::time::SystemTimeError> {
    std::time::UNIX_EPOCH.elapsed()
}

/// Relies on `Duration::as_nanos`: the duration's whole length in
/// nanoseconds.
#[verifier::external_body]
fn duration_as_nanos(d: &std::time::Duration) -> u128 {
    d.as_nanos()
}

/// Generates a pseudo-random number in `[min, max)`, seeding the generator
/// with the clock's nanoseconds since the Unix epoch; fails exactly when
/// the clock does.
pub fn random_in_range(min: RandomNumber, max: RandomNumber) -> (r: Result<
    RandomNumber,
    std::time::SystemTimeError,
>)
    requires
        min < max,
    ensures
        r matches Ok(v) ==> min <= v < max,
        r matches Ok(v) ==> exists|s: u128| v as int == #[trigger] random_of(s) as int % (max - min)
            + min,
{
    match unix_epoch_elapsed() {
        Ok(d) => {
            let nanos = duration_as_nanos(&d);
            let rnd = random_with_seed(nanos);
            Ok(rnd % (max - min) + min)
        },
        Err(e) => Err(e),
    }
}

} // verus!
