//! A trial-division primality test and a prime-listing helper.

use vstd::prelude::*;

verus! {

/// Namespace for the prime-number helpers.
pub struct Prime;

/// Whether `u` is prime: greater than one and divisible by no value between
/// two and itself.
pub open spec fn is_prime_spec(u: u128) -> bool {
    u > 1 && forall|j: int| 2 <= j < u ==> #[trigger] (u as int % j) != 0
}

/// The primes in `[start, end)` in increasing order, one entry each.
pub open spec fn primes_in_range(start: u128, end: int) -> Seq<u128>
    decreases end - start,
{
    if end <= start {
        Seq::empty()
    } else {
        let prev = primes_in_range(start, end - 1);
        if is_prime_spec((end - 1) as u128) {
            prev.push((end - 1) as u128)
        } else {
            prev
        }
    }
}

impl Prime {
    /// Decides primality by trial division over every candidate divisor.
    pub fn is_prime(u: u128) -> (r: bool)
        ensures
            r == is_prime_spec(u),
    {
        if u <= 1 {
            return false;
        }
        let mut i: u128 = 2;
        while i < u
            invariant
                2 <= i <= u,
                forall|j: int| 2 <= j < i ==> #[trigger] (u as int % j) != 0,
            decreases u - i,
        {
            if u % i == 0 {
                return false;
            }
            i = i + 1;
        }
        true
    }

    /// Lists the primes in `[start, end)` in increasing order.
    pub fn range(start: u128, end: u128) -> (r: Vec<u128>)
        ensures
            r@ == primes_in_range(start, end as int),
    {
        let mut primes: Vec<u128> = Vec::new();
        let mut u: u128 = start;

        while u < end
            invariant
                start <= u,
                u <= end || u == start,
                primes@ == primes_in_range(start, u as int),
            decreases end - u,
        {
            if Self::is_prime(u) {
                primes.push(u);
            }
            u = u + 1;
        }
        primes
    }
}

} // verus!
