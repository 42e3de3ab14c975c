//! The mortal era that benchmark transactions are signed with.
use vstd::prelude::*;

verus! {

/// `2` to the power `k`.
pub open spec fn two_to_the(k: nat) -> nat
    decreases k,
{
    if k == 0 {
        1
    } else {
        2 * two_to_the((k - 1) as nat)
    }
}

/// The smallest power of two that is at least `n` (`1` for `0`).
pub open spec fn next_power_of_two(n: nat) -> nat
    decreases n,
{
    if n <= 1 {
        1
    } else {
        2 * next_power_of_two(((n + 1) / 2) as nat)
    }
}

proof fn lemma_two_to_the_pos(k: nat)
    ensures
        two_to_the(k) >= 1,
    decreases k,
{
    if k > 0 {
        lemma_two_to_the_pos((k - 1) as nat);
    }
}

/// A power of two that is at least `n`, with half of it below `n`, is the
/// smallest power of two that is at least `n`.
proof fn lemma_next_power_of_two(n: nat, k: nat)
    requires
        two_to_the(k) >= n,
        k == 0 || two_to_the((k - 1) as nat) < n,
    ensures
        next_power_of_two(n) == two_to_the(k),
    decreases k,
{
    if n <= 1 {
        if k > 0 {
            lemma_two_to_the_pos((k - 1) as nat);
        }
    } else {
        assert(k > 0);
        let m = ((n + 1) / 2) as nat;
        let k1 = (k - 1) as nat;
        assert(two_to_the(k1) >= m);
        if k1 > 0 {
            assert(two_to_the(k1) == 2 * two_to_the((k1 - 1) as nat));
            assert(two_to_the((k1 - 1) as nat) < m);
        }
        lemma_next_power_of_two(m, k1);
    }
}

/// The period that benchmark transactions ask for: half the smallest power of
/// two that is at least the number of block hashes kept, or `2` where that
/// power does not fit in a `u32`.
pub open spec fn benchmark_period(block_hash_count: u32) -> u64 {
    if next_power_of_two(block_hash_count as nat) <= u32::MAX {
        (next_power_of_two(block_hash_count as nat) / 2) as u64
    } else {
        2
    }
}

/// The period of a mortal era asked for with `period`: the smallest power of
/// two at least `period` (`65536` where there is none in range), kept between
/// `4` and `65536`.
pub open spec fn mortal_period(period: u64) -> u64 {
    let p = if next_power_of_two(period as nat) <= u64::MAX {
        next_power_of_two(period as nat)
    } else {
        65536
    };
    if p < 4 {
        4
    } else if p > 65536 {
        65536
    } else {
        p as u64
    }
}

/// The mortal era, as its period and its phase, of a transaction made at block
/// `current` with the period asked for `period`: the phase is the block number
/// modulo the period, rounded down to a multiple of a period-dependent factor.
pub open spec fn mortal_era(period: u64, current: u64) -> (u64, u64) {
    let p = mortal_period(period);
    let phase = current % p;
    let factor: u64 = if p / 4096 >= 1 { (p / 4096) as u64 } else { 1 };
    (p, (phase / factor * factor) as u64)
}

/// The benchmark period for `block_hash_count`.
pub fn benchmark_era_period(block_hash_count: u32) -> (r: u64)
    ensures
        r == benchmark_period(block_hash_count),
{
    let mut p: u32 = 1;
    let ghost mut k: nat = 0;
    while p < block_hash_count
        invariant
            p as nat == two_to_the(k),
            p >= 1,
            k == 0 || two_to_the((k - 1) as nat) < block_hash_count,
        decreases u32::MAX - p,
    {
        if p > u32::MAX / 2 {
            proof {
                assert(two_to_the(k + 1) == 2 * two_to_the(k));
                assert(two_to_the(k + 1) > u32::MAX);
                lemma_next_power_of_two(block_hash_count as nat, k + 1);
            }
            return 2;
        }
        p = p * 2;
        proof {
            k = k + 1;
        }
    }
    proof {
        lemma_next_power_of_two(block_hash_count as nat, k);
    }
    (p / 2) as u64
}

/// The mortal era for `period` at block `current`, as its period and phase.
/// Calls `sp_runtime::generic::Era::mortal`, whose source computes exactly
/// `mortal_era(period, current)` and always gives a mortal era.
#[verifier::external_body]
fn mortal_era_of(period: u64, current: u64) -> (r: Option<(u64, u64)>)
    ensures
        r == Some(mortal_era(period, current)),
{
    match sp_runtime::generic::Era::mortal(period, current) {
        sp_runtime::generic::Era::Mortal(p, phase) => Some((p, phase)),
        sp_runtime::generic::Era::Immortal => None,
    }
}

/// The era that a benchmark transaction made at block `best_block` is signed
/// with, as its period and phase: mortal, for the benchmark period.
pub fn benchmark_era(block_hash_count: u32, best_block: u64) -> (r: Option<(u64, u64)>)
    ensures
        r == Some(mortal_era(benchmark_period(block_hash_count), best_block)),
{
    let period = benchmark_era_period(block_hash_count);
    mortal_era_of(period, best_block)
}

/// The smallest power of two at least `n` is a power of two.
proof fn lemma_next_power_of_two_is_power(n: nat)
    ensures
        exists|k: nat| two_to_the(k) == next_power_of_two(n),
    decreases n,
{
    if n <= 1 {
        assert(two_to_the(0) == 1);
    } else {
        let m = ((n + 1) / 2) as nat;
        lemma_next_power_of_two_is_power(m);
        let k = choose|k: nat| two_to_the(k) == next_power_of_two(m);
        assert(two_to_the(k + 1) == 2 * two_to_the(k));
    }
}

/// A mortal era's period is a power of two between `4` and `65536`, and its
/// phase lies below the period.
pub proof fn lemma_mortal_era_shape(period: u64, current: u64)
    ensures
        4 <= mortal_era(period, current).0 <= 65536,
        exists|k: nat| two_to_the(k) == mortal_era(period, current).0,
        mortal_era(period, current).1 < mortal_era(period, current).0,
{
    let p = mortal_period(period);
    lemma_next_power_of_two_is_power(period as nat);
    if next_power_of_two(period as nat) > u64::MAX || p != next_power_of_two(period as nat) {
        if p == 4 {
            assert(two_to_the(2) == 4) by {
                reveal_with_fuel(two_to_the, 3);
            }
        } else {
            assert(two_to_the(16) == 65536) by {
                reveal_with_fuel(two_to_the, 17);
            }
        }
    }
    let phase = current % p;
    let factor: u64 = if p / 4096 >= 1 { (p / 4096) as u64 } else { 1 };
    assert(phase / factor * factor <= phase) by (nonlinear_arith)
        requires
            factor >= 1,
    ;
}

/// The smallest power of two at least `n` is at least `n`, even from `2` on,
/// and its half lies below `n`.
proof fn lemma_next_power_of_two_bounds(n: nat)
    ensures
        n <= next_power_of_two(n),
        n >= 2 ==> next_power_of_two(n) % 2 == 0 && next_power_of_two(n) / 2 < n,
    decreases n,
{
    if n >= 2 {
        let m = ((n + 1) / 2) as nat;
        lemma_next_power_of_two_bounds(m);
        if m >= 2 {
            assert(next_power_of_two(m) <= 2 * m - 2);
        }
    }
}

/// The benchmark period is half the smallest power of two at least the number
/// of block hashes kept: for `n >= 2` whose next power of two fits in a `u32`,
/// it is a power of two `p` with `p < n <= 2 * p`; where that power does not
/// fit, it is `2`; for `0` and `1` it is `0`.
pub proof fn lemma_benchmark_period_halves(n: u32)
    ensures
        n >= 2 && next_power_of_two(n as nat) <= u32::MAX ==> {
            &&& exists|k: nat| two_to_the(k) == benchmark_period(n)
            &&& benchmark_period(n) < n <= 2 * benchmark_period(n)
        },
        next_power_of_two(n as nat) > u32::MAX ==> benchmark_period(n) == 2,
        n <= 1 ==> benchmark_period(n) == 0,
{
    lemma_next_power_of_two_bounds(n as nat);
    lemma_next_power_of_two_is_power(n as nat);
    if n >= 2 && next_power_of_two(n as nat) <= u32::MAX {
        let k = choose|k: nat| two_to_the(k) == next_power_of_two(n as nat);
        assert(k > 0);
        assert(two_to_the((k - 1) as nat) == benchmark_period(n));
    }
}

/// A mortal era asked for a power-of-two period between `4` and `8191` has
/// exactly that period, and its phase is the block number modulo it.
pub proof fn lemma_mortal_era_exact_period(period: u64, current: u64, k: nat)
    requires
        two_to_the(k) == period,
        4 <= period <= 8191,
    ensures
        mortal_era(period, current) == (period, current % period),
{
    assert(k > 0) by {
        if k == 0 {
            assert(two_to_the(0) == 1);
        }
    }
    assert(two_to_the(k) == 2 * two_to_the((k - 1) as nat));
    lemma_next_power_of_two(period as nat, k);
    let p = mortal_period(period);
    assert(p == period);
    assert(p / 4096 <= 1);
    let phase = current % p;
    assert(phase / 1 * 1 == phase);
}

} // verus!
