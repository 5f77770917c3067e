//! The sample planner: turns a sample size into an ordered plan of block
//! heights to fetch.
//!
//! The plan is a concatenation of `sample_size / window` disjoint runs, each
//! run `window` consecutive heights long and starting at an independently
//! drawn uniform random height below the current tip.  Runs may overlap or
//! repeat; that is accepted, not deduplicated.
use vstd::prelude::*;

use rand::Rng;

verus! {

/// Relies on `rand::Rng::gen_range` over `0..max`: a uniform draw below
/// `max`.  The call panics only on an empty range, which `max >= 1` rules
/// out; nothing more can be promised of a random value than its range.
#[verifier::external_body]
fn random_below(max: u64) -> (r: u64)
    requires
        max >= 1,
    ensures
        r < max,
{
    rand::thread_rng().gen_range(0..max)
}

/// The plan is made of runs of `window` consecutive heights: every height
/// is its run's first height plus its offset within the run.
pub open spec fn windowed_plan(r: Seq<u64>, window: int, block_max: int) -> bool {
    &&& forall|j: int|
        0 <= j < r.len() && j % window == 0 ==> (#[trigger] r[j]) < block_max
    &&& forall|j: int|
        0 <= j < r.len() ==> (#[trigger] r[j]) == r[window * (j / window)] + (j % window)
}

/// Get the randomized sample of block heights: `sample_size / window` runs
/// of `window` contiguous heights each, every run starting at a random
/// height below `block_max`.  The plan's length is therefore exactly
/// `(sample_size / window) * window`, which may fall short of
/// `sample_size`: that truncation is intentional.
pub fn get_random_heights(sample_size: u64, block_max: u64, window: u64) -> (r: Vec<u64>)
    requires
        block_max >= 1,
        window >= 2,
        (sample_size as int / window as int) * window as int <= usize::MAX,
        block_max - 1 + window - 1 <= u64::MAX,
    ensures
        r@.len() == (sample_size as int / window as int) * window as int,
        windowed_plan(r@, window as int, block_max as int),
{
    let count = sample_size / window;
    let mut result: Vec<u64> = Vec::new();
    let mut w: u64 = 0;
    assert(count * window <= usize::MAX && count == sample_size as int / window as int);
    while w < count
        invariant
            window >= 2,
            block_max >= 1,
            block_max - 1 + window - 1 <= u64::MAX,
            w <= count,
            count * window <= usize::MAX,
            result@.len() == w * window,
            windowed_plan(result@, window as int, block_max as int),
        decreases count - w,
    {
        let ghost base = result@.len() as int;
        let ghost before = result@;
        proof {
            assert(base == w * window);
            vstd::arithmetic::div_mod::lemma_mod_multiples_basic(w as int, window as int);
            assert(base % (window as int) == 0);
            assert((w + 1) * window == base + window) by (nonlinear_arith)
                requires
                    base == w * window,
            ;
            assert((w + 1) * window <= count * window) by (nonlinear_arith)
                requires
                    w + 1 <= count,
                    window >= 2,
            ;
        }
        let start = random_below(block_max);
        result.push(start);
        proof {
            assert(result@.take(base) =~= before);
            lemma_plan_extended(result@, window as int, block_max as int, base, 1, start as int);
        }
        let mut k: u64 = 1;
        while k < window
            invariant
                window >= 2,
                block_max >= 1,
                block_max - 1 + window - 1 <= u64::MAX,
                1 <= k <= window,
                start < block_max,
                base == w * window,
                base % (window as int) == 0,
                result@.len() == base + k,
                base + window <= count * window <= usize::MAX,
                windowed_plan(result@.take(base), window as int, block_max as int),
                forall|j: int|
                    base <= j < result@.len() ==> (#[trigger] result@[j]) == start + (j - base),
                windowed_plan(result@, window as int, block_max as int),
            decreases window - k,
        {
            let ghost mid = result@;
            result.push(start + k);
            proof {
                assert(result@.take(base) =~= mid.take(base));
                lemma_plan_extended(
                    result@,
                    window as int,
                    block_max as int,
                    base,
                    k as int + 1,
                    start as int,
                );
            }
            k += 1;
        }
        w += 1;
    }
    result
}

/// A position `base + k` inside a run that begins at the multiple-of-window
/// position `base` has offset `k` and run start `base`.
proof fn lemma_run_position(base: int, k: int, window: int)
    requires
        window >= 1,
        base % window == 0,
        base >= 0,
        0 <= k < window,
    ensures
        (base + k) % window == k,
        window * ((base + k) / window) == base,
{
    vstd::arithmetic::div_mod::lemma_fundamental_div_mod(base, window);
    assert(base == (base / window) * window) by (nonlinear_arith)
        requires
            base == window * (base / window) + (base % window),
            base % window == 0,
    ;
    vstd::arithmetic::div_mod::lemma_fundamental_div_mod_converse(
        base + k,
        window,
        base / window,
        k,
    );
}

/// Extending a windowed plan by one more height of the current run keeps it
/// a windowed plan.
proof fn lemma_plan_extended(r: Seq<u64>, window: int, block_max: int, base: int, k: int, start: int)
    requires
        window >= 1,
        base % window == 0,
        base >= 0,
        1 <= k <= window,
        r.len() == base + k,
        0 <= start < block_max,
        windowed_plan(r.take(base), window, block_max),
        forall|j: int| base <= j < r.len() ==> (#[trigger] r[j]) == start + (j - base),
    ensures
        windowed_plan(r, window, block_max),
{
    assert forall|j: int| 0 <= j < r.len() implies (#[trigger] r[j]) == r[window * (j / window)] + (
    j % window) by {
        if j < base {
            assert(r.take(base)[j] == r.take(base)[window * (j / window)] + (j % window));
            assert(0 <= window * (j / window) <= j) by {
                vstd::arithmetic::div_mod::lemma_fundamental_div_mod(j, window);
                vstd::arithmetic::div_mod::lemma_mod_bound(j, window);
            }
        } else {
            lemma_run_position(base, j - base, window);
        }
    }
    assert forall|j: int| 0 <= j < r.len() && j % window == 0 implies (#[trigger] r[j])
        < block_max by {
        if j >= base {
            lemma_run_position(base, j - base, window);
        } else {
            assert(r.take(base)[j] < block_max);
        }
    }
}

/// The full contiguous range of heights `[0, block_max]`, used when the
/// analysis runs over the whole population instead of a sample.
pub fn full_population_heights(block_max: u64) -> (r: Vec<u64>)
    requires
        block_max + 1 <= usize::MAX,
    ensures
        r@.len() == block_max + 1,
        forall|j: int| 0 <= j < r@.len() ==> (#[trigger] r@[j]) == j,
{
    let mut result: Vec<u64> = Vec::new();
    let mut h: u64 = 0;
    while h <= block_max
        invariant
            block_max + 1 <= usize::MAX,
            h <= block_max + 1,
            result@.len() == h,
            forall|j: int| 0 <= j < result@.len() ==> (#[trigger] result@[j]) == j,
        decreases block_max + 1 - h,
    {
        result.push(h);
        h += 1;
    }
    result
}

} // verus!
