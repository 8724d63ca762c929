//! The timed searches: their seeds, their size and their figures.

use vstd::prelude::*;

use rand::rngs::StdRng;
use rand::SeedableRng;

verus! {

/// The standard random number generator of the `rand` crate.
#[verifier::external_type_specification]
#[verifier::external_body]
pub struct ExStdRng(rand::rngs::StdRng);

/// The generator in the state that `seed` puts it in.
pub uninterp spec fn seeded(seed: u64) -> StdRng;

/// Calls `<StdRng as SeedableRng>::seed_from_u64`. Claims only that the seed alone
/// determines the state of the generator; which numbers it goes on to give, and
/// that they differ between seeds, is left unsaid.
#[verifier::external_body]
pub(crate) fn seed_rng(seed: u64) -> (r: StdRng)
    ensures
        r == seeded(seed),
{
    StdRng::seed_from_u64(seed)
}

/// The seed of the search in the round with index `round`: the sum of the search
/// seed and the index, which starts again from zero behind the largest `u64`.
pub open spec fn round_seed_of(search_seed: u64, round: u64) -> u64 {
    ((search_seed + round) % (u64::MAX + 1)) as u64
}

/// The seed of the search in the round with index `round`.
pub fn round_seed(search_seed: u64, round: u64) -> (r: u64)
    ensures
        r == round_seed_of(search_seed, round),
        search_seed + round <= u64::MAX ==> r == search_seed + round,
        search_seed + round > u64::MAX ==> r == search_seed + round - u64::MAX - 1,
{
    search_seed.wrapping_add(round)
}

/// The generator for the search in the round with index `round`.
pub fn round_rng(search_seed: u64, round: u64) -> (r: StdRng)
    ensures
        r == seeded(round_seed_of(search_seed, round)),
{
    seed_rng(round_seed(search_seed, round))
}

/// No two rounds of a run share a seed.
pub proof fn law_rounds_have_distinct_seeds(search_seed: u64, round: u64, other: u64)
    requires
        round != other,
    ensures
        round_seed_of(search_seed, round) != round_seed_of(search_seed, other),
{
}

/// The first round has the search seed itself, and each further one the seed that
/// follows the one before, or zero behind the largest `u64`: the seed of a round is the
/// sum of the search seed and the index of the round where that fits.
pub proof fn law_seeds_follow_each_other(search_seed: u64, round: u64)
    ensures
        round_seed_of(search_seed, 0) == search_seed,
        search_seed + round <= 0xFFFF_FFFF_FFFF_FFFF ==> round_seed_of(search_seed, round)
            == search_seed + round,
        round < u64::MAX ==> round_seed_of(search_seed, (round + 1) as u64) == (if round_seed_of(
            search_seed,
            round,
        ) == 0xFFFF_FFFF_FFFF_FFFF {
            0
        } else {
            round_seed_of(search_seed, round) + 1
        }),
{
}

/// The size and depth of the searches.
#[derive(Clone, Copy, Debug, PartialEq, Eq, Structural)]
pub struct SearchLimits {
    /// Games played out per candidate action.
    pub search_n: usize,
    /// The depth limit of a search.
    pub max_depth: usize,
}

/// The limits of a run: the size given on the command line, else the one that the
/// game configuration holds, and a depth limit of zero.
pub fn search_limits(search_n: Option<usize>, configured: usize) -> (r: SearchLimits)
    ensures
        r.search_n == (match search_n {
            Some(n) => n,
            None => configured,
        }),
        r.max_depth == 0,
{
    let size: usize = match search_n {
        Some(n) => n,
        None => configured,
    };
    SearchLimits { search_n: size, max_depth: 0 }
}

/// The sum of `counts`.
pub open spec fn total(counts: Seq<u64>) -> nat
    decreases counts.len(),
{
    if counts.len() == 0 {
        0
    } else {
        total(counts.drop_last()) + counts.last() as nat
    }
}

/// The sum of a part is at most the sum of the whole.
proof fn lemma_total_grows(counts: Seq<u64>, n: int)
    requires
        0 <= n <= counts.len(),
    ensures
        total(counts.take(n)) <= total(counts),
    decreases counts.len() - n,
{
    if n == counts.len() {
        assert(counts.take(n) == counts);
    } else {
        lemma_total_grows(counts, n + 1);
        assert(counts.take(n + 1).drop_last() == counts.take(n));
    }
}

/// What a search at a root came to.
#[derive(Debug)]
pub struct SearchOutcome {
    /// How many games were played out for each action.
    pub counts: Vec<u64>,
    /// The index of the best action.
    pub best: usize,
    /// The mean result of the best action, as text.
    pub best_mean: String,
    /// The time that the search took in milliseconds, as text.
    pub elapsed_ms: String,
}

/// The figures of one search.
#[derive(Debug)]
pub struct SearchFigures {
    pub searched: u64,
    pub best: usize,
    pub best_mean: String,
    pub elapsed_ms: String,
}

/// The figures of a search; `None` where the number of games played out in all
/// exceeds the largest `u64`.
pub fn search_figures(outcome: SearchOutcome) -> (r: Option<SearchFigures>)
    ensures
        match r {
            Some(figures) => {
                &&& figures.searched == total(outcome.counts@)
                &&& figures.best == outcome.best
                &&& figures.best_mean@ == outcome.best_mean@
                &&& figures.elapsed_ms@ == outcome.elapsed_ms@
            },
            None => total(outcome.counts@) > u64::MAX,
        },
{
    let mut searched: u64 = 0;
    let n: usize = outcome.counts.len();
    let mut i: usize = 0;
    while i < n
        invariant
            n == outcome.counts@.len(),
            i <= n,
            searched == total(outcome.counts@.take(i as int)),
        decreases n - i,
    {
        proof {
            assert(outcome.counts@.take(i as int + 1).drop_last() == outcome.counts@.take(i as int));
            lemma_total_grows(outcome.counts@, i as int + 1);
        }
        match searched.checked_add(outcome.counts[i]) {
            Some(sum) => {
                searched = sum;
            },
            None => {
                return None;
            },
        }
        i = i + 1;
    }
    assert(outcome.counts@.take(n as int) == outcome.counts@);
    Some(
        SearchFigures {
            searched,
            best: outcome.best,
            best_mean: outcome.best_mean,
            elapsed_ms: outcome.elapsed_ms,
        },
    )
}

/// No counts come to nothing, a further count adds to the others, and two series of
/// counts come to as much together as one after the other.
pub proof fn law_total_adds_up(counts: Seq<u64>, more: Seq<u64>, count: u64)
    ensures
        total(Seq::empty()) == 0,
        total(seq![count]) == count,
        total(counts.push(count)) == total(counts) + count,
        total(counts + more) == total(counts) + total(more),
    decreases more.len(),
{
    assert(counts.push(count).drop_last() =~= counts);
    assert(seq![count].drop_last() =~= Seq::empty());
    assert(total(seq![count].drop_last()) == 0);
    if more.len() == 0 {
        assert(counts + more =~= counts);
    } else {
        law_total_adds_up(counts, more.drop_last(), count);
        assert((counts + more).drop_last() =~= counts + more.drop_last());
    }
}

} // verus!
