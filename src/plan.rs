use vstd::prelude::*;
use crate::schedule::GeneBlock;
use crate::stats::{factors_of, variance_factors, StatsError, VarianceFactors};

verus! {

/// Why a block gives no record; the run goes on with the next block.
#[derive(Debug, Clone, Copy, PartialEq, Eq, Structural)]
pub enum BlockSkip {
    /// The block has `found` rows where the cohort has `expected`.
    RowCountMismatch { expected: usize, found: usize },
    /// No column of the block reached the minimum sum.
    NoInformativeColumns,
    /// The statistics cannot be formed for the block's size.
    Statistics(StatsError),
}

/// One record to compute for a block: trait `trait_index` of phenotype `pheno`.
#[derive(Debug, Clone, Copy, PartialEq, Eq, Structural)]
pub struct RecordPlan {
    pub pheno: usize,
    pub trait_index: usize,
    pub chromosome: usize,
    pub slot: usize,
    pub nb_individuals: usize,
    pub nb_rvs: usize,
}

/// The `(phenotype, trait)` pairs of phenotypes with `counts[p]` traits, phenotype by phenotype.
pub open spec fn trait_pairs(counts: Seq<usize>) -> Seq<(nat, nat)>
    decreases counts.len(),
{
    if counts.len() == 0 {
        Seq::empty()
    } else {
        let p = (counts.len() - 1) as nat;
        trait_pairs(counts.drop_last()) + Seq::new(
            counts.last() as nat,
            |t: int| (p, t as nat),
        )
    }
}

/// `plans` holds one record for each `(phenotype, trait)` pair, in order, for the block of
/// `job` with `n` individuals and `m` retained variants.
pub open spec fn plans_follow(
    plans: Seq<RecordPlan>,
    job: &GeneBlock,
    n: usize,
    m: usize,
    counts: Seq<usize>,
) -> bool {
    let pairs = trait_pairs(counts);
    &&& plans.len() == pairs.len()
    &&& forall|i: int|
        0 <= i < plans.len() ==> {
            &&& #[trigger] plans[i].pheno == pairs[i].0
            &&& plans[i].trait_index == pairs[i].1
            &&& plans[i].chromosome == job.chromosome
            &&& plans[i].slot == job.slot
            &&& plans[i].nb_individuals == n
            &&& plans[i].nb_rvs == m
        }
}

/// Every record planned for a block carries the cohort size as its number of individuals and
/// the block's retained columns as its number of variants.
pub proof fn lemma_records_carry_block_size(
    plans: Seq<RecordPlan>,
    job: &GeneBlock,
    n: usize,
    m: usize,
    counts: Seq<usize>,
)
    requires
        plans_follow(plans, job, n, m, counts),
    ensures
        forall|i: int|
            #![trigger plans[i]]
            0 <= i < plans.len() ==> (plans[i].nb_individuals == n && plans[i].nb_rvs == m),
{
    assert forall|i: int| #![trigger plans[i]]
        0 <= i < plans.len() implies (plans[i].nb_individuals == n && plans[i].nb_rvs == m) by {
        assert(plans[i].pheno == trait_pairs(counts)[i].0);
    }
}

/// The pairs of a block name each trait of each phenotype once: every pair is in range and
/// no pair repeats, so a block gives at most one record per phenotype and trait.
pub proof fn lemma_trait_pairs_distinct(counts: Seq<usize>)
    ensures
        forall|i: int|
            #![trigger trait_pairs(counts)[i]]
            0 <= i < trait_pairs(counts).len() ==> trait_pairs(counts)[i].0 < counts.len()
                && trait_pairs(counts)[i].1 < counts[trait_pairs(counts)[i].0 as int],
        trait_pairs(counts).no_duplicates(),
    decreases counts.len(),
{
    if counts.len() > 0 {
        let rest = counts.drop_last();
        let p = (counts.len() - 1) as nat;
        let head = trait_pairs(rest);
        let tail = Seq::new(counts.last() as nat, |t: int| (p, t as nat));
        lemma_trait_pairs_distinct(rest);
        let all = trait_pairs(counts);
        assert(all == head + tail);
        assert forall|i: int| #![trigger all[i]] 0 <= i < all.len() implies all[i].0 < counts.len()
            && all[i].1 < counts[all[i].0 as int] by {
            if i >= head.len() {
                assert(all[i] == tail[i - head.len()]);
            } else {
                assert(all[i] == head[i]);
                assert(rest[head[i].0 as int] == counts[head[i].0 as int]);
            }
        }
        assert forall|i: int, j: int|
            0 <= i < all.len() && 0 <= j < all.len() && i != j implies all[i] != all[j] by {
            if i < head.len() && j < head.len() {
                assert(all[i] == head[i] && all[j] == head[j]);
            } else if i >= head.len() && j >= head.len() {
                assert(all[i] == tail[i - head.len()] && all[j] == tail[j - head.len()]);
            } else if i < head.len() {
                assert(all[i] == head[i] && head[i].0 < rest.len());
                assert(all[j] == tail[j - head.len()]);
            } else {
                assert(all[j] == head[j] && head[j].0 < rest.len());
                assert(all[i] == tail[i - head.len()]);
            }
        }
    }
}

/// A block read from disk is processed only when its row count is the cohort's.
pub fn check_block_rows(cohort_rows: usize, block_rows: usize) -> (r: Result<(), BlockSkip>)
    ensures
        block_rows == cohort_rows <==> r is Ok,
        block_rows != cohort_rows ==> r == Err::<(), BlockSkip>(
            BlockSkip::RowCountMismatch { expected: cohort_rows, found: block_rows },
        ),
{
    if block_rows == cohort_rows {
        Ok(())
    } else {
        Err(BlockSkip::RowCountMismatch { expected: cohort_rows, found: block_rows })
    }
}

/// The records of a block of `cohort_rows` individuals that kept `retained` variant columns,
/// against phenotypes with `trait_counts[p]` traits, and the factors of their statistics.
pub fn plan_records(
    job: &GeneBlock,
    cohort_rows: usize,
    retained: usize,
    trait_counts: &Vec<usize>,
) -> (r: Result<(VarianceFactors, Vec<RecordPlan>), BlockSkip>)
    ensures
        retained == 0 ==> r == Err::<(VarianceFactors, Vec<RecordPlan>), BlockSkip>(
            BlockSkip::NoInformativeColumns,
        ),
        retained > 0 ==> match factors_of(cohort_rows as u64, retained as u64) {
            Ok(f) => r is Ok && r->Ok_0.0 == f,
            Err(e) => r == Err::<(VarianceFactors, Vec<RecordPlan>), BlockSkip>(
                BlockSkip::Statistics(e),
            ),
        },
        r is Ok ==> plans_follow(r->Ok_0.1@, job, cohort_rows, retained, trait_counts@),
        r matches Ok((_, plans)) ==> retained > 0 && forall|i: int|
            #![trigger plans@[i]]
            0 <= i < plans@.len() ==> (plans@[i].nb_individuals == cohort_rows
                && plans@[i].nb_rvs == retained),
{
    if retained == 0 {
        return Err(BlockSkip::NoInformativeColumns);
    }
    let factors = match variance_factors(cohort_rows as u64, retained as u64) {
        Ok(f) => f,
        Err(e) => return Err(BlockSkip::Statistics(e)),
    };
    let mut out: Vec<RecordPlan> = Vec::new();
    let mut p: usize = 0;
    while p < trait_counts.len()
        invariant
            p <= trait_counts@.len(),
            retained > 0,
            plans_follow(out@, job, cohort_rows, retained, trait_counts@.take(p as int)),
        decreases trait_counts@.len() - p,
    {
        let count = trait_counts[p];
        let ghost before = out@;
        let ghost prev = trait_counts@.take(p as int);
        let ghost next = trait_counts@.take(p + 1);
        proof {
            assert(next.drop_last() =~= prev);
        }
        let mut t: usize = 0;
        while t < count
            invariant
                p < trait_counts@.len(),
                count == trait_counts@[p as int],
                t <= count,
                before.len() == trait_pairs(prev).len(),
                out@.len() == before.len() + t,
                plans_follow(before, job, cohort_rows, retained, prev),
                forall|i: int| 0 <= i < before.len() ==> #[trigger] out@[i] == before[i],
                forall|k: int|
                    0 <= k < t ==> {
                        &&& #[trigger] out@[before.len() + k].pheno == p
                        &&& out@[before.len() + k].trait_index == k
                        &&& out@[before.len() + k].chromosome == job.chromosome
                        &&& out@[before.len() + k].slot == job.slot
                        &&& out@[before.len() + k].nb_individuals == cohort_rows
                        &&& out@[before.len() + k].nb_rvs == retained
                    },
            decreases count - t,
        {
            let ghost old_out = out@;
            out.push(
                RecordPlan {
                    pheno: p,
                    trait_index: t,
                    chromosome: job.chromosome,
                    slot: job.slot,
                    nb_individuals: cohort_rows,
                    nb_rvs: retained,
                },
            );
            proof {
                assert forall|k: int| 0 <= k < t + 1 implies {
                    &&& #[trigger] out@[before.len() + k].pheno == p
                    &&& out@[before.len() + k].trait_index == k
                    &&& out@[before.len() + k].chromosome == job.chromosome
                    &&& out@[before.len() + k].slot == job.slot
                    &&& out@[before.len() + k].nb_individuals == cohort_rows
                    &&& out@[before.len() + k].nb_rvs == retained
                } by {
                    if k < t {
                        assert(out@[before.len() + k] == old_out[before.len() + k]);
                    }
                }
            }
            t = t + 1;
        }
        proof {
            let d = trait_pairs(next);
            assert(d =~= trait_pairs(prev) + Seq::new(count as nat, |k: int| (p as nat, k as nat)));
            assert forall|i: int| 0 <= i < out@.len() implies {
                &&& #[trigger] out@[i].pheno == d[i].0
                &&& out@[i].trait_index == d[i].1
                &&& out@[i].chromosome == job.chromosome
                &&& out@[i].slot == job.slot
                &&& out@[i].nb_individuals == cohort_rows
                &&& out@[i].nb_rvs == retained
            } by {
                if i >= before.len() {
                    let k = i - before.len();
                    assert(out@[before.len() + k].pheno == p);
                    assert(d[i] == (p as nat, k as nat));
                } else {
                    assert(out@[i] == before[i]);
                    assert(before[i].pheno == trait_pairs(prev)[i].0);
                    assert(d[i] == trait_pairs(prev)[i]);
                }
            }
        }
        p = p + 1;
    }
    assert(trait_counts@.take(trait_counts@.len() as int) =~= trait_counts@);
    proof {
        lemma_records_carry_block_size(out@, job, cohort_rows, retained, trait_counts@);
    }
    Ok((factors, out))
}

} // verus!
