//! The genetic-algorithm optimizer: configuration, population
//! initialization, crossover, mutation and budget accounting.

use vstd::prelude::*;

use crate::arm::Arm;
use crate::sampling::sample_i32_between;
use crate::sampling::sample_usize_below;

verus! {

/// Probabilities are held in fixed point, as parts per million: a rate of
/// `RATE_SCALE` is certainty, a rate of `0` impossibility.
pub const RATE_SCALE: u32 = 1_000_000;

/// How many duplicate draws in a row population initialization tolerates
/// before it reports the search space as exhausted instead of resampling
/// forever.
pub const MAX_CONSECUTIVE_REJECTS: u64 = 100_000;

/// The single-point splice: genes `[0, j)` of `a` followed by genes
/// `[j, ..)` of `b`. Gene positions are kept, so a spliced vector stays
/// within per-dimension bounds that both parents respect.
pub open spec fn spliced(a: Seq<i32>, b: Seq<i32>, j: int) -> Seq<i32> {
    a.take(j) + b.skip(j)
}

/// The index of the arm that index `k` is paired with in crossover:
/// consecutive disjoint pairs `(0,1), (2,3), ...`.
pub open spec fn partner_index(k: int) -> int {
    if k % 2 == 0 {
        k + 1
    } else {
        k - 1
    }
}

/// `v` forced into the inclusive range `[lo, hi]`.
pub open spec fn spec_clamped(v: i32, lo: i32, hi: i32) -> i32 {
    if v < lo {
        lo
    } else if v > hi {
        hi
    } else {
        v
    }
}

/// Clamps a perturbed gene into its dimension's inclusive bounds.
fn clamped(v: i32, lo: i32, hi: i32) -> (r: i32)
    ensures
        r == spec_clamped(v, lo, hi),
{
    if v < lo {
        lo
    } else if v > hi {
        hi
    } else {
        v
    }
}

/// The action vectors of a sequence of arms.
pub open spec fn arm_views(s: Seq<Arm>) -> Seq<Seq<i32>> {
    s.map(|i: int, a: Arm| a@)
}

/// `s` with every vector that repeats an earlier one removed: only the
/// first occurrence of each vector is kept, in input order.
pub open spec fn dedup_first(s: Seq<Seq<i32>>) -> Seq<Seq<i32>>
    decreases s.len(),
{
    if s.len() == 0 {
        Seq::empty()
    } else if s.drop_last().contains(s.last()) {
        dedup_first(s.drop_last())
    } else {
        dedup_first(s.drop_last()).push(s.last())
    }
}

/// Duplicate suppression never invents or loses a vector: the result holds
/// exactly the vectors of the input.
pub proof fn lemma_dedup_first_elements(s: Seq<Seq<i32>>, v: Seq<i32>)
    ensures
        dedup_first(s).contains(v) <==> s.contains(v),
    decreases s.len(),
{
    if s.len() > 0 {
        lemma_dedup_first_elements(s.drop_last(), v);
        if s.contains(v) {
            let i = choose|i: int| 0 <= i < s.len() && s[i] == v;
            if i < s.len() - 1 {
                assert(s.drop_last()[i] == v);
                assert(dedup_first(s.drop_last()).contains(v));
                if !s.drop_last().contains(s.last()) {
                    let d = dedup_first(s.drop_last());
                    let k = choose|k: int| 0 <= k < d.len() && d[k] == v;
                    assert(dedup_first(s)[k] == v);
                }
            } else {
                assert(s.last() == v);
                if s.drop_last().contains(s.last()) {
                    assert(s.drop_last().contains(v));
                } else {
                    let d = dedup_first(s);
                    assert(d[d.len() - 1] == v);
                }
            }
            assert(dedup_first(s).contains(v));
        }
        if dedup_first(s).contains(v) {
            if s.drop_last().contains(s.last()) {
                assert(dedup_first(s.drop_last()).contains(v));
                let i = choose|i: int|
                    0 <= i < s.drop_last().len() && s.drop_last()[i] == v;
                assert(s[i] == v);
            } else {
                let k = choose|k: int| 0 <= k < dedup_first(s).len() && dedup_first(s)[k] == v;
                if k < dedup_first(s).len() - 1 {
                    assert(dedup_first(s.drop_last())[k] == v);
                    let i = choose|i: int|
                        0 <= i < s.drop_last().len() && s.drop_last()[i] == v;
                    assert(s[i] == v);
                } else {
                    assert(s[s.len() - 1] == v);
                }
            }
            assert(s.contains(v));
        }
    }
}

/// Duplicate suppression never lengthens a sequence.
pub proof fn lemma_dedup_first_len(s: Seq<Seq<i32>>)
    ensures
        dedup_first(s).len() <= s.len(),
    decreases s.len(),
{
    if s.len() > 0 {
        lemma_dedup_first_len(s.drop_last());
    }
}

/// Duplicate suppression always keeps the first vector: the head survives,
/// so a nonempty input never deduplicates to an empty result.
pub proof fn lemma_dedup_first_head(s: Seq<Seq<i32>>)
    requires
        s.len() >= 1,
    ensures
        dedup_first(s).len() >= 1,
        dedup_first(s)[0] == s[0],
    decreases s.len(),
{
    if s.len() == 1 {
        assert(!s.drop_last().contains(s.last()));
        assert(dedup_first(s.drop_last()) =~= Seq::<Seq<i32>>::empty());
    } else {
        lemma_dedup_first_head(s.drop_last());
        assert(s.drop_last()[0] == s[0]);
    }
}

/// On pairwise distinct vectors, duplicate suppression is the identity.
pub proof fn lemma_dedup_first_of_distinct(s: Seq<Seq<i32>>)
    requires
        forall|i: int, j: int| 0 <= i < j < s.len() ==> s[i] != s[j],
    ensures
        dedup_first(s) == s,
    decreases s.len(),
{
    if s.len() == 0 {
        assert(dedup_first(s) =~= s);
    } else {
        assert(forall|i: int, j: int|
            0 <= i < j < s.drop_last().len() ==> s.drop_last()[i] != s.drop_last()[j]);
        lemma_dedup_first_of_distinct(s.drop_last());
        assert(!s.drop_last().contains(s.last())) by {
            assert(forall|i: int| 0 <= i < s.len() - 1 ==> s.drop_last()[i] == s[i]);
        }
        assert(dedup_first(s) =~= s);
    }
}

/// A vector that repeats an earlier one is dropped: the suppressed sequence
/// is strictly shorter than its input.
pub proof fn lemma_dedup_first_shrinks(s: Seq<Seq<i32>>, i: int, j: int)
    requires
        0 <= i < j < s.len(),
        s[i] == s[j],
    ensures
        dedup_first(s).len() < s.len(),
    decreases s.len(),
{
    if j == s.len() - 1 {
        assert(s.drop_last()[i] == s.last());
        lemma_dedup_first_len(s.drop_last());
    } else {
        assert(s.drop_last()[i] == s[i] && s.drop_last()[j] == s[j]);
        lemma_dedup_first_shrinks(s.drop_last(), i, j);
    }
}

/// Whether some arm of `arms` has exactly the action vector `v`.
fn contains_vector(arms: &Vec<Arm>, v: &Vec<i32>) -> (r: bool)
    ensures
        r == exists|k: int| 0 <= k < arms@.len() && arms@[k]@ == v@,
{
    let mut k: usize = 0;
    while k < arms.len()
        invariant
            k <= arms@.len(),
            forall|j: int| 0 <= j < k ==> arms@[j]@ != v@,
        decreases arms@.len() - k,
    {
        if arms[k].get_action_vector() == v {
            proof {
                assert(arms@[k as int]@ =~= v@);
            }
            return true;
        }
        k = k + 1;
    }
    false
}

/// A configuration or input that an operation rejects instead of producing
/// corrupt candidates.
#[derive(Clone, Copy, Debug, PartialEq, Eq, Structural)]
pub enum ConfigError {
    /// `dimension` is zero.
    ZeroDimension,
    /// `population_size` is zero.
    ZeroPopulationSize,
    /// `population_size` is odd, so crossover pairing is ill-defined.
    OddPopulationSize,
    /// A rate lies above `RATE_SCALE`, i.e. above probability one.
    RateOutOfRange,
    /// `mutation_span_ppm` is zero.
    ZeroMutationSpan,
    /// `max_simulations` is zero.
    ZeroBudget,
    /// A bounds vector's length differs from `dimension`.
    BoundsLengthMismatch,
    /// Some `lower_bound[i]` exceeds `upper_bound[i]`.
    BoundsInverted,
    /// Crossover was invoked with `dimension < 2`: no internal cut point.
    DimensionTooSmallForCrossover,
    /// A population handed to crossover does not have `population_size` arms.
    PopulationSizeMismatch,
    /// An input arm's action vector does not have `dimension` genes.
    CandidateLengthMismatch,
    /// The perturbation matrix handed to mutation does not hold one row of
    /// `dimension` candidate values per input arm.
    PerturbationShapeMismatch,
    /// Population initialization gave up: too many duplicate draws in a row,
    /// as happens when the bounded space holds fewer than `population_size`
    /// distinct points.
    SearchSpaceExhausted,
}

/// The optimizer: hyperparameters, per-dimension search-space bounds, and
/// the count of objective evaluations spent so far. The objective function
/// itself is an external collaborator: the caller evaluates candidates and
/// reports the spent budget through [`GeneticAlgorithm::update_simulations_used`].
#[derive(Debug)]
pub struct GeneticAlgorithm {
    /// Probability, in parts per million, that a gene is perturbed.
    pub mutation_rate_ppm: u32,
    /// Probability, in parts per million, that a pair of parents is crossed.
    pub crossover_rate_ppm: u32,
    /// Scale of the Gaussian perturbation, in parts per million of the
    /// width of each gene's range.
    pub mutation_span_ppm: u32,
    /// Number of arms in a full population; even, so that crossover can
    /// pair consecutive arms.
    pub population_size: usize,
    /// Budget: the number of objective evaluations allowed in the run.
    pub max_simulations: u64,
    /// Length of every action vector.
    pub dimension: usize,
    /// Per-dimension inclusive lower bounds, of length `dimension`.
    pub lower_bound: Vec<i32>,
    /// Per-dimension inclusive upper bounds, of length `dimension`.
    pub upper_bound: Vec<i32>,
    /// Objective evaluations reported spent so far.
    pub simulations_used: u64,
}

impl GeneticAlgorithm {
    /// The configuration invariants that construction establishes and every
    /// operation relies on.
    pub open spec fn wf(self) -> bool {
        &&& 1 <= self.dimension
        &&& 1 <= self.population_size
        &&& self.population_size % 2 == 0
        &&& self.mutation_rate_ppm <= RATE_SCALE
        &&& self.crossover_rate_ppm <= RATE_SCALE
        &&& 1 <= self.mutation_span_ppm
        &&& 1 <= self.max_simulations
        &&& self.lower_bound@.len() == self.dimension
        &&& self.upper_bound@.len() == self.dimension
        &&& forall|i: int|
            0 <= i < self.dimension ==> self.lower_bound@[i] <= self.upper_bound@[i]
    }

    /// Gene `g` is admissible at position `i` of an action vector.
    pub open spec fn gene_in_bounds(self, i: int, g: i32) -> bool {
        self.lower_bound@[i] <= g <= self.upper_bound@[i]
    }

    /// The vector has the configured length and every gene lies within its
    /// dimension's bounds.
    pub open spec fn vector_in_bounds(self, v: Seq<i32>) -> bool {
        &&& v.len() == self.dimension
        &&& forall|i: int| 0 <= i < v.len() ==> self.gene_in_bounds(i, v[i])
    }

    /// What construction rejects, checked in this order; `None` means the
    /// configuration is valid.
    pub open spec fn spec_config_error(
        population_size: usize,
        mutation_rate_ppm: u32,
        crossover_rate_ppm: u32,
        mutation_span_ppm: u32,
        max_simulations: u64,
        dimension: usize,
        lower_bound: Seq<i32>,
        upper_bound: Seq<i32>,
    ) -> Option<ConfigError> {
        if dimension == 0 {
            Some(ConfigError::ZeroDimension)
        } else if population_size == 0 {
            Some(ConfigError::ZeroPopulationSize)
        } else if population_size % 2 != 0 {
            Some(ConfigError::OddPopulationSize)
        } else if mutation_rate_ppm > RATE_SCALE || crossover_rate_ppm > RATE_SCALE {
            Some(ConfigError::RateOutOfRange)
        } else if mutation_span_ppm == 0 {
            Some(ConfigError::ZeroMutationSpan)
        } else if max_simulations == 0 {
            Some(ConfigError::ZeroBudget)
        } else if lower_bound.len() != dimension || upper_bound.len() != dimension {
            Some(ConfigError::BoundsLengthMismatch)
        } else if exists|i: int| 0 <= i < dimension && lower_bound[i] > upper_bound[i] {
            Some(ConfigError::BoundsInverted)
        } else {
            None
        }
    }

    /// Builds an optimizer after checking every configuration invariant,
    /// rejecting an inconsistent configuration instead of producing corrupt
    /// candidates later. A fresh optimizer has spent none of its budget.
    #[verifier::loop_isolation(false)]
    pub fn new(
        population_size: usize,
        mutation_rate_ppm: u32,
        crossover_rate_ppm: u32,
        mutation_span_ppm: u32,
        max_simulations: u64,
        dimension: usize,
        lower_bound: Vec<i32>,
        upper_bound: Vec<i32>,
    ) -> (r: Result<GeneticAlgorithm, ConfigError>)
        ensures
            r matches Err(e) ==> Some(e) == Self::spec_config_error(
                population_size,
                mutation_rate_ppm,
                crossover_rate_ppm,
                mutation_span_ppm,
                max_simulations,
                dimension,
                lower_bound@,
                upper_bound@,
            ),
            r matches Ok(ga) ==> {
                &&& Self::spec_config_error(
                    population_size,
                    mutation_rate_ppm,
                    crossover_rate_ppm,
                    mutation_span_ppm,
                    max_simulations,
                    dimension,
                    lower_bound@,
                    upper_bound@,
                ) is None
                &&& ga.wf()
                &&& ga.population_size == population_size
                &&& ga.mutation_rate_ppm == mutation_rate_ppm
                &&& ga.crossover_rate_ppm == crossover_rate_ppm
                &&& ga.mutation_span_ppm == mutation_span_ppm
                &&& ga.max_simulations == max_simulations
                &&& ga.dimension == dimension
                &&& ga.lower_bound@ == lower_bound@
                &&& ga.upper_bound@ == upper_bound@
                &&& ga.simulations_used == 0
            },
    {
        if dimension == 0 {
            return Err(ConfigError::ZeroDimension);
        }
        if population_size == 0 {
            return Err(ConfigError::ZeroPopulationSize);
        }
        if population_size % 2 != 0 {
            return Err(ConfigError::OddPopulationSize);
        }
        if mutation_rate_ppm > RATE_SCALE || crossover_rate_ppm > RATE_SCALE {
            return Err(ConfigError::RateOutOfRange);
        }
        if mutation_span_ppm == 0 {
            return Err(ConfigError::ZeroMutationSpan);
        }
        if max_simulations == 0 {
            return Err(ConfigError::ZeroBudget);
        }
        if lower_bound.len() != dimension || upper_bound.len() != dimension {
            return Err(ConfigError::BoundsLengthMismatch);
        }
        let mut i: usize = 0;
        while i < dimension
            invariant
                i <= dimension,
                lower_bound@.len() == dimension,
                upper_bound@.len() == dimension,
                forall|k: int| 0 <= k < i ==> lower_bound@[k] <= upper_bound@[k],
            decreases dimension - i,
        {
            if lower_bound[i] > upper_bound[i] {
                assert(lower_bound@[i as int] > upper_bound@[i as int]);
                return Err(ConfigError::BoundsInverted);
            }
            i = i + 1;
        }
        Ok(GeneticAlgorithm {
            mutation_rate_ppm,
            crossover_rate_ppm,
            mutation_span_ppm,
            population_size,
            max_simulations,
            dimension,
            lower_bound,
            upper_bound,
            simulations_used: 0,
        })
    }

    /// Produces a fresh population of exactly `population_size` pairwise
    /// distinct arms, each gene drawn independently and uniformly from its
    /// dimension's inclusive bounds; a candidate equal to one already
    /// accepted is rejected and redrawn. Unlike an unbounded resampling
    /// loop, the retries are bounded: after `MAX_CONSECUTIVE_REJECTS`
    /// rejected draws in a row — as when the bounded space holds fewer than
    /// `population_size` distinct points — the search space is reported as
    /// exhausted instead of the call never returning.
    #[verifier::loop_isolation(false)]
    pub fn generate_new_population(&self, rng: &mut rand::rngs::StdRng) -> (r: Result<
        Vec<Arm>,
        ConfigError,
    >)
        requires
            self.wf(),
        ensures
            r matches Ok(pop) ==> {
                &&& pop@.len() == self.population_size
                &&& forall|i: int|
                    0 <= i < pop@.len() ==> self.vector_in_bounds(#[trigger] pop@[i]@)
                &&& forall|i: int, j: int|
                    0 <= i < j < pop@.len() ==> pop@[i]@ != pop@[j]@
            },
            r matches Err(e) ==> e == ConfigError::SearchSpaceExhausted,
    {
        let mut individuals: Vec<Arm> = Vec::new();
        let mut rejects_left: u64 = MAX_CONSECUTIVE_REJECTS;
        while individuals.len() < self.population_size
            invariant
                individuals@.len() <= self.population_size,
                forall|i: int|
                    0 <= i < individuals@.len() ==> self.vector_in_bounds(
                        #[trigger] individuals@[i]@,
                    ),
                forall|i: int, j: int|
                    0 <= i < j < individuals@.len() ==> individuals@[i]@ != individuals@[j]@,
            decreases self.population_size - individuals@.len(), rejects_left,
        {
            let mut candidate: Vec<i32> = Vec::new();
            let mut j: usize = 0;
            while j < self.dimension
                invariant
                    j <= self.dimension,
                    candidate@.len() == j,
                    forall|g: int| 0 <= g < j ==> self.gene_in_bounds(g, #[trigger] candidate@[g]),
                decreases self.dimension - j,
            {
                candidate.push(sample_i32_between(rng, self.lower_bound[j], self.upper_bound[j]));
                j = j + 1;
            }
            if !contains_vector(&individuals, &candidate) {
                individuals.push(Arm::new(&candidate));
                rejects_left = MAX_CONSECUTIVE_REJECTS;
            } else {
                if rejects_left == 0 {
                    return Err(ConfigError::SearchSpaceExhausted);
                }
                rejects_left = rejects_left - 1;
            }
        }
        Ok(individuals)
    }

    /// What the children `ca, cb` of one crossover pairing may be, given
    /// parents `pa, pb`: either unchanged copies (the pair's draw missed the
    /// crossover rate) or both parents spliced at one internal cut point.
    pub open spec fn crossover_pair_ok(
        self,
        pa: Seq<i32>,
        pb: Seq<i32>,
        ca: Seq<i32>,
        cb: Seq<i32>,
    ) -> bool {
        ||| (ca == pa && cb == pb)
        ||| self.pair_spliced(pa, pb, ca, cb)
    }

    /// The children `ca, cb` are the parents `pa, pb` spliced, both at one
    /// internal cut point.
    pub open spec fn pair_spliced(
        self,
        pa: Seq<i32>,
        pb: Seq<i32>,
        ca: Seq<i32>,
        cb: Seq<i32>,
    ) -> bool {
        exists|j: int|
            1 <= j < self.dimension && ca == spliced(pa, pb, j) && cb == spliced(pb, pa, j)
    }

    /// What crossover rejects about its input, checked in this order;
    /// `None` means the input is accepted.
    pub open spec fn spec_crossover_error(self, pop: Seq<Arm>) -> Option<ConfigError> {
        if self.dimension < 2 {
            Some(ConfigError::DimensionTooSmallForCrossover)
        } else if pop.len() != self.population_size {
            Some(ConfigError::PopulationSizeMismatch)
        } else if exists|i: int| 0 <= i < pop.len() && pop[i]@.len() != self.dimension {
            Some(ConfigError::CandidateLengthMismatch)
        } else {
            None
        }
    }

    /// Produces a new population of equal size by single-point crossover
    /// over disjoint consecutive pairs. For each pair one draw decides,
    /// against `crossover_rate_ppm`, whether the parents are copied
    /// unchanged or spliced at a cut point drawn uniformly from the internal
    /// positions `1 ..= dimension - 1`; output order follows input pair
    /// order and duplicates are not suppressed here.
    #[verifier::loop_isolation(false)]
    pub fn crossover(&self, rng: &mut rand::rngs::StdRng, population: &Vec<Arm>) -> (r: Result<
        Vec<Arm>,
        ConfigError,
    >)
        requires
            self.wf(),
        ensures
            r matches Err(e) ==> Some(e) == self.spec_crossover_error(population@),
            r is Ok <==> self.spec_crossover_error(population@) is None,
            r matches Ok(out) ==> {
                &&& out@.len() == population@.len()
                &&& forall|k: int| 0 <= k < out@.len() ==> (#[trigger] out@[k]@).len() == self.dimension
                &&& forall|p: int|
                    0 <= p < out@.len() / 2 ==> self.crossover_pair_ok(
                        population@[2 * p]@,
                        population@[2 * p + 1]@,
                        out@[2 * p]@,
                        #[trigger] out@[2 * p + 1]@,
                    )
                &&& forall|k: int, g: int|
                    0 <= k < out@.len() && 0 <= g < self.dimension ==> {
                        ||| #[trigger] out@[k]@[g] == population@[k]@[g]
                        ||| out@[k]@[g] == population@[partner_index(k)]@[g]
                    }
                &&& self.crossover_rate_ppm == 0 ==> forall|k: int|
                    0 <= k < out@.len() ==> #[trigger] out@[k]@ == population@[k]@
                &&& self.crossover_rate_ppm >= RATE_SCALE ==> forall|p: int|
                    0 <= p < out@.len() / 2 ==> self.pair_spliced(
                        population@[2 * p]@,
                        population@[2 * p + 1]@,
                        out@[2 * p]@,
                        #[trigger] out@[2 * p + 1]@,
                    )
            },
    {
        if self.dimension < 2 {
            return Err(ConfigError::DimensionTooSmallForCrossover);
        }
        if population.len() != self.population_size {
            return Err(ConfigError::PopulationSizeMismatch);
        }
        let mut i: usize = 0;
        while i < population.len()
            invariant
                i <= population@.len(),
                forall|k: int| 0 <= k < i ==> (#[trigger] population@[k]@).len() == self.dimension,
            decreases population@.len() - i,
        {
            if population[i].get_action_vector().len() != self.dimension {
                assert(population@[i as int]@.len() != self.dimension);
                return Err(ConfigError::CandidateLengthMismatch);
            }
            i = i + 1;
        }
        let mut crossover_pop: Vec<Arm> = Vec::new();
        let mut i: usize = 0;
        while i < self.population_size
            invariant
                i % 2 == 0,
                i <= self.population_size,
                crossover_pop@.len() == i,
                forall|k: int|
                    0 <= k < i ==> (#[trigger] crossover_pop@[k]@).len() == self.dimension,
                forall|p: int|
                    0 <= p < i / 2 ==> self.crossover_pair_ok(
                        population@[2 * p]@,
                        population@[2 * p + 1]@,
                        crossover_pop@[2 * p]@,
                        #[trigger] crossover_pop@[2 * p + 1]@,
                    ),
                forall|k: int, g: int|
                    0 <= k < i && 0 <= g < self.dimension ==> {
                        ||| #[trigger] crossover_pop@[k]@[g] == population@[k]@[g]
                        ||| crossover_pop@[k]@[g] == population@[partner_index(k)]@[g]
                    },
                self.crossover_rate_ppm == 0 ==> forall|k: int|
                    0 <= k < i ==> #[trigger] crossover_pop@[k]@ == population@[k]@,
                self.crossover_rate_ppm >= RATE_SCALE ==> forall|p: int|
                    0 <= p < i / 2 ==> self.pair_spliced(
                        population@[2 * p]@,
                        population@[2 * p + 1]@,
                        crossover_pop@[2 * p]@,
                        #[trigger] crossover_pop@[2 * p + 1]@,
                    ),
            decreases self.population_size - i,
        {
            assert(i + 1 < self.population_size);
            let gate = sample_usize_below(rng, RATE_SCALE as usize);
            if gate < self.crossover_rate_ppm as usize {
                let cut = 1 + sample_usize_below(rng, self.dimension - 1);
                let pa = population[i].get_action_vector();
                let pb = population[i + 1].get_action_vector();
                let mut child_a: Vec<i32> = Vec::new();
                let mut g: usize = 0;
                while g < cut
                    invariant
                        g <= cut,
                        child_a@.len() == g,
                        forall|t: int| 0 <= t < g ==> child_a@[t] == pa@[t],
                    decreases cut - g,
                {
                    child_a.push(pa[g]);
                    g = g + 1;
                }
                while g < self.dimension
                    invariant
                        cut <= g <= self.dimension,
                        child_a@.len() == g,
                        forall|t: int| 0 <= t < cut ==> child_a@[t] == pa@[t],
                        forall|t: int| cut <= t < g ==> child_a@[t] == pb@[t],
                    decreases self.dimension - g,
                {
                    child_a.push(pb[g]);
                    g = g + 1;
                }
                let mut child_b: Vec<i32> = Vec::new();
                let mut g: usize = 0;
                while g < cut
                    invariant
                        g <= cut,
                        child_b@.len() == g,
                        forall|t: int| 0 <= t < g ==> child_b@[t] == pb@[t],
                    decreases cut - g,
                {
                    child_b.push(pb[g]);
                    g = g + 1;
                }
                while g < self.dimension
                    invariant
                        cut <= g <= self.dimension,
                        child_b@.len() == g,
                        forall|t: int| 0 <= t < cut ==> child_b@[t] == pb@[t],
                        forall|t: int| cut <= t < g ==> child_b@[t] == pa@[t],
                    decreases self.dimension - g,
                {
                    child_b.push(pa[g]);
                    g = g + 1;
                }
                proof {
                    assert(child_a@ =~= spliced(pa@, pb@, cut as int));
                    assert(child_b@ =~= spliced(pb@, pa@, cut as int));
                }
                crossover_pop.push(Arm::new(&child_a));
                crossover_pop.push(Arm::new(&child_b));
            } else {
                crossover_pop.push(population[i].clone());
                crossover_pop.push(population[i + 1].clone());
            }
            i = i + 2;
        }
        Ok(crossover_pop)
    }

    /// How one mutated vector `dst` relates to its source `src`, given the
    /// row `pert` of injected candidate values: each gene is either copied
    /// (its draw missed the mutation rate) or replaced by the candidate
    /// value clamped into that dimension's bounds.
    pub open spec fn mutated_from(self, src: Seq<i32>, pert: Seq<i32>, dst: Seq<i32>) -> bool {
        &&& dst.len() == self.dimension
        &&& forall|g: int|
            0 <= g < dst.len() ==> {
                ||| #[trigger] dst[g] == src[g]
                ||| dst[g] == spec_clamped(pert[g], self.lower_bound@[g], self.upper_bound@[g])
            }
    }

    /// How an output of mutation relates to its input, completely: `images`
    /// holds one mutation image per input arm, in input order, each a
    /// `mutated_from` image of its arm, and the output is exactly those
    /// images with repeats suppressed first-occurrence-wise. So every input
    /// arm's image is emitted unless it repeats an earlier image, and a
    /// nonempty input always emits its first arm's image. At rate zero every
    /// image is its source unchanged and at rate one every image gene is the
    /// clamped candidate value: at both extremes the output is determined by
    /// the inputs alone.
    pub open spec fn mutate_witness(
        self,
        pop: Seq<Arm>,
        pert: Seq<Vec<i32>>,
        out: Seq<Arm>,
        images: Seq<Seq<i32>>,
    ) -> bool {
        &&& images.len() == pop.len()
        &&& forall|i: int|
            0 <= i < pop.len() ==> self.mutated_from(pop[i]@, pert[i]@, #[trigger] images[i])
        &&& arm_views(out) == dedup_first(images)
        &&& self.mutation_rate_ppm == 0 ==> forall|i: int|
            0 <= i < pop.len() ==> #[trigger] images[i] == pop[i]@
        &&& self.mutation_rate_ppm >= RATE_SCALE ==> forall|i: int, g: int|
            0 <= i < pop.len() && 0 <= g < self.dimension ==> #[trigger] images[i][g]
                == spec_clamped(pert[i]@[g], self.lower_bound@[g], self.upper_bound@[g])
    }

    /// What mutation rejects about its input, checked in this order; `None`
    /// means the input is accepted.
    pub open spec fn spec_mutate_error(self, pop: Seq<Arm>, pert: Seq<Vec<i32>>) -> Option<
        ConfigError,
    > {
        if exists|i: int| 0 <= i < pop.len() && pop[i]@.len() != self.dimension {
            Some(ConfigError::CandidateLengthMismatch)
        } else if pert.len() != pop.len() || exists|i: int|
            0 <= i < pert.len() && pert[i]@.len() != self.dimension {
            Some(ConfigError::PerturbationShapeMismatch)
        } else {
            None
        }
    }

    /// Produces a population of at most the input's size: per arm and gene
    /// an independent draw against `mutation_rate_ppm` decides whether the
    /// gene is copied or replaced by that gene's injected candidate value
    /// (a Gaussian-perturbed gene, drawn by the caller) clamped into its
    /// bounds; a mutated arm equal to one already emitted by this call is
    /// silently dropped, so only first occurrences appear, in input order.
    #[verifier::loop_isolation(false)]
    pub fn mutate(
        &self,
        rng: &mut rand::rngs::StdRng,
        population: &Vec<Arm>,
        perturbations: &Vec<Vec<i32>>,
    ) -> (r: Result<Vec<Arm>, ConfigError>)
        requires
            self.wf(),
        ensures
            r matches Err(e) ==> Some(e) == self.spec_mutate_error(population@, perturbations@),
            r is Ok <==> self.spec_mutate_error(population@, perturbations@) is None,
            r matches Ok(out) ==> {
                &&& out@.len() <= population@.len()
                &&& population@.len() > 0 ==> out@.len() >= 1 && self.mutated_from(
                    population@[0]@,
                    perturbations@[0]@,
                    out@[0]@,
                )
                &&& forall|k1: int, k2: int|
                    0 <= k1 < k2 < out@.len() ==> out@[k1]@ != out@[k2]@
                &&& exists|images: Seq<Seq<i32>>|
                    self.mutate_witness(population@, perturbations@, out@, images)
                &&& self.mutation_rate_ppm == 0 ==> arm_views(out@) == dedup_first(
                    arm_views(population@),
                )
                &&& self.mutation_rate_ppm >= RATE_SCALE ==> forall|k: int|
                    0 <= k < out@.len() ==> self.vector_in_bounds(#[trigger] out@[k]@)
            },
    {
        let mut i: usize = 0;
        while i < population.len()
            invariant
                i <= population@.len(),
                forall|k: int| 0 <= k < i ==> (#[trigger] population@[k]@).len() == self.dimension,
            decreases population@.len() - i,
        {
            if population[i].get_action_vector().len() != self.dimension {
                assert(population@[i as int]@.len() != self.dimension);
                return Err(ConfigError::CandidateLengthMismatch);
            }
            i = i + 1;
        }
        if perturbations.len() != population.len() {
            return Err(ConfigError::PerturbationShapeMismatch);
        }
        let mut i: usize = 0;
        while i < perturbations.len()
            invariant
                i <= perturbations@.len(),
                forall|k: int|
                    0 <= k < i ==> (#[trigger] perturbations@[k]@).len() == self.dimension,
            decreases perturbations@.len() - i,
        {
            if perturbations[i].len() != self.dimension {
                assert(perturbations@[i as int]@.len() != self.dimension);
                return Err(ConfigError::PerturbationShapeMismatch);
            }
            i = i + 1;
        }
        Ok(self.mutate_accepted(rng, population, perturbations))
    }

    /// The mutation pass over an input that the checks of [`Self::mutate`]
    /// have accepted.
    #[verifier::loop_isolation(false)]
    fn mutate_accepted(
        &self,
        rng: &mut rand::rngs::StdRng,
        population: &Vec<Arm>,
        perturbations: &Vec<Vec<i32>>,
    ) -> (out: Vec<Arm>)
        requires
            self.wf(),
            forall|k: int|
                0 <= k < population@.len() ==> (#[trigger] population@[k]@).len()
                    == self.dimension,
            perturbations@.len() == population@.len(),
            forall|k: int|
                0 <= k < perturbations@.len() ==> (#[trigger] perturbations@[k]@).len()
                    == self.dimension,
        ensures
            out@.len() <= population@.len(),
            population@.len() > 0 ==> out@.len() >= 1 && self.mutated_from(
                population@[0]@,
                perturbations@[0]@,
                out@[0]@,
            ),
            forall|k1: int, k2: int| 0 <= k1 < k2 < out@.len() ==> out@[k1]@ != out@[k2]@,
            exists|images: Seq<Seq<i32>>|
                self.mutate_witness(population@, perturbations@, out@, images),
            self.mutation_rate_ppm == 0 ==> arm_views(out@) == dedup_first(
                arm_views(population@),
            ),
            self.mutation_rate_ppm >= RATE_SCALE ==> forall|k: int|
                0 <= k < out@.len() ==> self.vector_in_bounds(#[trigger] out@[k]@),
    {
        let mut mutated_population: Vec<Arm> = Vec::new();
        let ghost mut images: Seq<Seq<i32>> = Seq::empty();
        let mut idx: usize = 0;
        while idx < population.len()
            invariant
                idx <= population@.len(),
                mutated_population@.len() <= idx,
                forall|k1: int, k2: int|
                    0 <= k1 < k2 < mutated_population@.len() ==> mutated_population@[k1]@
                        != mutated_population@[k2]@,
                images.len() == idx,
                forall|i: int|
                    0 <= i < idx ==> self.mutated_from(
                        population@[i]@,
                        perturbations@[i]@,
                        #[trigger] images[i],
                    ),
                arm_views(mutated_population@) == dedup_first(images),
                self.mutation_rate_ppm == 0 ==> forall|i: int|
                    0 <= i < idx ==> #[trigger] images[i] == population@[i]@,
                self.mutation_rate_ppm >= RATE_SCALE ==> forall|i: int, g: int|
                    0 <= i < idx && 0 <= g < self.dimension ==> #[trigger] images[i][g]
                        == spec_clamped(
                        perturbations@[i]@[g],
                        self.lower_bound@[g],
                        self.upper_bound@[g],
                    ),
                self.mutation_rate_ppm >= RATE_SCALE ==> forall|k: int|
                    0 <= k < mutated_population@.len() ==> self.vector_in_bounds(
                        #[trigger] mutated_population@[k]@,
                    ),
            decreases population@.len() - idx,
        {
            let original = population[idx].get_action_vector();
            let pert_row = &perturbations[idx];
            let mut new_vector: Vec<i32> = Vec::new();
            let mut g: usize = 0;
            while g < self.dimension
                invariant
                    g <= self.dimension,
                    new_vector@.len() == g,
                    forall|t: int|
                        0 <= t < g ==> {
                            ||| #[trigger] new_vector@[t] == original@[t]
                            ||| new_vector@[t] == spec_clamped(
                                pert_row@[t],
                                self.lower_bound@[t],
                                self.upper_bound@[t],
                            )
                        },
                    self.mutation_rate_ppm == 0 ==> forall|t: int|
                        0 <= t < g ==> #[trigger] new_vector@[t] == original@[t],
                    self.mutation_rate_ppm >= RATE_SCALE ==> forall|t: int|
                        0 <= t < g ==> #[trigger] new_vector@[t] == spec_clamped(
                            pert_row@[t],
                            self.lower_bound@[t],
                            self.upper_bound@[t],
                        ),
                decreases self.dimension - g,
            {
                let gate = sample_usize_below(rng, RATE_SCALE as usize);
                if gate < self.mutation_rate_ppm as usize {
                    new_vector.push(clamped(pert_row[g], self.lower_bound[g], self.upper_bound[g]));
                } else {
                    new_vector.push(original[g]);
                }
                g = g + 1;
            }
            let keep = !contains_vector(&mutated_population, &new_vector);
            proof {
                if self.mutation_rate_ppm == 0 {
                    assert(new_vector@ =~= population@[idx as int]@);
                }
                assert(self.mutated_from(
                    population@[idx as int]@,
                    perturbations@[idx as int]@,
                    new_vector@,
                ));
                let prev_images = images;
                images = images.push(new_vector@);
                assert(images.drop_last() =~= prev_images);
                assert(images.last() == new_vector@);
                lemma_dedup_first_elements(prev_images, new_vector@);
                let ov = arm_views(mutated_population@);
                assert(forall|k: int| 0 <= k < ov.len() ==> ov[k] == mutated_population@[k]@);
                if keep {
                    assert(!ov.contains(new_vector@)) by {
                        if ov.contains(new_vector@) {
                            let k = choose|k: int| 0 <= k < ov.len() && ov[k] == new_vector@;
                            assert(mutated_population@[k]@ == new_vector@);
                        }
                    }
                    assert(!prev_images.contains(new_vector@));
                } else {
                    let k = choose|k: int|
                        0 <= k < mutated_population@.len() && mutated_population@[k]@
                            == new_vector@;
                    assert(ov[k] == new_vector@);
                    assert(prev_images.contains(new_vector@));
                    assert(arm_views(mutated_population@) =~= dedup_first(images));
                }
            }
            if keep {
                mutated_population.push(Arm::new(&new_vector));
                proof {
                    assert(arm_views(mutated_population@) =~= dedup_first(images));
                }
            }
            idx = idx + 1;
        }
        proof {
            if self.mutation_rate_ppm == 0 {
                assert(images =~= arm_views(population@));
            }
            assert(self.mutate_witness(population@, perturbations@, mutated_population@, images));
            if population@.len() > 0 {
                lemma_dedup_first_head(images);
                assert(mutated_population@.len() >= 1);
                assert(mutated_population@[0]@ == images[0]);
            }
        }
        mutated_population
    }

    /// Bounds invariant through crossover: every output gene of a crossover
    /// population comes from one of the pair's parents at the same gene
    /// position, so the children of in-bounds parents stay in bounds.
    pub proof fn lemma_crossover_preserves_bounds(self, pop: Seq<Arm>, out: Seq<Arm>)
        requires
            out.len() == pop.len(),
            pop.len() % 2 == 0,
            forall|k: int| 0 <= k < out.len() ==> (#[trigger] out[k]@).len() == self.dimension,
            forall|k: int, g: int|
                0 <= k < out.len() && 0 <= g < self.dimension ==> {
                    ||| #[trigger] out[k]@[g] == pop[k]@[g]
                    ||| out[k]@[g] == pop[partner_index(k)]@[g]
                },
            forall|k: int| 0 <= k < pop.len() ==> self.vector_in_bounds(#[trigger] pop[k]@),
        ensures
            forall|k: int| 0 <= k < out.len() ==> self.vector_in_bounds(#[trigger] out[k]@),
    {
        assert forall|k: int| 0 <= k < out.len() implies self.vector_in_bounds(
            #[trigger] out[k]@,
        ) by {
            assert(0 <= partner_index(k) < pop.len());
            assert(forall|g: int|
                0 <= g < out[k]@.len() ==> self.gene_in_bounds(g, #[trigger] out[k]@[g])) by {
                assert(pop[k]@.len() == self.dimension);
                assert(pop[partner_index(k)]@.len() == self.dimension);
            }
        }
    }

    /// Bounds invariant through mutation, for one arm: a mutated vector
    /// copies each gene of an in-bounds source or clamps the injected value
    /// into that gene's bounds, so it stays in bounds.
    pub proof fn lemma_mutation_preserves_bounds(
        self,
        src: Seq<i32>,
        pert: Seq<i32>,
        dst: Seq<i32>,
    )
        requires
            self.wf(),
            self.mutated_from(src, pert, dst),
            self.vector_in_bounds(src),
        ensures
            self.vector_in_bounds(dst),
    {
    }

    /// Bounds invariant through mutation, for a whole population: every arm
    /// that [`Self::mutate`] emits from an in-bounds population lies in
    /// bounds.
    pub proof fn lemma_mutate_output_in_bounds(
        self,
        pop: Seq<Arm>,
        pert: Seq<Vec<i32>>,
        out: Seq<Arm>,
    )
        requires
            self.wf(),
            exists|images: Seq<Seq<i32>>| self.mutate_witness(pop, pert, out, images),
            forall|i: int| 0 <= i < pop.len() ==> self.vector_in_bounds(#[trigger] pop[i]@),
        ensures
            forall|k: int| 0 <= k < out.len() ==> self.vector_in_bounds(#[trigger] out[k]@),
    {
        let images = choose|images: Seq<Seq<i32>>| self.mutate_witness(pop, pert, out, images);
        assert forall|k: int| 0 <= k < out.len() implies self.vector_in_bounds(
            #[trigger] out[k]@,
        ) by {
            assert(arm_views(out)[k] == out[k]@);
            assert(dedup_first(images)[k] == out[k]@);
            assert(dedup_first(images).contains(out[k]@));
            lemma_dedup_first_elements(images, out[k]@);
            let i = choose|i: int| 0 <= i < images.len() && images[i] == out[k]@;
            self.lemma_mutation_preserves_bounds(pop[i]@, pert[i]@, images[i]);
        }
    }

    /// Mutation at rate zero is the identity on a duplicate-free population:
    /// what [`Self::mutate`] ensures of its output — the input's action
    /// vectors with repeats suppressed — collapses to exactly the input's
    /// action vectors, in order, when those are pairwise distinct.
    pub proof fn lemma_mutate_rate_zero_identity(self, pop: Seq<Arm>, out: Seq<Arm>)
        requires
            self.mutation_rate_ppm == 0,
            arm_views(out) == dedup_first(arm_views(pop)),
            forall|i: int, j: int| 0 <= i < j < pop.len() ==> pop[i]@ != pop[j]@,
        ensures
            out.len() == pop.len(),
            forall|k: int| 0 <= k < out.len() ==> #[trigger] out[k]@ == pop[k]@,
    {
        assert(forall|i: int, j: int|
            0 <= i < j < arm_views(pop).len() ==> arm_views(pop)[i] != arm_views(pop)[j]);
        lemma_dedup_first_of_distinct(arm_views(pop));
        assert(forall|k: int| 0 <= k < out.len() ==> arm_views(out)[k] == #[trigger] out[k]@);
    }

    /// Duplicate suppression in mutation: where two input arms pass through
    /// [`Self::mutate`] at rate zero with equal action vectors, only the
    /// first is kept and the output is strictly shorter than the input.
    pub proof fn lemma_mutate_drops_duplicates(
        self,
        pop: Seq<Arm>,
        out: Seq<Arm>,
        i: int,
        j: int,
    )
        requires
            self.mutation_rate_ppm == 0,
            arm_views(out) == dedup_first(arm_views(pop)),
            0 <= i < j < pop.len(),
            pop[i]@ == pop[j]@,
        ensures
            out.len() < pop.len(),
    {
        lemma_dedup_first_shrinks(arm_views(pop), i, j);
    }

    /// Records `number_of_new_simulations` objective evaluations that the
    /// caller has just performed. The counter never decreases and is not
    /// clamped: exceeding the budget is the exhaustion signal, not an error.
    pub fn update_simulations_used(&mut self, number_of_new_simulations: u64)
        requires
            old(self).simulations_used + number_of_new_simulations <= u64::MAX,
        ensures
            *final(self) == (GeneticAlgorithm {
                simulations_used: (old(self).simulations_used + number_of_new_simulations) as u64,
                ..*old(self)
            }),
    {
        self.simulations_used = self.simulations_used + number_of_new_simulations;
    }

    /// Whether the evaluation budget is exhausted: the caller must stop
    /// requesting generations once this holds.
    pub fn budget_reached(&self) -> (r: bool)
        ensures
            r == (self.simulations_used >= self.max_simulations),
    {
        self.simulations_used >= self.max_simulations
    }

    /// The configured population size.
    pub fn get_population_size(&self) -> (r: usize)
        ensures
            r == self.population_size,
    {
        self.population_size
    }

    /// How many objective evaluations have been reported spent.
    pub fn get_simulations_used(&self) -> (r: u64)
        ensures
            r == self.simulations_used,
    {
        self.simulations_used
    }
}

} // verus!

