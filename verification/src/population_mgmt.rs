//! Population management: random initialization, fitness ranking with
//! elitism, one generation of selection, breeding and mutation, and the
//! generational loop that tracks the all-time best individual.

use crate::evolutionary_ops::better;
use crate::evolutionary_ops::bred_from;
use crate::evolutionary_ops::cross_or_clone_of;
use crate::evolutionary_ops::mutated_at_most_once;
use crate::evolutionary_ops::is_better;
use crate::evolutionary_ops::mutate;
use crate::evolutionary_ops::one_point_crossover;
use crate::evolutionary_ops::tournament_selection;
use crate::evolutionary_ops::Direction;
use crate::genome::clone_genome;
use crate::genome::Genome;
use crate::grammar::spec_derive;
use crate::grammar::map_genome_to_phenotype;
use crate::grammar::Grammar;
use crate::grammar::Phenotype;
use crate::rng::RandomSource;
use vstd::prelude::*;

verus! {

/// One run's configuration: sizes, probabilities (in thousandths), the
/// optimization direction and the derivation-step cap.
pub struct Config {
    pub population_size: usize,
    pub min_genome_length: usize,
    pub max_genome_length: usize,
    pub codon_range: usize,
    pub tournament_size: usize,
    pub crossover_permille: u32,
    pub mutation_permille: u32,
    pub elitism_count: usize,
    pub generations: usize,
    pub direction: Direction,
    pub step_cap: usize,
}

impl Config {
    /// A usable configuration: a non-empty population that elitism fits
    /// into, non-empty tournaments and genomes, at least two codon values
    /// (so mutation can always change its locus), and probabilities of at
    /// most a thousand thousandths.
    pub open spec fn wf(&self) -> bool {
        &&& self.population_size >= 1
        &&& self.elitism_count <= self.population_size
        &&& self.tournament_size >= 1
        &&& self.codon_range >= 2
        &&& 1 <= self.min_genome_length <= self.max_genome_length
        &&& self.max_genome_length < usize::MAX
        &&& self.crossover_permille <= 1000
        &&& self.mutation_permille <= 1000
    }

    /// Checks the configuration; a run refuses to start on a malformed one.
    pub fn is_well_formed(&self) -> (r: bool)
        ensures
            r == self.wf(),
    {
        self.population_size >= 1 && self.elitism_count <= self.population_size
            && self.tournament_size >= 1 && self.codon_range >= 2 && self.min_genome_length >= 1
            && self.min_genome_length <= self.max_genome_length && self.max_genome_length
            < usize::MAX && self.crossover_permille <= 1000 && self.mutation_permille <= 1000
    }
}

/// Builds `size` genomes of random length between 1 and 99, every codon
/// drawn uniformly from `0..=255`.
pub fn initialize_population(size: usize, rs: &mut RandomSource) -> (population: Vec<Genome>)
    ensures
        population@.len() == size,
        forall|i: int|
            0 <= i < population@.len() ==> 1 <= #[trigger] population@[i]@.len() < 100,
        forall|i: int, j: int|
            0 <= i < population@.len() && 0 <= j < population@[i]@.len() ==> population@[i]@[j]
                < 256,
{
    let mut population: Vec<Genome> = Vec::new();
    while population.len() < size
        invariant
            population@.len() <= size,
            forall|i: int|
                0 <= i < population@.len() ==> 1 <= #[trigger] population@[i]@.len() < 100,
            forall|i: int, j: int|
                0 <= i < population@.len() && 0 <= j < population@[i]@.len() ==> population@[i]@[j]
                    < 256,
        decreases size - population@.len(),
    {
        let length = 1 + rs.next_below(99);
        let mut g: Genome = Vec::new();
        while g.len() < length
            invariant
                g@.len() <= length,
                length < 100,
                forall|j: int| 0 <= j < g@.len() ==> g@[j] < 256,
            decreases length - g@.len(),
        {
            g.push(rs.next_below(256));
        }
        population.push(g);
    }
    population
}

/// Builds `pop_size` genomes of exactly `genome_length` codons, every codon
/// drawn uniformly from `0..max_gene_value`.
pub fn random_initialization(
    pop_size: usize,
    genome_length: usize,
    max_gene_value: usize,
    rs: &mut RandomSource,
) -> (population: Vec<Genome>)
    requires
        max_gene_value >= 1,
    ensures
        population@.len() == pop_size,
        forall|i: int|
            0 <= i < population@.len() ==> #[trigger] population@[i]@.len() == genome_length,
        forall|i: int, j: int|
            0 <= i < population@.len() && 0 <= j < population@[i]@.len() ==> population@[i]@[j]
                < max_gene_value,
{
    let mut population: Vec<Genome> = Vec::new();
    while population.len() < pop_size
        invariant
            max_gene_value >= 1,
            population@.len() <= pop_size,
            forall|i: int|
                0 <= i < population@.len() ==> #[trigger] population@[i]@.len() == genome_length,
            forall|i: int, j: int|
                0 <= i < population@.len() && 0 <= j < population@[i]@.len() ==> population@[i]@[j]
                    < max_gene_value,
        decreases pop_size - population@.len(),
    {
        let mut g: Genome = Vec::new();
        while g.len() < genome_length
            invariant
                max_gene_value >= 1,
                g@.len() <= genome_length,
                forall|j: int| 0 <= j < g@.len() ==> g@[j] < max_gene_value,
            decreases genome_length - g@.len(),
        {
            g.push(rs.next_below(max_gene_value));
        }
        population.push(g);
    }
    population
}

/// `order` ranks every population index best-first under `d`: it is a
/// duplicate-free arrangement of all indices, no later entry is strictly
/// better than an earlier one, and ties keep their original order.
pub open spec fn ranked_by_fitness(fitnesses: Seq<u64>, d: Direction, order: Seq<usize>) -> bool {
    &&& order.len() == fitnesses.len()
    &&& forall|i: int| 0 <= i < order.len() ==> order[i] < fitnesses.len()
    &&& forall|i: int, j: int| 0 <= i < j < order.len() ==> order[i] != order[j]
    &&& forall|i: int, j: int|
        0 <= i <= j < order.len() ==> !better(
            d,
            fitnesses[order[j] as int],
            fitnesses[order[i] as int],
        )
    &&& forall|i: int, j: int|
        0 <= i < j < order.len() && fitnesses[order[i] as int] == fitnesses[order[j] as int]
            ==> order[i] < order[j]
}

/// Sort keys under which a smaller key means a strictly better fitness.
fn sort_keys(fitnesses: &Vec<u64>, d: Direction) -> (keys: Vec<u64>)
    ensures
        keys@.len() == fitnesses@.len(),
        forall|i: int, j: int|
            0 <= i < keys@.len() && 0 <= j < keys@.len() ==> ((keys@[i] < keys@[j]) == better(
                d,
                fitnesses@[i],
                fitnesses@[j],
            ) && (keys@[i] == keys@[j]) == (fitnesses@[i] == fitnesses@[j])),
{
    let mut keys: Vec<u64> = Vec::new();
    let mut i: usize = 0;
    while i < fitnesses.len()
        invariant
            i <= fitnesses@.len(),
            keys@.len() == i,
            forall|k: int|
                0 <= k < i ==> #[trigger] keys@[k] == match d {
                    Direction::Maximize => u64::MAX - fitnesses@[k],
                    Direction::Minimize => fitnesses@[k] as int,
                },
        decreases fitnesses@.len() - i,
    {
        let key = match d {
            Direction::Maximize => u64::MAX - fitnesses[i],
            Direction::Minimize => fitnesses[i],
        };
        keys.push(key);
        i = i + 1;
    }
    keys
}

/// Ranks the population indices by fitness, best first under `d`; equal
/// fitness keeps the original index order, as a stable sort does.
pub fn rank_by_fitness(fitnesses: &Vec<u64>, d: Direction) -> (order: Vec<usize>)
    ensures
        ranked_by_fitness(fitnesses@, d, order@),
{
    let keys = sort_keys(fitnesses, d);
    let mut order: Vec<usize> = Vec::new();
    let mut i: usize = 0;
    while i < fitnesses.len()
        invariant
            i <= fitnesses@.len(),
            order@.len() == i,
            forall|k: int| 0 <= k < i ==> order@[k] == k,
        decreases fitnesses@.len() - i,
    {
        order.push(i);
        i = i + 1;
    }
    let ghost f = fitnesses@;
    let mut i: usize = 1;
    while i < order.len()
        invariant
            keys@.len() == f.len(),
            forall|a: int, b: int|
                0 <= a < keys@.len() && 0 <= b < keys@.len() ==> ((keys@[a] < keys@[b]) == better(
                    d,
                    f[a],
                    f[b],
                ) && (keys@[a] == keys@[b]) == (f[a] == f[b])),
            f == fitnesses@,
            1 <= i,
            order@.len() == 0 ==> i == 1,
            order@.len() >= 1 ==> i <= order@.len(),
            order@.len() == f.len(),
            forall|k: int| 0 <= k < order@.len() ==> order@[k] < f.len(),
            forall|a: int, b: int| 0 <= a < b < order@.len() ==> order@[a] != order@[b],
            forall|a: int, b: int|
                0 <= a <= b < i ==> !better(d, f[order@[b] as int], f[order@[a] as int]),
            forall|a: int, b: int|
                0 <= a < b < order@.len() && f[order@[a] as int] == f[order@[b] as int]
                    ==> order@[a] < order@[b],
        decreases order@.len() - i,
    {
        let mut j: usize = i;
        while j > 0 && keys[order[j]] < keys[order[j - 1]]
            invariant
                keys@.len() == f.len(),
                forall|a: int, b: int|
                    0 <= a < keys@.len() && 0 <= b < keys@.len() ==> ((keys@[a] < keys@[b])
                        == better(d, f[a], f[b]) && (keys@[a] == keys@[b]) == (f[a] == f[b])),
                f == fitnesses@,
                0 <= j <= i < order@.len(),
                order@.len() == f.len(),
                forall|k: int| 0 <= k < order@.len() ==> order@[k] < f.len(),
                forall|a: int, b: int| 0 <= a < b < order@.len() ==> order@[a] != order@[b],
                forall|a: int, b: int|
                    0 <= a <= b <= i && a != j && b != j ==> !better(
                        d,
                        f[order@[b] as int],
                        f[order@[a] as int],
                    ),
                forall|k: int|
                    j < k <= i ==> better(d, f[order@[j as int] as int], f[order@[k] as int]),
                forall|a: int, b: int|
                    0 <= a < b < order@.len() && f[order@[a] as int] == f[order@[b] as int]
                        ==> order@[a] < order@[b],
            decreases j,
        {
            let moving = order[j];
            let other = order[j - 1];
            let ghost pre = order@;
            order.set(j, other);
            order.set(j - 1, moving);
            proof {
                let jj = j as int;
                assert(better(d, f[moving as int], f[other as int]));
                assert forall|a: int, b: int|
                    0 <= a < b < order@.len() && f[order@[a] as int] == f[order@[b] as int]
                        implies order@[a] < order@[b] by {
                    if a == jj - 1 && b == jj {
                        assert(f[moving as int] != f[other as int]);
                    } else if b == jj - 1 {
                        assert(order@[a] == pre[a] && order@[b] == pre[jj]);
                        assert(f[pre[a] as int] == f[pre[jj] as int] ==> pre[a] < pre[jj]);
                    } else if b == jj {
                        assert(order@[a] == pre[a] && order@[b] == pre[jj - 1]);
                        assert(f[pre[a] as int] == f[pre[jj - 1] as int] ==> pre[a] < pre[jj - 1]);
                    } else if a == jj - 1 {
                        assert(order@[a] == pre[jj] && order@[b] == pre[b]);
                        assert(f[pre[jj] as int] == f[pre[b] as int] ==> pre[jj] < pre[b]);
                    } else if a == jj {
                        assert(order@[a] == pre[jj - 1] && order@[b] == pre[b]);
                        assert(f[pre[jj - 1] as int] == f[pre[b] as int] ==> pre[jj - 1] < pre[b]);
                    } else {
                        assert(order@[a] == pre[a] && order@[b] == pre[b]);
                    }
                }
            }
            j = j - 1;
        }
        proof {
            let jj = j as int;
            if j > 0 {
                assert(!(keys@[order@[jj] as int] < keys@[order@[jj - 1] as int]));
                assert(!better(d, f[order@[jj] as int], f[order@[jj - 1] as int]));
            }
            assert forall|a: int, b: int| 0 <= a <= b <= i implies !better(
                d,
                f[order@[b] as int],
                f[order@[a] as int],
            ) by {
                if a != jj && b != jj {
                } else if a == jj && b == jj {
                } else if b == jj {
                    assert(a < jj);
                    assert(jj > 0);
                    assert(!better(d, f[order@[jj] as int], f[order@[jj - 1] as int]));
                    if a < jj - 1 {
                        assert(!better(d, f[order@[jj - 1] as int], f[order@[a] as int]));
                    }
                } else {
                    assert(a == jj && b > jj);
                    assert(better(d, f[order@[a] as int], f[order@[b] as int]));
                }
            }
        }
        i = i + 1;
    }
    order
}

/// The first `count` slots of `next` hold copies of the best `count`
/// genomes of `population`, in rank order under `d`.
pub open spec fn has_ranked_elite_prefix(
    next: Seq<Genome>,
    population: Seq<Genome>,
    fitnesses: Seq<u64>,
    d: Direction,
    count: int,
) -> bool {
    exists|ord: Seq<usize>|
        ranked_by_fitness(fitnesses, d, ord) && (forall|i: int|
            0 <= i < count ==> next[i]@ == population[ord[i] as int]@)
}

/// One generation: the best `elitism_count` genomes are copied unmodified
/// into the next population first; the rest is bred by drawing two parents
/// by tournament, crossing them over with probability
/// `crossover_permille/1000` (otherwise cloning them), mutating each child
/// with probability `mutation_permille/1000`, and trimming the last child
/// when a pair would overshoot the population size. Every slot past the
/// elite prefix provably came from that breeding: a crossover of two
/// population members at some cut or a clone of one, then at most one point
/// mutation.
pub fn evolve_population(
    population: &Vec<Genome>,
    fitnesses: &Vec<u64>,
    config: &Config,
    rs: &mut RandomSource,
) -> (next: Vec<Genome>)
    requires
        config.wf(),
        population@.len() == config.population_size,
        fitnesses@.len() == population@.len(),
        forall|i: int| 0 <= i < population@.len() ==> #[trigger] population@[i]@.len() >= 1,
    ensures
        next@.len() == config.population_size,
        forall|i: int| 0 <= i < next@.len() ==> #[trigger] next@[i]@.len() >= 1,
        has_ranked_elite_prefix(
            next@,
            population@,
            fitnesses@,
            config.direction,
            config.elitism_count as int,
        ),
        forall|i: int|
            config.elitism_count <= i < next@.len() ==> bred_from(
                population@,
                config.codon_range as int,
                #[trigger] next@[i]@,
            ),
{
    let order = rank_by_fitness(fitnesses, config.direction);
    let mut next: Vec<Genome> = Vec::new();
    let mut e: usize = 0;
    while e < config.elitism_count
        invariant
            e <= config.elitism_count,
            config.elitism_count <= config.population_size,
            population@.len() == config.population_size,
            fitnesses@.len() == population@.len(),
            forall|i: int| 0 <= i < population@.len() ==> #[trigger] population@[i]@.len() >= 1,
            ranked_by_fitness(fitnesses@, config.direction, order@),
            next@.len() == e,
            forall|i: int| 0 <= i < e ==> next@[i]@ == population@[order@[i] as int]@,
            forall|i: int| 0 <= i < next@.len() ==> #[trigger] next@[i]@.len() >= 1,
        decreases config.elitism_count - e,
    {
        next.push(clone_genome(&population[order[e]]));
        e = e + 1;
    }
    while next.len() < config.population_size
        invariant
            config.wf(),
            population@.len() == config.population_size,
            fitnesses@.len() == population@.len(),
            forall|i: int| 0 <= i < population@.len() ==> #[trigger] population@[i]@.len() >= 1,
            ranked_by_fitness(fitnesses@, config.direction, order@),
            config.elitism_count <= next@.len() <= config.population_size,
            forall|i: int|
                0 <= i < config.elitism_count ==> next@[i]@ == population@[order@[i] as int]@,
            forall|i: int| 0 <= i < next@.len() ==> #[trigger] next@[i]@.len() >= 1,
            forall|i: int|
                config.elitism_count <= i < next@.len() ==> bred_from(
                    population@,
                    config.codon_range as int,
                    #[trigger] next@[i]@,
                ),
        decreases config.population_size - next@.len(),
    {
        let p1 = tournament_selection(
            population,
            fitnesses,
            config.tournament_size,
            config.direction,
            rs,
        );
        let p2 = tournament_selection(
            population,
            fitnesses,
            config.tournament_size,
            config.direction,
            rs,
        );
        let crossing = rs.next_below(1000) < config.crossover_permille as usize;
        let (mut child1, mut child2) = if crossing {
            one_point_crossover(&population[p1], &population[p2], rs)
        } else {
            (clone_genome(&population[p1]), clone_genome(&population[p2]))
        };
        let ghost pre1 = child1@;
        let ghost pre2 = child2@;
        proof {
            assert(child1@.len() >= 1 && child2@.len() >= 1);
            if crossing {
                let cut = choose|cut: int|
                    0 <= cut < population@[p1 as int]@.len() && cut < population@[
                        p2 as int
                    ]@.len() && pre1 == population@[p1 as int]@.take(cut) + population@[
                        p2 as int
                    ]@.skip(cut) && pre2 == population@[p2 as int]@.take(cut) + population@[
                        p1 as int
                    ]@.skip(cut);
                assert(p1 < population@.len() && p2 < population@.len() && 0 <= cut
                    < population@[p1 as int]@.len() && cut < population@[p2 as int]@.len() && pre1
                    == population@[p1 as int]@.take(cut) + population@[p2 as int]@.skip(cut));
                assert(cross_or_clone_of(population@, pre1));
                assert(pre2 == population@[p2 as int]@.take(cut) + population@[
                    p1 as int
                ]@.skip(cut));
                assert(cross_or_clone_of(population@, pre2));
            } else {
                assert(pre1 == population@[p1 as int]@);
                assert(pre2 == population@[p2 as int]@);
                assert(cross_or_clone_of(population@, pre1));
                assert(cross_or_clone_of(population@, pre2));
            }
        }
        if rs.next_below(1000) < config.mutation_permille as usize {
            mutate(&mut child1, config.codon_range, rs);
        }
        if rs.next_below(1000) < config.mutation_permille as usize {
            mutate(&mut child2, config.codon_range, rs);
        }
        proof {
            assert(mutated_at_most_once(pre1, child1@, config.codon_range as int));
            assert(mutated_at_most_once(pre2, child2@, config.codon_range as int));
            assert(bred_from(population@, config.codon_range as int, child1@));
            assert(bred_from(population@, config.codon_range as int, child2@));
        }
        next.push(child1);
        if next.len() < config.population_size {
            next.push(child2);
        }
    }
    proof {
        assert(ranked_by_fitness(fitnesses@, config.direction, order@) && (forall|i: int|
            0 <= i < config.elitism_count ==> next@[i]@ == population@[order@[i] as int]@));
    }
    next
}

/// A pluggable fitness source: each problem scores a phenotype its own way;
/// the loop only compares scores under the configured direction. The
/// spec-level score fixes what the executable scorer returns, so the loop's
/// own contract can speak of the fitness of concrete phenotypes.
pub trait FitnessFunction {
    /// The score this source assigns to a phenotype with the given tokens
    /// and completeness flag.
    spec fn spec_score(&self, tokens: Seq<Seq<char>>, complete: bool) -> u64;

    /// The score of one phenotype.
    fn score(&self, phenotype: &Phenotype) -> (r: u64)
        ensures
            r == self.spec_score(phenotype.toks(), phenotype.complete),
    ;
}

/// The score the fitness source assigns to the phenotype that `genome`
/// derives under `grammar` within `step_cap` steps.
pub open spec fn spec_genome_score<F: FitnessFunction>(
    fitness: F,
    grammar: Grammar,
    step_cap: nat,
    genome: Seq<usize>,
) -> u64 {
    let derived = spec_derive(
        grammar,
        genome,
        seq![grammar.start@],
        0,
        Seq::<Seq<char>>::empty(),
        step_cap,
    );
    fitness.spec_score(derived.0, derived.1)
}

/// What one generation reported: the best fitness found in it, and the
/// index of the individual that achieved it (the earliest, on ties).
pub struct GenerationSummary {
    pub best_fitness: u64,
    pub best_index: usize,
}

/// What a finished run reports: the all-time best genome with its phenotype
/// and fitness, and one summary per generation. The populations that were
/// evaluated stay as ghost evidence that every summary reports the best
/// score found in its generation's population.
pub struct RunResult {
    pub best_genome: Genome,
    pub best_phenotype: Phenotype,
    pub best_fitness: u64,
    pub best_generation: usize,
    pub summaries: Vec<GenerationSummary>,
    pub populations: Ghost<Seq<Seq<Genome>>>,
}

/// Runs the whole generational loop: random initialization, then per
/// generation an evaluation of every genome's phenotype, a summary of the
/// generation's best, a ratchet update of the all-time best only when
/// strictly better, and a replacement population bred with elitism. Each
/// summary reports the best spec-score over that generation's population
/// (kept as ghost evidence in the result); the all-time best fitness is the
/// spec-score of the reported phenotype, is never worse than any
/// generation's best, and equals one of them; the reported phenotype is
/// exactly the derivation of the reported genome.
pub fn run<F: FitnessFunction>(
    config: &Config,
    grammar: &Grammar,
    fitness: &F,
    rs: &mut RandomSource,
) -> (result: RunResult)
    requires
        config.wf(),
        grammar.wf(),
        config.generations >= 1,
    ensures
        result.summaries@.len() == config.generations,
        forall|g: int|
            0 <= g < result.summaries@.len() ==> !better(
                config.direction,
                #[trigger] result.summaries@[g].best_fitness,
                result.best_fitness,
            ),
        result.best_generation < result.summaries@.len(),
        result.summaries@[result.best_generation as int].best_fitness == result.best_fitness,
        result.best_genome@.len() >= 1,
        (result.best_phenotype.toks(), result.best_phenotype.complete) == spec_derive(
            *grammar,
            result.best_genome@,
            seq![grammar.start@],
            0,
            Seq::<Seq<char>>::empty(),
            config.step_cap as nat,
        ),
        result.best_fitness == fitness.spec_score(
            result.best_phenotype.toks(),
            result.best_phenotype.complete,
        ),
        result.populations@.len() == config.generations,
        forall|g: int|
            0 <= g < result.populations@.len() ==> #[trigger] result.populations@[g].len()
                == config.population_size,
        forall|g: int, i: int|
            0 <= g < result.populations@.len() && 0 <= i < result.populations@[g].len()
                ==> !better(
                config.direction,
                spec_genome_score(
                    *fitness,
                    *grammar,
                    config.step_cap as nat,
                    #[trigger] result.populations@[g][i]@,
                ),
                result.summaries@[g].best_fitness,
            ),
        forall|g: int|
            0 <= g < result.populations@.len() ==> #[trigger] result.summaries@[g].best_index
                < result.populations@[g].len() && result.summaries@[g].best_fitness
                == spec_genome_score(
                *fitness,
                *grammar,
                config.step_cap as nat,
                result.populations@[g][result.summaries@[g].best_index as int]@,
            ),
{
    let mut population: Vec<Genome> = Vec::new();
    while population.len() < config.population_size
        invariant
            config.wf(),
            population@.len() <= config.population_size,
            forall|i: int| 0 <= i < population@.len() ==> #[trigger] population@[i]@.len() >= 1,
        decreases config.population_size - population@.len(),
    {
        let span = config.max_genome_length - config.min_genome_length + 1;
        let length = config.min_genome_length + rs.next_below(span);
        let mut g: Genome = Vec::new();
        while g.len() < length
            invariant
                config.wf(),
                g@.len() <= length,
                length >= 1,
            decreases length - g@.len(),
        {
            g.push(rs.next_below(config.codon_range));
        }
        population.push(g);
    }
    let mut summaries: Vec<GenerationSummary> = Vec::new();
    let mut best_genome: Genome = clone_genome(&population[0]);
    let mut best_phenotype: Phenotype = map_genome_to_phenotype(
        &best_genome,
        grammar,
        config.step_cap,
    );
    let mut best_fitness: u64 = 0;
    let mut best_generation: usize = 0;
    let ghost mut history: Seq<Seq<Genome>> = Seq::empty();
    let mut gen: usize = 0;
    while gen < config.generations
        invariant
            config.wf(),
            grammar.wf(),
            gen <= config.generations,
            population@.len() == config.population_size,
            forall|i: int| 0 <= i < population@.len() ==> #[trigger] population@[i]@.len() >= 1,
            summaries@.len() == gen,
            history.len() == gen,
            best_genome@.len() >= 1,
            (best_phenotype.toks(), best_phenotype.complete) == spec_derive(
                *grammar,
                best_genome@,
                seq![grammar.start@],
                0,
                Seq::<Seq<char>>::empty(),
                config.step_cap as nat,
            ),
            gen >= 1 ==> forall|g: int|
                0 <= g < summaries@.len() ==> !better(
                    config.direction,
                    #[trigger] summaries@[g].best_fitness,
                    best_fitness,
                ),
            gen >= 1 ==> best_generation < summaries@.len()
                && summaries@[best_generation as int].best_fitness == best_fitness,
            gen >= 1 ==> best_fitness == fitness.spec_score(
                best_phenotype.toks(),
                best_phenotype.complete,
            ),
            forall|g: int| 0 <= g < gen ==> #[trigger] history[g].len() == config.population_size,
            forall|g: int, i: int|
                0 <= g < gen && 0 <= i < history[g].len() ==> !better(
                    config.direction,
                    spec_genome_score(
                        *fitness,
                        *grammar,
                        config.step_cap as nat,
                        #[trigger] history[g][i]@,
                    ),
                    summaries@[g].best_fitness,
                ),
            forall|g: int|
                0 <= g < gen ==> #[trigger] summaries@[g].best_index < history[g].len()
                    && summaries@[g].best_fitness == spec_genome_score(
                    *fitness,
                    *grammar,
                    config.step_cap as nat,
                    history[g][summaries@[g].best_index as int]@,
                ),
        decreases config.generations - gen,
    {
        let mut scores: Vec<u64> = Vec::new();
        let mut i: usize = 0;
        while i < population.len()
            invariant
                config.wf(),
                grammar.wf(),
                population@.len() == config.population_size,
                forall|k: int|
                    0 <= k < population@.len() ==> #[trigger] population@[k]@.len() >= 1,
                i <= population@.len(),
                scores@.len() == i,
                forall|k: int|
                    0 <= k < i ==> #[trigger] scores@[k] == spec_genome_score(
                        *fitness,
                        *grammar,
                        config.step_cap as nat,
                        population@[k]@,
                    ),
            decreases population@.len() - i,
        {
            let phenotype = map_genome_to_phenotype(&population[i], grammar, config.step_cap);
            let s = fitness.score(&phenotype);
            proof {
                assert(s == spec_genome_score(
                    *fitness,
                    *grammar,
                    config.step_cap as nat,
                    population@[i as int]@,
                ));
            }
            scores.push(s);
            i = i + 1;
        }
        let mut best_i: usize = 0;
        let mut k: usize = 1;
        while k < scores.len()
            invariant
                scores@.len() >= 1,
                k <= scores@.len(),
                best_i < scores@.len(),
                forall|j: int|
                    0 <= j < k ==> !better(
                        config.direction,
                        #[trigger] scores@[j],
                        scores@[best_i as int],
                    ),
            decreases scores@.len() - k,
        {
            if is_better(config.direction, scores[k], scores[best_i]) {
                best_i = k;
            }
            k = k + 1;
        }
        summaries.push(GenerationSummary { best_fitness: scores[best_i], best_index: best_i });
        proof {
            history = history.push(population@);
            let g = gen as int;
            assert(history[g] == population@);
            assert(summaries@[g].best_fitness == scores@[best_i as int]);
            assert(summaries@[g].best_index == best_i);
            assert forall|ii: int| 0 <= ii < history[g].len() implies !better(
                config.direction,
                spec_genome_score(
                    *fitness,
                    *grammar,
                    config.step_cap as nat,
                    #[trigger] history[g][ii]@,
                ),
                summaries@[g].best_fitness,
            ) by {
                assert(scores@[ii] == spec_genome_score(
                    *fitness,
                    *grammar,
                    config.step_cap as nat,
                    population@[ii]@,
                ));
                assert(!better(config.direction, scores@[ii], scores@[best_i as int]));
            }
            assert(best_i < history[g].len() && summaries@[g].best_fitness
                == spec_genome_score(
                *fitness,
                *grammar,
                config.step_cap as nat,
                history[g][best_i as int]@,
            ));
        }
        if gen == 0 || is_better(config.direction, scores[best_i], best_fitness) {
            best_fitness = scores[best_i];
            best_genome = clone_genome(&population[best_i]);
            best_phenotype = map_genome_to_phenotype(&best_genome, grammar, config.step_cap);
            best_generation = gen;
            proof {
                assert(best_genome@ == population@[best_i as int]@);
                assert(best_fitness == fitness.spec_score(
                    best_phenotype.toks(),
                    best_phenotype.complete,
                ));
            }
        }
        population = evolve_population(&population, &scores, config, rs);
        gen = gen + 1;
    }
    RunResult {
        best_genome,
        best_phenotype,
        best_fitness,
        best_generation,
        summaries,
        populations: Ghost(history),
    }
}

} // verus!
