//! Evolutionary operators: tournament selection, one-point crossover and
//! point mutation, all pure over genomes apart from the injected random
//! source.

use crate::genome::Genome;
use crate::rng::RandomSource;
use vstd::prelude::*;

verus! {

/// Which way fitness is optimized: some fitness functions count successes
/// (higher is better), others measure error (lower is better).
#[derive(Clone, Copy, PartialEq, Eq, Structural, Debug)]
pub enum Direction {
    Maximize,
    Minimize,
}

/// `a` is a strictly better fitness value than `b` under `d`.
pub open spec fn better(d: Direction, a: u64, b: u64) -> bool {
    match d {
        Direction::Maximize => a > b,
        Direction::Minimize => a < b,
    }
}

/// Compares two fitness values under the configured direction.
pub fn is_better(d: Direction, a: u64, b: u64) -> (r: bool)
    ensures
        r == better(d, a, b),
{
    match d {
        Direction::Maximize => a > b,
        Direction::Minimize => a < b,
    }
}

/// Swaps the suffixes of the two parents at `cut`: the first child is the
/// first parent's prefix followed by the second parent's suffix, and the
/// second child is the complementary swap. Total gene count is preserved.
pub fn crossover_at(parent1: &Genome, parent2: &Genome, cut: usize) -> (children: (Genome, Genome))
    requires
        cut <= parent1@.len(),
        cut <= parent2@.len(),
    ensures
        children.0@ == parent1@.take(cut as int) + parent2@.skip(cut as int),
        children.1@ == parent2@.take(cut as int) + parent1@.skip(cut as int),
        children.0@.len() + children.1@.len() == parent1@.len() + parent2@.len(),
{
    let child1 = splice(parent1, parent2, cut);
    let child2 = splice(parent2, parent1, cut);
    (child1, child2)
}

/// The prefix of `head` up to `cut` followed by the suffix of `tail` from
/// `cut` on.
fn splice(head: &Genome, tail: &Genome, cut: usize) -> (r: Genome)
    requires
        cut <= head@.len(),
        cut <= tail@.len(),
    ensures
        r@ == head@.take(cut as int) + tail@.skip(cut as int),
{
    let mut r: Genome = Vec::new();
    let mut i: usize = 0;
    while i < cut
        invariant
            i <= cut,
            cut <= head@.len(),
            r@ == head@.take(i as int),
        decreases cut - i,
    {
        r.push(head[i]);
        i = i + 1;
        proof {
            assert(r@ =~= head@.take(i as int));
        }
    }
    let mut j: usize = cut;
    while j < tail.len()
        invariant
            cut <= j <= tail@.len(),
            r@ == head@.take(cut as int) + tail@.skip(cut as int).take(j - cut),
        decreases tail@.len() - j,
    {
        r.push(tail[j]);
        j = j + 1;
        proof {
            assert(r@ =~= head@.take(cut as int) + tail@.skip(cut as int).take(j - cut));
        }
    }
    proof {
        assert(r@ =~= head@.take(cut as int) + tail@.skip(cut as int));
    }
    r
}

/// One-point crossover: a single cut index is drawn uniformly from
/// `[0, min(len(parent1), len(parent2)))` and the suffixes from the cut are
/// swapped. The children together hold exactly the parents' gene count.
pub fn one_point_crossover(parent1: &Genome, parent2: &Genome, rs: &mut RandomSource) -> (children: (
    Genome,
    Genome,
))
    requires
        parent1@.len() >= 1,
        parent2@.len() >= 1,
    ensures
        exists|cut: int|
            0 <= cut < parent1@.len() && cut < parent2@.len() && children.0@ == parent1@.take(cut)
                + parent2@.skip(cut) && children.1@ == parent2@.take(cut) + parent1@.skip(cut),
        children.0@.len() + children.1@.len() == parent1@.len() + parent2@.len(),
{
    let bound = if parent1.len() < parent2.len() {
        parent1.len()
    } else {
        parent2.len()
    };
    let cut = rs.next_below(bound);
    let children = crossover_at(parent1, parent2, cut);
    proof {
        assert(0 <= cut < parent1@.len() && cut < parent2@.len() && children.0@ == parent1@.take(
            cut as int,
        ) + parent2@.skip(cut as int) && children.1@ == parent2@.take(cut as int) + parent1@.skip(
            cut as int,
        ));
    }
    children
}

/// Point mutation: one locus is drawn uniformly at random and its codon is
/// replaced by a value drawn uniformly from the other values of
/// `0..codon_range`, so the locus always changes. The genome's length is
/// preserved, exactly one locus differs afterwards, and every other locus is
/// kept unchanged. A range of at least two values is needed for a changed
/// codon to exist.
pub fn mutate(genome: &mut Genome, codon_range: usize, rs: &mut RandomSource)
    requires
        old(genome)@.len() >= 1,
        codon_range >= 2,
    ensures
        final(genome)@.len() == old(genome)@.len(),
        exists|locus: int|
            0 <= locus < old(genome)@.len() && final(genome)@[locus] < codon_range
                && final(genome)@[locus] != old(genome)@[locus] && (forall|j: int|
                0 <= j < old(genome)@.len() && j != locus ==> final(genome)@[j] == old(
                    genome,
                )@[j]),
{
    let locus = rs.next_below(genome.len());
    let previous = genome[locus];
    // A draw from one fewer value, shifted past the old codon, is a uniform
    // draw over the in-range values other than the old one.
    let drawn = rs.next_below(codon_range - 1);
    let value = if drawn >= previous {
        drawn + 1
    } else {
        drawn
    };
    genome.set(locus, value);
    proof {
        assert(0 <= locus < old(genome)@.len() && genome@[locus as int] < codon_range
            && genome@[locus as int] != old(genome)@[locus as int] && (forall|j: int|
            0 <= j < old(genome)@.len() && j != locus ==> genome@[j] == old(genome)@[j]));
    }
}

/// `child` is one of the two outcomes of a one-point crossover of two
/// population members at some cut, or an unmodified copy of one member.
pub open spec fn cross_or_clone_of(population: Seq<Genome>, child: Seq<usize>) -> bool {
    ||| exists|k: int| 0 <= k < population.len() && child == #[trigger] population[k]@
    ||| exists|a: int, b: int, cut: int|
        0 <= a < population.len() && 0 <= b < population.len() && 0 <= cut < population[a]@.len()
            && cut < population[b]@.len() && child == population[a]@.take(cut)
            + population[b]@.skip(cut)
}

/// `child` equals `parent` except possibly at one point-mutated locus, whose
/// fresh codon lies below `codon_range` and differs from the old one.
pub open spec fn mutated_at_most_once(
    parent: Seq<usize>,
    child: Seq<usize>,
    codon_range: int,
) -> bool {
    child.len() == parent.len() && (child == parent || exists|locus: int|
        0 <= locus < parent.len() && child[locus] < codon_range && child[locus] != parent[locus]
            && (forall|j: int| 0 <= j < parent.len() && j != locus ==> child[j] == parent[j]))
}

/// `child` was bred from `population`: a one-point crossover of two members
/// at some cut, or a clone of one member, followed by at most one point
/// mutation within `codon_range`.
pub open spec fn bred_from(population: Seq<Genome>, codon_range: int, child: Seq<usize>) -> bool {
    exists|pre: Seq<usize>|
        #[trigger] mutated_at_most_once(pre, child, codon_range) && cross_or_clone_of(
            population,
            pre,
        )
}

/// The population index, among `candidates`, whose fitness is best under `d`;
/// ties are resolved in favour of the earliest candidate. No candidate is
/// strictly better than the returned one.
pub fn best_of_candidates(fitnesses: &Vec<u64>, candidates: &Vec<usize>, d: Direction) -> (r: usize)
    requires
        candidates@.len() >= 1,
        forall|i: int| 0 <= i < candidates@.len() ==> candidates@[i] < fitnesses@.len(),
    ensures
        exists|k: int| 0 <= k < candidates@.len() && candidates@[k] == r,
        forall|k: int|
            0 <= k < candidates@.len() ==> !better(
                d,
                fitnesses@[candidates@[k] as int],
                fitnesses@[r as int],
            ),
        exists|k0: int|
            0 <= k0 < candidates@.len() && candidates@[k0] == r && (forall|k: int|
                0 <= k < k0 ==> better(
                    d,
                    fitnesses@[r as int],
                    fitnesses@[candidates@[k] as int],
                )),
{
    let mut best = candidates[0];
    let ghost mut best_pos: int = 0;
    let mut k: usize = 1;
    while k < candidates.len()
        invariant
            1 <= k <= candidates@.len(),
            forall|i: int| 0 <= i < candidates@.len() ==> candidates@[i] < fitnesses@.len(),
            0 <= best_pos < k,
            candidates@[best_pos] == best,
            best < fitnesses@.len(),
            forall|i: int|
                0 <= i < k ==> !better(d, fitnesses@[candidates@[i] as int], fitnesses@[best as int]),
            forall|i: int|
                0 <= i < best_pos ==> better(
                    d,
                    fitnesses@[best as int],
                    fitnesses@[candidates@[i] as int],
                ),
        decreases candidates@.len() - k,
    {
        let contender = candidates[k];
        if is_better(d, fitnesses[contender], fitnesses[best]) {
            best = contender;
            proof {
                best_pos = k as int;
            }
        }
        k = k + 1;
    }
    best
}

/// Tournament selection: `tournament_size` candidates are drawn independently
/// and uniformly, with replacement, from the population, and the index of the
/// sampled candidate with the best fitness under `d` is returned.
pub fn tournament_selection(
    population: &Vec<Genome>,
    fitnesses: &Vec<u64>,
    tournament_size: usize,
    d: Direction,
    rs: &mut RandomSource,
) -> (winner: usize)
    requires
        population@.len() >= 1,
        fitnesses@.len() == population@.len(),
        tournament_size >= 1,
    ensures
        winner < population@.len(),
{
    let mut candidates: Vec<usize> = Vec::new();
    let mut k: usize = 0;
    while k < tournament_size
        invariant
            k <= tournament_size,
            population@.len() >= 1,
            fitnesses@.len() == population@.len(),
            candidates@.len() == k,
            forall|i: int| 0 <= i < candidates@.len() ==> candidates@[i] < fitnesses@.len(),
        decreases tournament_size - k,
    {
        candidates.push(rs.next_below(population.len()));
        k = k + 1;
    }
    best_of_candidates(fitnesses, &candidates, d)
}

} // verus!
