//! Genomes: ordered sequences of non-negative integer codons.

use crate::rng::RandomSource;
use vstd::prelude::*;

verus! {

/// A genome is an ordered sequence of codons (non-negative integers).
pub type Genome = Vec<usize>;

/// Largest length a randomly initialized genome may have.
pub const MAX_GENOME_LENGTH: usize = 100;

/// Largest codon value a randomly initialized or extended genome may hold.
pub const MAX_GENE_VALUE: usize = 255;

/// Builds a genome of random length between 1 and `MAX_GENOME_LENGTH`, every
/// codon drawn uniformly from `0..=MAX_GENE_VALUE`.
pub fn initialize_genome(rs: &mut RandomSource) -> (g: Genome)
    ensures
        1 <= g@.len() <= MAX_GENOME_LENGTH,
        forall|i: int| 0 <= i < g@.len() ==> g@[i] <= MAX_GENE_VALUE,
{
    let length = 1 + rs.next_below(MAX_GENOME_LENGTH);
    let mut g: Genome = Vec::new();
    while g.len() < length
        invariant
            g@.len() <= length,
            length <= MAX_GENOME_LENGTH,
            forall|i: int| 0 <= i < g@.len() ==> g@[i] <= MAX_GENE_VALUE,
        decreases length - g@.len(),
    {
        g.push(rs.next_below(MAX_GENE_VALUE + 1));
    }
    g
}

/// Appends `extension_length` codons, each drawn uniformly from
/// `0..=MAX_GENE_VALUE`; the existing prefix is kept unchanged.
pub fn extend_genome(genome: &mut Genome, extension_length: usize, rs: &mut RandomSource)
    requires
        old(genome)@.len() + extension_length <= usize::MAX,
    ensures
        final(genome)@.len() == old(genome)@.len() + extension_length,
        final(genome)@.take(old(genome)@.len() as int) == old(genome)@,
        forall|i: int|
            old(genome)@.len() <= i < final(genome)@.len() ==> final(genome)@[i]
                <= MAX_GENE_VALUE,
{
    let mut k: usize = 0;
    while k < extension_length
        invariant
            k <= extension_length,
            genome@.len() == old(genome)@.len() + k,
            genome@.take(old(genome)@.len() as int) == old(genome)@,
            forall|i: int| old(genome)@.len() <= i < genome@.len() ==> genome@[i] <= MAX_GENE_VALUE,
        decreases extension_length - k,
    {
        genome.push(rs.next_below(MAX_GENE_VALUE + 1));
        k = k + 1;
        proof {
            assert(genome@.take(old(genome)@.len() as int) =~= old(genome)@);
        }
    }
}

/// An exact copy of a genome: offspring own their codons, no genome is
/// shared between population slots.
pub fn clone_genome(genome: &Genome) -> (r: Genome)
    ensures
        r@ == genome@,
{
    let mut r: Genome = Vec::new();
    let mut i: usize = 0;
    while i < genome.len()
        invariant
            i <= genome@.len(),
            r@ == genome@.take(i as int),
        decreases genome@.len() - i,
    {
        r.push(genome[i]);
        i = i + 1;
        proof {
            assert(r@ =~= genome@.take(i as int));
        }
    }
    proof {
        assert(genome@.take(genome@.len() as int) =~= genome@);
    }
    r
}

/// Removes the last `truncation_length` codons of `genome`; a genome shorter
/// than that is emptied.
pub fn truncate_genome(genome: &mut Genome, truncation_length: usize)
    ensures
        old(genome)@.len() >= truncation_length ==> final(genome)@ == old(genome)@.take(
            old(genome)@.len() - truncation_length,
        ),
        old(genome)@.len() < truncation_length ==> final(genome)@ == Seq::<usize>::empty(),
{
    let mut i: usize = 0;
    while i < truncation_length
        invariant
            i <= truncation_length,
            old(genome)@.len() >= i ==> genome@ == old(genome)@.take(old(genome)@.len() - i),
            old(genome)@.len() < i ==> genome@ == Seq::<usize>::empty(),
        decreases truncation_length - i,
    {
        genome.pop();
        i = i + 1;
        proof {
            if old(genome)@.len() >= i {
                assert(genome@ =~= old(genome)@.take(old(genome)@.len() - i));
            } else {
                assert(genome@ =~= Seq::<usize>::empty());
            }
        }
    }
}

} // verus!
