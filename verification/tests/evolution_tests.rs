use grammatical_evolution::evolutionary_ops::best_of_candidates;
use grammatical_evolution::evolutionary_ops::crossover_at;
use grammatical_evolution::evolutionary_ops::mutate;
use grammatical_evolution::evolutionary_ops::one_point_crossover;
use grammatical_evolution::evolutionary_ops::tournament_selection;
use grammatical_evolution::evolutionary_ops::Direction;
use grammatical_evolution::genome::clone_genome;
use grammatical_evolution::genome::extend_genome;
use grammatical_evolution::genome::initialize_genome;
use grammatical_evolution::genome::truncate_genome;
use grammatical_evolution::population_mgmt::rank_by_fitness;
use grammatical_evolution::rng::RandomSource;

#[test]
fn crossover_at_swaps_suffixes() {
    let p1: Vec<usize> = vec![1, 2, 3, 4];
    let p2: Vec<usize> = vec![9, 8, 7];
    let (c1, c2) = crossover_at(&p1, &p2, 2);
    assert_eq!(c1, vec![1, 2, 7]);
    assert_eq!(c2, vec![9, 8, 3, 4]);
}

#[test]
fn crossover_preserves_total_gene_count() {
    let mut rs = RandomSource::from_seed(11);
    let parents = [
        (vec![1usize, 2, 3], vec![4usize, 5, 6, 7, 8]),
        (vec![0usize], vec![1usize]),
        (vec![7usize; 30], vec![1usize, 2]),
    ];
    for (p1, p2) in parents.iter() {
        for _ in 0..50 {
            let (c1, c2) = one_point_crossover(p1, p2, &mut rs);
            assert_eq!(c1.len() + c2.len(), p1.len() + p2.len());
        }
    }
}

#[test]
fn mutation_always_changes_exactly_one_locus() {
    let mut rs = RandomSource::from_seed(31);
    for _ in 0..200 {
        let mut genome: Vec<usize> = vec![7, 7, 7, 7];
        mutate(&mut genome, 256, &mut rs);
        let changed: Vec<usize> = (0..4).filter(|&i| genome[i] != 7).collect();
        assert_eq!(changed.len(), 1);
        assert!(genome[changed[0]] < 256);
    }
    // With only two codon values, the fresh value is forced.
    let mut genome: Vec<usize> = vec![0];
    mutate(&mut genome, 2, &mut rs);
    assert_eq!(genome, vec![1]);
    mutate(&mut genome, 2, &mut rs);
    assert_eq!(genome, vec![0]);
}

#[test]
fn mutation_changes_one_locus_and_keeps_length() {
    let mut rs = RandomSource::from_seed(5);
    let original: Vec<usize> = vec![300, 301, 302, 303, 304, 305];
    for _ in 0..100 {
        let mut genome = clone_genome(&original);
        mutate(&mut genome, 256, &mut rs);
        assert_eq!(genome.len(), original.len());
        let changed: Vec<usize> =
            (0..genome.len()).filter(|&i| genome[i] != original[i]).collect();
        // The fresh value is drawn below 256 while every original codon is
        // at least 300, so exactly one locus differs and lies in range.
        assert_eq!(changed.len(), 1);
        assert!(genome[changed[0]] < 256);
    }
}

#[test]
fn best_of_candidates_returns_sampled_best() {
    let fitnesses: Vec<u64> = vec![1, 9, 9, 3];
    let candidates: Vec<usize> = vec![3, 1, 2];
    // Maximizing: index 1 and index 2 tie at 9; the earlier candidate wins.
    assert_eq!(best_of_candidates(&fitnesses, &candidates, Direction::Maximize), 1);
    // Minimizing: index 3 holds the smallest sampled fitness.
    assert_eq!(best_of_candidates(&fitnesses, &candidates, Direction::Minimize), 3);
    // A candidate index can repeat; sampling is with replacement.
    let repeated: Vec<usize> = vec![0, 0, 0];
    assert_eq!(best_of_candidates(&fitnesses, &repeated, Direction::Maximize), 0);
}

#[test]
fn tournament_never_returns_out_of_range() {
    let mut rs = RandomSource::from_seed(21);
    let population: Vec<Vec<usize>> = vec![vec![1, 2], vec![3], vec![4, 5, 6]];
    let fitnesses: Vec<u64> = vec![2, 7, 4];
    for _ in 0..100 {
        let winner = tournament_selection(&population, &fitnesses, 2, Direction::Maximize, &mut rs);
        assert!(winner < population.len());
    }
}

#[test]
fn tournament_of_whole_population_returns_global_best() {
    // With a tournament as large as the population and a strictly better
    // unique optimum, the optimum is sampled almost surely over many draws;
    // the winner is never an individual worse than every sampled one.
    let mut rs = RandomSource::from_seed(3);
    let population: Vec<Vec<usize>> = vec![vec![0], vec![1], vec![2], vec![3]];
    let fitnesses: Vec<u64> = vec![5, 0, 9, 1];
    let mut best_seen = false;
    for _ in 0..200 {
        let winner =
            tournament_selection(&population, &fitnesses, 16, Direction::Maximize, &mut rs);
        if winner == 2 {
            best_seen = true;
        }
    }
    assert!(best_seen);
}

#[test]
fn ranking_sorts_best_first_and_keeps_ties_stable() {
    let fitnesses: Vec<u64> = vec![5, 2, 8, 2];
    assert_eq!(rank_by_fitness(&fitnesses, Direction::Maximize), vec![2, 0, 1, 3]);
    assert_eq!(rank_by_fitness(&fitnesses, Direction::Minimize), vec![1, 3, 0, 2]);
    let empty: Vec<u64> = vec![];
    assert_eq!(rank_by_fitness(&empty, Direction::Maximize), Vec::<usize>::new());
}

#[test]
fn truncate_genome_removes_tail() {
    let mut genome: Vec<usize> = vec![1, 2, 3, 4, 5];
    truncate_genome(&mut genome, 2);
    assert_eq!(genome, vec![1, 2, 3]);
    truncate_genome(&mut genome, 10);
    assert_eq!(genome, Vec::<usize>::new());
    truncate_genome(&mut genome, 1);
    assert_eq!(genome, Vec::<usize>::new());
}

#[test]
fn extend_genome_appends_random_tail() {
    let mut rs = RandomSource::from_seed(8);
    let mut genome: Vec<usize> = vec![1000, 2000];
    extend_genome(&mut genome, 5, &mut rs);
    assert_eq!(genome.len(), 7);
    assert_eq!(&genome[..2], &[1000, 2000]);
    for &gene in &genome[2..] {
        assert!(gene <= 255);
    }
}

#[test]
fn initialize_genome_respects_bounds() {
    let mut rs = RandomSource::from_seed(13);
    for _ in 0..50 {
        let genome = initialize_genome(&mut rs);
        assert!(1 <= genome.len() && genome.len() <= 100);
        assert!(genome.iter().all(|&gene| gene <= 255));
    }
}

#[test]
fn random_source_respects_bounds() {
    let mut rs = RandomSource::from_seed(99);
    for _ in 0..200 {
        assert_eq!(rs.next_below(1), 0);
    }
    let mut seen_large = false;
    for _ in 0..200 {
        let draw = rs.next_below(10);
        assert!(draw < 10);
        if draw >= 5 {
            seen_large = true;
        }
    }
    assert!(seen_large);
}
