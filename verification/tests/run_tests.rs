use grammatical_evolution::boolean_eval::evaluate_expression;
use grammatical_evolution::boolean_eval::evaluate_fitness;
use grammatical_evolution::boolean_eval::TruthTableFitness;
use grammatical_evolution::evolutionary_ops::Direction;
use grammatical_evolution::grammar::boolean_grammar;
use grammatical_evolution::grammar::MAX_DERIVATION_STEPS;
use grammatical_evolution::population_mgmt::evolve_population;
use grammatical_evolution::population_mgmt::initialize_population;
use grammatical_evolution::population_mgmt::random_initialization;
use grammatical_evolution::population_mgmt::run;
use grammatical_evolution::population_mgmt::Config;
use grammatical_evolution::rng::RandomSource;

fn toks(words: &[&str]) -> Vec<String> {
    words.iter().map(|w| w.to_string()).collect()
}

/// The three-variable parity target: true when an odd number of inputs is
/// true.
fn xor_targets() -> Vec<bool> {
    let mut targets = Vec::new();
    for i in 0..8 {
        let a = i / 4 % 2 == 1;
        let b = i / 2 % 2 == 1;
        let c = i % 2 == 1;
        targets.push(a ^ b ^ c);
    }
    targets
}

fn small_config() -> Config {
    Config {
        population_size: 20,
        min_genome_length: 5,
        max_genome_length: 20,
        codon_range: 256,
        tournament_size: 3,
        crossover_permille: 900,
        mutation_permille: 100,
        elitism_count: 2,
        generations: 10,
        direction: Direction::Maximize,
        step_cap: MAX_DERIVATION_STEPS,
    }
}

#[test]
fn fitness_counts_truth_table_matches() {
    let targets = xor_targets();
    // The expression A equals A^B^C exactly when B == C: four of the eight
    // rows.
    assert_eq!(evaluate_fitness(&toks(&["A"]), &targets), 4);
    // A malformed expression evaluates to false on every row, so against an
    // all-false table it matches every row, and against XOR it matches the
    // four even-parity rows.
    let all_false: Vec<bool> = vec![false; 8];
    assert_eq!(evaluate_fitness(&toks(&["AND"]), &all_false), 8);
    assert_eq!(evaluate_fitness(&toks(&["AND"]), &targets), 4);
}

#[test]
fn expression_matches_its_own_truth_table() {
    // The table of A AND B OR C, row by row, as the evaluator computes it.
    let tokens = toks(&["A", "AND", "B", "OR", "C"]);
    let mut targets = Vec::new();
    for i in 0..8 {
        let a = i / 4 % 2 == 1;
        let b = i / 2 % 2 == 1;
        let c = i % 2 == 1;
        targets.push((a && b) || c);
    }
    assert_eq!(evaluate_fitness(&tokens, &targets), 8);
    assert_eq!(evaluate_expression(&tokens, true, false, true), true);
}

#[test]
fn initialization_respects_configuration() {
    let mut rs = RandomSource::from_seed(7);
    let population = initialize_population(12, &mut rs);
    assert_eq!(population.len(), 12);
    for genome in &population {
        assert!(1 <= genome.len() && genome.len() < 100);
        assert!(genome.iter().all(|&gene| gene < 256));
    }
    let fixed = random_initialization(6, 40, 128, &mut rs);
    assert_eq!(fixed.len(), 6);
    for genome in &fixed {
        assert_eq!(genome.len(), 40);
        assert!(genome.iter().all(|&gene| gene < 128));
    }
}

#[test]
fn evolve_keeps_size_and_carries_elites() {
    let mut rs = RandomSource::from_seed(17);
    let config = small_config();
    let population = random_initialization(config.population_size, 10, config.codon_range, &mut rs);
    let fitnesses: Vec<u64> = (0..config.population_size as u64).collect();
    let next = evolve_population(&population, &fitnesses, &config, &mut rs);
    assert_eq!(next.len(), config.population_size);
    // Maximizing over strictly increasing fitness: the two best are the
    // last two genomes, carried over in rank order.
    assert_eq!(next[0], population[config.population_size - 1]);
    assert_eq!(next[1], population[config.population_size - 2]);
    assert!(next.iter().all(|genome| !genome.is_empty()));
}

#[test]
fn evolve_trims_overshooting_pair_on_odd_remainder() {
    let mut rs = RandomSource::from_seed(23);
    let mut config = small_config();
    config.population_size = 7;
    config.elitism_count = 2;
    let population = random_initialization(7, 8, 256, &mut rs);
    let fitnesses: Vec<u64> = vec![3, 1, 4, 1, 5, 9, 2];
    let next = evolve_population(&population, &fitnesses, &config, &mut rs);
    assert_eq!(next.len(), 7);
}

#[test]
fn run_reports_one_summary_per_generation() {
    let mut rs = RandomSource::from_seed(42);
    let config = small_config();
    let grammar = boolean_grammar();
    let fitness = TruthTableFitness { targets: xor_targets() };
    let result = run(&config, &grammar, &fitness, &mut rs);
    assert_eq!(result.summaries.len(), config.generations);
    assert!(result.best_fitness <= 8);
    // The all-time best is a ratchet: no generation's best beats it, and
    // some generation achieved it.
    assert!(result.summaries.iter().all(|s| s.best_fitness <= result.best_fitness));
    assert!(result.summaries.iter().any(|s| s.best_fitness == result.best_fitness));
    // The reported generation and per-generation indices are consistent.
    assert!(result.best_generation < result.summaries.len());
    assert_eq!(result.summaries[result.best_generation].best_fitness, result.best_fitness);
    assert!(result.summaries.iter().all(|s| s.best_index < config.population_size));
    // The reported phenotype belongs to the reported genome.
    let grammar2 = boolean_grammar();
    let again = grammatical_evolution::grammar::map_genome_to_phenotype(
        &result.best_genome,
        &grammar2,
        config.step_cap,
    );
    assert_eq!(again.tokens, result.best_phenotype.tokens);
    assert_eq!(again.complete, result.best_phenotype.complete);
}

#[test]
fn seeded_runs_are_identical() {
    let config = small_config();
    let grammar = boolean_grammar();
    let fitness = TruthTableFitness { targets: xor_targets() };
    let mut rs1 = RandomSource::from_seed(1234);
    let first = run(&config, &grammar, &fitness, &mut rs1);
    let mut rs2 = RandomSource::from_seed(1234);
    let second = run(&config, &grammar, &fitness, &mut rs2);
    assert_eq!(first.best_genome, second.best_genome);
    assert_eq!(first.best_fitness, second.best_fitness);
    assert_eq!(first.best_phenotype.tokens, second.best_phenotype.tokens);
    assert_eq!(first.summaries.len(), second.summaries.len());
    for (a, b) in first.summaries.iter().zip(second.summaries.iter()) {
        assert_eq!(a.best_fitness, b.best_fitness);
    }
}

#[test]
fn different_seeds_usually_differ() {
    let config = small_config();
    let grammar = boolean_grammar();
    let fitness = TruthTableFitness { targets: xor_targets() };
    let mut rs1 = RandomSource::from_seed(1);
    let first = run(&config, &grammar, &fitness, &mut rs1);
    let mut rs2 = RandomSource::from_seed(2);
    let second = run(&config, &grammar, &fitness, &mut rs2);
    // Whole generation-by-generation histories coinciding for two seeds
    // would mean the seed is ignored.
    let same = first.best_genome == second.best_genome
        && first
            .summaries
            .iter()
            .zip(second.summaries.iter())
            .all(|(a, b)| a.best_fitness == b.best_fitness);
    assert!(!same);
}
