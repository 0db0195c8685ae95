use grammatical_evolution::grammar::boolean_grammar;
use grammatical_evolution::grammar::calculate_arity;
use grammatical_evolution::grammar::genome_to_phenotype;
use grammatical_evolution::grammar::is_recursive;
use grammatical_evolution::grammar::map_genome_to_phenotype;
use grammatical_evolution::grammar::Production;
use grammatical_evolution::grammar::MAX_DERIVATION_STEPS;

fn toks(words: &[&str]) -> Vec<String> {
    words.iter().map(|w| w.to_string()).collect()
}

#[test]
fn lookup_finds_rules_and_terminals() {
    let grammar = boolean_grammar();
    let rule = grammar.lookup(&"E".to_string());
    assert!(rule.is_some());
    assert_eq!(rule.unwrap().productions.len(), 2);
    assert!(grammar.lookup(&"AND".to_string()).is_none());
    assert!(grammar.lookup(&"A".to_string()).is_none());
}

#[test]
fn arity_counts_nonterminal_symbols() {
    let grammar = boolean_grammar();
    let production = Production { symbols: toks(&["T", "AND", "F"]) };
    assert_eq!(calculate_arity(&production, &grammar), 2);
    let terminal_only = Production { symbols: toks(&["NOT", "A"]) };
    assert_eq!(calculate_arity(&terminal_only, &grammar), 0);
}

#[test]
fn recursion_is_found_directly_and_through_rules() {
    let grammar = boolean_grammar();
    // T AND F holds T itself.
    let direct = Production { symbols: toks(&["T", "AND", "F"]) };
    assert!(is_recursive(&"T".to_string(), &direct, &grammar, 0));
    // E OR T reaches E directly, and T reaches T through its own rule.
    let via_e = Production { symbols: toks(&["E", "OR", "T"]) };
    assert!(is_recursive(&"E".to_string(), &via_e, &grammar, 0));
    // Starting from a lone T, no chain of expansions brings E back.
    let lone_t = Production { symbols: toks(&["T"]) };
    assert!(!is_recursive(&"E".to_string(), &lone_t, &grammar, 8));
    // But T is reachable from a lone E through E -> E OR T.
    let lone_e = Production { symbols: toks(&["E"]) };
    assert!(is_recursive(&"T".to_string(), &lone_e, &grammar, 1));
    // With no depth left, only direct containment counts.
    assert!(!is_recursive(&"T".to_string(), &lone_e, &grammar, 0));
}

#[test]
fn linear_rewriting_stops_at_first_compound_form() {
    let grammar = boolean_grammar();
    assert_eq!(genome_to_phenotype(&vec![0], &grammar), toks(&["E"]));
    assert_eq!(genome_to_phenotype(&vec![0, 1], &grammar), toks(&["T"]));
    assert_eq!(genome_to_phenotype(&vec![0, 0], &grammar), toks(&["E", "OR", "T"]));
    assert_eq!(genome_to_phenotype(&vec![0, 1, 1, 1], &grammar), toks(&["A"]));
    assert_eq!(genome_to_phenotype(&vec![], &grammar), toks(&["S"]));
}

#[test]
fn all_zero_genome_hits_the_step_cap() {
    // Every codon 0 keeps choosing E -> E OR T, so the derivation can never
    // finish; it must stop at the cap with a partial, incomplete phenotype.
    let grammar = boolean_grammar();
    let genome: Vec<usize> = vec![0; 10];
    let phenotype = map_genome_to_phenotype(&genome, &grammar, MAX_DERIVATION_STEPS);
    assert!(!phenotype.complete);
    assert!(phenotype.tokens.len() <= MAX_DERIVATION_STEPS);
}

#[test]
fn all_max_genome_terminates() {
    let grammar = boolean_grammar();
    let genome: Vec<usize> = vec![usize::MAX; 5];
    let phenotype = map_genome_to_phenotype(&genome, &grammar, MAX_DERIVATION_STEPS);
    // usize::MAX is odd, so E -> T and T -> F; modulo four it selects C.
    assert!(phenotype.complete);
    assert_eq!(phenotype.to_display_string(), "C");
}

#[test]
fn single_codon_genome_wraps_cyclically() {
    // One codon is reused for every expansion choice.
    let grammar = boolean_grammar();
    let genome: Vec<usize> = vec![1];
    let phenotype = map_genome_to_phenotype(&genome, &grammar, MAX_DERIVATION_STEPS);
    // S -> E, E -> T (1 % 2), T -> F (1 % 2), F -> A (1 % 4).
    assert!(phenotype.complete);
    assert_eq!(phenotype.to_display_string(), "A");
}
