use grammatical_evolution::boolean_eval::evaluate_expression;
use grammatical_evolution::boolean_eval::evaluate_postfix;
use grammatical_evolution::boolean_eval::infix_to_postfix;
use grammatical_evolution::grammar::boolean_grammar;
use grammatical_evolution::grammar::map_genome_to_phenotype;
use grammatical_evolution::grammar::MAX_DERIVATION_STEPS;

fn toks(words: &[&str]) -> Vec<String> {
    words.iter().map(|w| w.to_string()).collect()
}

#[test]
fn test_infix_to_postfix() {
    let tokens = toks(&["A", "AND", "B", "OR", "C"]);
    let postfix = infix_to_postfix(&tokens);
    assert_eq!(postfix, toks(&["A", "B", "AND", "C", "OR"]));
}

#[test]
fn test_evaluate_postfix() {
    let postfix = toks(&["A", "B", "AND", "C", "OR"]);
    let result = evaluate_postfix(&postfix, true, false, true);
    assert_eq!(result, Some(true));
}

#[test]
fn test_evaluate_expression() {
    let expression = toks(&["A", "AND", "B", "OR", "C"]);
    let result = evaluate_expression(&expression, true, false, true);
    assert_eq!(result, true);
}

#[test]
fn test_map_genome_to_phenotype() {
    let genome: Vec<usize> = vec![0, 1, 2, 3, 4];
    let grammar = boolean_grammar();
    let phenotype = map_genome_to_phenotype(&genome, &grammar, MAX_DERIVATION_STEPS);
    assert!(phenotype.complete);
    assert_eq!(phenotype.to_display_string(), "NOT NOT A AND B");
    assert_eq!(phenotype.tokens, toks(&["NOT", "NOT", "A", "AND", "B"]));
}

#[test]
fn postfix_missing_operand_is_none() {
    assert_eq!(evaluate_postfix(&toks(&["A", "AND"]), true, true, true), None);
    assert_eq!(evaluate_postfix(&toks(&["AND"]), true, true, true), None);
    assert_eq!(evaluate_postfix(&toks(&["NOT"]), true, true, true), None);
}

#[test]
fn postfix_leftover_stack_is_none() {
    assert_eq!(evaluate_postfix(&toks(&["A", "B"]), true, false, true), None);
    assert_eq!(evaluate_postfix(&toks(&[]), true, false, true), None);
}

#[test]
fn malformed_expression_evaluates_to_false() {
    assert_eq!(evaluate_expression(&toks(&["AND"]), true, true, true), false);
    assert_eq!(evaluate_expression(&toks(&["A", "AND"]), true, true, true), false);
    assert_eq!(evaluate_expression(&toks(&[]), true, true, true), false);
    assert_eq!(evaluate_expression(&toks(&["A", "B"]), true, true, true), false);
}

#[test]
fn parentheses_group_subexpressions() {
    // A AND ( B OR C ) at A=true, B=false, C=true is true.
    let tokens = toks(&["A", "AND", "(", "B", "OR", "C", ")"]);
    assert_eq!(evaluate_expression(&tokens, true, false, true), true);
    // Without the parentheses the left-associative same-precedence rules
    // give ( A AND B ) OR C.
    let postfix = infix_to_postfix(&toks(&["A", "AND", "(", "B", "OR", "C", ")"]));
    assert_eq!(postfix, toks(&["A", "B", "C", "OR", "AND"]));
}

#[test]
fn not_binds_through_precedence_popping() {
    // NOT A AND B: AND pops the pending NOT, so postfix is A NOT B AND.
    let postfix = infix_to_postfix(&toks(&["NOT", "A", "AND", "B"]));
    assert_eq!(postfix, toks(&["A", "NOT", "B", "AND"]));
    assert_eq!(evaluate_expression(&toks(&["NOT", "A", "AND", "B"]), false, true, false), true);
}
