//! The boolean expression family: whitespace-token expressions over the
//! variables `A`, `B`, `C` with `AND`, `OR`, `NOT` and parentheses are turned
//! into postfix form by the shunting-yard rules and evaluated over a value
//! stack. A malformed expression never fails loudly: postfix evaluation
//! reports it and the expression-level evaluator returns `false` for it.

use crate::grammar::token_views;
use crate::grammar::Phenotype;
use vstd::prelude::*;
use vstd::string::StringExecFns;

verus! {

/// The roles a token can play in a boolean expression.
#[derive(Clone, Copy)]
pub enum TokenKind {
    And,
    Or,
    Not,
    Open,
    Close,
    VarA,
    VarB,
    VarC,
    Other,
}

/// The role of a token, decided by its characters.
pub open spec fn kind_of(t: Seq<char>) -> TokenKind {
    if t == "AND"@ {
        TokenKind::And
    } else if t == "OR"@ {
        TokenKind::Or
    } else if t == "NOT"@ {
        TokenKind::Not
    } else if t == "("@ {
        TokenKind::Open
    } else if t == ")"@ {
        TokenKind::Close
    } else if t == "A"@ {
        TokenKind::VarA
    } else if t == "B"@ {
        TokenKind::VarB
    } else if t == "C"@ {
        TokenKind::VarC
    } else {
        TokenKind::Other
    }
}

/// Decides the role of a token.
fn classify(t: &String) -> (k: TokenKind)
    ensures
        k == kind_of(t@),
{
    if *t == String::from_str("AND") {
        TokenKind::And
    } else if *t == String::from_str("OR") {
        TokenKind::Or
    } else if *t == String::from_str("NOT") {
        TokenKind::Not
    } else if *t == String::from_str("(") {
        TokenKind::Open
    } else if *t == String::from_str(")") {
        TokenKind::Close
    } else if *t == String::from_str("A") {
        TokenKind::VarA
    } else if *t == String::from_str("B") {
        TokenKind::VarB
    } else if *t == String::from_str("C") {
        TokenKind::VarC
    } else {
        TokenKind::Other
    }
}

/// An operator that competes for precedence on the operator stack.
pub open spec fn is_op(t: Seq<char>) -> bool {
    kind_of(t) is And || kind_of(t) is Or || kind_of(t) is Not
}

/// Pops every operator from the top of `ops` onto `out`, stopping at the
/// first non-operator (an open parenthesis) or the empty stack.
pub open spec fn pop_ops(out: Seq<Seq<char>>, ops: Seq<Seq<char>>) -> (Seq<Seq<char>>, Seq<
    Seq<char>,
>)
    decreases ops.len(),
{
    if ops.len() > 0 && is_op(ops.last()) {
        pop_ops(out.push(ops.last()), ops.drop_last())
    } else {
        (out, ops)
    }
}

/// Pops onto `out` until an open parenthesis is found, which is discarded;
/// an exhausted stack stops the popping.
pub open spec fn pop_until_open(out: Seq<Seq<char>>, ops: Seq<Seq<char>>) -> (Seq<Seq<char>>, Seq<
    Seq<char>,
>)
    decreases ops.len(),
{
    if ops.len() == 0 {
        (out, ops)
    } else if kind_of(ops.last()) is Open {
        (out, ops.drop_last())
    } else {
        pop_until_open(out.push(ops.last()), ops.drop_last())
    }
}

/// One shunting-yard step: variables go to the output; `AND`/`OR` first pop
/// every operator of equal precedence; `NOT` and `(` are pushed; `)` pops to
/// the matching `(`; any other token is ignored.
pub open spec fn shunt_step(out: Seq<Seq<char>>, ops: Seq<Seq<char>>, t: Seq<char>) -> (Seq<
    Seq<char>,
>, Seq<Seq<char>>) {
    match kind_of(t) {
        TokenKind::VarA => (out.push(t), ops),
        TokenKind::VarB => (out.push(t), ops),
        TokenKind::VarC => (out.push(t), ops),
        TokenKind::And => {
            let (o2, s2) = pop_ops(out, ops);
            (o2, s2.push(t))
        },
        TokenKind::Or => {
            let (o2, s2) = pop_ops(out, ops);
            (o2, s2.push(t))
        },
        TokenKind::Not => (out, ops.push(t)),
        TokenKind::Open => (out, ops.push(t)),
        TokenKind::Close => pop_until_open(out, ops),
        TokenKind::Other => (out, ops),
    }
}

/// Runs the shunting-yard steps over the tokens from position `i` on.
pub open spec fn shunt(tokens: Seq<Seq<char>>, i: nat, out: Seq<Seq<char>>, ops: Seq<Seq<char>>) -> (
    Seq<Seq<char>>,
    Seq<Seq<char>>,
)
    decreases tokens.len() - i,
    when i <= tokens.len()
{
    if i >= tokens.len() {
        (out, ops)
    } else {
        let (o2, s2) = shunt_step(out, ops, tokens[i as int]);
        shunt(tokens, i + 1, o2, s2)
    }
}

/// The postfix form of an infix token sequence: the shunting-yard output
/// followed by the remaining operator stack, drained top-first.
pub open spec fn spec_infix_to_postfix(tokens: Seq<Seq<char>>) -> Seq<Seq<char>> {
    let (out, ops) = shunt(tokens, 0, Seq::empty(), Seq::empty());
    out + ops.reverse()
}

/// Converts an infix token sequence to postfix by the shunting-yard rules:
/// variables pass straight through, `AND` and `OR` first pop any operator on
/// top of the stack (all three operators share one precedence level,
/// left-associative), `NOT` and `(` are pushed, and `)` pops to the matching
/// `(`, discarding both parentheses.
pub fn infix_to_postfix(tokens: &Vec<String>) -> (postfix: Vec<String>)
    ensures
        token_views(postfix@) == spec_infix_to_postfix(token_views(tokens@)),
{
    let ghost tv = token_views(tokens@);
    let ghost target = shunt(tv, 0, Seq::empty(), Seq::empty());
    let mut out: Vec<String> = Vec::new();
    let mut ops: Vec<String> = Vec::new();
    proof {
        assert(token_views(out@) =~= Seq::<Seq<char>>::empty());
        assert(token_views(ops@) =~= Seq::<Seq<char>>::empty());
    }
    let mut i: usize = 0;
    while i < tokens.len()
        invariant
            i <= tokens@.len(),
            tv == token_views(tokens@),
            shunt(tv, i as nat, token_views(out@), token_views(ops@)) == target,
        decreases tokens@.len() - i,
    {
        let ghost pre_out = token_views(out@);
        let ghost pre_ops = token_views(ops@);
        let t = &tokens[i];
        proof {
            assert(tv[i as int] == t@);
        }
        match classify(t) {
            TokenKind::VarA => {
                out.push(t.clone());
                proof {
                    assert(token_views(out@) =~= pre_out.push(t@));
                }
            },
            TokenKind::VarB => {
                out.push(t.clone());
                proof {
                    assert(token_views(out@) =~= pre_out.push(t@));
                }
            },
            TokenKind::VarC => {
                out.push(t.clone());
                proof {
                    assert(token_views(out@) =~= pre_out.push(t@));
                }
            },
            TokenKind::And => {
                drain_operators(&mut out, &mut ops);
                ops.push(t.clone());
                proof {
                    assert(token_views(ops@) =~= pop_ops(pre_out, pre_ops).1.push(t@));
                }
            },
            TokenKind::Or => {
                drain_operators(&mut out, &mut ops);
                ops.push(t.clone());
                proof {
                    assert(token_views(ops@) =~= pop_ops(pre_out, pre_ops).1.push(t@));
                }
            },
            TokenKind::Not => {
                ops.push(t.clone());
                proof {
                    assert(token_views(ops@) =~= pre_ops.push(t@));
                }
            },
            TokenKind::Open => {
                ops.push(t.clone());
                proof {
                    assert(token_views(ops@) =~= pre_ops.push(t@));
                }
            },
            TokenKind::Close => {
                drain_to_open(&mut out, &mut ops);
            },
            TokenKind::Other => {},
        }
        i = i + 1;
    }
    proof {
        assert((token_views(out@), token_views(ops@)) == target);
    }
    while ops.len() > 0
        invariant
            token_views(out@) + token_views(ops@).reverse() =~= target.0 + target.1.reverse(),
        decreases ops@.len(),
    {
        let ghost pre_out = token_views(out@);
        let ghost pre_ops = token_views(ops@);
        let op = ops.pop().unwrap();
        out.push(op);
        proof {
            assert(token_views(out@) =~= pre_out.push(pre_ops.last()));
            assert(token_views(ops@) =~= pre_ops.drop_last());
            assert(pre_ops.reverse() =~= seq![pre_ops.last()] + pre_ops.drop_last().reverse());
            assert(token_views(out@) + token_views(ops@).reverse() =~= pre_out
                + pre_ops.reverse());
        }
    }
    proof {
        assert(token_views(ops@).reverse() =~= Seq::<Seq<char>>::empty());
        assert(token_views(out@) =~= token_views(out@) + token_views(ops@).reverse());
    }
    out
}

/// Pops operators from the top of `ops` onto `out` until a non-operator or
/// the empty stack is reached.
fn drain_operators(out: &mut Vec<String>, ops: &mut Vec<String>)
    ensures
        (token_views(final(out)@), token_views(final(ops)@)) == pop_ops(
            token_views(old(out)@),
            token_views(old(ops)@),
        ),
{
    let ghost o0 = token_views(old(out)@);
    let ghost s0 = token_views(old(ops)@);
    let mut scanning = true;
    while scanning
        invariant
            scanning ==> pop_ops(token_views(out@), token_views(ops@)) == pop_ops(o0, s0),
            !scanning ==> (token_views(out@), token_views(ops@)) == pop_ops(o0, s0),
        decreases ops@.len(), (if scanning {
            1int
        } else {
            0int
        }),
    {
        let ghost pre_out = token_views(out@);
        let ghost pre_ops = token_views(ops@);
        if ops.len() == 0 {
            scanning = false;
        } else {
            match classify(&ops[ops.len() - 1]) {
                TokenKind::And | TokenKind::Or | TokenKind::Not => {
                    let op = ops.pop().unwrap();
                    out.push(op);
                    proof {
                        assert(token_views(out@) =~= pre_out.push(pre_ops.last()));
                        assert(token_views(ops@) =~= pre_ops.drop_last());
                    }
                },
                _ => {
                    scanning = false;
                },
            }
        }
    }
}

/// Pops tokens from `ops` onto `out` until an open parenthesis is found and
/// discarded; an exhausted stack stops the popping.
fn drain_to_open(out: &mut Vec<String>, ops: &mut Vec<String>)
    ensures
        (token_views(final(out)@), token_views(final(ops)@)) == pop_until_open(
            token_views(old(out)@),
            token_views(old(ops)@),
        ),
{
    let ghost o0 = token_views(old(out)@);
    let ghost s0 = token_views(old(ops)@);
    let mut scanning = true;
    while scanning
        invariant
            scanning ==> pop_until_open(token_views(out@), token_views(ops@)) == pop_until_open(
                o0,
                s0,
            ),
            !scanning ==> (token_views(out@), token_views(ops@)) == pop_until_open(o0, s0),
        decreases ops@.len(), (if scanning {
            1int
        } else {
            0int
        }),
    {
        let ghost pre_out = token_views(out@);
        let ghost pre_ops = token_views(ops@);
        if ops.len() == 0 {
            scanning = false;
        } else {
            match classify(&ops[ops.len() - 1]) {
                TokenKind::Open => {
                    ops.pop();
                    scanning = false;
                    proof {
                        assert(token_views(ops@) =~= pre_ops.drop_last());
                    }
                },
                _ => {
                    let op = ops.pop().unwrap();
                    out.push(op);
                    proof {
                        assert(token_views(out@) =~= pre_out.push(pre_ops.last()));
                        assert(token_views(ops@) =~= pre_ops.drop_last());
                    }
                },
            }
        }
    }
}

/// Runs the postfix token sequence from position `i` over a boolean value
/// stack. `AND` and `OR` need two stack entries, `NOT` needs one; an arity
/// violation yields `None`. Variables push their assigned value; any other
/// token is ignored.
pub open spec fn run_postfix(
    tokens: Seq<Seq<char>>,
    i: nat,
    stack: Seq<bool>,
    a: bool,
    b: bool,
    c: bool,
) -> Option<Seq<bool>>
    decreases tokens.len() - i,
    when i <= tokens.len()
{
    if i >= tokens.len() {
        Some(stack)
    } else {
        let t = tokens[i as int];
        match kind_of(t) {
            TokenKind::And => if stack.len() >= 2 {
                run_postfix(
                    tokens,
                    i + 1,
                    stack.drop_last().drop_last().push(stack[stack.len() - 2] && stack.last()),
                    a,
                    b,
                    c,
                )
            } else {
                None
            },
            TokenKind::Or => if stack.len() >= 2 {
                run_postfix(
                    tokens,
                    i + 1,
                    stack.drop_last().drop_last().push(stack[stack.len() - 2] || stack.last()),
                    a,
                    b,
                    c,
                )
            } else {
                None
            },
            TokenKind::Not => if stack.len() >= 1 {
                run_postfix(tokens, i + 1, stack.drop_last().push(!stack.last()), a, b, c)
            } else {
                None
            },
            TokenKind::VarA => run_postfix(tokens, i + 1, stack.push(a), a, b, c),
            TokenKind::VarB => run_postfix(tokens, i + 1, stack.push(b), a, b, c),
            TokenKind::VarC => run_postfix(tokens, i + 1, stack.push(c), a, b, c),
            _ => run_postfix(tokens, i + 1, stack, a, b, c),
        }
    }
}

/// The value of a postfix token sequence under the assignment `a`, `b`, `c`:
/// `Some` only when every operator found its operands and exactly one value
/// remains on the stack.
pub open spec fn spec_evaluate_postfix(tokens: Seq<Seq<char>>, a: bool, b: bool, c: bool) -> Option<
    bool,
> {
    match run_postfix(tokens, 0, Seq::empty(), a, b, c) {
        Some(stack) => if stack.len() == 1 {
            Some(stack[0])
        } else {
            None
        },
        None => None,
    }
}

/// Evaluates a postfix token sequence over a value stack under the
/// assignment `a`, `b`, `c`. A malformed sequence (an operator short of
/// operands, or a final stack that does not hold exactly one value) yields
/// `None`; it never panics.
pub fn evaluate_postfix(postfix: &Vec<String>, a: bool, b: bool, c: bool) -> (r: Option<bool>)
    ensures
        r == spec_evaluate_postfix(token_views(postfix@), a, b, c),
{
    let ghost tv = token_views(postfix@);
    let ghost target = run_postfix(tv, 0, Seq::empty(), a, b, c);
    let mut stack: Vec<bool> = Vec::new();
    proof {
        assert(stack@ =~= Seq::<bool>::empty());
    }
    let mut i: usize = 0;
    while i < postfix.len()
        invariant
            i <= postfix@.len(),
            tv == token_views(postfix@),
            target == run_postfix(tv, 0, Seq::<bool>::empty(), a, b, c),
            run_postfix(tv, i as nat, stack@, a, b, c) == target,
        decreases postfix@.len() - i,
    {
        let ghost pre = stack@;
        proof {
            assert(tv[i as int] == postfix@[i as int]@);
        }
        match classify(&postfix[i]) {
            TokenKind::And => {
                if stack.len() < 2 {
                    proof {
                        assert(run_postfix(tv, i as nat, stack@, a, b, c) is None);
                    }
                    return None;
                }
                let right = stack.pop().unwrap();
                let left = stack.pop().unwrap();
                stack.push(left && right);
                proof {
                    assert(stack@ =~= pre.drop_last().drop_last().push(
                        pre[pre.len() - 2] && pre.last(),
                    ));
                }
            },
            TokenKind::Or => {
                if stack.len() < 2 {
                    proof {
                        assert(run_postfix(tv, i as nat, stack@, a, b, c) is None);
                    }
                    return None;
                }
                let right = stack.pop().unwrap();
                let left = stack.pop().unwrap();
                stack.push(left || right);
                proof {
                    assert(stack@ =~= pre.drop_last().drop_last().push(
                        pre[pre.len() - 2] || pre.last(),
                    ));
                }
            },
            TokenKind::Not => {
                if stack.len() == 0 {
                    proof {
                        assert(run_postfix(tv, i as nat, stack@, a, b, c) is None);
                    }
                    return None;
                }
                let operand = stack.pop().unwrap();
                stack.push(!operand);
                proof {
                    assert(stack@ =~= pre.drop_last().push(!pre.last()));
                }
            },
            TokenKind::VarA => {
                stack.push(a);
            },
            TokenKind::VarB => {
                stack.push(b);
            },
            TokenKind::VarC => {
                stack.push(c);
            },
            _ => {},
        }
        i = i + 1;
    }
    if stack.len() == 1 {
        let v = stack.pop().unwrap();
        Some(v)
    } else {
        None
    }
}

/// The value of an infix boolean expression under the assignment `a`, `b`,
/// `c`: its postfix form evaluated over the value stack, with `false` for
/// every malformed expression.
pub open spec fn spec_evaluate_expression(tokens: Seq<Seq<char>>, a: bool, b: bool, c: bool) -> bool {
    match spec_evaluate_postfix(spec_infix_to_postfix(tokens), a, b, c) {
        Some(v) => v,
        None => false,
    }
}

/// Evaluates an infix boolean expression, given as whitespace-split tokens,
/// under the assignment `a`, `b`, `c`. A malformed expression evaluates to
/// `false` rather than failing, so a whole population can be scored
/// uniformly.
pub fn evaluate_expression(tokens: &Vec<String>, a: bool, b: bool, c: bool) -> (r: bool)
    ensures
        r == spec_evaluate_expression(token_views(tokens@), a, b, c),
{
    let postfix = infix_to_postfix(tokens);
    match evaluate_postfix(&postfix, a, b, c) {
        Some(result) => result,
        None => false,
    }
}

/// The assignment of the combination numbered `i`, bit by bit: `A` is the
/// third bit, `B` the second, `C` the first, so combination 0 is all-false
/// and combination 7 all-true.
pub open spec fn combo_a(i: int) -> bool {
    i / 4 % 2 == 1
}

/// The second bit of combination `i`.
pub open spec fn combo_b(i: int) -> bool {
    i / 2 % 2 == 1
}

/// The first bit of combination `i`.
pub open spec fn combo_c(i: int) -> bool {
    i % 2 == 1
}

/// How many of the first `n` input combinations the expression decides the
/// same way as the target truth table.
pub open spec fn spec_match_count(tokens: Seq<Seq<char>>, targets: Seq<bool>, n: nat) -> nat
    decreases n,
{
    if n == 0 {
        0
    } else {
        spec_match_count(tokens, targets, (n - 1) as nat) + if spec_evaluate_expression(
            tokens,
            combo_a(n - 1),
            combo_b(n - 1),
            combo_c(n - 1),
        ) == targets[n - 1] {
            1nat
        } else {
            0nat
        }
    }
}

/// Scores a boolean expression against a target truth table over all eight
/// input combinations of `A`, `B`, `C`: the fitness is the number of
/// combinations the expression decides correctly, so eight is a perfect
/// score and higher is better.
pub fn evaluate_fitness(tokens: &Vec<String>, targets: &Vec<bool>) -> (r: u64)
    requires
        targets@.len() == 8,
    ensures
        r as nat == spec_match_count(token_views(tokens@), targets@, 8),
        r <= 8,
{
    let mut correct: u64 = 0;
    let mut i: usize = 0;
    while i < 8
        invariant
            i <= 8,
            correct <= i,
            targets@.len() == 8,
            correct as nat == spec_match_count(token_views(tokens@), targets@, i as nat),
        decreases 8 - i,
    {
        let a = i / 4 % 2 == 1;
        let b = i / 2 % 2 == 1;
        let c = i % 2 == 1;
        let result = evaluate_expression(tokens, a, b, c);
        if result == targets[i] {
            correct = correct + 1;
        }
        i = i + 1;
    }
    correct
}

/// Scores a phenotype for the boolean problem: a complete phenotype is
/// scored by its truth-table match count, while an incomplete one (the
/// derivation step cap was hit) receives the worst score, zero, so it never
/// wins selection yet never aborts a run.
pub fn phenotype_fitness(p: &Phenotype, targets: &Vec<bool>) -> (r: u64)
    requires
        targets@.len() == 8,
    ensures
        p.complete ==> r as nat == spec_match_count(p.toks(), targets@, 8),
        !p.complete ==> r == 0,
        r <= 8,
{
    if p.complete {
        evaluate_fitness(&p.tokens, targets)
    } else {
        0
    }
}

/// The boolean problem's fitness source: a phenotype is scored by how many
/// rows of the target truth table its expression reproduces; an incomplete
/// phenotype scores zero. Higher is better, so runs with it maximize.
pub struct TruthTableFitness {
    pub targets: Vec<bool>,
}

impl crate::population_mgmt::FitnessFunction for TruthTableFitness {
    open spec fn spec_score(&self, tokens: Seq<Seq<char>>, complete: bool) -> u64 {
        if self.targets@.len() == 8 && complete {
            spec_match_count(tokens, self.targets@, 8) as u64
        } else {
            0
        }
    }

    fn score(&self, phenotype: &Phenotype) -> (r: u64) {
        if self.targets.len() == 8 {
            phenotype_fitness(phenotype, &self.targets)
        } else {
            0
        }
    }
}

} // verus!
