//! The grammar model and the derivation mapper: a grammar is an immutable
//! rule table mapping non-terminal symbols to ordered, non-empty lists of
//! productions, and the mapper turns a genome into a phenotype by stack-based
//! expansion with cyclic codon reuse.

use vstd::prelude::*;
use vstd::string::StringExecFns;

verus! {

/// One production: an ordered sequence of symbols. A symbol is a
/// non-terminal when it names a rule of the grammar, and a terminal
/// otherwise.
pub struct Production {
    pub symbols: Vec<String>,
}

/// One grammar rule: a non-terminal symbol with its ordered, non-empty list
/// of productions.
pub struct Rule {
    pub name: String,
    pub productions: Vec<Production>,
}

/// An immutable rule table with a designated start symbol.
pub struct Grammar {
    pub start: String,
    pub rules: Vec<Rule>,
}

/// The views of a sequence of tokens, as sequences of characters.
pub open spec fn token_views(v: Seq<String>) -> Seq<Seq<char>> {
    v.map_values(|s: String| s@)
}

impl Production {
    /// The symbols of this production, as character sequences.
    pub open spec fn syms(&self) -> Seq<Seq<char>> {
        token_views(self.symbols@)
    }
}

impl Rule {
    /// The productions of this rule, each as its symbol sequence.
    pub open spec fn prods(&self) -> Seq<Seq<Seq<char>>> {
        self.productions@.map_values(|p: Production| p.syms())
    }
}

impl Grammar {
    /// `sym` names a rule of this grammar.
    pub open spec fn is_nonterminal(&self, sym: Seq<char>) -> bool {
        exists|i: int| 0 <= i < self.rules@.len() && self.rules@[i].name@ == sym
    }

    /// The index of the rule named `sym`; meaningful only when
    /// `is_nonterminal(sym)` holds and rule names are distinct.
    pub open spec fn rule_idx(&self, sym: Seq<char>) -> int {
        choose|i: int| 0 <= i < self.rules@.len() && self.rules@[i].name@ == sym
    }

    /// The productions of the rule named `sym`.
    pub open spec fn productions_of(&self, sym: Seq<char>) -> Seq<Seq<Seq<char>>> {
        self.rules@[self.rule_idx(sym)].prods()
    }

    /// Well-formedness: rule names are distinct, every rule has at least one
    /// production, and the start symbol resolves in the table.
    pub open spec fn wf(&self) -> bool {
        &&& forall|i: int, j: int|
            0 <= i < j < self.rules@.len() ==> self.rules@[i].name@ != self.rules@[j].name@
        &&& forall|i: int| 0 <= i < self.rules@.len() ==> self.rules@[i].productions@.len() >= 1
        &&& self.is_nonterminal(self.start@)
    }

    /// Looks a symbol up in the rule table. `None` means the symbol is a
    /// terminal; this is not an error.
    pub fn lookup<'a>(&'a self, sym: &String) -> (r: Option<&'a Rule>)
        requires
            self.wf(),
        ensures
            r is Some <==> self.is_nonterminal(sym@),
            r matches Some(rule) ==> rule.name@ == sym@ && rule.prods() == self.productions_of(
                sym@,
            ) && rule.productions@.len() >= 1,
    {
        let mut i: usize = 0;
        while i < self.rules.len()
            invariant
                i <= self.rules@.len(),
                self.wf(),
                forall|k: int| 0 <= k < i ==> self.rules@[k].name@ != sym@,
            decreases self.rules@.len() - i,
        {
            if self.rules[i].name == *sym {
                proof {
                    lemma_rule_idx(self, i as int);
                }
                return Some(&self.rules[i]);
            }
            i = i + 1;
        }
        None
    }
}

/// Under distinct rule names, the rule index chosen for the name of rule `i`
/// is `i` itself.
proof fn lemma_rule_idx(g: &Grammar, i: int)
    requires
        g.wf(),
        0 <= i < g.rules@.len(),
    ensures
        g.is_nonterminal(g.rules@[i].name@),
        g.rule_idx(g.rules@[i].name@) == i,
        g.productions_of(g.rules@[i].name@) == g.rules@[i].prods(),
{
    assert(g.is_nonterminal(g.rules@[i].name@));
    let k = g.rule_idx(g.rules@[i].name@);
    assert(0 <= k < g.rules@.len() && g.rules@[k].name@ == g.rules@[i].name@);
    if k != i {
        if k < i {
            assert(g.rules@[k].name@ != g.rules@[i].name@);
        } else {
            assert(g.rules@[i].name@ != g.rules@[k].name@);
        }
    }
}

/// `v` holds a token whose characters equal those of `t`.
fn contains_token(v: &Vec<String>, t: &String) -> (r: bool)
    ensures
        r == token_views(v@).contains(t@),
{
    let mut i: usize = 0;
    while i < v.len()
        invariant
            i <= v@.len(),
            forall|k: int| 0 <= k < i ==> token_views(v@)[k] != t@,
        decreases v@.len() - i,
    {
        if v[i] == *t {
            proof {
                assert(token_views(v@)[i as int] == t@);
            }
            return true;
        }
        i = i + 1;
    }
    proof {
        assert forall|k: int| 0 <= k < token_views(v@).len() implies token_views(v@)[k] != t@ by {}
    }
    false
}

/// An exact copy of a token list.
fn clone_tokens(v: &Vec<String>) -> (r: Vec<String>)
    ensures
        r@ == v@,
{
    let mut r: Vec<String> = Vec::new();
    let mut i: usize = 0;
    while i < v.len()
        invariant
            i <= v@.len(),
            r@ == v@.take(i as int),
        decreases v@.len() - i,
    {
        r.push(v[i].clone());
        i = i + 1;
        proof {
            assert(r@ =~= v@.take(i as int));
        }
    }
    proof {
        assert(v@.take(v@.len() as int) =~= v@);
    }
    r
}

/// How many symbols of `production` are non-terminals of `grammar`, counting
/// the rules whose index lies below `n`.
pub open spec fn spec_arity_upto(g: Grammar, prod: Seq<Seq<char>>, n: nat) -> nat
    decreases n,
{
    if n == 0 {
        0
    } else {
        spec_arity_upto(g, prod, (n - 1) as nat) + if prod.contains(
            g.rules@[n - 1].name@,
        ) {
            1nat
        } else {
            0nat
        }
    }
}

/// How many distinct rules of `g` have their name among the symbols of
/// `prod`.
pub open spec fn spec_arity(g: Grammar, prod: Seq<Seq<char>>) -> nat {
    spec_arity_upto(g, prod, g.rules@.len() as nat)
}

/// Counts the rules of `grammar` whose non-terminal occurs among the symbols
/// of `production`.
pub fn calculate_arity(production: &Production, grammar: &Grammar) -> (r: usize)
    ensures
        r as nat == spec_arity(*grammar, production.syms()),
{
    let mut count: usize = 0;
    let mut i: usize = 0;
    while i < grammar.rules.len()
        invariant
            i <= grammar.rules@.len(),
            count <= i,
            count as nat == spec_arity_upto(*grammar, production.syms(), i as nat),
        decreases grammar.rules@.len() - i,
    {
        if contains_token(&production.symbols, &grammar.rules[i].name) {
            count = count + 1;
        }
        i = i + 1;
    }
    count
}

/// A derivation-step cap on the order of a thousand, enough for the small
/// expression grammars used here.
pub const MAX_DERIVATION_STEPS: usize = 1000;

/// A phenotype: the terminal tokens produced by derivation, in order. When
/// the step cap was hit before the symbol stack emptied, the phenotype is
/// partial and `complete` is false; such an individual is not an error, it
/// is only penalized by the fitness layer.
pub struct Phenotype {
    pub tokens: Vec<String>,
    pub complete: bool,
}

impl Phenotype {
    /// The tokens of this phenotype, as character sequences.
    pub open spec fn toks(&self) -> Seq<Seq<char>> {
        token_views(self.tokens@)
    }
}

/// One derivation step at a time: pop the top symbol; a non-terminal is
/// replaced by the production the next codon selects (codons are taken
/// cyclically from the genome, and each is reduced modulo the rule's
/// production count), pushed in reverse so expansion is left-to-right; a
/// terminal is appended to the output. Stops with `true` when the stack
/// empties, with `false` when `fuel` runs out first.
pub open spec fn spec_derive(
    g: Grammar,
    genome: Seq<usize>,
    stack: Seq<Seq<char>>,
    cursor: nat,
    out: Seq<Seq<char>>,
    fuel: nat,
) -> (Seq<Seq<char>>, bool)
    recommends
        genome.len() >= 1,
    decreases fuel,
{
    if stack.len() == 0 {
        (out, true)
    } else if fuel == 0 {
        (out, false)
    } else {
        let top = stack.last();
        let rest = stack.drop_last();
        if g.is_nonterminal(top) {
            let prods = g.productions_of(top);
            let gene = genome[(cursor % genome.len()) as int];
            let prod = prods[(gene as nat % prods.len()) as int];
            spec_derive(g, genome, rest + prod.reverse(), cursor + 1, out, (fuel - 1) as nat)
        } else {
            spec_derive(g, genome, rest, cursor, out.push(top), (fuel - 1) as nat)
        }
    }
}

/// Codons are reused cyclically, the defining trait of this mapping scheme:
/// deriving with a genome repeated twice end to end is the same derivation,
/// step for step, as deriving with the genome itself, whatever the stack,
/// cursor, output and fuel.
pub proof fn lemma_derivation_wraps(
    g: Grammar,
    genome: Seq<usize>,
    stack: Seq<Seq<char>>,
    cursor: nat,
    out: Seq<Seq<char>>,
    fuel: nat,
)
    requires
        genome.len() >= 1,
    ensures
        spec_derive(g, genome + genome, stack, cursor, out, fuel) == spec_derive(
            g,
            genome,
            stack,
            cursor,
            out,
            fuel,
        ),
    decreases fuel,
{
    if stack.len() == 0 || fuel == 0 {
    } else {
        let top = stack.last();
        let rest = stack.drop_last();
        let doubled = genome + genome;
        let n = genome.len() as int;
        assert(doubled.len() == 2 * n);
        vstd::arithmetic::div_mod::lemma_mod_mod(cursor as int, n, 2);
        let c2 = (cursor % doubled.len()) as int;
        assert(c2 % n == (cursor % genome.len()) as int);
        if c2 < n {
            vstd::arithmetic::div_mod::lemma_small_mod(c2 as nat, n as nat);
            assert(c2 % n == c2);
            assert(doubled[c2] == genome[c2]);
        } else {
            vstd::arithmetic::div_mod::lemma_mod_multiples_vanish(1, c2 - n, n);
            vstd::arithmetic::div_mod::lemma_small_mod((c2 - n) as nat, n as nat);
            assert(c2 % n == c2 - n);
            assert(doubled[c2] == genome[c2 - n]);
        }
        assert(doubled[c2] == genome[(cursor % genome.len()) as int]);
        if g.is_nonterminal(top) {
            let prods = g.productions_of(top);
            let gene = genome[(cursor % genome.len()) as int];
            let prod = prods[(gene as nat % prods.len()) as int];
            lemma_derivation_wraps(
                g,
                genome,
                rest + prod.reverse(),
                cursor + 1,
                out,
                (fuel - 1) as nat,
            );
        } else {
            lemma_derivation_wraps(g, genome, rest, cursor, out.push(top), (fuel - 1) as nat);
        }
    }
}

/// Maps a genome through a grammar into a phenotype: stack-based derivation
/// from the start symbol, selecting productions with the genome's codons,
/// reusing them cyclically once exhausted, and stopping after at most
/// `step_cap` steps. A capped derivation returns the partial output flagged
/// incomplete; it never fails. The phenotype holds at most `step_cap` tokens.
pub fn map_genome_to_phenotype(genome: &Vec<usize>, grammar: &Grammar, step_cap: usize) -> (p:
    Phenotype)
    requires
        genome@.len() >= 1,
        grammar.wf(),
    ensures
        (p.toks(), p.complete) == spec_derive(
            *grammar,
            genome@,
            seq![grammar.start@],
            0,
            Seq::<Seq<char>>::empty(),
            step_cap as nat,
        ),
        p.tokens@.len() <= step_cap,
{
    let ghost target = spec_derive(
        *grammar,
        genome@,
        seq![grammar.start@],
        0,
        Seq::<Seq<char>>::empty(),
        step_cap as nat,
    );
    let mut stack: Vec<String> = Vec::new();
    stack.push(grammar.start.clone());
    let mut out: Vec<String> = Vec::new();
    let mut cursor: usize = 0;
    let mut fuel: usize = step_cap;
    proof {
        assert(token_views(stack@) =~= seq![grammar.start@]);
        assert(token_views(out@) =~= Seq::<Seq<char>>::empty());
    }
    while stack.len() > 0 && fuel > 0
        invariant
            genome@.len() >= 1,
            grammar.wf(),
            fuel <= step_cap,
            cursor <= step_cap - fuel,
            out@.len() <= step_cap - fuel,
            spec_derive(
                *grammar,
                genome@,
                token_views(stack@),
                cursor as nat,
                token_views(out@),
                fuel as nat,
            ) == target,
        decreases fuel,
    {
        let ghost pre_stack = token_views(stack@);
        let ghost pre_out = token_views(out@);
        let top = stack.pop().unwrap();
        proof {
            assert(top@ == pre_stack.last());
            assert(token_views(stack@) =~= pre_stack.drop_last());
        }
        match grammar.lookup(&top) {
            Some(rule) => {
                let idx = cursor % genome.len();
                let gene = genome[idx];
                let pi = gene % rule.productions.len();
                let prod = &rule.productions[pi];
                proof {
                    assert(grammar.productions_of(top@)[pi as int] == prod.syms());
                }
                let ghost rest = token_views(stack@);
                let mut k: usize = prod.symbols.len();
                while k > 0
                    invariant
                        k <= prod.symbols@.len(),
                        token_views(stack@) =~= rest + prod.syms().skip(k as int).reverse(),
                    decreases k,
                {
                    k = k - 1;
                    stack.push(prod.symbols[k].clone());
                    proof {
                        let s = prod.syms();
                        assert(s.skip(k as int).reverse() =~= s.skip(k as int + 1).reverse().push(
                            s[k as int],
                        ));
                        assert(token_views(stack@) =~= (rest + s.skip(k as int + 1).reverse()).push(
                            s[k as int],
                        ));
                        assert(token_views(stack@) =~= rest + s.skip(k as int).reverse());
                    }
                }
                proof {
                    assert(prod.syms().skip(0) =~= prod.syms());
                    assert(token_views(stack@) =~= rest + prod.syms().reverse());
                }
                cursor = cursor + 1;
                fuel = fuel - 1;
                proof {
                    assert(spec_derive(
                        *grammar,
                        genome@,
                        token_views(stack@),
                        cursor as nat,
                        token_views(out@),
                        fuel as nat,
                    ) == spec_derive(
                        *grammar,
                        genome@,
                        pre_stack,
                        (cursor - 1) as nat,
                        pre_out,
                        (fuel + 1) as nat,
                    ));
                }
            },
            None => {
                out.push(top);
                fuel = fuel - 1;
                proof {
                    assert(token_views(out@) =~= pre_out.push(pre_stack.last()));
                    assert(spec_derive(
                        *grammar,
                        genome@,
                        token_views(stack@),
                        cursor as nat,
                        token_views(out@),
                        fuel as nat,
                    ) == spec_derive(
                        *grammar,
                        genome@,
                        pre_stack,
                        cursor as nat,
                        pre_out,
                        (fuel + 1) as nat,
                    ));
                }
            },
        }
    }
    let complete = stack.len() == 0;
    proof {
        if stack@.len() == 0 {
            assert(token_views(stack@).len() == 0);
            assert(target == (token_views(out@), true));
        } else {
            assert(token_views(stack@).len() > 0);
            assert(target == (token_views(out@), false));
        }
    }
    Phenotype { tokens: out, complete }
}

/// The sequential rewriting variant of the mapper: as long as the current
/// form is a single non-terminal and codons remain, it is replaced by the
/// production the next codon selects; the first form that is not a lone
/// non-terminal, or the end of the genome, stops the rewriting.
pub open spec fn spec_linear_derive(
    g: Grammar,
    genome: Seq<usize>,
    current: Seq<Seq<char>>,
    i: nat,
) -> Seq<Seq<char>>
    decreases genome.len() - i,
    when i <= genome.len()
{
    if i >= genome.len() {
        current
    } else if current.len() == 1 && g.is_nonterminal(current[0]) {
        let prods = g.productions_of(current[0]);
        let prod = prods[(genome[i as int] as nat % prods.len()) as int];
        spec_linear_derive(g, genome, prod, i + 1)
    } else {
        current
    }
}

/// Rewrites the start symbol by whole productions, one codon per rewriting,
/// stopping at the first form that is not a lone non-terminal or when the
/// genome is exhausted. The result may still hold non-terminals.
pub fn genome_to_phenotype(genome: &Vec<usize>, grammar: &Grammar) -> (tokens: Vec<String>)
    requires
        grammar.wf(),
    ensures
        token_views(tokens@) == spec_linear_derive(*grammar, genome@, seq![grammar.start@], 0),
{
    let ghost target = spec_linear_derive(*grammar, genome@, seq![grammar.start@], 0);
    let mut current: Vec<String> = Vec::new();
    current.push(grammar.start.clone());
    proof {
        assert(token_views(current@) =~= seq![grammar.start@]);
    }
    let mut i: usize = 0;
    let mut done: bool = false;
    while i < genome.len() && !done
        invariant
            i <= genome@.len(),
            grammar.wf(),
            !done ==> spec_linear_derive(*grammar, genome@, token_views(current@), i as nat)
                == target,
            done ==> token_views(current@) == target,
        decreases genome@.len() - i, if done { 0int } else { 1int },
    {
        let ghost pre = token_views(current@);
        if current.len() == 1 {
            match grammar.lookup(&current[0]) {
                Some(rule) => {
                    proof {
                        assert(pre[0] == current@[0]@);
                    }
                    let pi = genome[i] % rule.productions.len();
                    proof {
                        assert(grammar.productions_of(pre[0])[pi as int]
                            == rule.productions@[pi as int].syms());
                    }
                    current = clone_tokens(&rule.productions[pi].symbols);
                    i = i + 1;
                },
                None => {
                    done = true;
                },
            }
        } else {
            done = true;
        }
    }
    proof {
        if !done {
            assert(spec_linear_derive(*grammar, genome@, token_views(current@), i as nat)
                == token_views(current@));
        }
    }
    current
}

/// A production leads back to `nt` within `fuel` expansions: either `nt`
/// occurs among its symbols, or some non-terminal occurring there has a
/// production that does, recursively.
pub open spec fn spec_is_recursive(g: Grammar, nt: Seq<char>, prod: Seq<Seq<char>>, fuel: nat) -> bool
    decreases fuel,
{
    prod.contains(nt) || (fuel > 0 && exists|i: int, j: int|
        0 <= i < g.rules@.len() && prod.contains(g.rules@[i].name@) && 0 <= j
            < g.rules@[i].productions@.len() && spec_is_recursive(
            g,
            nt,
            g.rules@[i].productions@[j].syms(),
            (fuel - 1) as nat,
        ))
}

/// Deepening the search never loses an answer: whatever recursion
/// `spec_is_recursive` finds within some depth it also finds within every
/// larger depth.
pub proof fn lemma_is_recursive_monotone(
    g: Grammar,
    nt: Seq<char>,
    prod: Seq<Seq<char>>,
    depth1: nat,
    depth2: nat,
)
    requires
        depth1 <= depth2,
        spec_is_recursive(g, nt, prod, depth1),
    ensures
        spec_is_recursive(g, nt, prod, depth2),
    decreases depth1,
{
    if !prod.contains(nt) {
        let (i, j) = choose|i: int, j: int|
            0 <= i < g.rules@.len() && prod.contains(g.rules@[i].name@) && 0 <= j
                < g.rules@[i].productions@.len() && spec_is_recursive(
                g,
                nt,
                g.rules@[i].productions@[j].syms(),
                (depth1 - 1) as nat,
            );
        lemma_is_recursive_monotone(
            g,
            nt,
            g.rules@[i].productions@[j].syms(),
            (depth1 - 1) as nat,
            (depth2 - 1) as nat,
        );
        assert(0 <= i < g.rules@.len() && prod.contains(g.rules@[i].name@) && 0 <= j
            < g.rules@[i].productions@.len() && spec_is_recursive(
            g,
            nt,
            g.rules@[i].productions@[j].syms(),
            (depth2 - 1) as nat,
        ));
    }
}

/// Whether expanding `production` can reach `non_terminal` again within
/// `depth` nested expansions. The depth bound makes the search terminate on
/// the recursive grammars this check is for, and a deeper search only ever
/// finds more (`lemma_is_recursive_monotone`). A depth of `rules.len()`
/// already decides reachability outright: a shortest chain of expansions
/// that reaches `non_terminal` never expands the same rule twice, since any
/// production of an already-expanded rule could have been chosen at the
/// first expansion of that rule.
pub fn is_recursive(
    non_terminal: &String,
    production: &Production,
    grammar: &Grammar,
    depth: usize,
) -> (r: bool)
    ensures
        r == spec_is_recursive(*grammar, non_terminal@, production.syms(), depth as nat),
    decreases depth,
{
    if contains_token(&production.symbols, non_terminal) {
        return true;
    }
    if depth == 0 {
        return false;
    }
    let mut i: usize = 0;
    while i < grammar.rules.len()
        invariant
            i <= grammar.rules@.len(),
            depth >= 1,
            !production.syms().contains(non_terminal@),
            forall|a: int, b: int|
                0 <= a < i && production.syms().contains(#[trigger] grammar.rules@[a].name@) && 0
                    <= b < grammar.rules@[a].productions@.len() ==> !spec_is_recursive(
                    *grammar,
                    non_terminal@,
                    #[trigger] grammar.rules@[a].productions@[b].syms(),
                    (depth - 1) as nat,
                ),
        decreases grammar.rules@.len() - i,
    {
        if contains_token(&production.symbols, &grammar.rules[i].name) {
            let mut j: usize = 0;
            while j < grammar.rules[i].productions.len()
                invariant
                    i < grammar.rules@.len(),
                    j <= grammar.rules@[i as int].productions@.len(),
                    depth >= 1,
                    production.syms().contains(grammar.rules@[i as int].name@),
                    forall|b: int|
                        0 <= b < j ==> !spec_is_recursive(
                            *grammar,
                            non_terminal@,
                            #[trigger] grammar.rules@[i as int].productions@[b].syms(),
                            (depth - 1) as nat,
                        ),
                decreases grammar.rules@[i as int].productions@.len() - j,
            {
                if is_recursive(non_terminal, &grammar.rules[i].productions[j], grammar, depth - 1) {
                    proof {
                        let wi = i as int;
                        let wj = j as int;
                        assert(0 <= wi < grammar.rules@.len() && production.syms().contains(
                            grammar.rules@[wi].name@,
                        ) && 0 <= wj < grammar.rules@[wi].productions@.len() && spec_is_recursive(
                            *grammar,
                            non_terminal@,
                            grammar.rules@[wi].productions@[wj].syms(),
                            (depth - 1) as nat,
                        ));
                    }
                    return true;
                }
                j = j + 1;
            }
        }
        i = i + 1;
    }
    false
}

/// The tokens joined with single spaces, with no leading or trailing space.
pub open spec fn spec_joined(toks: Seq<Seq<char>>) -> Seq<char>
    decreases toks.len(),
{
    if toks.len() == 0 {
        Seq::empty()
    } else if toks.len() == 1 {
        toks[0]
    } else {
        spec_joined(toks.drop_last()) + seq![' '] + toks.last()
    }
}

impl Phenotype {
    /// The phenotype as one string of whitespace-separated tokens, the exact
    /// format the expression evaluators tokenize again.
    pub fn to_display_string(&self) -> (s: String)
        ensures
            s@ == spec_joined(self.toks()),
    {
        let mut s = String::new();
        let mut i: usize = 0;
        proof {
            reveal_strlit(" ");
            assert(self.toks().take(0) =~= Seq::<Seq<char>>::empty());
        }
        while i < self.tokens.len()
            invariant
                i <= self.tokens@.len(),
                s@ == spec_joined(self.toks().take(i as int)),
            decreases self.tokens@.len() - i,
        {
            if i > 0 {
                s.append(" ");
                proof {
                    reveal_strlit(" ");
                    assert(" "@ =~= seq![' ']);
                }
            }
            s.append(self.tokens[i].as_str());
            i = i + 1;
            proof {
                let t = self.toks().take(i as int);
                assert(t.drop_last() =~= self.toks().take(i - 1));
                assert(t.last() == self.toks()[i - 1]);
            }
        }
        proof {
            assert(self.toks().take(self.tokens@.len() as int) =~= self.toks());
        }
        s
    }
}

/// The exact shape of the boolean expression grammar: `S -> E`;
/// `E -> E OR T | T`; `T -> T AND F | F`; `F -> NOT F | A | B | C`.
pub open spec fn is_boolean_grammar(g: Grammar) -> bool {
    &&& g.start@ == "S"@
    &&& g.rules@.len() == 4
    &&& g.rules@[0].name@ == "S"@
    &&& g.rules@[0].prods() == seq![seq!["E"@]]
    &&& g.rules@[1].name@ == "E"@
    &&& g.rules@[1].prods() == seq![seq!["E"@, "OR"@, "T"@], seq!["T"@]]
    &&& g.rules@[2].name@ == "T"@
    &&& g.rules@[2].prods() == seq![seq!["T"@, "AND"@, "F"@], seq!["F"@]]
    &&& g.rules@[3].name@ == "F"@
    &&& g.rules@[3].prods() == seq![seq!["NOT"@, "F"@], seq!["A"@], seq!["B"@], seq!["C"@]]
}

/// The boolean expression grammar: `S -> E`; `E -> E OR T | T`;
/// `T -> T AND F | F`; `F -> NOT F | A | B | C`.
pub fn boolean_grammar() -> (g: Grammar)
    ensures
        g.wf(),
        is_boolean_grammar(g),
{
    let rule_s = Rule {
        name: String::from_str("S"),
        productions: vec![Production { symbols: vec![String::from_str("E")] }],
    };
    let rule_e = Rule {
        name: String::from_str("E"),
        productions: vec![
            Production {
                symbols: vec![
                    String::from_str("E"),
                    String::from_str("OR"),
                    String::from_str("T"),
                ],
            },
            Production { symbols: vec![String::from_str("T")] },
        ],
    };
    let rule_t = Rule {
        name: String::from_str("T"),
        productions: vec![
            Production {
                symbols: vec![
                    String::from_str("T"),
                    String::from_str("AND"),
                    String::from_str("F"),
                ],
            },
            Production { symbols: vec![String::from_str("F")] },
        ],
    };
    let rule_f = Rule {
        name: String::from_str("F"),
        productions: vec![
            Production { symbols: vec![String::from_str("NOT"), String::from_str("F")] },
            Production { symbols: vec![String::from_str("A")] },
            Production { symbols: vec![String::from_str("B")] },
            Production { symbols: vec![String::from_str("C")] },
        ],
    };
    let g = Grammar { start: String::from_str("S"), rules: vec![rule_s, rule_e, rule_t, rule_f] };
    proof {
        reveal_strlit("S");
        reveal_strlit("E");
        reveal_strlit("T");
        reveal_strlit("F");
        assert(g.rules@[0].name@ == "S"@ && g.rules@[1].name@ == "E"@ && g.rules@[2].name@ == "T"@
            && g.rules@[3].name@ == "F"@);
        assert("S"@[0] == 'S' && "E"@[0] == 'E' && "T"@[0] == 'T' && "F"@[0] == 'F');
        assert(g.is_nonterminal(g.start@));
        assert(g.rules@[0].prods() =~~= seq![seq!["E"@]]);
        assert(g.rules@[1].prods() =~~= seq![seq!["E"@, "OR"@, "T"@], seq!["T"@]]);
        assert(g.rules@[2].prods() =~~= seq![seq!["T"@, "AND"@, "F"@], seq!["F"@]]);
        assert(g.rules@[3].prods() =~~= seq![seq!["NOT"@, "F"@], seq!["A"@], seq!["B"@], seq!["C"@]]);
    }
    g
}

} // verus!
