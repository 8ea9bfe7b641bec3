//! FIRST sets.
//!
//! `in_first(s, g, sets, e)` says whether entry `e` (a terminal id, or
//! `n_terminals` for ε) belongs to FIRST of the tree `s`, when each
//! nonterminal `A` has the FIRST set `sets[A]`. FIRST of the grammar is the
//! least fixed point of `first_step`, reached by iterating it from the empty
//! sets.
use vstd::prelude::*;
use crate::symbol::{Symbol, SymbolSequence, GrammarShape, seq_wf, children_wf};
use crate::production::Production;
use crate::sets::{rows, shaped, rows_le, count_false, all_false, empty_row, empty_rows, copy_row, or_into, rows_equal, lemma_count_false_le, lemma_rows_le_trans, lemma_all_false_le};

verus! {

/// Whether entry `e` belongs to FIRST of a single symbol.
pub open spec fn sym_first(sym: Symbol, g: GrammarShape, sets: Seq<Seq<bool>>, e: int) -> bool {
    match sym {
        Symbol::Terminal(t) => if g.empty_symbol == Some(t) {
            e == g.n_terminals
        } else {
            e == t
        },
        Symbol::Nonterminal(n) => n < sets.len() && 0 <= e < sets[n as int].len() && sets[n as int][e],
        Symbol::Empty => e == g.n_terminals,
    }
}

/// Whether entry `e` belongs to FIRST of `s`.
pub open spec fn in_first(s: SymbolSequence, g: GrammarShape, sets: Seq<Seq<bool>>, e: int) -> bool
    decreases s, 0int,
{
    match s {
        SymbolSequence::Single(sym) => sym_first(sym, g, sets, e),
        SymbolSequence::Sequence(v) => seq_first(v@, 0, g, sets, e),
        SymbolSequence::Optional(b) => e == g.n_terminals || in_first(*b, g, sets, e),
        SymbolSequence::Repeated(b) => e == g.n_terminals || in_first(*b, g, sets, e),
        SymbolSequence::Alternatives(v) => alt_first(v@, 0, g, sets, e),
    }
}

/// Whether entry `e` belongs to FIRST of the concatenation `xs[i..]`.
pub open spec fn seq_first(xs: Seq<SymbolSequence>, i: int, g: GrammarShape, sets: Seq<Seq<bool>>, e: int) -> bool
    decreases xs, xs.len() - i,
{
    if i < 0 || i >= xs.len() {
        e == g.n_terminals
    } else {
        (e != g.n_terminals && in_first(xs[i], g, sets, e))
            || (in_first(xs[i], g, sets, g.n_terminals as int) && seq_first(xs, i + 1, g, sets, e))
    }
}

/// Whether entry `e` belongs to FIRST of one of `xs[i..]`.
pub open spec fn alt_first(xs: Seq<SymbolSequence>, i: int, g: GrammarShape, sets: Seq<Seq<bool>>, e: int) -> bool
    decreases xs, xs.len() - i,
{
    if i < 0 || i >= xs.len() {
        false
    } else {
        in_first(xs[i], g, sets, e) || alt_first(xs, i + 1, g, sets, e)
    }
}

/// Whether entry `e` belongs to FIRST of the body of some production of `a`.
pub open spec fn prod_first<H>(ps: Seq<Production<H>>, g: GrammarShape, sets: Seq<Seq<bool>>, a: int, e: int) -> bool {
    exists|j: int| 0 <= j < ps.len() && ps[j].produced_symbol == a && #[trigger] in_first(ps[j].consumed_symbols, g, sets, e)
}

/// One round of the FIRST equations: each nonterminal gets the union of
/// FIRST of the bodies of its productions, evaluated over `sets`.
pub open spec fn first_step<H>(ps: Seq<Production<H>>, g: GrammarShape, sets: Seq<Seq<bool>>) -> Seq<Seq<bool>> {
    Seq::new(g.n_nonterminals as nat, |a: int| Seq::new((g.n_terminals + 1) as nat, |e: int| prod_first(ps, g, sets, a, e)))
}

/// `first_step` applied `k` times to the empty sets.
pub open spec fn first_iter<H>(ps: Seq<Production<H>>, g: GrammarShape, k: nat) -> Seq<Seq<bool>>
    decreases k,
{
    if k == 0 {
        all_false(g.n_nonterminals as nat, (g.n_terminals + 1) as nat)
    } else {
        first_step(ps, g, first_iter(ps, g, (k - 1) as nat))
    }
}

/// FIRST of every nonterminal: the iteration taken as many times as there are
/// entries, by which point it no longer changes.
pub open spec fn first_sets<H>(ps: Seq<Production<H>>, g: GrammarShape) -> Seq<Seq<bool>> {
    first_iter(ps, g, count_false(first_iter(ps, g, 0)))
}

/// Every production names a nonterminal in range and has a well-formed body.
pub open spec fn productions_wf<H>(ps: Seq<Production<H>>, g: GrammarShape) -> bool {
    forall|j: int| 0 <= j < ps.len() ==> (#[trigger] ps[j]).produced_symbol < g.n_nonterminals
        && seq_wf(ps[j].consumed_symbols, g.n_terminals as nat, g.n_nonterminals as nat)
}

/// The rows can hold FIRST or FOLLOW sets of the grammar.
pub open spec fn sets_shaped(s: Seq<Seq<bool>>, g: GrammarShape) -> bool {
    shaped(s, g.n_nonterminals as int, g.n_terminals + 1)
}

// ---------------------------------------------------------------------------
// Monotonicity

/// Membership in FIRST of a tree only grows when the sets grow.
pub proof fn lemma_in_first_mono(s: SymbolSequence, g: GrammarShape, s1: Seq<Seq<bool>>, s2: Seq<Seq<bool>>, e: int)
    requires
        rows_le(s1, s2),
        in_first(s, g, s1, e),
    ensures
        in_first(s, g, s2, e),
    decreases s, 0int,
{
    match s {
        SymbolSequence::Single(sym) => {
            if let Symbol::Nonterminal(n) = sym {
                assert(s1[n as int][e]);
            }
        },
        SymbolSequence::Sequence(v) => lemma_seq_first_mono(v@, 0, g, s1, s2, e),
        SymbolSequence::Optional(b) => {
            if e != g.n_terminals {
                lemma_in_first_mono(*b, g, s1, s2, e);
            }
        },
        SymbolSequence::Repeated(b) => {
            if e != g.n_terminals {
                lemma_in_first_mono(*b, g, s1, s2, e);
            }
        },
        SymbolSequence::Alternatives(v) => lemma_alt_first_mono(v@, 0, g, s1, s2, e),
    }
}

proof fn lemma_seq_first_mono(xs: Seq<SymbolSequence>, i: int, g: GrammarShape, s1: Seq<Seq<bool>>, s2: Seq<Seq<bool>>, e: int)
    requires
        rows_le(s1, s2),
        seq_first(xs, i, g, s1, e),
    ensures
        seq_first(xs, i, g, s2, e),
    decreases xs, xs.len() - i,
{
    if 0 <= i < xs.len() {
        if e != g.n_terminals && in_first(xs[i], g, s1, e) {
            lemma_in_first_mono(xs[i], g, s1, s2, e);
        } else {
            lemma_in_first_mono(xs[i], g, s1, s2, g.n_terminals as int);
            lemma_seq_first_mono(xs, i + 1, g, s1, s2, e);
        }
    }
}

proof fn lemma_alt_first_mono(xs: Seq<SymbolSequence>, i: int, g: GrammarShape, s1: Seq<Seq<bool>>, s2: Seq<Seq<bool>>, e: int)
    requires
        rows_le(s1, s2),
        alt_first(xs, i, g, s1, e),
    ensures
        alt_first(xs, i, g, s2, e),
    decreases xs, xs.len() - i,
{
    if 0 <= i < xs.len() {
        if in_first(xs[i], g, s1, e) {
            lemma_in_first_mono(xs[i], g, s1, s2, e);
        } else {
            lemma_alt_first_mono(xs, i + 1, g, s1, s2, e);
        }
    }
}

/// `first_step` is monotone.
pub proof fn lemma_first_step_mono<H>(ps: Seq<Production<H>>, g: GrammarShape, s1: Seq<Seq<bool>>, s2: Seq<Seq<bool>>)
    requires
        rows_le(s1, s2),
    ensures
        rows_le(first_step(ps, g, s1), first_step(ps, g, s2)),
{
    let (f1, f2) = (first_step(ps, g, s1), first_step(ps, g, s2));
    assert forall|a: int, e: int| 0 <= a < f1.len() && 0 <= e < f1[a].len() && #[trigger] f1[a][e] implies f2[a][e] by {
        let j = choose|j: int| 0 <= j < ps.len() && ps[j].produced_symbol == a && #[trigger] in_first(ps[j].consumed_symbols, g, s1, e);
        lemma_in_first_mono(ps[j].consumed_symbols, g, s1, s2, e);
    }
}

/// The iterates form a growing chain.
pub proof fn lemma_first_iter_chain<H>(ps: Seq<Production<H>>, g: GrammarShape, k: nat)
    ensures
        rows_le(first_iter(ps, g, k), first_iter(ps, g, k + 1)),
        sets_shaped(first_iter(ps, g, k), g),
    decreases k,
{
    if k == 0 {
        let z = first_iter(ps, g, 0);
        let o = first_iter(ps, g, 1);
        assert(rows_le(z, o));
    } else {
        lemma_first_iter_chain(ps, g, (k - 1) as nat);
        lemma_first_step_mono(ps, g, first_iter(ps, g, (k - 1) as nat), first_iter(ps, g, k));
    }
}

/// Once the iteration stops changing, it stays put.
pub proof fn lemma_first_iter_stable<H>(ps: Seq<Production<H>>, g: GrammarShape, k: nat, j: nat)
    requires
        k <= j,
        first_step(ps, g, first_iter(ps, g, k)) == first_iter(ps, g, k),
    ensures
        first_iter(ps, g, j) == first_iter(ps, g, k),
    decreases j - k,
{
    if k < j {
        lemma_first_iter_stable(ps, g, k, (j - 1) as nat);
    }
}

// ---------------------------------------------------------------------------
// Computation

/// FIRST of `s` as a row, given FIRST of every nonterminal in `sets`.
pub fn first_of(s: &SymbolSequence, g: GrammarShape, sets: &Vec<Vec<bool>>) -> (r: Vec<bool>)
    requires
        sets_shaped(rows(sets@), g),
        g.n_terminals < usize::MAX,
        seq_wf(*s, g.n_terminals as nat, g.n_nonterminals as nat),
    ensures
        r@.len() == g.n_terminals + 1,
        forall|e: int| 0 <= e <= g.n_terminals ==> #[trigger] r@[e] == in_first(*s, g, rows(sets@), e),
    decreases s, 0int,
{
    let m = g.n_terminals;
    match s {
        SymbolSequence::Single(sym) => {
            let mut r = empty_row(m + 1);
            match sym {
                Symbol::Terminal(t) => {
                    if g.empty_symbol == Some(*t) {
                        r.set(m, true);
                    } else {
                        r.set(*t, true);
                    }
                },
                Symbol::Nonterminal(n) => {
                    r = copy_row(&sets[*n]);
                    proof {
                        assert(rows(sets@)[*n as int] == sets@[*n as int]@);
                    }
                },
                Symbol::Empty => {
                    r.set(m, true);
                },
            }
            r
        },
        SymbolSequence::Sequence(v) => first_of_children(v, 0, g, sets),
        SymbolSequence::Optional(b) => {
            let mut r = first_of(b, g, sets);
            r.set(m, true);
            r
        },
        SymbolSequence::Repeated(b) => {
            let mut r = first_of(b, g, sets);
            r.set(m, true);
            r
        },
        SymbolSequence::Alternatives(v) => first_of_alternatives(v, g, sets),
    }
}

/// FIRST of a choice among `v` as a row.
pub fn first_of_alternatives(v: &Vec<SymbolSequence>, g: GrammarShape, sets: &Vec<Vec<bool>>) -> (r: Vec<bool>)
    requires
        sets_shaped(rows(sets@), g),
        g.n_terminals < usize::MAX,
        children_wf(v@, 0, g.n_terminals as nat, g.n_nonterminals as nat),
    ensures
        r@.len() == g.n_terminals + 1,
        forall|e: int| 0 <= e <= g.n_terminals ==> #[trigger] r@[e] == alt_first(v@, 0, g, rows(sets@), e),
    decreases v@, 0int,
{
    let m = g.n_terminals;
    let mut r = empty_row(m + 1);
    let mut i: usize = v.len();
    while i > 0
        invariant
            i <= v.len(),
            r@.len() == m + 1,
            children_wf(v@, 0, m as nat, g.n_nonterminals as nat),
            sets_shaped(rows(sets@), g),
            m == g.n_terminals,
            m < usize::MAX,
            forall|e: int| 0 <= e <= m ==> #[trigger] r@[e] == alt_first(v@, i as int, g, rows(sets@), e),
        decreases i,
    {
        i -= 1;
        proof {
            lemma_children_wf_at(v@, 0, i as int, m as nat, g.n_nonterminals as nat);
        }
        let f = first_of(&v[i], g, sets);
        or_into(&mut r, &f, false);
    }
    r
}

/// `children_wf` from `i` covers every later child.
pub proof fn lemma_children_wf_at(xs: Seq<SymbolSequence>, i: int, k: int, nt: nat, nn: nat)
    requires
        0 <= i <= k < xs.len(),
        children_wf(xs, i, nt, nn),
    ensures
        seq_wf(xs[k], nt, nn),
        children_wf(xs, k + 1, nt, nn),
    decreases k - i,
{
    if i < k {
        lemma_children_wf_at(xs, i + 1, k, nt, nn);
    }
}

/// FIRST of the concatenation `v[start..]` as a row.
pub fn first_of_children(v: &Vec<SymbolSequence>, start: usize, g: GrammarShape, sets: &Vec<Vec<bool>>) -> (r: Vec<bool>)
    requires
        start <= v.len(),
        sets_shaped(rows(sets@), g),
        g.n_terminals < usize::MAX,
        children_wf(v@, 0, g.n_terminals as nat, g.n_nonterminals as nat),
    ensures
        r@.len() == g.n_terminals + 1,
        forall|e: int| 0 <= e <= g.n_terminals ==> #[trigger] r@[e] == seq_first(v@, start as int, g, rows(sets@), e),
    decreases v@, v.len() - start,
{
    let m = g.n_terminals;
    let mut acc = empty_row(m + 1);
    let mut i: usize = start;
    while i < v.len()
        invariant
            start <= i <= v.len(),
            acc@.len() == m + 1,
            !acc@[m as int],
            m == g.n_terminals,
            m < usize::MAX,
            sets_shaped(rows(sets@), g),
            children_wf(v@, 0, m as nat, g.n_nonterminals as nat),
            forall|e: int| 0 <= e <= m ==> #[trigger] seq_first(v@, start as int, g, rows(sets@), e)
                == (acc@[e] || seq_first(v@, i as int, g, rows(sets@), e)),
        decreases v.len() - i,
    {
        proof {
            lemma_children_wf_at(v@, 0, i as int, m as nat, g.n_nonterminals as nat);
        }
        let f = first_of(&v[i], g, sets);
        let nullable = f[m];
        let ghost acc0 = acc@;
        or_into(&mut acc, &f, true);
        if !nullable {
            proof {
                assert forall|e: int| 0 <= e <= m implies #[trigger] acc@[e] == seq_first(v@, start as int, g, rows(sets@), e) by {
                    assert(seq_first(v@, start as int, g, rows(sets@), e) == (acc0[e] || seq_first(v@, i as int, g, rows(sets@), e)));
                }
            }
            return acc;
        }
        i += 1;
        proof {
            assert forall|e: int| 0 <= e <= m implies #[trigger] seq_first(v@, start as int, g, rows(sets@), e)
                == (acc@[e] || seq_first(v@, i as int, g, rows(sets@), e)) by {
                assert(seq_first(v@, start as int, g, rows(sets@), e) == (acc0[e] || seq_first(v@, i - 1, g, rows(sets@), e)));
            }
        }
    }
    let ghost acc0 = acc@;
    acc.set(m, true);
    proof {
        assert forall|e: int| 0 <= e <= m implies #[trigger] acc@[e] == seq_first(v@, start as int, g, rows(sets@), e) by {
            assert(seq_first(v@, start as int, g, rows(sets@), e) == (acc0[e] || seq_first(v@, i as int, g, rows(sets@), e)));
        }
    }
    acc
}

/// One round of the FIRST equations over `sets`.
pub fn first_step_rows<H>(ps: &Vec<Production<H>>, g: GrammarShape, sets: &Vec<Vec<bool>>) -> (r: Vec<Vec<bool>>)
    requires
        sets_shaped(rows(sets@), g),
        g.n_terminals < usize::MAX,
        productions_wf(ps@, g),
    ensures
        rows(r@) == first_step(ps@, g, rows(sets@)),
{
    let m = g.n_terminals;
    let mut r: Vec<Vec<bool>> = Vec::new();
    let mut a: usize = 0;
    while a < g.n_nonterminals
        invariant
            a <= g.n_nonterminals,
            m == g.n_terminals,
            m < usize::MAX,
            sets_shaped(rows(sets@), g),
            productions_wf(ps@, g),
            r@.len() == a,
            forall|b: int| 0 <= b < a ==> (#[trigger] r@[b])@ == first_step(ps@, g, rows(sets@))[b],
        decreases g.n_nonterminals - a,
    {
        let mut row = empty_row(m + 1);
        let mut j: usize = 0;
        while j < ps.len()
            invariant
                j <= ps.len(),
                a < g.n_nonterminals,
                m == g.n_terminals,
                m < usize::MAX,
                sets_shaped(rows(sets@), g),
                productions_wf(ps@, g),
                row@.len() == m + 1,
                forall|e: int| 0 <= e <= m ==> #[trigger] row@[e] == exists|k: int| 0 <= k < j
                    && ps@[k].produced_symbol == a && #[trigger] in_first(ps@[k].consumed_symbols, g, rows(sets@), e),
            decreases ps.len() - j,
        {
            if ps[j].produces(a) {
                proof {
                    assert(seq_wf(ps@[j as int].consumed_symbols, m as nat, g.n_nonterminals as nat));
                }
                let f = first_of(&ps[j].consumed_symbols, g, sets);
                let ghost row0 = row@;
                or_into(&mut row, &f, false);
                proof {
                    assert forall|e: int| 0 <= e <= m implies #[trigger] row@[e] == exists|k: int| 0 <= k < j + 1
                        && ps@[k].produced_symbol == a && #[trigger] in_first(ps@[k].consumed_symbols, g, rows(sets@), e) by {
                        if row@[e] && !row0[e] {
                            assert(in_first(ps@[j as int].consumed_symbols, g, rows(sets@), e));
                        }
                        if exists|k: int| 0 <= k < j + 1 && ps@[k].produced_symbol == a && #[trigger] in_first(ps@[k].consumed_symbols, g, rows(sets@), e) {
                            let k = choose|k: int| 0 <= k < j + 1 && ps@[k].produced_symbol == a && #[trigger] in_first(ps@[k].consumed_symbols, g, rows(sets@), e);
                            if k < j {
                                assert(row0[e]);
                            }
                        }
                    }
                }
            } else {
                proof {
                    assert forall|e: int| 0 <= e <= m implies #[trigger] row@[e] == exists|k: int| 0 <= k < j + 1
                        && ps@[k].produced_symbol == a && #[trigger] in_first(ps@[k].consumed_symbols, g, rows(sets@), e) by {
                        if exists|k: int| 0 <= k < j + 1 && ps@[k].produced_symbol == a && #[trigger] in_first(ps@[k].consumed_symbols, g, rows(sets@), e) {
                            let k = choose|k: int| 0 <= k < j + 1 && ps@[k].produced_symbol == a && #[trigger] in_first(ps@[k].consumed_symbols, g, rows(sets@), e);
                            assert(k < j);
                        }
                    }
                }
            }
            j += 1;
        }
        proof {
            assert(row@ =~= first_step(ps@, g, rows(sets@))[a as int]);
        }
        r.push(row);
        a += 1;
    }
    proof {
        assert(rows(r@) =~= first_step(ps@, g, rows(sets@)));
    }
    r
}

/// FIRST of every nonterminal, by iterating the FIRST equations from the
/// empty sets until nothing changes.
pub fn derive_first_sets<H>(ps: &Vec<Production<H>>, g: GrammarShape) -> (r: Vec<Vec<bool>>)
    requires
        g.n_terminals < usize::MAX,
        productions_wf(ps@, g),
    ensures
        rows(r@) == first_sets(ps@, g),
        first_step(ps@, g, rows(r@)) == rows(r@),
{
    let mut cur = empty_rows(g.n_nonterminals, g.n_terminals + 1);
    let ghost bound = count_false(first_iter(ps@, g, 0));
    let ghost mut k: nat = 0;
    loop
        invariant
            g.n_terminals < usize::MAX,
            productions_wf(ps@, g),
            rows(cur@) == first_iter(ps@, g, k),
            bound == count_false(first_iter(ps@, g, 0)),
            k + count_false(rows(cur@)) <= bound,
        decreases count_false(rows(cur@)),
    {
        proof {
            lemma_first_iter_chain(ps@, g, k);
        }
        let next = first_step_rows(ps, g, &cur);
        if rows_equal(&cur, &next) {
            proof {
                lemma_first_iter_stable(ps@, g, k, bound);
            }
            return cur;
        }
        proof {
            lemma_count_false_le(rows(cur@), rows(next@));
            k = k + 1;
        }
        cur = next;
    }
}

// ---------------------------------------------------------------------------
// Laws

proof fn lemma_first_stabilises<H>(ps: Seq<Production<H>>, g: GrammarShape, k: nat)
    ensures
        (exists|j: nat| j <= k && #[trigger] first_step(ps, g, first_iter(ps, g, j)) == first_iter(ps, g, j))
            || k + count_false(first_iter(ps, g, k)) <= count_false(first_iter(ps, g, 0)),
    decreases k,
{
    if k > 0 {
        let p = (k - 1) as nat;
        lemma_first_stabilises(ps, g, p);
        if !exists|j: nat| j <= k && #[trigger] first_step(ps, g, first_iter(ps, g, j)) == first_iter(ps, g, j) {
            assert(first_step(ps, g, first_iter(ps, g, p)) != first_iter(ps, g, p));
            lemma_first_iter_chain(ps, g, p);
            lemma_count_false_le(first_iter(ps, g, p), first_iter(ps, g, k));
        }
    }
}

/// Fixed point: one more round of the FIRST equations over the derived FIRST
/// sets changes nothing.
pub proof fn lemma_first_sets_fixed_point<H>(ps: Seq<Production<H>>, g: GrammarShape)
    ensures
        first_step(ps, g, first_sets(ps, g)) == first_sets(ps, g),
        sets_shaped(first_sets(ps, g), g),
{
    let bound = count_false(first_iter(ps, g, 0));
    lemma_first_stabilises(ps, g, bound);
    lemma_first_iter_chain(ps, g, bound);
    if exists|j: nat| j <= bound && #[trigger] first_step(ps, g, first_iter(ps, g, j)) == first_iter(ps, g, j) {
        let j = choose|j: nat| j <= bound && #[trigger] first_step(ps, g, first_iter(ps, g, j)) == first_iter(ps, g, j);
        lemma_first_iter_stable(ps, g, j, bound);
    } else {
        lemma_count_false_le(first_iter(ps, g, bound), first_iter(ps, g, bound + 1));
    }
}

/// FIRST monotonicity: for a production `A → α`, FIRST(α) ⊆ FIRST(A).
pub proof fn lemma_first_of_body_in_first<H>(ps: Seq<Production<H>>, g: GrammarShape, j: int, e: int)
    requires
        0 <= j < ps.len(),
        ps[j].produced_symbol < g.n_nonterminals,
        0 <= e <= g.n_terminals,
        in_first(ps[j].consumed_symbols, g, first_sets(ps, g), e),
    ensures
        first_sets(ps, g)[ps[j].produced_symbol as int][e],
{
    lemma_first_sets_fixed_point(ps, g);
    let f = first_sets(ps, g);
    assert(prod_first(ps, g, f, ps[j].produced_symbol as int, e));
    assert(first_step(ps, g, f)[ps[j].produced_symbol as int][e]);
}

/// ε containment: ε ∈ FIRST(A) exactly when some production of `A` has a
/// body that derives the empty string, directly or through nonterminals
/// whose FIRST sets hold ε.
pub proof fn lemma_empty_in_first_iff<H>(ps: Seq<Production<H>>, g: GrammarShape, a: int)
    requires
        0 <= a < g.n_nonterminals,
    ensures
        first_sets(ps, g)[a][g.n_terminals as int] <==> exists|j: int| 0 <= j < ps.len()
            && ps[j].produced_symbol == a
            && #[trigger] in_first(ps[j].consumed_symbols, g, first_sets(ps, g), g.n_terminals as int),
{
    lemma_first_sets_fixed_point(ps, g);
    let f = first_sets(ps, g);
    assert(f[a][g.n_terminals as int] == first_step(ps, g, f)[a][g.n_terminals as int]);
}

/// Every iterate lies below sets closed under the FIRST equations.
proof fn lemma_first_iter_below<H>(ps: Seq<Production<H>>, g: GrammarShape, x: Seq<Seq<bool>>, k: nat)
    requires
        sets_shaped(x, g),
        rows_le(first_step(ps, g, x), x),
    ensures
        rows_le(first_iter(ps, g, k), x),
    decreases k,
{
    if k == 0 {
        lemma_all_false_le(x, g.n_nonterminals as nat, (g.n_terminals + 1) as nat);
    } else {
        lemma_first_iter_below(ps, g, x, (k - 1) as nat);
        lemma_first_step_mono(ps, g, first_iter(ps, g, (k - 1) as nat), x);
        lemma_rows_le_trans(first_iter(ps, g, k), first_step(ps, g, x), x);
    }
}

/// Leastness: the FIRST sets lie inside any sets that the FIRST equations
/// cannot grow, so every entry of them is owed to the grammar.
pub proof fn lemma_first_sets_least<H>(ps: Seq<Production<H>>, g: GrammarShape, x: Seq<Seq<bool>>)
    requires
        sets_shaped(x, g),
        rows_le(first_step(ps, g, x), x),
    ensures
        rows_le(first_sets(ps, g), x),
{
    lemma_first_iter_below(ps, g, x, count_false(first_iter(ps, g, 0)));
}

} // verus!
