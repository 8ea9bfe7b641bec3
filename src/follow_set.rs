//! FOLLOW sets.
//!
//! Walking a production body, each occurrence of a nonterminal `B` meets an
//! `after` row: the entries that may come right after it. Index
//! `n_terminals` of that row says that what follows the occurrence may derive
//! the empty string, so that FOLLOW of the production's left-hand side flows
//! into FOLLOW(B); at the top of a body `after` is FOLLOW of the left-hand
//! side itself, with `$` at that index.
use vstd::prelude::*;
use crate::symbol::{Symbol, SymbolSequence, GrammarShape, seq_wf, children_wf};
use crate::production::Production;
use crate::sets::{rows, rows_le, count_false, all_false, empty_row, empty_rows, copy_row, or_into, rows_equal, lemma_count_false_le, lemma_rows_le_trans, lemma_all_false_le};
use crate::first_set::{in_first, seq_first, sets_shaped, productions_wf, first_sets, first_of, first_of_children, lemma_children_wf_at};

verus! {

/// What may follow `x β` when `f` is FIRST(x) and `a` is what may follow β.
pub open spec fn follow_cat(f: Seq<bool>, a: Seq<bool>, m: int) -> Seq<bool> {
    Seq::new((m + 1) as nat, |t: int| if t < m { f[t] || (f[m] && a[t]) } else { f[m] && a[m] })
}

/// FIRST of `s` with ε added: a repetition may end at any point.
pub open spec fn first_row_or_empty(s: SymbolSequence, g: GrammarShape, fs: Seq<Seq<bool>>) -> Seq<bool> {
    Seq::new((g.n_terminals + 1) as nat, |e: int| e == g.n_terminals || in_first(s, g, fs, e))
}

/// FIRST of the concatenation `xs[i..]` as a row.
pub open spec fn seq_first_row(xs: Seq<SymbolSequence>, i: int, g: GrammarShape, fs: Seq<Seq<bool>>) -> Seq<bool> {
    Seq::new((g.n_terminals + 1) as nat, |e: int| seq_first(xs, i, g, fs, e))
}

/// Whether an occurrence of `b` inside `s`, with `after` following `s`, has
/// entry `t` right after it.
pub open spec fn follow_walk(s: SymbolSequence, g: GrammarShape, fs: Seq<Seq<bool>>, after: Seq<bool>, b: int, t: int) -> bool
    decreases s, 0int,
{
    match s {
        SymbolSequence::Single(sym) => match sym {
            Symbol::Nonterminal(n) => n == b && 0 <= t < after.len() && after[t],
            _ => false,
        },
        SymbolSequence::Sequence(v) => seq_walk(v@, 0, g, fs, after, b, t),
        SymbolSequence::Optional(x) => follow_walk(*x, g, fs, after, b, t),
        SymbolSequence::Repeated(x) => follow_walk(*x, g, fs,
            follow_cat(first_row_or_empty(*x, g, fs), after, g.n_terminals as int), b, t),
        SymbolSequence::Alternatives(v) => alt_walk(v@, 0, g, fs, after, b, t),
    }
}

/// `follow_walk` over the children `xs[i..]` of a concatenation.
pub open spec fn seq_walk(xs: Seq<SymbolSequence>, i: int, g: GrammarShape, fs: Seq<Seq<bool>>, after: Seq<bool>, b: int, t: int) -> bool
    decreases xs, xs.len() - i,
{
    if i < 0 || i >= xs.len() {
        false
    } else {
        follow_walk(xs[i], g, fs, follow_cat(seq_first_row(xs, i + 1, g, fs), after, g.n_terminals as int), b, t)
            || seq_walk(xs, i + 1, g, fs, after, b, t)
    }
}

/// `follow_walk` over the choices `xs[i..]`.
pub open spec fn alt_walk(xs: Seq<SymbolSequence>, i: int, g: GrammarShape, fs: Seq<Seq<bool>>, after: Seq<bool>, b: int, t: int) -> bool
    decreases xs, xs.len() - i,
{
    if i < 0 || i >= xs.len() {
        false
    } else {
        follow_walk(xs[i], g, fs, after, b, t) || alt_walk(xs, i + 1, g, fs, after, b, t)
    }
}

/// Whether some production body has entry `t` right after an occurrence of
/// `b`, when the left-hand sides have the FOLLOW sets `fol`.
pub open spec fn prod_follow<H>(ps: Seq<Production<H>>, g: GrammarShape, fs: Seq<Seq<bool>>, fol: Seq<Seq<bool>>, b: int, t: int) -> bool {
    exists|j: int| 0 <= j < ps.len() && #[trigger] follow_walk(ps[j].consumed_symbols, g, fs,
        fol[ps[j].produced_symbol as int], b, t)
}

/// One round of the FOLLOW equations: `$` follows the start symbol, and every
/// occurrence adds what may come after it.
pub open spec fn follow_step<H>(ps: Seq<Production<H>>, g: GrammarShape, start: int, fs: Seq<Seq<bool>>, fol: Seq<Seq<bool>>) -> Seq<Seq<bool>> {
    Seq::new(g.n_nonterminals as nat, |b: int| Seq::new((g.n_terminals + 1) as nat, |t: int|
        (b == start && t == g.n_terminals) || prod_follow(ps, g, fs, fol, b, t)))
}

/// `follow_step` applied `k` times to the empty sets.
pub open spec fn follow_iter<H>(ps: Seq<Production<H>>, g: GrammarShape, start: int, fs: Seq<Seq<bool>>, k: nat) -> Seq<Seq<bool>>
    decreases k,
{
    if k == 0 {
        all_false(g.n_nonterminals as nat, (g.n_terminals + 1) as nat)
    } else {
        follow_step(ps, g, start, fs, follow_iter(ps, g, start, fs, (k - 1) as nat))
    }
}

/// FOLLOW of every nonterminal, over the grammar's FIRST sets.
pub open spec fn follow_sets<H>(ps: Seq<Production<H>>, g: GrammarShape, start: int) -> Seq<Seq<bool>> {
    let fs = first_sets(ps, g);
    follow_iter(ps, g, start, fs, count_false(follow_iter(ps, g, start, fs, 0)))
}

/// `r1` holds no entry that `r2` lacks.
pub open spec fn row_le(r1: Seq<bool>, r2: Seq<bool>) -> bool {
    r1.len() == r2.len() && forall|t: int| 0 <= t < r1.len() && #[trigger] r1[t] ==> r2[t]
}

// ---------------------------------------------------------------------------
// Monotonicity

/// What an occurrence may be followed by only grows with `after`.
pub proof fn lemma_follow_walk_mono(s: SymbolSequence, g: GrammarShape, fs: Seq<Seq<bool>>, a1: Seq<bool>, a2: Seq<bool>, b: int, t: int)
    requires
        row_le(a1, a2),
        a1.len() == g.n_terminals + 1,
        follow_walk(s, g, fs, a1, b, t),
    ensures
        follow_walk(s, g, fs, a2, b, t),
    decreases s, 0int,
{
    let m = g.n_terminals as int;
    match s {
        SymbolSequence::Single(sym) => {},
        SymbolSequence::Sequence(v) => lemma_seq_walk_mono(v@, 0, g, fs, a1, a2, b, t),
        SymbolSequence::Optional(x) => lemma_follow_walk_mono(*x, g, fs, a1, a2, b, t),
        SymbolSequence::Repeated(x) => {
            let f = first_row_or_empty(*x, g, fs);
            lemma_follow_walk_mono(*x, g, fs, follow_cat(f, a1, m), follow_cat(f, a2, m), b, t);
        },
        SymbolSequence::Alternatives(v) => lemma_alt_walk_mono(v@, 0, g, fs, a1, a2, b, t),
    }
}

proof fn lemma_seq_walk_mono(xs: Seq<SymbolSequence>, i: int, g: GrammarShape, fs: Seq<Seq<bool>>, a1: Seq<bool>, a2: Seq<bool>, b: int, t: int)
    requires
        row_le(a1, a2),
        a1.len() == g.n_terminals + 1,
        seq_walk(xs, i, g, fs, a1, b, t),
    ensures
        seq_walk(xs, i, g, fs, a2, b, t),
    decreases xs, xs.len() - i,
{
    let m = g.n_terminals as int;
    if 0 <= i < xs.len() {
        let f = seq_first_row(xs, i + 1, g, fs);
        if follow_walk(xs[i], g, fs, follow_cat(f, a1, m), b, t) {
            lemma_follow_walk_mono(xs[i], g, fs, follow_cat(f, a1, m), follow_cat(f, a2, m), b, t);
        } else {
            lemma_seq_walk_mono(xs, i + 1, g, fs, a1, a2, b, t);
        }
    }
}

proof fn lemma_alt_walk_mono(xs: Seq<SymbolSequence>, i: int, g: GrammarShape, fs: Seq<Seq<bool>>, a1: Seq<bool>, a2: Seq<bool>, b: int, t: int)
    requires
        row_le(a1, a2),
        a1.len() == g.n_terminals + 1,
        alt_walk(xs, i, g, fs, a1, b, t),
    ensures
        alt_walk(xs, i, g, fs, a2, b, t),
    decreases xs, xs.len() - i,
{
    if 0 <= i < xs.len() {
        if follow_walk(xs[i], g, fs, a1, b, t) {
            lemma_follow_walk_mono(xs[i], g, fs, a1, a2, b, t);
        } else {
            lemma_alt_walk_mono(xs, i + 1, g, fs, a1, a2, b, t);
        }
    }
}

/// `follow_step` is monotone in the FOLLOW sets.
pub proof fn lemma_follow_step_mono<H>(ps: Seq<Production<H>>, g: GrammarShape, start: int, fs: Seq<Seq<bool>>, s1: Seq<Seq<bool>>, s2: Seq<Seq<bool>>)
    requires
        rows_le(s1, s2),
        sets_shaped(s1, g),
        productions_wf(ps, g),
    ensures
        rows_le(follow_step(ps, g, start, fs, s1), follow_step(ps, g, start, fs, s2)),
{
    let (f1, f2) = (follow_step(ps, g, start, fs, s1), follow_step(ps, g, start, fs, s2));
    assert forall|b: int, t: int| 0 <= b < f1.len() && 0 <= t < f1[b].len() && #[trigger] f1[b][t] implies f2[b][t] by {
        if !(b == start && t == g.n_terminals) {
            let j = choose|j: int| 0 <= j < ps.len() && #[trigger] follow_walk(ps[j].consumed_symbols, g, fs,
                s1[ps[j].produced_symbol as int], b, t);
            let a = ps[j].produced_symbol as int;
            assert(row_le(s1[a], s2[a])) by {
                assert forall|x: int| 0 <= x < s1[a].len() && #[trigger] s1[a][x] implies s2[a][x] by {
                    assert(s1[a][x]);
                }
            }
            lemma_follow_walk_mono(ps[j].consumed_symbols, g, fs, s1[a], s2[a], b, t);
        }
    }
}

/// The iterates form a growing chain.
pub proof fn lemma_follow_iter_chain<H>(ps: Seq<Production<H>>, g: GrammarShape, start: int, fs: Seq<Seq<bool>>, k: nat)
    requires
        productions_wf(ps, g),
    ensures
        rows_le(follow_iter(ps, g, start, fs, k), follow_iter(ps, g, start, fs, k + 1)),
        sets_shaped(follow_iter(ps, g, start, fs, k), g),
    decreases k,
{
    if k == 0 {
        assert(rows_le(follow_iter(ps, g, start, fs, 0), follow_iter(ps, g, start, fs, 1)));
    } else {
        lemma_follow_iter_chain(ps, g, start, fs, (k - 1) as nat);
        lemma_follow_step_mono(ps, g, start, fs, follow_iter(ps, g, start, fs, (k - 1) as nat), follow_iter(ps, g, start, fs, k));
    }
}

/// Once the iteration stops changing, it stays put.
pub proof fn lemma_follow_iter_stable<H>(ps: Seq<Production<H>>, g: GrammarShape, start: int, fs: Seq<Seq<bool>>, k: nat, j: nat)
    requires
        k <= j,
        follow_step(ps, g, start, fs, follow_iter(ps, g, start, fs, k)) == follow_iter(ps, g, start, fs, k),
    ensures
        follow_iter(ps, g, start, fs, j) == follow_iter(ps, g, start, fs, k),
    decreases j - k,
{
    if k < j {
        lemma_follow_iter_stable(ps, g, start, fs, k, (j - 1) as nat);
    }
}

// ---------------------------------------------------------------------------
// Computation

/// `acc1` is `acc0` with every entry that an occurrence in `s` adds.
pub open spec fn walked(acc0: Seq<Seq<bool>>, acc1: Seq<Seq<bool>>, s: SymbolSequence, g: GrammarShape, fs: Seq<Seq<bool>>, after: Seq<bool>) -> bool {
    &&& sets_shaped(acc1, g)
    &&& forall|b: int, t: int| 0 <= b < g.n_nonterminals && 0 <= t <= g.n_terminals ==>
        #[trigger] acc1[b][t] == (acc0[b][t] || follow_walk(s, g, fs, after, b, t))
}

/// `follow_cat` as a row.
fn follow_cat_row(f: &Vec<bool>, a: &Vec<bool>, m: usize) -> (r: Vec<bool>)
    requires
        m < usize::MAX,
        f@.len() == m + 1,
        a@.len() == m + 1,
    ensures
        r@ == follow_cat(f@, a@, m as int),
{
    let mut r: Vec<bool> = Vec::new();
    let mut t: usize = 0;
    while t <= m
        invariant
            t <= m + 1,
            m < usize::MAX,
            f@.len() == m + 1,
            a@.len() == m + 1,
            r@.len() == t,
            forall|x: int| 0 <= x < t ==> #[trigger] r@[x] == follow_cat(f@, a@, m as int)[x],
        decreases m + 1 - t,
    {
        if t < m {
            r.push(f[t] || (f[m] && a[t]));
        } else {
            r.push(f[m] && a[m]);
        }
        t += 1;
    }
    proof {
        assert(r@ =~= follow_cat(f@, a@, m as int));
    }
    r
}

/// Adds the entries of `src` to row `b` of `acc`.
fn or_row_at(acc: &mut Vec<Vec<bool>>, b: usize, src: &Vec<bool>)
    requires
        b < old(acc)@.len(),
        old(acc)@[b as int]@.len() == src@.len(),
    ensures
        final(acc)@.len() == old(acc)@.len(),
        forall|c: int| 0 <= c < final(acc)@.len() && c != b ==> #[trigger] final(acc)@[c] == old(acc)@[c],
        final(acc)@[b as int]@.len() == src@.len(),
        forall|t: int| 0 <= t < src@.len() ==> #[trigger] final(acc)@[b as int]@[t] == (old(acc)@[b as int]@[t] || src@[t]),
{
    let mut row = copy_row(&acc[b]);
    or_into(&mut row, src, false);
    acc.set(b, row);
}

/// Adds to `acc` what may follow each occurrence of a nonterminal in `s`.
pub fn follow_walk_into(s: &SymbolSequence, g: GrammarShape, fs: &Vec<Vec<bool>>, after: &Vec<bool>, acc: &mut Vec<Vec<bool>>)
    requires
        sets_shaped(rows(fs@), g),
        sets_shaped(rows(old(acc)@), g),
        after@.len() == g.n_terminals + 1,
        g.n_terminals < usize::MAX,
        seq_wf(*s, g.n_terminals as nat, g.n_nonterminals as nat),
    ensures
        walked(rows(old(acc)@), rows(final(acc)@), *s, g, rows(fs@), after@),
    decreases s, 0int,
{
    let ghost acc0 = rows(acc@);
    let m = g.n_terminals;
    match s {
        SymbolSequence::Single(sym) => {
            match sym {
                Symbol::Nonterminal(n) => {
                    proof {
                        assert(acc@[*n as int]@ == acc0[*n as int]);
                    }
                    or_row_at(acc, *n, after);
                    proof {
                        assert forall|b: int| 0 <= b < g.n_nonterminals implies #[trigger] rows(acc@)[b] == (if b == *n as int {
                            acc@[b]@
                        } else {
                            acc0[b]
                        }) by {
                            if b != *n as int {
                                assert(acc@[b] == old(acc)@[b]);
                            }
                        }
                        assert forall|b: int| 0 <= b < g.n_nonterminals implies #[trigger] rows(acc@)[b].len() == m + 1 by {
                            if b != *n as int {
                                assert(acc@[b] == old(acc)@[b]);
                                assert(acc0[b].len() == m + 1);
                            }
                        }
                        assert forall|b: int, t: int| 0 <= b < g.n_nonterminals && 0 <= t <= g.n_terminals implies
                            #[trigger] rows(acc@)[b][t] == (acc0[b][t] || follow_walk(*s, g, rows(fs@), after@, b, t)) by {
                            if b != *n as int {
                                assert(acc@[b] == old(acc)@[b]);
                            }
                        }
                    }
                },
                _ => {},
            }
        },
        SymbolSequence::Sequence(v) => follow_walk_sequence(v, g, fs, after, acc),
        SymbolSequence::Optional(x) => follow_walk_into(x, g, fs, after, acc),
        SymbolSequence::Repeated(x) => {
            let mut f = first_of(x, g, fs);
            f.set(m, true);
            proof {
                assert(f@ =~= first_row_or_empty(**x, g, rows(fs@)));
            }
            let a2 = follow_cat_row(&f, after, m);
            follow_walk_into(x, g, fs, &a2, acc);
        },
        SymbolSequence::Alternatives(v) => follow_walk_alternatives(v, g, fs, after, acc),
    }
}

/// `follow_walk_into` over the children of a concatenation.
fn follow_walk_sequence(v: &Vec<SymbolSequence>, g: GrammarShape, fs: &Vec<Vec<bool>>, after: &Vec<bool>, acc: &mut Vec<Vec<bool>>)
    requires
        sets_shaped(rows(fs@), g),
        sets_shaped(rows(old(acc)@), g),
        after@.len() == g.n_terminals + 1,
        g.n_terminals < usize::MAX,
        children_wf(v@, 0, g.n_terminals as nat, g.n_nonterminals as nat),
    ensures
        sets_shaped(rows(final(acc)@), g),
        forall|b: int, t: int| 0 <= b < g.n_nonterminals && 0 <= t <= g.n_terminals ==>
            #[trigger] rows(final(acc)@)[b][t] == (rows(old(acc)@)[b][t] || seq_walk(v@, 0, g, rows(fs@), after@, b, t)),
    decreases v@, 0int,
{
    let ghost acc0 = rows(acc@);
    let m = g.n_terminals;
    let mut i: usize = v.len();
    while i > 0
        invariant
            i <= v.len(),
            m == g.n_terminals,
            m < usize::MAX,
            sets_shaped(rows(fs@), g),
            sets_shaped(rows(acc@), g),
            after@.len() == m + 1,
            children_wf(v@, 0, m as nat, g.n_nonterminals as nat),
            forall|b: int, t: int| 0 <= b < g.n_nonterminals && 0 <= t <= g.n_terminals ==>
                #[trigger] rows(acc@)[b][t] == (acc0[b][t] || seq_walk(v@, i as int, g, rows(fs@), after@, b, t)),
        decreases i,
    {
        i -= 1;
        proof {
            lemma_children_wf_at(v@, 0, i as int, m as nat, g.n_nonterminals as nat);
        }
        let f = first_of_children(v, i + 1, g, fs);
        proof {
            assert(f@ =~= seq_first_row(v@, i + 1, g, rows(fs@)));
        }
        let a2 = follow_cat_row(&f, after, m);
        let ghost acc1 = rows(acc@);
        follow_walk_into(&v[i], g, fs, &a2, acc);
        proof {
            assert forall|b: int, t: int| 0 <= b < g.n_nonterminals && 0 <= t <= g.n_terminals implies
                #[trigger] rows(acc@)[b][t] == (acc0[b][t] || seq_walk(v@, i as int, g, rows(fs@), after@, b, t)) by {
                assert(acc1[b][t] == (acc0[b][t] || seq_walk(v@, i + 1, g, rows(fs@), after@, b, t)));
            }
        }
    }
}

/// `follow_walk_into` over a choice.
fn follow_walk_alternatives(v: &Vec<SymbolSequence>, g: GrammarShape, fs: &Vec<Vec<bool>>, after: &Vec<bool>, acc: &mut Vec<Vec<bool>>)
    requires
        sets_shaped(rows(fs@), g),
        sets_shaped(rows(old(acc)@), g),
        after@.len() == g.n_terminals + 1,
        g.n_terminals < usize::MAX,
        children_wf(v@, 0, g.n_terminals as nat, g.n_nonterminals as nat),
    ensures
        sets_shaped(rows(final(acc)@), g),
        forall|b: int, t: int| 0 <= b < g.n_nonterminals && 0 <= t <= g.n_terminals ==>
            #[trigger] rows(final(acc)@)[b][t] == (rows(old(acc)@)[b][t] || alt_walk(v@, 0, g, rows(fs@), after@, b, t)),
    decreases v@, 0int,
{
    let ghost acc0 = rows(acc@);
    let m = g.n_terminals;
    let mut i: usize = v.len();
    while i > 0
        invariant
            i <= v.len(),
            m == g.n_terminals,
            m < usize::MAX,
            sets_shaped(rows(fs@), g),
            sets_shaped(rows(acc@), g),
            after@.len() == m + 1,
            children_wf(v@, 0, m as nat, g.n_nonterminals as nat),
            forall|b: int, t: int| 0 <= b < g.n_nonterminals && 0 <= t <= g.n_terminals ==>
                #[trigger] rows(acc@)[b][t] == (acc0[b][t] || alt_walk(v@, i as int, g, rows(fs@), after@, b, t)),
        decreases i,
    {
        i -= 1;
        proof {
            lemma_children_wf_at(v@, 0, i as int, m as nat, g.n_nonterminals as nat);
        }
        let ghost acc1 = rows(acc@);
        follow_walk_into(&v[i], g, fs, after, acc);
        proof {
            assert forall|b: int, t: int| 0 <= b < g.n_nonterminals && 0 <= t <= g.n_terminals implies
                #[trigger] rows(acc@)[b][t] == (acc0[b][t] || alt_walk(v@, i as int, g, rows(fs@), after@, b, t)) by {
                assert(acc1[b][t] == (acc0[b][t] || alt_walk(v@, i + 1, g, rows(fs@), after@, b, t)));
            }
        }
    }
}

/// One round of the FOLLOW equations over `fol`.
pub fn follow_step_rows<H>(ps: &Vec<Production<H>>, g: GrammarShape, start: usize, fs: &Vec<Vec<bool>>, fol: &Vec<Vec<bool>>) -> (r: Vec<Vec<bool>>)
    requires
        start < g.n_nonterminals,
        sets_shaped(rows(fs@), g),
        sets_shaped(rows(fol@), g),
        g.n_terminals < usize::MAX,
        productions_wf(ps@, g),
    ensures
        rows(r@) == follow_step(ps@, g, start as int, rows(fs@), rows(fol@)),
{
    let m = g.n_terminals;
    let mut acc = empty_rows(g.n_nonterminals, m + 1);
    let ghost acc0 = acc@;
    proof {
        assert(rows(acc0).len() == acc0.len());
        assert(rows(acc0)[start as int] == acc0[start as int]@);
    }
    let mut end_row = empty_row(m + 1);
    end_row.set(m, true);
    or_row_at(&mut acc, start, &end_row);
    proof {
        assert forall|b: int| 0 <= b < g.n_nonterminals implies #[trigger] acc@[b]@ == (if b == start {
            end_row@
        } else {
            all_false(g.n_nonterminals as nat, (m + 1) as nat)[b]
        }) by {
            assert(rows(acc0)[b] == acc0[b]@);
            if b == start {
                assert(acc@[b]@ =~= end_row@);
            }
        }
    }
    let ghost target = follow_step(ps@, g, start as int, rows(fs@), rows(fol@));
    proof {
        assert forall|b: int| 0 <= b < g.n_nonterminals implies #[trigger] rows(acc@)[b].len() == m + 1 by {
            assert(rows(acc@)[b] == acc@[b]@);
        }
        assert forall|b: int, t: int| 0 <= b < g.n_nonterminals && 0 <= t <= m implies
            #[trigger] rows(acc@)[b][t] == (b == start && t == m) by {
            assert(rows(acc@)[b] == acc@[b]@);
        }
    }
    let mut j: usize = 0;
    while j < ps.len()
        invariant
            j <= ps.len(),
            m == g.n_terminals,
            m < usize::MAX,
            start < g.n_nonterminals,
            sets_shaped(rows(fs@), g),
            sets_shaped(rows(fol@), g),
            sets_shaped(rows(acc@), g),
            productions_wf(ps@, g),
            forall|b: int, t: int| 0 <= b < g.n_nonterminals && 0 <= t <= m ==>
                #[trigger] rows(acc@)[b][t] == ((b == start && t == m) || exists|k: int| 0 <= k < j
                    && #[trigger] follow_walk(ps@[k].consumed_symbols, g, rows(fs@), rows(fol@)[ps@[k].produced_symbol as int], b, t)),
        decreases ps.len() - j,
    {
        let a = ps[j].produced_symbol;
        proof {
            assert(a < g.n_nonterminals);
            assert(rows(fol@)[a as int] == fol@[a as int]@);
        }
        let ghost acc1 = rows(acc@);
        follow_walk_into(&ps[j].consumed_symbols, g, fs, &fol[a], &mut acc);
        proof {
            assert forall|b: int, t: int| 0 <= b < g.n_nonterminals && 0 <= t <= m implies
                #[trigger] rows(acc@)[b][t] == ((b == start && t == m) || exists|k: int| 0 <= k < j + 1
                    && #[trigger] follow_walk(ps@[k].consumed_symbols, g, rows(fs@), rows(fol@)[ps@[k].produced_symbol as int], b, t)) by {
                if exists|k: int| 0 <= k < j + 1
                    && #[trigger] follow_walk(ps@[k].consumed_symbols, g, rows(fs@), rows(fol@)[ps@[k].produced_symbol as int], b, t) {
                    let k = choose|k: int| 0 <= k < j + 1
                        && #[trigger] follow_walk(ps@[k].consumed_symbols, g, rows(fs@), rows(fol@)[ps@[k].produced_symbol as int], b, t);
                    if k == j {
                        assert(follow_walk(ps@[j as int].consumed_symbols, g, rows(fs@), fol@[a as int]@, b, t));
                    }
                }
                if follow_walk(ps@[j as int].consumed_symbols, g, rows(fs@), fol@[a as int]@, b, t) {
                    assert(follow_walk(ps@[j as int].consumed_symbols, g, rows(fs@), rows(fol@)[ps@[j as int].produced_symbol as int], b, t));
                }
            }
        }
        j += 1;
    }
    proof {
        assert(rows(acc@) =~= target) by {
            assert forall|b: int| 0 <= b < g.n_nonterminals implies rows(acc@)[b] =~= target[b] by {
                assert forall|t: int| 0 <= t <= m implies rows(acc@)[b][t] == target[b][t] by {
                    assert(rows(acc@)[b][t] == ((b == start && t == m) || prod_follow(ps@, g, rows(fs@), rows(fol@), b, t)));
                }
            }
        }
    }
    acc
}

/// FOLLOW of every nonterminal, by iterating the FOLLOW equations from the
/// empty sets until nothing changes; `fs` holds the grammar's FIRST sets.
pub fn derive_follow_sets<H>(ps: &Vec<Production<H>>, g: GrammarShape, start: usize, fs: &Vec<Vec<bool>>) -> (r: Vec<Vec<bool>>)
    requires
        start < g.n_nonterminals,
        g.n_terminals < usize::MAX,
        productions_wf(ps@, g),
        rows(fs@) == first_sets(ps@, g),
    ensures
        rows(r@) == follow_sets(ps@, g, start as int),
        follow_step(ps@, g, start as int, first_sets(ps@, g), rows(r@)) == rows(r@),
{
    let ghost f = first_sets(ps@, g);
    proof {
        crate::first_set::lemma_first_sets_fixed_point(ps@, g);
    }
    let mut cur = empty_rows(g.n_nonterminals, g.n_terminals + 1);
    let ghost bound = count_false(follow_iter(ps@, g, start as int, f, 0));
    let ghost mut k: nat = 0;
    loop
        invariant
            start < g.n_nonterminals,
            g.n_terminals < usize::MAX,
            productions_wf(ps@, g),
            rows(fs@) == f,
            f == first_sets(ps@, g),
            sets_shaped(f, g),
            rows(cur@) == follow_iter(ps@, g, start as int, f, k),
            bound == count_false(follow_iter(ps@, g, start as int, f, 0)),
            k + count_false(rows(cur@)) <= bound,
        decreases count_false(rows(cur@)),
    {
        proof {
            lemma_follow_iter_chain(ps@, g, start as int, f, k);
        }
        let next = follow_step_rows(ps, g, start, fs, &cur);
        if rows_equal(&cur, &next) {
            proof {
                lemma_follow_iter_stable(ps@, g, start as int, f, k, bound);
            }
            return cur;
        }
        proof {
            lemma_count_false_le(rows(cur@), rows(next@));
            k = k + 1;
        }
        cur = next;
    }
}

// ---------------------------------------------------------------------------
// Laws

proof fn lemma_follow_stabilises<H>(ps: Seq<Production<H>>, g: GrammarShape, start: int, fs: Seq<Seq<bool>>, k: nat)
    requires
        productions_wf(ps, g),
    ensures
        (exists|j: nat| j <= k && #[trigger] follow_step(ps, g, start, fs, follow_iter(ps, g, start, fs, j)) == follow_iter(ps, g, start, fs, j))
            || k + count_false(follow_iter(ps, g, start, fs, k)) <= count_false(follow_iter(ps, g, start, fs, 0)),
    decreases k,
{
    if k > 0 {
        let p = (k - 1) as nat;
        lemma_follow_stabilises(ps, g, start, fs, p);
        if !exists|j: nat| j <= k && #[trigger] follow_step(ps, g, start, fs, follow_iter(ps, g, start, fs, j)) == follow_iter(ps, g, start, fs, j) {
            assert(follow_step(ps, g, start, fs, follow_iter(ps, g, start, fs, p)) != follow_iter(ps, g, start, fs, p));
            lemma_follow_iter_chain(ps, g, start, fs, p);
            lemma_count_false_le(follow_iter(ps, g, start, fs, p), follow_iter(ps, g, start, fs, k));
        }
    }
}

/// Fixed point: one more round of the FOLLOW equations over the derived
/// FOLLOW sets changes nothing.
pub proof fn lemma_follow_sets_fixed_point<H>(ps: Seq<Production<H>>, g: GrammarShape, start: int)
    requires
        productions_wf(ps, g),
    ensures
        follow_step(ps, g, start, first_sets(ps, g), follow_sets(ps, g, start)) == follow_sets(ps, g, start),
        sets_shaped(follow_sets(ps, g, start), g),
{
    let fs = first_sets(ps, g);
    let bound = count_false(follow_iter(ps, g, start, fs, 0));
    lemma_follow_stabilises(ps, g, start, fs, bound);
    lemma_follow_iter_chain(ps, g, start, fs, bound);
    if exists|j: nat| j <= bound && #[trigger] follow_step(ps, g, start, fs, follow_iter(ps, g, start, fs, j)) == follow_iter(ps, g, start, fs, j) {
        let j = choose|j: nat| j <= bound && #[trigger] follow_step(ps, g, start, fs, follow_iter(ps, g, start, fs, j)) == follow_iter(ps, g, start, fs, j);
        lemma_follow_iter_stable(ps, g, start, fs, j, bound);
    } else {
        lemma_count_false_le(follow_iter(ps, g, start, fs, bound), follow_iter(ps, g, start, fs, bound + 1));
    }
}

/// FOLLOW of the start symbol contains `$`.
pub proof fn lemma_end_of_input_follows_start<H>(ps: Seq<Production<H>>, g: GrammarShape, start: int)
    requires
        productions_wf(ps, g),
        0 <= start < g.n_nonterminals,
    ensures
        follow_sets(ps, g, start)[start][g.n_terminals as int],
{
    lemma_follow_sets_fixed_point(ps, g, start);
    let fol = follow_sets(ps, g, start);
    assert(follow_step(ps, g, start, first_sets(ps, g), fol)[start][g.n_terminals as int]);
}

/// Every occurrence inside a production body passes what may follow it on to
/// the FOLLOW set of its nonterminal.
pub proof fn lemma_follow_closed<H>(ps: Seq<Production<H>>, g: GrammarShape, start: int, j: int, b: int, t: int)
    requires
        productions_wf(ps, g),
        0 <= j < ps.len(),
        0 <= b < g.n_nonterminals,
        0 <= t <= g.n_terminals,
        follow_walk(ps[j].consumed_symbols, g, first_sets(ps, g), follow_sets(ps, g, start)[ps[j].produced_symbol as int], b, t),
    ensures
        follow_sets(ps, g, start)[b][t],
{
    lemma_follow_sets_fixed_point(ps, g, start);
    let fol = follow_sets(ps, g, start);
    assert(prod_follow(ps, g, first_sets(ps, g), fol, b, t));
    assert(follow_step(ps, g, start, first_sets(ps, g), fol)[b][t]);
}

proof fn lemma_seq_walk_at(xs: Seq<SymbolSequence>, i: int, k: int, g: GrammarShape, fs: Seq<Seq<bool>>, after: Seq<bool>, b: int, t: int)
    requires
        0 <= i <= k < xs.len(),
        follow_walk(xs[k], g, fs, follow_cat(seq_first_row(xs, k + 1, g, fs), after, g.n_terminals as int), b, t),
    ensures
        seq_walk(xs, i, g, fs, after, b, t),
    decreases k - i,
{
    if i < k {
        lemma_seq_walk_at(xs, i + 1, k, g, fs, after, b, t);
    }
}

/// For a production `A → α B β` whose body is a concatenation with `B` at
/// position `i`: FIRST(β) ∖ {ε} ⊆ FOLLOW(B), and when ε ∈ FIRST(β),
/// FOLLOW(A) ⊆ FOLLOW(B).
pub proof fn lemma_follow_of_occurrence<H>(ps: Seq<Production<H>>, g: GrammarShape, start: int, j: int, i: int, t: int)
    requires
        productions_wf(ps, g),
        0 <= j < ps.len(),
        ps[j].consumed_symbols is Sequence,
        0 <= i < ps[j].consumed_symbols->Sequence_0@.len(),
        ps[j].consumed_symbols->Sequence_0@[i] is Single,
        ps[j].consumed_symbols->Sequence_0@[i]->Single_0 is Nonterminal,
        0 <= t <= g.n_terminals,
    ensures
        ({
            let v = ps[j].consumed_symbols->Sequence_0@;
            let b = v[i]->Single_0->Nonterminal_0 as int;
            let fs = first_sets(ps, g);
            let fol = follow_sets(ps, g, start);
            &&& (t < g.n_terminals && seq_first(v, i + 1, g, fs, t)) ==> fol[b][t]
            &&& (seq_first(v, i + 1, g, fs, g.n_terminals as int) && fol[ps[j].produced_symbol as int][t]) ==> fol[b][t]
        }),
{
    let v = ps[j].consumed_symbols->Sequence_0@;
    let b = v[i]->Single_0->Nonterminal_0 as int;
    let fs = first_sets(ps, g);
    let fol = follow_sets(ps, g, start);
    let a = ps[j].produced_symbol as int;
    let m = g.n_terminals as int;
    lemma_follow_sets_fixed_point(ps, g, start);
    assert(seq_wf(ps[j].consumed_symbols, g.n_terminals as nat, g.n_nonterminals as nat));
    lemma_children_wf_at(v, 0, i, g.n_terminals as nat, g.n_nonterminals as nat);
    assert(0 <= a < g.n_nonterminals);
    assert(fol[a].len() == m + 1);
    let after = follow_cat(seq_first_row(v, i + 1, g, fs), fol[a], m);
    if (t < m && seq_first(v, i + 1, g, fs, t)) || (seq_first(v, i + 1, g, fs, m) && fol[a][t]) {
        assert(after[t]);
        assert(follow_walk(v[i], g, fs, after, b, t));
        lemma_seq_walk_at(v, 0, i, g, fs, fol[a], b, t);
        lemma_follow_closed(ps, g, start, j, b, t);
    }
}

proof fn lemma_follow_iter_below<H>(ps: Seq<Production<H>>, g: GrammarShape, start: int, fs: Seq<Seq<bool>>, x: Seq<Seq<bool>>, k: nat)
    requires
        productions_wf(ps, g),
        sets_shaped(x, g),
        rows_le(follow_step(ps, g, start, fs, x), x),
    ensures
        rows_le(follow_iter(ps, g, start, fs, k), x),
    decreases k,
{
    if k == 0 {
        lemma_all_false_le(x, g.n_nonterminals as nat, (g.n_terminals + 1) as nat);
    } else {
        let p = (k - 1) as nat;
        lemma_follow_iter_below(ps, g, start, fs, x, p);
        lemma_follow_iter_chain(ps, g, start, fs, p);
        lemma_follow_step_mono(ps, g, start, fs, follow_iter(ps, g, start, fs, p), x);
        lemma_rows_le_trans(follow_iter(ps, g, start, fs, k), follow_step(ps, g, start, fs, x), x);
    }
}

/// Leastness: the FOLLOW sets lie inside any sets that the FOLLOW equations
/// cannot grow, so every entry of them is owed to the grammar.
pub proof fn lemma_follow_sets_least<H>(ps: Seq<Production<H>>, g: GrammarShape, start: int, x: Seq<Seq<bool>>)
    requires
        productions_wf(ps, g),
        sets_shaped(x, g),
        rows_le(follow_step(ps, g, start, first_sets(ps, g), x), x),
    ensures
        rows_le(follow_sets(ps, g, start), x),
{
    let fs = first_sets(ps, g);
    lemma_follow_iter_below(ps, g, start, fs, x, count_false(follow_iter(ps, g, start, fs, 0)));
}

} // verus!
