//! The parser builder: collects productions and derives the FIRST and FOLLOW
//! sets that a predictive parse table is built from.
use vstd::prelude::*;
use crate::symbol::{SymbolSequence, GrammarShape, PossiblyEmptyTerminalSymbol, PossiblyEndOfFileTerminalSymbol, seq_wf};
use crate::production::Production;
use crate::sets::rows;
use crate::first_set::{in_first, sets_shaped, productions_wf, first_sets, derive_first_sets, first_of};
use crate::follow_set::{follow_sets, derive_follow_sets};

verus! {

pub struct ParserBuilder<H> {
    pub productions: Vec<Production<H>>,
    pub shape: GrammarShape,
    pub start_symbol: Option<usize>,
}

/// The derived sets of a grammar, read-only once built.
pub struct GrammarSets {
    pub shape: GrammarShape,
    pub start_symbol: usize,
    pub first_sets: Vec<Vec<bool>>,
    pub follow_sets: Vec<Vec<bool>>,
}

impl<H> ParserBuilder<H> {
    /// The builder's productions are well formed over its enumerations.
    pub open spec fn wf(&self) -> bool {
        &&& self.shape.n_terminals < usize::MAX
        &&& productions_wf(self.productions@, self.shape)
    }

    /// A builder over `n_terminals` terminals and `n_nonterminals`
    /// nonterminals, with no production and no start symbol.
    pub fn new(n_terminals: usize, n_nonterminals: usize) -> (r: ParserBuilder<H>)
        requires
            n_terminals < usize::MAX,
        ensures
            r.wf(),
            r.productions@.len() == 0,
            r.shape == (GrammarShape { n_terminals, n_nonterminals, empty_symbol: None }),
            r.start_symbol is None,
    {
        ParserBuilder {
            productions: Vec::new(),
            shape: GrammarShape { n_terminals, n_nonterminals, empty_symbol: None },
            start_symbol: None,
        }
    }

    pub fn with_production(self, production: Production<H>) -> (r: ParserBuilder<H>)
        requires
            self.wf(),
            production.produced_symbol < self.shape.n_nonterminals,
            seq_wf(production.consumed_symbols, self.shape.n_terminals as nat, self.shape.n_nonterminals as nat),
        ensures
            r.wf(),
            r.productions@ == self.productions@.push(production),
            r.shape == self.shape,
            r.start_symbol == self.start_symbol,
    {
        let mut ps = self.productions;
        ps.push(production);
        let r = ParserBuilder { productions: ps, shape: self.shape, start_symbol: self.start_symbol };
        proof {
            assert forall|j: int| 0 <= j < r.productions@.len() implies (#[trigger] r.productions@[j]).produced_symbol < r.shape.n_nonterminals
                && seq_wf(r.productions@[j].consumed_symbols, r.shape.n_terminals as nat, r.shape.n_nonterminals as nat) by {
                if j < self.productions@.len() {
                    assert(r.productions@[j] == self.productions@[j]);
                }
            }
        }
        r
    }

    /// Moves every production of `productions` into the builder, leaving it
    /// empty.
    pub fn with_productions(self, productions: &mut Vec<Production<H>>) -> (r: ParserBuilder<H>)
        requires
            self.wf(),
            productions_wf(old(productions)@, self.shape),
        ensures
            r.wf(),
            r.productions@ == self.productions@ + old(productions)@,
            final(productions)@.len() == 0,
            r.shape == self.shape,
            r.start_symbol == self.start_symbol,
    {
        let mut ps = self.productions;
        ps.append(productions);
        let r = ParserBuilder { productions: ps, shape: self.shape, start_symbol: self.start_symbol };
        proof {
            assert forall|j: int| 0 <= j < r.productions@.len() implies (#[trigger] r.productions@[j]).produced_symbol < r.shape.n_nonterminals
                && seq_wf(r.productions@[j].consumed_symbols, r.shape.n_terminals as nat, r.shape.n_nonterminals as nat) by {
                if j < self.productions@.len() {
                    assert(r.productions@[j] == self.productions@[j]);
                } else {
                    assert(r.productions@[j] == old(productions)@[j - self.productions@.len()]);
                }
            }
        }
        r
    }

    pub fn with_start_symbol(self, start_symbol: usize) -> (r: ParserBuilder<H>)
        requires
            self.wf(),
        ensures
            r.wf(),
            r.productions@ == self.productions@,
            r.shape == self.shape,
            r.start_symbol == Some(start_symbol),
    {
        ParserBuilder { productions: self.productions, shape: self.shape, start_symbol: Some(start_symbol) }
    }

    /// Declares the terminal that means ε where it appears in a body.
    pub fn with_empty_symbol(self, empty_symbol: usize) -> (r: ParserBuilder<H>)
        requires
            self.wf(),
        ensures
            r.wf(),
            r.productions@ == self.productions@,
            r.shape == (GrammarShape { empty_symbol: Some(empty_symbol), ..self.shape }),
            r.start_symbol == self.start_symbol,
    {
        let shape = GrammarShape { empty_symbol: Some(empty_symbol), ..self.shape };
        let r = ParserBuilder { productions: self.productions, shape, start_symbol: self.start_symbol };
        proof {
            assert forall|j: int| 0 <= j < r.productions@.len() implies (#[trigger] r.productions@[j]).produced_symbol < r.shape.n_nonterminals
                && seq_wf(r.productions@[j].consumed_symbols, r.shape.n_terminals as nat, r.shape.n_nonterminals as nat) by {
                assert(r.productions@[j] == self.productions@[j]);
            }
        }
        r
    }

    /// Whether some production has `nonterminal` on its left-hand side.
    pub fn production_exists_for(&self, nonterminal: usize) -> (r: bool)
        ensures
            r == exists|j: int| 0 <= j < self.productions@.len() && (#[trigger] self.productions@[j]).produced_symbol == nonterminal,
    {
        let mut j: usize = 0;
        while j < self.productions.len()
            invariant
                j <= self.productions@.len(),
                forall|k: int| 0 <= k < j ==> (#[trigger] self.productions@[k]).produced_symbol != nonterminal,
            decreases self.productions.len() - j,
        {
            if self.productions[j].produces(nonterminal) {
                return true;
            }
            j += 1;
        }
        false
    }

    /// Derives the FIRST and FOLLOW sets of every nonterminal. Fails when no
    /// start symbol is set or no production produces it.
    pub fn build(self) -> (r: Option<GrammarSets>)
        requires
            self.wf(),
        ensures
            r is Some <==> (self.start_symbol is Some && exists|j: int| 0 <= j < self.productions@.len()
                && (#[trigger] self.productions@[j]).produced_symbol == self.start_symbol->Some_0),
            r matches Some(t) ==> {
                &&& t.shape == self.shape
                &&& Some(t.start_symbol) == self.start_symbol
                &&& t.start_symbol < self.shape.n_nonterminals
                &&& rows(t.first_sets@) == first_sets(self.productions@, self.shape)
                &&& rows(t.follow_sets@) == follow_sets(self.productions@, self.shape, t.start_symbol as int)
                &&& t.wf()
            },
    {
        match self.start_symbol {
            None => None,
            Some(start) => {
                if !self.production_exists_for(start) {
                    return None;
                }
                proof {
                    let j = choose|j: int| 0 <= j < self.productions@.len() && (#[trigger] self.productions@[j]).produced_symbol == start;
                    assert(self.productions@[j].produced_symbol < self.shape.n_nonterminals);
                    crate::first_set::lemma_first_sets_fixed_point(self.productions@, self.shape);
                    crate::follow_set::lemma_follow_sets_fixed_point(self.productions@, self.shape, start as int);
                }
                let first = derive_first_sets(&self.productions, self.shape);
                let follow = derive_follow_sets(&self.productions, self.shape, start, &first);
                Some(GrammarSets { shape: self.shape, start_symbol: start, first_sets: first, follow_sets: follow })
            },
        }
    }
}

/// Pushing `x` onto a sequence that lacks it adds exactly `x` and keeps the
/// elements distinct.
proof fn lemma_push_contains<A>(s: Seq<A>, x: A)
    requires
        s.no_duplicates(),
        !s.contains(x),
    ensures
        s.push(x).no_duplicates(),
        forall|y: A| #[trigger] s.push(x).contains(y) <==> (s.contains(y) || y == x),
{
    let p = s.push(x);
    assert forall|y: A| #[trigger] p.contains(y) <==> (s.contains(y) || y == x) by {
        if p.contains(y) {
            let k = choose|k: int| 0 <= k < p.len() && p[k] == y;
            if k < s.len() {
                assert(s[k] == y);
            }
        }
        if s.contains(y) {
            let k = choose|k: int| 0 <= k < s.len() && s[k] == y;
            assert(p[k] == y);
        }
        if y == x {
            assert(p[s.len() as int] == y);
        }
    }
    assert forall|i: int, j: int| 0 <= i < p.len() && 0 <= j < p.len() && i != j implies p[i] != p[j] by {
        if i == s.len() && p[i] == p[j] {
            assert(s[j] == x);
        }
        if j == s.len() && p[i] == p[j] {
            assert(s[i] == x);
        }
    }
}

impl GrammarSets {
    /// Both families of sets have one row per nonterminal and one entry per
    /// terminal, plus the ε or `$` entry.
    pub open spec fn wf(&self) -> bool {
        &&& self.shape.n_terminals < usize::MAX
        &&& sets_shaped(rows(self.first_sets@), self.shape)
        &&& sets_shaped(rows(self.follow_sets@), self.shape)
    }

    /// Whether FIRST(`nonterminal`) holds `symbol`.
    pub fn first_contains(&self, nonterminal: usize, symbol: PossiblyEmptyTerminalSymbol) -> (r: bool)
        requires
            self.wf(),
        ensures
            r == (nonterminal < self.shape.n_nonterminals && match symbol {
                PossiblyEmptyTerminalSymbol::Terminal(t) => t < self.shape.n_terminals
                    && rows(self.first_sets@)[nonterminal as int][t as int],
                PossiblyEmptyTerminalSymbol::Empty => rows(self.first_sets@)[nonterminal as int][self.shape.n_terminals as int],
            }),
    {
        if nonterminal >= self.shape.n_nonterminals {
            return false;
        }
        proof {
            assert(rows(self.first_sets@)[nonterminal as int] == self.first_sets@[nonterminal as int]@);
        }
        match symbol {
            PossiblyEmptyTerminalSymbol::Terminal(t) => t < self.shape.n_terminals && self.first_sets[nonterminal][t],
            PossiblyEmptyTerminalSymbol::Empty => self.first_sets[nonterminal][self.shape.n_terminals],
        }
    }

    /// Whether FOLLOW(`nonterminal`) holds `symbol`.
    pub fn follow_contains(&self, nonterminal: usize, symbol: PossiblyEndOfFileTerminalSymbol) -> (r: bool)
        requires
            self.wf(),
        ensures
            r == (nonterminal < self.shape.n_nonterminals && match symbol {
                PossiblyEndOfFileTerminalSymbol::Terminal(t) => t < self.shape.n_terminals
                    && rows(self.follow_sets@)[nonterminal as int][t as int],
                PossiblyEndOfFileTerminalSymbol::EndOfFile => rows(self.follow_sets@)[nonterminal as int][self.shape.n_terminals as int],
            }),
    {
        if nonterminal >= self.shape.n_nonterminals {
            return false;
        }
        proof {
            assert(rows(self.follow_sets@)[nonterminal as int] == self.follow_sets@[nonterminal as int]@);
        }
        match symbol {
            PossiblyEndOfFileTerminalSymbol::Terminal(t) => t < self.shape.n_terminals && self.follow_sets[nonterminal][t],
            PossiblyEndOfFileTerminalSymbol::EndOfFile => self.follow_sets[nonterminal][self.shape.n_terminals],
        }
    }

    /// FIRST(`nonterminal`), terminals in increasing order, then ε.
    pub fn first_set(&self, nonterminal: usize) -> (r: Vec<PossiblyEmptyTerminalSymbol>)
        requires
            self.wf(),
            nonterminal < self.shape.n_nonterminals,
        ensures
            r@.no_duplicates(),
            forall|x: PossiblyEmptyTerminalSymbol| r@.contains(x) <==> match x {
                PossiblyEmptyTerminalSymbol::Terminal(t) => t < self.shape.n_terminals
                    && rows(self.first_sets@)[nonterminal as int][t as int],
                PossiblyEmptyTerminalSymbol::Empty => rows(self.first_sets@)[nonterminal as int][self.shape.n_terminals as int],
            },
    {
        proof {
            assert(rows(self.first_sets@)[nonterminal as int] == self.first_sets@[nonterminal as int]@);
        }
        let row = &self.first_sets[nonterminal];
        let m = self.shape.n_terminals;
        let mut r: Vec<PossiblyEmptyTerminalSymbol> = Vec::new();
        let mut t: usize = 0;
        while t < m
            invariant
                t <= m,
                m == self.shape.n_terminals,
                row@.len() == m + 1,
                r@.no_duplicates(),
                forall|u: usize| #[trigger] r@.contains(PossiblyEmptyTerminalSymbol::Terminal(u)) <==> (u < t && row@[u as int]),
                !r@.contains(PossiblyEmptyTerminalSymbol::Empty),
            decreases m - t,
        {
            let ghost r0 = r@;
            if row[t] {
                r.push(PossiblyEmptyTerminalSymbol::Terminal(t));
                proof {
                    lemma_push_contains(r0, PossiblyEmptyTerminalSymbol::Terminal(t));
                }
            }
            t += 1;
        }
        if row[m] {
            let ghost r0 = r@;
            r.push(PossiblyEmptyTerminalSymbol::Empty);
            proof {
                lemma_push_contains(r0, PossiblyEmptyTerminalSymbol::Empty);
            }
        }
        proof {
            assert forall|x: PossiblyEmptyTerminalSymbol| r@.contains(x) <==> match x {
                PossiblyEmptyTerminalSymbol::Terminal(t) => t < self.shape.n_terminals
                    && rows(self.first_sets@)[nonterminal as int][t as int],
                PossiblyEmptyTerminalSymbol::Empty => rows(self.first_sets@)[nonterminal as int][self.shape.n_terminals as int],
            } by {
                match x {
                    PossiblyEmptyTerminalSymbol::Terminal(u) => {
                        assert(r@.contains(PossiblyEmptyTerminalSymbol::Terminal(u)) <==> (u < m && row@[u as int]));
                    },
                    _ => {},
                }
            }
        }
        r
    }

    /// FOLLOW(`nonterminal`), terminals in increasing order, then `$`.
    pub fn follow_set(&self, nonterminal: usize) -> (r: Vec<PossiblyEndOfFileTerminalSymbol>)
        requires
            self.wf(),
            nonterminal < self.shape.n_nonterminals,
        ensures
            r@.no_duplicates(),
            forall|x: PossiblyEndOfFileTerminalSymbol| r@.contains(x) <==> match x {
                PossiblyEndOfFileTerminalSymbol::Terminal(t) => t < self.shape.n_terminals
                    && rows(self.follow_sets@)[nonterminal as int][t as int],
                PossiblyEndOfFileTerminalSymbol::EndOfFile => rows(self.follow_sets@)[nonterminal as int][self.shape.n_terminals as int],
            },
    {
        proof {
            assert(rows(self.follow_sets@)[nonterminal as int] == self.follow_sets@[nonterminal as int]@);
        }
        let row = &self.follow_sets[nonterminal];
        let m = self.shape.n_terminals;
        let mut r: Vec<PossiblyEndOfFileTerminalSymbol> = Vec::new();
        let mut t: usize = 0;
        while t < m
            invariant
                t <= m,
                m == self.shape.n_terminals,
                row@.len() == m + 1,
                r@.no_duplicates(),
                forall|u: usize| #[trigger] r@.contains(PossiblyEndOfFileTerminalSymbol::Terminal(u)) <==> (u < t && row@[u as int]),
                !r@.contains(PossiblyEndOfFileTerminalSymbol::EndOfFile),
            decreases m - t,
        {
            let ghost r0 = r@;
            if row[t] {
                r.push(PossiblyEndOfFileTerminalSymbol::Terminal(t));
                proof {
                    lemma_push_contains(r0, PossiblyEndOfFileTerminalSymbol::Terminal(t));
                }
            }
            t += 1;
        }
        if row[m] {
            let ghost r0 = r@;
            r.push(PossiblyEndOfFileTerminalSymbol::EndOfFile);
            proof {
                lemma_push_contains(r0, PossiblyEndOfFileTerminalSymbol::EndOfFile);
            }
        }
        proof {
            assert forall|x: PossiblyEndOfFileTerminalSymbol| r@.contains(x) <==> match x {
                PossiblyEndOfFileTerminalSymbol::Terminal(t) => t < self.shape.n_terminals
                    && rows(self.follow_sets@)[nonterminal as int][t as int],
                PossiblyEndOfFileTerminalSymbol::EndOfFile => rows(self.follow_sets@)[nonterminal as int][self.shape.n_terminals as int],
            } by {
                match x {
                    PossiblyEndOfFileTerminalSymbol::Terminal(u) => {
                        assert(r@.contains(PossiblyEndOfFileTerminalSymbol::Terminal(u)) <==> (u < m && row@[u as int]));
                    },
                    _ => {},
                }
            }
        }
        r
    }

    /// FIRST of an arbitrary sequence over the derived sets, as a row whose
    /// last entry is ε.
    pub fn first_of_sequence(&self, seq: &SymbolSequence) -> (r: Vec<bool>)
        requires
            self.wf(),
            seq_wf(*seq, self.shape.n_terminals as nat, self.shape.n_nonterminals as nat),
        ensures
            r@.len() == self.shape.n_terminals + 1,
            forall|e: int| 0 <= e <= self.shape.n_terminals ==> #[trigger] r@[e] == in_first(*seq, self.shape, rows(self.first_sets@), e),
    {
        first_of(seq, self.shape, &self.first_sets)
    }
}

} // verus!
