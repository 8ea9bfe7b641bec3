//! Grammar symbols and the symbol-sequence algebra that forms the right-hand
//! side of a production.
//!
//! Terminals and nonterminals are identified by their index in the client's
//! enumeration (`0 .. n_terminals`, `0 .. n_nonterminals`).
use vstd::prelude::*;

verus! {

/// A client's enumeration of terminals: each has a printable name and a
/// position, which is its id in productions and in FIRST and FOLLOW sets.
pub trait TerminalSymbol {
    fn get_name(&self) -> &'static str;

    fn index(&self) -> usize;
}

/// A client's enumeration of nonterminals, with names and positions as for
/// terminals.
pub trait NonterminalSymbol {
    fn get_name(&self) -> &'static str;

    fn index(&self) -> usize;
}

/// A symbol used inside a production body.
#[derive(PartialEq, Eq, Structural, Clone, Copy, Debug, Hash)]
pub enum Symbol {
    Terminal(usize),
    Nonterminal(usize),
    Empty,
}

/// An element of a FIRST set: a terminal, or ε.
#[derive(PartialEq, Eq, Structural, Clone, Copy, Debug, Hash)]
pub enum PossiblyEmptyTerminalSymbol {
    Terminal(usize),
    Empty,
}

/// An element of a FOLLOW set: a terminal, or the end of input `$`.
#[derive(PartialEq, Eq, Structural, Clone, Copy, Debug, Hash)]
pub enum PossiblyEndOfFileTerminalSymbol {
    Terminal(usize),
    EndOfFile,
}

/// The sizes of the two enumerations, and the terminal, if any, that stands
/// for ε when it appears in a production body.
#[derive(PartialEq, Eq, Structural, Clone, Copy, Debug)]
pub struct GrammarShape {
    pub n_terminals: usize,
    pub n_nonterminals: usize,
    pub empty_symbol: Option<usize>,
}

/// The EBNF right-hand side of a production.
#[derive(Debug)]
pub enum SymbolSequence {
    Single(Symbol),
    Sequence(Vec<SymbolSequence>),
    Optional(Box<SymbolSequence>),
    Repeated(Box<SymbolSequence>),
    Alternatives(Vec<SymbolSequence>),
}

impl Symbol {
    /// Every terminal and nonterminal id is inside the enumeration.
    pub open spec fn wf(self, n_terminals: nat, n_nonterminals: nat) -> bool {
        match self {
            Symbol::Terminal(t) => t < n_terminals,
            Symbol::Nonterminal(n) => n < n_nonterminals,
            Symbol::Empty => true,
        }
    }
}

/// Every symbol of the tree names a terminal or nonterminal in range.
pub open spec fn seq_wf(s: SymbolSequence, n_terminals: nat, n_nonterminals: nat) -> bool
    decreases s, 0int,
{
    match s {
        SymbolSequence::Single(sym) => sym.wf(n_terminals, n_nonterminals),
        SymbolSequence::Sequence(v) => children_wf(v@, 0, n_terminals, n_nonterminals),
        SymbolSequence::Optional(b) => seq_wf(*b, n_terminals, n_nonterminals),
        SymbolSequence::Repeated(b) => seq_wf(*b, n_terminals, n_nonterminals),
        SymbolSequence::Alternatives(v) => children_wf(v@, 0, n_terminals, n_nonterminals),
    }
}

/// `seq_wf` holds of `xs[i..]`.
pub open spec fn children_wf(xs: Seq<SymbolSequence>, i: int, n_terminals: nat, n_nonterminals: nat) -> bool
    decreases xs, xs.len() - i,
{
    if i < 0 || i >= xs.len() {
        true
    } else {
        seq_wf(xs[i], n_terminals, n_nonterminals) && children_wf(xs, i + 1, n_terminals, n_nonterminals)
    }
}

/// `children_wf` holds of `xs[i..]` when each of its children is well formed.
pub proof fn lemma_children_wf_all(xs: Seq<SymbolSequence>, i: int, n_terminals: nat, n_nonterminals: nat)
    requires
        0 <= i,
        forall|k: int| i <= k < xs.len() ==> seq_wf(#[trigger] xs[k], n_terminals, n_nonterminals),
    ensures
        children_wf(xs, i, n_terminals, n_nonterminals),
    decreases xs.len() - i,
{
    if i < xs.len() {
        lemma_children_wf_all(xs, i + 1, n_terminals, n_nonterminals);
    }
}

/// A tree as a mathematical value: its children as sequences.
#[verifier::ext_equal]
pub enum SequenceView {
    Terminal(usize),
    Nonterminal(usize),
    Empty,
    Sequence(Seq<SequenceView>),
    Optional(Box<SequenceView>),
    Repeated(Box<SequenceView>),
    Alternatives(Seq<SequenceView>),
}

/// The view of a tree.
pub open spec fn seq_view(s: SymbolSequence) -> SequenceView
    decreases s, 0int,
{
    match s {
        SymbolSequence::Single(sym) => match sym {
            Symbol::Terminal(t) => SequenceView::Terminal(t),
            Symbol::Nonterminal(n) => SequenceView::Nonterminal(n),
            Symbol::Empty => SequenceView::Empty,
        },
        SymbolSequence::Sequence(v) => SequenceView::Sequence(children_view(v@, 0)),
        SymbolSequence::Optional(b) => SequenceView::Optional(Box::new(seq_view(*b))),
        SymbolSequence::Repeated(b) => SequenceView::Repeated(Box::new(seq_view(*b))),
        SymbolSequence::Alternatives(v) => SequenceView::Alternatives(children_view(v@, 0)),
    }
}

/// The views of `xs[i..]`.
pub open spec fn children_view(xs: Seq<SymbolSequence>, i: int) -> Seq<SequenceView>
    decreases xs, xs.len() - i,
{
    if i < 0 || i >= xs.len() {
        Seq::empty()
    } else {
        seq![seq_view(xs[i])] + children_view(xs, i + 1)
    }
}

/// `children_view` lists the view of each child in order.
pub proof fn lemma_children_view(xs: Seq<SymbolSequence>, i: int)
    requires
        0 <= i <= xs.len(),
    ensures
        children_view(xs, i) =~= Seq::new((xs.len() - i) as nat, |k: int| seq_view(xs[i + k])),
    decreases xs.len() - i,
{
    if i < xs.len() {
        lemma_children_view(xs, i + 1);
    }
}

/// The set of symbols that occur in the tree.
pub open spec fn symbols_of(s: SymbolSequence) -> Set<Symbol>
    decreases s, 0int,
{
    match s {
        SymbolSequence::Single(sym) => set![sym],
        SymbolSequence::Sequence(v) => children_symbols(v@, 0),
        SymbolSequence::Optional(b) => symbols_of(*b),
        SymbolSequence::Repeated(b) => symbols_of(*b),
        SymbolSequence::Alternatives(v) => children_symbols(v@, 0),
    }
}

/// The symbols that occur in `xs[i..]`.
pub open spec fn children_symbols(xs: Seq<SymbolSequence>, i: int) -> Set<Symbol>
    decreases xs, xs.len() - i,
{
    if i < 0 || i >= xs.len() {
        Set::empty()
    } else {
        symbols_of(xs[i]).union(children_symbols(xs, i + 1))
    }
}

impl SymbolSequence {
    pub fn from_terminal(terminal: usize) -> (r: SymbolSequence)
        ensures
            r == SymbolSequence::Single(Symbol::Terminal(terminal)),
    {
        SymbolSequence::Single(Symbol::Terminal(terminal))
    }

    pub fn from_nonterminal(nonterminal: usize) -> (r: SymbolSequence)
        ensures
            r == SymbolSequence::Single(Symbol::Nonterminal(nonterminal)),
    {
        SymbolSequence::Single(Symbol::Nonterminal(nonterminal))
    }

    pub fn from_symbol(symbol: Symbol) -> (r: SymbolSequence)
        ensures
            r == SymbolSequence::Single(symbol),
    {
        SymbolSequence::Single(symbol)
    }

    /// A choice between two sequences.
    pub fn either(opt1: SymbolSequence, opt2: SymbolSequence) -> (r: SymbolSequence)
        ensures
            r matches SymbolSequence::Alternatives(v) && v@ == seq![opt1, opt2],
    {
        SymbolSequence::Alternatives(vec![opt1, opt2])
    }

    /// Zero or more repetitions of `seq`.
    pub fn many(seq: SymbolSequence) -> (r: SymbolSequence)
        ensures
            r == SymbolSequence::Repeated(Box::new(seq)),
    {
        SymbolSequence::Repeated(Box::new(seq))
    }

    /// Zero or one occurrence of `seq`.
    pub fn maybe(seq: SymbolSequence) -> (r: SymbolSequence)
        ensures
            r == SymbolSequence::Optional(Box::new(seq)),
    {
        SymbolSequence::Optional(Box::new(seq))
    }

    /// Every symbol that occurs in the tree, each once.
    pub fn collect_dependencies(&self) -> (r: Vec<Symbol>)
        ensures
            r@.to_set() == symbols_of(*self),
            r@.no_duplicates(),
        decreases self, 0int,
    {
        match self {
            SymbolSequence::Single(sym) => {
                let r = vec![*sym];
                proof {
                    assert(r@.to_set() =~= set![*sym]);
                }
                r
            },
            SymbolSequence::Sequence(v) => collect_children(v, 0),
            SymbolSequence::Optional(b) => b.collect_dependencies(),
            SymbolSequence::Repeated(b) => b.collect_dependencies(),
            SymbolSequence::Alternatives(v) => collect_children(v, 0),
        }
    }
}

/// Adds the elements of `src` that `dst` lacks.
fn extend_unique(dst: &mut Vec<Symbol>, src: &Vec<Symbol>)
    requires
        old(dst)@.no_duplicates(),
    ensures
        final(dst)@.no_duplicates(),
        final(dst)@.to_set() == old(dst)@.to_set().union(src@.to_set()),
{
    let mut i: usize = 0;
    while i < src.len()
        invariant
            i <= src.len(),
            dst@.no_duplicates(),
            forall|y: Symbol| #[trigger] dst@.contains(y) <==> (old(dst)@.contains(y) || exists|k: int| 0 <= k < i && src@[k] == y),
        decreases src.len() - i,
    {
        let x = src[i];
        let mut found = false;
        let mut j: usize = 0;
        while j < dst.len()
            invariant
                j <= dst.len(),
                found <==> exists|k: int| 0 <= k < j && dst@[k] == x,
            decreases dst.len() - j,
        {
            if dst[j] == x {
                found = true;
            }
            j += 1;
        }
        let ghost d0 = dst@;
        if !found {
            dst.push(x);
            proof {
                assert(dst@ == d0.push(x));
                assert forall|y: Symbol| dst@.contains(y) <==> (d0.contains(y) || y == x) by {
                    if dst@.contains(y) {
                        let k = choose|k: int| 0 <= k < dst@.len() && dst@[k] == y;
                        if k < d0.len() {
                            assert(d0[k] == y);
                        }
                    }
                    if d0.contains(y) {
                        let k = choose|k: int| 0 <= k < d0.len() && d0[k] == y;
                        assert(dst@[k] == y);
                    }
                    if y == x {
                        assert(dst@[d0.len() as int] == y);
                    }
                }
                assert forall|a: int, b: int| 0 <= a < dst@.len() && 0 <= b < dst@.len() && a != b implies dst@[a] != dst@[b] by {
                    if a == d0.len() {
                        assert(!d0.contains(x));
                        if dst@[a] == dst@[b] {
                            assert(d0[b] == x);
                        }
                    } else if b == d0.len() {
                        if dst@[a] == dst@[b] {
                            assert(d0[a] == x);
                        }
                    }
                }
            }
        }
        proof {
            assert forall|y: Symbol| #[trigger] dst@.contains(y) <==> (old(dst)@.contains(y) || exists|k: int| 0 <= k < i + 1 && src@[k] == y) by {
                assert(d0.contains(y) <==> (old(dst)@.contains(y) || exists|k: int| 0 <= k < i && src@[k] == y));
                if y == x {
                    assert(src@[i as int] == y);
                }
                if exists|k: int| 0 <= k < i + 1 && src@[k] == y {
                    let k = choose|k: int| 0 <= k < i + 1 && src@[k] == y;
                    if k < i {
                        assert(exists|k: int| 0 <= k < i && src@[k] == y);
                    }
                }
                if found {
                    let k = choose|k: int| 0 <= k < d0.len() && d0[k] == x;
                    assert(d0.contains(x));
                }
            }
        }
        i += 1;
    }
    proof {
        assert(final(dst)@.to_set() =~= old(dst)@.to_set().union(src@.to_set())) by {
            assert forall|y: Symbol| final(dst)@.to_set().contains(y) <==> old(dst)@.to_set().union(src@.to_set()).contains(y) by {
                if src@.contains(y) {
                    let k = choose|k: int| 0 <= k < src@.len() && src@[k] == y;
                    assert(final(dst)@.contains(y));
                }
            }
        }
    }
}

/// Every symbol that occurs in `v[i..]`, each once.
fn collect_children(v: &Vec<SymbolSequence>, i: usize) -> (r: Vec<Symbol>)
    requires
        i <= v.len(),
    ensures
        r@.to_set() == children_symbols(v@, i as int),
        r@.no_duplicates(),
    decreases v@, v.len() - i,
{
    if i == v.len() {
        let r: Vec<Symbol> = Vec::new();
        proof {
            assert(r@.to_set() =~= Set::empty());
        }
        r
    } else {
        let mut r = v[i].collect_dependencies();
        let rest = collect_children(v, i + 1);
        extend_unique(&mut r, &rest);
        r
    }
}

} // verus!
