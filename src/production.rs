//! Productions `A → α` and their builder.
use vstd::prelude::*;
use crate::symbol::SymbolSequence;

verus! {

/// A rule binding the nonterminal `produced_symbol` to the right-hand side
/// `consumed_symbols`, together with the handler that reduces a match of it.
pub struct Production<H> {
    pub produced_symbol: usize,
    pub consumed_symbols: SymbolSequence,
    pub reduce_handler: H,
}

impl<H> Production<H> {
    pub fn builder() -> (r: ProductionBuilder<H>)
        ensures
            r.produced_symbol is None,
            r.consumed_symbols is None,
            r.reduce_handler is None,
    {
        ProductionBuilder::new()
    }

    pub fn new(produced_symbol: usize, consumed_symbols: SymbolSequence, reduce_handler: H) -> (r: Production<H>)
        ensures
            r.produced_symbol == produced_symbol,
            r.consumed_symbols == consumed_symbols,
            r.reduce_handler == reduce_handler,
    {
        Production { produced_symbol, consumed_symbols, reduce_handler }
    }

    /// Whether this production has `symbol` on its left-hand side.
    pub fn produces(&self, symbol: usize) -> (r: bool)
        ensures
            r == (self.produced_symbol == symbol),
    {
        self.produced_symbol == symbol
    }
}

/// Collects the three settings of a production; `build` succeeds once all
/// three are present.
pub struct ProductionBuilder<H> {
    pub produced_symbol: Option<usize>,
    pub consumed_symbols: Option<SymbolSequence>,
    pub reduce_handler: Option<H>,
}

impl<H> ProductionBuilder<H> {
    pub fn new() -> (r: ProductionBuilder<H>)
        ensures
            r.produced_symbol is None,
            r.consumed_symbols is None,
            r.reduce_handler is None,
    {
        ProductionBuilder { produced_symbol: None, consumed_symbols: None, reduce_handler: None }
    }

    pub fn producing(self, produced_symbol: usize) -> (r: ProductionBuilder<H>)
        ensures
            r.produced_symbol == Some(produced_symbol),
            r.consumed_symbols == self.consumed_symbols,
            r.reduce_handler == self.reduce_handler,
    {
        ProductionBuilder {
            produced_symbol: Some(produced_symbol),
            consumed_symbols: self.consumed_symbols,
            reduce_handler: self.reduce_handler,
        }
    }

    pub fn from(self, symbol_seq: SymbolSequence) -> (r: ProductionBuilder<H>)
        ensures
            r.produced_symbol == self.produced_symbol,
            r.consumed_symbols == Some(symbol_seq),
            r.reduce_handler == self.reduce_handler,
    {
        ProductionBuilder {
            produced_symbol: self.produced_symbol,
            consumed_symbols: Some(symbol_seq),
            reduce_handler: self.reduce_handler,
        }
    }

    pub fn with_handler(self, handler: H) -> (r: ProductionBuilder<H>)
        ensures
            r.produced_symbol == self.produced_symbol,
            r.consumed_symbols == self.consumed_symbols,
            r.reduce_handler == Some(handler),
    {
        ProductionBuilder {
            produced_symbol: self.produced_symbol,
            consumed_symbols: self.consumed_symbols,
            reduce_handler: Some(handler),
        }
    }

    /// The production, or `None` when a setting is missing.
    pub fn build(self) -> (r: Option<Production<H>>)
        ensures
            r is Some <==> (self.produced_symbol is Some && self.consumed_symbols is Some
                && self.reduce_handler is Some),
            r matches Some(p) ==> (Some(p.produced_symbol) == self.produced_symbol
                && Some(p.consumed_symbols) == self.consumed_symbols
                && Some(p.reduce_handler) == self.reduce_handler),
    {
        match (self.produced_symbol, self.consumed_symbols, self.reduce_handler) {
            (Some(n), Some(body), Some(h)) => Some(Production::new(n, body, h)),
            _ => None,
        }
    }
}

} // verus!
