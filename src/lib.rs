//! A tokeniser driven by an ordered table of lexeme rules, and a grammar
//! toolkit that derives FIRST and FOLLOW sets over an EBNF-like symbol algebra,
//! instantiated for Lua 5.3.
use vstd::prelude::*;

pub mod symbol;
pub mod production;
pub mod sets;
pub mod first_set;
pub mod follow_set;
pub mod parser_builder;
pub mod lua_symbols;
pub mod token;
pub mod tokeniser_state;
pub mod lua_lexemes;
pub mod tokeniser;
pub mod lua_tokeniser;
pub mod lua_grammar;
pub mod lua_node;
pub mod text;

verus! {

/// Always true: a smoke check that the library links.
pub fn test_fn() -> (r: bool)
    ensures
        r,
{
    true
}

} // verus!
