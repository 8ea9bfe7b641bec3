//! The Lua 5.3 grammar, as productions over `LuaTerminal` and
//! `LuaNonterminal`.
use vstd::prelude::*;
use crate::lua_symbols::{LuaTerminal, LuaNonterminal, LUA_TERMINAL_COUNT, LUA_NONTERMINAL_COUNT};
use crate::symbol::{SymbolSequence, GrammarShape, SequenceView, seq_wf, seq_view, children_view, lemma_children_wf_all, lemma_children_view};
use crate::production::Production;
use crate::sets::rows;
use crate::first_set::first_sets;
use crate::follow_set::follow_sets;
use crate::parser_builder::{ParserBuilder, GrammarSets};

verus! {

/// The enumerations of the Lua grammar.
pub open spec fn lua_shape() -> GrammarShape {
    GrammarShape { n_terminals: LUA_TERMINAL_COUNT, n_nonterminals: LUA_NONTERMINAL_COUNT, empty_symbol: None }
}

/// Well formed over the Lua enumerations.
pub open spec fn lua_wf(s: SymbolSequence) -> bool {
    seq_wf(s, LUA_TERMINAL_COUNT as nat, LUA_NONTERMINAL_COUNT as nat)
}

/// The left-hand sides and the views of the bodies of `ps`.
pub open spec fn productions_view<H>(ps: Seq<Production<H>>) -> Seq<(usize, SequenceView)> {
    Seq::new(ps.len(), |j: int| (ps[j].produced_symbol, seq_view(ps[j].consumed_symbols)))
}

pub open spec fn v_t(x: LuaTerminal) -> SequenceView {
    SequenceView::Terminal(x.spec_index())
}

pub open spec fn v_n(x: LuaNonterminal) -> SequenceView {
    SequenceView::Nonterminal(x.spec_index())
}

pub open spec fn v_all(xs: Seq<SequenceView>) -> SequenceView {
    SequenceView::Sequence(xs)
}

pub open spec fn v_one_of(xs: Seq<SequenceView>) -> SequenceView {
    SequenceView::Alternatives(xs)
}

pub open spec fn v_many(x: SequenceView) -> SequenceView {
    SequenceView::Repeated(Box::new(x))
}

pub open spec fn v_maybe(x: SequenceView) -> SequenceView {
    SequenceView::Optional(Box::new(x))
}

fn t(x: LuaTerminal) -> (r: SymbolSequence)
    ensures
        lua_wf(r),
        seq_view(r) == v_t(x),
{
    SymbolSequence::from_terminal(x.index())
}

fn n(x: LuaNonterminal) -> (r: SymbolSequence)
    ensures
        lua_wf(r),
        seq_view(r) == v_n(x),
{
    SymbolSequence::from_nonterminal(x.index())
}

fn all2(x0: SymbolSequence, x1: SymbolSequence) -> (r: SymbolSequence)
    requires
        lua_wf(x0),
        lua_wf(x1),
    ensures
        lua_wf(r),
        seq_view(r) == v_all(seq![seq_view(x0), seq_view(x1)]),
{
    let v = vec![x0, x1];
    proof {
        lemma_children_wf_all(v@, 0, LUA_TERMINAL_COUNT as nat, LUA_NONTERMINAL_COUNT as nat);
        lemma_children_view(v@, 0);
        assert(children_view(v@, 0) =~= seq![seq_view(x0), seq_view(x1)]);
    }
    SymbolSequence::Sequence(v)
}

fn all3(x0: SymbolSequence, x1: SymbolSequence, x2: SymbolSequence) -> (r: SymbolSequence)
    requires
        lua_wf(x0),
        lua_wf(x1),
        lua_wf(x2),
    ensures
        lua_wf(r),
        seq_view(r) == v_all(seq![seq_view(x0), seq_view(x1), seq_view(x2)]),
{
    let v = vec![x0, x1, x2];
    proof {
        lemma_children_wf_all(v@, 0, LUA_TERMINAL_COUNT as nat, LUA_NONTERMINAL_COUNT as nat);
        lemma_children_view(v@, 0);
        assert(children_view(v@, 0) =~= seq![seq_view(x0), seq_view(x1), seq_view(x2)]);
    }
    SymbolSequence::Sequence(v)
}

fn all4(x0: SymbolSequence, x1: SymbolSequence, x2: SymbolSequence, x3: SymbolSequence) -> (r: SymbolSequence)
    requires
        lua_wf(x0),
        lua_wf(x1),
        lua_wf(x2),
        lua_wf(x3),
    ensures
        lua_wf(r),
        seq_view(r) == v_all(seq![seq_view(x0), seq_view(x1), seq_view(x2), seq_view(x3)]),
{
    let v = vec![x0, x1, x2, x3];
    proof {
        lemma_children_wf_all(v@, 0, LUA_TERMINAL_COUNT as nat, LUA_NONTERMINAL_COUNT as nat);
        lemma_children_view(v@, 0);
        assert(children_view(v@, 0) =~= seq![seq_view(x0), seq_view(x1), seq_view(x2), seq_view(x3)]);
    }
    SymbolSequence::Sequence(v)
}

fn all5(x0: SymbolSequence, x1: SymbolSequence, x2: SymbolSequence, x3: SymbolSequence, x4: SymbolSequence) -> (r: SymbolSequence)
    requires
        lua_wf(x0),
        lua_wf(x1),
        lua_wf(x2),
        lua_wf(x3),
        lua_wf(x4),
    ensures
        lua_wf(r),
        seq_view(r) == v_all(seq![seq_view(x0), seq_view(x1), seq_view(x2), seq_view(x3), seq_view(x4)]),
{
    let v = vec![x0, x1, x2, x3, x4];
    proof {
        lemma_children_wf_all(v@, 0, LUA_TERMINAL_COUNT as nat, LUA_NONTERMINAL_COUNT as nat);
        lemma_children_view(v@, 0);
        assert(children_view(v@, 0) =~= seq![seq_view(x0), seq_view(x1), seq_view(x2), seq_view(x3), seq_view(x4)]);
    }
    SymbolSequence::Sequence(v)
}

fn all7(x0: SymbolSequence, x1: SymbolSequence, x2: SymbolSequence, x3: SymbolSequence, x4: SymbolSequence, x5: SymbolSequence, x6: SymbolSequence) -> (r: SymbolSequence)
    requires
        lua_wf(x0),
        lua_wf(x1),
        lua_wf(x2),
        lua_wf(x3),
        lua_wf(x4),
        lua_wf(x5),
        lua_wf(x6),
    ensures
        lua_wf(r),
        seq_view(r) == v_all(seq![seq_view(x0), seq_view(x1), seq_view(x2), seq_view(x3), seq_view(x4), seq_view(x5), seq_view(x6)]),
{
    let v = vec![x0, x1, x2, x3, x4, x5, x6];
    proof {
        lemma_children_wf_all(v@, 0, LUA_TERMINAL_COUNT as nat, LUA_NONTERMINAL_COUNT as nat);
        lemma_children_view(v@, 0);
        assert(children_view(v@, 0) =~= seq![seq_view(x0), seq_view(x1), seq_view(x2), seq_view(x3), seq_view(x4), seq_view(x5), seq_view(x6)]);
    }
    SymbolSequence::Sequence(v)
}

fn all10(x0: SymbolSequence, x1: SymbolSequence, x2: SymbolSequence, x3: SymbolSequence, x4: SymbolSequence, x5: SymbolSequence, x6: SymbolSequence, x7: SymbolSequence, x8: SymbolSequence, x9: SymbolSequence) -> (r: SymbolSequence)
    requires
        lua_wf(x0),
        lua_wf(x1),
        lua_wf(x2),
        lua_wf(x3),
        lua_wf(x4),
        lua_wf(x5),
        lua_wf(x6),
        lua_wf(x7),
        lua_wf(x8),
        lua_wf(x9),
    ensures
        lua_wf(r),
        seq_view(r) == v_all(seq![seq_view(x0), seq_view(x1), seq_view(x2), seq_view(x3), seq_view(x4), seq_view(x5), seq_view(x6), seq_view(x7), seq_view(x8), seq_view(x9)]),
{
    let v = vec![x0, x1, x2, x3, x4, x5, x6, x7, x8, x9];
    proof {
        lemma_children_wf_all(v@, 0, LUA_TERMINAL_COUNT as nat, LUA_NONTERMINAL_COUNT as nat);
        lemma_children_view(v@, 0);
        assert(children_view(v@, 0) =~= seq![seq_view(x0), seq_view(x1), seq_view(x2), seq_view(x3), seq_view(x4), seq_view(x5), seq_view(x6), seq_view(x7), seq_view(x8), seq_view(x9)]);
    }
    SymbolSequence::Sequence(v)
}

fn one_of2(x0: SymbolSequence, x1: SymbolSequence) -> (r: SymbolSequence)
    requires
        lua_wf(x0),
        lua_wf(x1),
    ensures
        lua_wf(r),
        seq_view(r) == v_one_of(seq![seq_view(x0), seq_view(x1)]),
{
    let v = vec![x0, x1];
    proof {
        lemma_children_wf_all(v@, 0, LUA_TERMINAL_COUNT as nat, LUA_NONTERMINAL_COUNT as nat);
        lemma_children_view(v@, 0);
        assert(children_view(v@, 0) =~= seq![seq_view(x0), seq_view(x1)]);
    }
    SymbolSequence::Alternatives(v)
}

fn one_of3(x0: SymbolSequence, x1: SymbolSequence, x2: SymbolSequence) -> (r: SymbolSequence)
    requires
        lua_wf(x0),
        lua_wf(x1),
        lua_wf(x2),
    ensures
        lua_wf(r),
        seq_view(r) == v_one_of(seq![seq_view(x0), seq_view(x1), seq_view(x2)]),
{
    let v = vec![x0, x1, x2];
    proof {
        lemma_children_wf_all(v@, 0, LUA_TERMINAL_COUNT as nat, LUA_NONTERMINAL_COUNT as nat);
        lemma_children_view(v@, 0);
        assert(children_view(v@, 0) =~= seq![seq_view(x0), seq_view(x1), seq_view(x2)]);
    }
    SymbolSequence::Alternatives(v)
}

fn one_of5(x0: SymbolSequence, x1: SymbolSequence, x2: SymbolSequence, x3: SymbolSequence, x4: SymbolSequence) -> (r: SymbolSequence)
    requires
        lua_wf(x0),
        lua_wf(x1),
        lua_wf(x2),
        lua_wf(x3),
        lua_wf(x4),
    ensures
        lua_wf(r),
        seq_view(r) == v_one_of(seq![seq_view(x0), seq_view(x1), seq_view(x2), seq_view(x3), seq_view(x4)]),
{
    let v = vec![x0, x1, x2, x3, x4];
    proof {
        lemma_children_wf_all(v@, 0, LUA_TERMINAL_COUNT as nat, LUA_NONTERMINAL_COUNT as nat);
        lemma_children_view(v@, 0);
        assert(children_view(v@, 0) =~= seq![seq_view(x0), seq_view(x1), seq_view(x2), seq_view(x3), seq_view(x4)]);
    }
    SymbolSequence::Alternatives(v)
}

fn one_of7(x0: SymbolSequence, x1: SymbolSequence, x2: SymbolSequence, x3: SymbolSequence, x4: SymbolSequence, x5: SymbolSequence, x6: SymbolSequence) -> (r: SymbolSequence)
    requires
        lua_wf(x0),
        lua_wf(x1),
        lua_wf(x2),
        lua_wf(x3),
        lua_wf(x4),
        lua_wf(x5),
        lua_wf(x6),
    ensures
        lua_wf(r),
        seq_view(r) == v_one_of(seq![seq_view(x0), seq_view(x1), seq_view(x2), seq_view(x3), seq_view(x4), seq_view(x5), seq_view(x6)]),
{
    let v = vec![x0, x1, x2, x3, x4, x5, x6];
    proof {
        lemma_children_wf_all(v@, 0, LUA_TERMINAL_COUNT as nat, LUA_NONTERMINAL_COUNT as nat);
        lemma_children_view(v@, 0);
        assert(children_view(v@, 0) =~= seq![seq_view(x0), seq_view(x1), seq_view(x2), seq_view(x3), seq_view(x4), seq_view(x5), seq_view(x6)]);
    }
    SymbolSequence::Alternatives(v)
}

fn one_of9(x0: SymbolSequence, x1: SymbolSequence, x2: SymbolSequence, x3: SymbolSequence, x4: SymbolSequence, x5: SymbolSequence, x6: SymbolSequence, x7: SymbolSequence, x8: SymbolSequence) -> (r: SymbolSequence)
    requires
        lua_wf(x0),
        lua_wf(x1),
        lua_wf(x2),
        lua_wf(x3),
        lua_wf(x4),
        lua_wf(x5),
        lua_wf(x6),
        lua_wf(x7),
        lua_wf(x8),
    ensures
        lua_wf(r),
        seq_view(r) == v_one_of(seq![seq_view(x0), seq_view(x1), seq_view(x2), seq_view(x3), seq_view(x4), seq_view(x5), seq_view(x6), seq_view(x7), seq_view(x8)]),
{
    let v = vec![x0, x1, x2, x3, x4, x5, x6, x7, x8];
    proof {
        lemma_children_wf_all(v@, 0, LUA_TERMINAL_COUNT as nat, LUA_NONTERMINAL_COUNT as nat);
        lemma_children_view(v@, 0);
        assert(children_view(v@, 0) =~= seq![seq_view(x0), seq_view(x1), seq_view(x2), seq_view(x3), seq_view(x4), seq_view(x5), seq_view(x6), seq_view(x7), seq_view(x8)]);
    }
    SymbolSequence::Alternatives(v)
}

fn one_of15(x0: SymbolSequence, x1: SymbolSequence, x2: SymbolSequence, x3: SymbolSequence, x4: SymbolSequence, x5: SymbolSequence, x6: SymbolSequence, x7: SymbolSequence, x8: SymbolSequence, x9: SymbolSequence, x10: SymbolSequence, x11: SymbolSequence, x12: SymbolSequence, x13: SymbolSequence, x14: SymbolSequence) -> (r: SymbolSequence)
    requires
        lua_wf(x0),
        lua_wf(x1),
        lua_wf(x2),
        lua_wf(x3),
        lua_wf(x4),
        lua_wf(x5),
        lua_wf(x6),
        lua_wf(x7),
        lua_wf(x8),
        lua_wf(x9),
        lua_wf(x10),
        lua_wf(x11),
        lua_wf(x12),
        lua_wf(x13),
        lua_wf(x14),
    ensures
        lua_wf(r),
        seq_view(r) == v_one_of(seq![seq_view(x0), seq_view(x1), seq_view(x2), seq_view(x3), seq_view(x4), seq_view(x5), seq_view(x6), seq_view(x7), seq_view(x8), seq_view(x9), seq_view(x10), seq_view(x11), seq_view(x12), seq_view(x13), seq_view(x14)]),
{
    let v = vec![x0, x1, x2, x3, x4, x5, x6, x7, x8, x9, x10, x11, x12, x13, x14];
    proof {
        lemma_children_wf_all(v@, 0, LUA_TERMINAL_COUNT as nat, LUA_NONTERMINAL_COUNT as nat);
        lemma_children_view(v@, 0);
        assert(children_view(v@, 0) =~= seq![seq_view(x0), seq_view(x1), seq_view(x2), seq_view(x3), seq_view(x4), seq_view(x5), seq_view(x6), seq_view(x7), seq_view(x8), seq_view(x9), seq_view(x10), seq_view(x11), seq_view(x12), seq_view(x13), seq_view(x14)]);
    }
    SymbolSequence::Alternatives(v)
}

fn many(x: SymbolSequence) -> (r: SymbolSequence)
    requires
        lua_wf(x),
    ensures
        lua_wf(r),
        seq_view(r) == v_many(seq_view(x)),
{
    SymbolSequence::many(x)
}

fn maybe(x: SymbolSequence) -> (r: SymbolSequence)
    requires
        lua_wf(x),
    ensures
        lua_wf(r),
        seq_view(r) == v_maybe(seq_view(x)),
{
    SymbolSequence::maybe(x)
}

/// Adds the production `lhs → body`, whose body has the view `expected`, and
/// whose reduction yields a node of `lhs`.
fn add_production(b: ParserBuilder<LuaNonterminal>, lhs: LuaNonterminal, body: SymbolSequence, Ghost(expected): Ghost<SequenceView>) -> (r: ParserBuilder<LuaNonterminal>)
    requires
        b.wf(),
        b.shape == lua_shape(),
        lua_wf(body),
        seq_view(body) == expected,
    ensures
        r.wf(),
        r.shape == b.shape,
        r.start_symbol == b.start_symbol,
        productions_view(r.productions@) == productions_view(b.productions@).push((lhs.spec_index(), expected)),
{
    let p = Production::new(lhs.index(), body, lhs);
    let r = b.with_production(p);
    proof {
        assert(productions_view(r.productions@) =~= productions_view(b.productions@).push((lhs.spec_index(), expected)));
    }
    r
}

/// The productions of blocks and statements.
pub open spec fn lua_block_grammar() -> Seq<(usize, SequenceView)> {
    seq![
        (LuaNonterminal::Chunk.spec_index(), v_n(LuaNonterminal::Block)),
        (LuaNonterminal::Block.spec_index(), v_all(seq![v_many(v_n(LuaNonterminal::Stat)), v_maybe(v_n(LuaNonterminal::RetStat))])),
        (LuaNonterminal::Stat.spec_index(), v_one_of(seq![v_t(LuaTerminal::Semicolon), v_all(seq![v_n(LuaNonterminal::VarList), v_t(LuaTerminal::Equals), v_n(LuaNonterminal::ExpList)]), v_n(LuaNonterminal::FunctionCall), v_n(LuaNonterminal::Label), v_t(LuaTerminal::Break), v_all(seq![v_t(LuaTerminal::Goto), v_t(LuaTerminal::Identifier)]), v_all(seq![v_t(LuaTerminal::Do), v_n(LuaNonterminal::Block), v_t(LuaTerminal::End)]), v_all(seq![v_t(LuaTerminal::While), v_n(LuaNonterminal::Exp), v_t(LuaTerminal::Do), v_n(LuaNonterminal::Block), v_t(LuaTerminal::End)]), v_all(seq![v_t(LuaTerminal::Repeat), v_n(LuaNonterminal::Block), v_t(LuaTerminal::Until), v_n(LuaNonterminal::Exp)]), v_all(seq![v_t(LuaTerminal::If), v_n(LuaNonterminal::Exp), v_t(LuaTerminal::Then), v_n(LuaNonterminal::Block), v_many(v_all(seq![v_t(LuaTerminal::Elseif), v_n(LuaNonterminal::Exp), v_t(LuaTerminal::Then), v_n(LuaNonterminal::Block)])), v_maybe(v_all(seq![v_t(LuaTerminal::Else), v_n(LuaNonterminal::Block)])), v_t(LuaTerminal::End)]), v_all(seq![v_t(LuaTerminal::For), v_t(LuaTerminal::Identifier), v_t(LuaTerminal::Equals), v_n(LuaNonterminal::Exp), v_t(LuaTerminal::Comma), v_n(LuaNonterminal::Exp), v_maybe(v_all(seq![v_t(LuaTerminal::Comma), v_n(LuaNonterminal::Exp)])), v_t(LuaTerminal::Do), v_n(LuaNonterminal::Block), v_t(LuaTerminal::End)]), v_all(seq![v_t(LuaTerminal::For), v_n(LuaNonterminal::NameList), v_t(LuaTerminal::In), v_n(LuaNonterminal::ExpList), v_t(LuaTerminal::Do), v_n(LuaNonterminal::Block), v_t(LuaTerminal::End)]), v_all(seq![v_t(LuaTerminal::Function), v_n(LuaNonterminal::FuncName), v_n(LuaNonterminal::FuncBody)]), v_all(seq![v_t(LuaTerminal::Local), v_t(LuaTerminal::Function), v_t(LuaTerminal::Identifier), v_n(LuaNonterminal::FuncBody)]), v_all(seq![v_t(LuaTerminal::Local), v_n(LuaNonterminal::AttNameList), v_maybe(v_all(seq![v_t(LuaTerminal::Equals), v_n(LuaNonterminal::ExpList)]))])])),
        (LuaNonterminal::AttNameList.spec_index(), v_all(seq![v_t(LuaTerminal::Identifier), v_n(LuaNonterminal::Attrib), v_many(v_all(seq![v_t(LuaTerminal::Comma), v_t(LuaTerminal::Identifier), v_n(LuaNonterminal::Attrib)]))])),
        (LuaNonterminal::Attrib.spec_index(), v_maybe(v_all(seq![v_t(LuaTerminal::LessThan), v_t(LuaTerminal::Identifier), v_t(LuaTerminal::GreaterThan)]))),
        (LuaNonterminal::RetStat.spec_index(), v_all(seq![v_t(LuaTerminal::Return), v_maybe(v_n(LuaNonterminal::ExpList)), v_maybe(v_t(LuaTerminal::Semicolon))])),
        (LuaNonterminal::Label.spec_index(), v_all(seq![v_t(LuaTerminal::DoubleColon), v_t(LuaTerminal::Identifier), v_t(LuaTerminal::DoubleColon)])),
        (LuaNonterminal::FuncName.spec_index(), v_all(seq![v_t(LuaTerminal::Identifier), v_many(v_all(seq![v_t(LuaTerminal::Dot), v_t(LuaTerminal::Identifier)])), v_maybe(v_all(seq![v_t(LuaTerminal::Colon), v_t(LuaTerminal::Identifier)]))])),
    ]
}

/// The productions of names, variables and lists.
pub open spec fn lua_list_grammar() -> Seq<(usize, SequenceView)> {
    seq![
        (LuaNonterminal::VarList.spec_index(), v_all(seq![v_n(LuaNonterminal::Var), v_many(v_all(seq![v_t(LuaTerminal::Comma), v_n(LuaNonterminal::Var)]))])),
        (LuaNonterminal::Var.spec_index(), v_one_of(seq![v_t(LuaTerminal::Identifier), v_all(seq![v_n(LuaNonterminal::PrefixExp), v_t(LuaTerminal::LeftBracket), v_n(LuaNonterminal::Exp), v_t(LuaTerminal::RightBracket)]), v_all(seq![v_n(LuaNonterminal::PrefixExp), v_t(LuaTerminal::Dot), v_t(LuaTerminal::Identifier)])])),
        (LuaNonterminal::NameList.spec_index(), v_all(seq![v_t(LuaTerminal::Identifier), v_many(v_all(seq![v_t(LuaTerminal::Comma), v_t(LuaTerminal::Identifier)]))])),
        (LuaNonterminal::ExpList.spec_index(), v_all(seq![v_n(LuaNonterminal::Exp), v_many(v_all(seq![v_t(LuaTerminal::Comma), v_n(LuaNonterminal::Exp)]))])),
        (LuaNonterminal::Exp.spec_index(), v_one_of(seq![v_all(seq![v_n(LuaNonterminal::Exp), v_t(LuaTerminal::Or), v_n(LuaNonterminal::Exp2)]), v_n(LuaNonterminal::Exp2)])),
        (LuaNonterminal::Exp2.spec_index(), v_one_of(seq![v_all(seq![v_n(LuaNonterminal::Exp2), v_t(LuaTerminal::And), v_n(LuaNonterminal::Exp3)]), v_n(LuaNonterminal::Exp3)])),
    ]
}

/// The productions of expressions, by precedence.
pub open spec fn lua_expression_grammar() -> Seq<(usize, SequenceView)> {
    seq![
        (LuaNonterminal::Exp3.spec_index(), v_one_of(seq![v_all(seq![v_n(LuaNonterminal::Exp3), v_t(LuaTerminal::LessThan), v_n(LuaNonterminal::Exp4)]), v_all(seq![v_n(LuaNonterminal::Exp3), v_t(LuaTerminal::GreaterThan), v_n(LuaNonterminal::Exp4)]), v_all(seq![v_n(LuaNonterminal::Exp3), v_t(LuaTerminal::LessEq), v_n(LuaNonterminal::Exp4)]), v_all(seq![v_n(LuaNonterminal::Exp3), v_t(LuaTerminal::GreaterEq), v_n(LuaNonterminal::Exp4)]), v_all(seq![v_n(LuaNonterminal::Exp3), v_t(LuaTerminal::NotEq), v_n(LuaNonterminal::Exp4)]), v_all(seq![v_n(LuaNonterminal::Exp3), v_t(LuaTerminal::DoubleEquals), v_n(LuaNonterminal::Exp4)]), v_n(LuaNonterminal::Exp4)])),
        (LuaNonterminal::Exp4.spec_index(), v_one_of(seq![v_all(seq![v_n(LuaNonterminal::Exp4), v_t(LuaTerminal::BitwiseOr), v_n(LuaNonterminal::Exp5)]), v_n(LuaNonterminal::Exp5)])),
        (LuaNonterminal::Exp5.spec_index(), v_one_of(seq![v_all(seq![v_n(LuaNonterminal::Exp5), v_t(LuaTerminal::BitwiseNeg), v_n(LuaNonterminal::Exp6)]), v_n(LuaNonterminal::Exp6)])),
        (LuaNonterminal::Exp6.spec_index(), v_one_of(seq![v_all(seq![v_n(LuaNonterminal::Exp6), v_t(LuaTerminal::BitwiseAnd), v_n(LuaNonterminal::Exp7)]), v_n(LuaNonterminal::Exp7)])),
        (LuaNonterminal::Exp7.spec_index(), v_one_of(seq![v_all(seq![v_n(LuaNonterminal::Exp7), v_t(LuaTerminal::LeftShift), v_n(LuaNonterminal::Exp8)]), v_all(seq![v_n(LuaNonterminal::Exp7), v_t(LuaTerminal::RightShift), v_n(LuaNonterminal::Exp8)]), v_n(LuaNonterminal::Exp8)])),
        (LuaNonterminal::Exp8.spec_index(), v_one_of(seq![v_all(seq![v_n(LuaNonterminal::Exp9), v_t(LuaTerminal::Concat), v_n(LuaNonterminal::Exp8)]), v_n(LuaNonterminal::Exp9)])),
        (LuaNonterminal::Exp9.spec_index(), v_one_of(seq![v_all(seq![v_n(LuaNonterminal::Exp9), v_t(LuaTerminal::Plus), v_n(LuaNonterminal::Exp10)]), v_all(seq![v_n(LuaNonterminal::Exp9), v_t(LuaTerminal::Minus), v_n(LuaNonterminal::Exp10)]), v_n(LuaNonterminal::Exp10)])),
        (LuaNonterminal::Exp10.spec_index(), v_one_of(seq![v_all(seq![v_n(LuaNonterminal::Exp10), v_t(LuaTerminal::Multiply), v_n(LuaNonterminal::Exp11)]), v_all(seq![v_n(LuaNonterminal::Exp10), v_t(LuaTerminal::Divide), v_n(LuaNonterminal::Exp11)]), v_all(seq![v_n(LuaNonterminal::Exp10), v_t(LuaTerminal::FloorDivide), v_n(LuaNonterminal::Exp11)]), v_all(seq![v_n(LuaNonterminal::Exp10), v_t(LuaTerminal::Modulo), v_n(LuaNonterminal::Exp11)]), v_n(LuaNonterminal::Exp11)])),
        (LuaNonterminal::Exp11.spec_index(), v_one_of(seq![v_all(seq![v_t(LuaTerminal::Not), v_n(LuaNonterminal::Exp12)]), v_all(seq![v_t(LuaTerminal::Length), v_n(LuaNonterminal::Exp12)]), v_all(seq![v_t(LuaTerminal::Minus), v_n(LuaNonterminal::Exp12)]), v_all(seq![v_t(LuaTerminal::BitwiseNeg), v_n(LuaNonterminal::Exp12)]), v_n(LuaNonterminal::Exp12)])),
        (LuaNonterminal::Exp12.spec_index(), v_one_of(seq![v_all(seq![v_n(LuaNonterminal::Exp13), v_t(LuaTerminal::Power), v_n(LuaNonterminal::Exp12)]), v_n(LuaNonterminal::Exp13)])),
        (LuaNonterminal::Exp13.spec_index(), v_one_of(seq![v_t(LuaTerminal::Nil), v_t(LuaTerminal::False), v_t(LuaTerminal::True), v_t(LuaTerminal::NumberLiteral), v_t(LuaTerminal::StringLiteral), v_t(LuaTerminal::Varargs), v_n(LuaNonterminal::FunctionDef), v_n(LuaNonterminal::PrefixExp), v_n(LuaNonterminal::TableConstructor)])),
        (LuaNonterminal::PrefixExp.spec_index(), v_one_of(seq![v_n(LuaNonterminal::Var), v_n(LuaNonterminal::FunctionCall), v_all(seq![v_t(LuaTerminal::LeftParenthesis), v_n(LuaNonterminal::Exp), v_t(LuaTerminal::RightParenthesis)])])),
        (LuaNonterminal::FunctionCall.spec_index(), v_one_of(seq![v_all(seq![v_n(LuaNonterminal::PrefixExp), v_n(LuaNonterminal::Args)]), v_all(seq![v_n(LuaNonterminal::PrefixExp), v_t(LuaTerminal::Colon), v_t(LuaTerminal::Identifier), v_n(LuaNonterminal::Args)])])),
        (LuaNonterminal::Args.spec_index(), v_one_of(seq![v_all(seq![v_t(LuaTerminal::LeftParenthesis), v_maybe(v_n(LuaNonterminal::ExpList)), v_t(LuaTerminal::RightParenthesis)]), v_n(LuaNonterminal::TableConstructor), v_t(LuaTerminal::StringLiteral)])),
    ]
}

/// The productions of calls, functions and tables.
pub open spec fn lua_function_grammar() -> Seq<(usize, SequenceView)> {
    seq![
        (LuaNonterminal::FunctionDef.spec_index(), v_all(seq![v_t(LuaTerminal::Function), v_n(LuaNonterminal::FuncBody)])),
        (LuaNonterminal::FuncBody.spec_index(), v_all(seq![v_t(LuaTerminal::LeftParenthesis), v_maybe(v_n(LuaNonterminal::ParList)), v_t(LuaTerminal::RightParenthesis), v_n(LuaNonterminal::Block), v_t(LuaTerminal::End)])),
        (LuaNonterminal::ParList.spec_index(), v_one_of(seq![v_all(seq![v_n(LuaNonterminal::NameList), v_maybe(v_all(seq![v_t(LuaTerminal::Comma), v_t(LuaTerminal::Varargs)]))]), v_t(LuaTerminal::Varargs)])),
        (LuaNonterminal::TableConstructor.spec_index(), v_all(seq![v_t(LuaTerminal::LeftBrace), v_maybe(v_n(LuaNonterminal::FieldList)), v_t(LuaTerminal::RightBrace)])),
        (LuaNonterminal::FieldList.spec_index(), v_all(seq![v_n(LuaNonterminal::Field), v_many(v_all(seq![v_n(LuaNonterminal::FieldSep), v_n(LuaNonterminal::Field)])), v_maybe(v_n(LuaNonterminal::FieldSep))])),
        (LuaNonterminal::Field.spec_index(), v_one_of(seq![v_all(seq![v_t(LuaTerminal::LeftBracket), v_n(LuaNonterminal::Exp), v_t(LuaTerminal::RightBracket), v_t(LuaTerminal::Equals), v_n(LuaNonterminal::Exp)]), v_all(seq![v_t(LuaTerminal::Identifier), v_t(LuaTerminal::Equals), v_n(LuaNonterminal::Exp)]), v_n(LuaNonterminal::Exp)])),
        (LuaNonterminal::FieldSep.spec_index(), v_one_of(seq![v_t(LuaTerminal::Comma), v_t(LuaTerminal::Semicolon)])),
    ]
}

/// Appends the productions of blocks and statements.
fn lua_block_productions(b: ParserBuilder<LuaNonterminal>) -> (r: ParserBuilder<LuaNonterminal>)
    requires
        b.wf(),
        b.shape == lua_shape(),
    ensures
        r.wf(),
        r.shape == b.shape,
        r.start_symbol == b.start_symbol,
        productions_view(r.productions@) == productions_view(b.productions@) + lua_block_grammar(),
{
    let ghost v0 = productions_view(b.productions@);
    let b = add_production(
        b,
        LuaNonterminal::Chunk,
        n(LuaNonterminal::Block),
        Ghost(v_n(LuaNonterminal::Block)),
    );
    let b = add_production(
        b,
        LuaNonterminal::Block,
        all2(many(n(LuaNonterminal::Stat)), maybe(n(LuaNonterminal::RetStat))),
        Ghost(v_all(seq![v_many(v_n(LuaNonterminal::Stat)), v_maybe(v_n(LuaNonterminal::RetStat))])),
    );
    let b = add_production(
        b,
        LuaNonterminal::Stat,
        one_of15(
            t(LuaTerminal::Semicolon),
            all3(
                n(LuaNonterminal::VarList),
                t(LuaTerminal::Equals),
                n(LuaNonterminal::ExpList),
            ),
            n(LuaNonterminal::FunctionCall),
            n(LuaNonterminal::Label),
            t(LuaTerminal::Break),
            all2(t(LuaTerminal::Goto), t(LuaTerminal::Identifier)),
            all3(t(LuaTerminal::Do), n(LuaNonterminal::Block), t(LuaTerminal::End)),
            all5(
                t(LuaTerminal::While),
                n(LuaNonterminal::Exp),
                t(LuaTerminal::Do),
                n(LuaNonterminal::Block),
                t(LuaTerminal::End),
            ),
            all4(
                t(LuaTerminal::Repeat),
                n(LuaNonterminal::Block),
                t(LuaTerminal::Until),
                n(LuaNonterminal::Exp),
            ),
            all7(
                t(LuaTerminal::If),
                n(LuaNonterminal::Exp),
                t(LuaTerminal::Then),
                n(LuaNonterminal::Block),
                many(all4(
                    t(LuaTerminal::Elseif),
                    n(LuaNonterminal::Exp),
                    t(LuaTerminal::Then),
                    n(LuaNonterminal::Block),
                )),
                maybe(all2(t(LuaTerminal::Else), n(LuaNonterminal::Block))),
                t(LuaTerminal::End),
            ),
            all10(
                t(LuaTerminal::For),
                t(LuaTerminal::Identifier),
                t(LuaTerminal::Equals),
                n(LuaNonterminal::Exp),
                t(LuaTerminal::Comma),
                n(LuaNonterminal::Exp),
                maybe(all2(t(LuaTerminal::Comma), n(LuaNonterminal::Exp))),
                t(LuaTerminal::Do),
                n(LuaNonterminal::Block),
                t(LuaTerminal::End),
            ),
            all7(
                t(LuaTerminal::For),
                n(LuaNonterminal::NameList),
                t(LuaTerminal::In),
                n(LuaNonterminal::ExpList),
                t(LuaTerminal::Do),
                n(LuaNonterminal::Block),
                t(LuaTerminal::End),
            ),
            all3(
                t(LuaTerminal::Function),
                n(LuaNonterminal::FuncName),
                n(LuaNonterminal::FuncBody),
            ),
            all4(
                t(LuaTerminal::Local),
                t(LuaTerminal::Function),
                t(LuaTerminal::Identifier),
                n(LuaNonterminal::FuncBody),
            ),
            all3(
                t(LuaTerminal::Local),
                n(LuaNonterminal::AttNameList),
                maybe(all2(t(LuaTerminal::Equals), n(LuaNonterminal::ExpList))),
            ),
        ),
        Ghost(v_one_of(seq![
                  v_t(LuaTerminal::Semicolon),
                  v_all(seq![
                      v_n(LuaNonterminal::VarList),
                      v_t(LuaTerminal::Equals),
                      v_n(LuaNonterminal::ExpList),
                  ]),
                  v_n(LuaNonterminal::FunctionCall),
                  v_n(LuaNonterminal::Label),
                  v_t(LuaTerminal::Break),
                  v_all(seq![v_t(LuaTerminal::Goto), v_t(LuaTerminal::Identifier)]),
                  v_all(seq![
                      v_t(LuaTerminal::Do),
                      v_n(LuaNonterminal::Block),
                      v_t(LuaTerminal::End),
                  ]),
                  v_all(seq![
                      v_t(LuaTerminal::While),
                      v_n(LuaNonterminal::Exp),
                      v_t(LuaTerminal::Do),
                      v_n(LuaNonterminal::Block),
                      v_t(LuaTerminal::End),
                  ]),
                  v_all(seq![
                      v_t(LuaTerminal::Repeat),
                      v_n(LuaNonterminal::Block),
                      v_t(LuaTerminal::Until),
                      v_n(LuaNonterminal::Exp),
                  ]),
                  v_all(seq![
                      v_t(LuaTerminal::If),
                      v_n(LuaNonterminal::Exp),
                      v_t(LuaTerminal::Then),
                      v_n(LuaNonterminal::Block),
                      v_many(v_all(seq![
                          v_t(LuaTerminal::Elseif),
                          v_n(LuaNonterminal::Exp),
                          v_t(LuaTerminal::Then),
                          v_n(LuaNonterminal::Block),
                      ])),
                      v_maybe(v_all(seq![v_t(LuaTerminal::Else), v_n(LuaNonterminal::Block)])),
                      v_t(LuaTerminal::End),
                  ]),
                  v_all(seq![
                      v_t(LuaTerminal::For),
                      v_t(LuaTerminal::Identifier),
                      v_t(LuaTerminal::Equals),
                      v_n(LuaNonterminal::Exp),
                      v_t(LuaTerminal::Comma),
                      v_n(LuaNonterminal::Exp),
                      v_maybe(v_all(seq![v_t(LuaTerminal::Comma), v_n(LuaNonterminal::Exp)])),
                      v_t(LuaTerminal::Do),
                      v_n(LuaNonterminal::Block),
                      v_t(LuaTerminal::End),
                  ]),
                  v_all(seq![
                      v_t(LuaTerminal::For),
                      v_n(LuaNonterminal::NameList),
                      v_t(LuaTerminal::In),
                      v_n(LuaNonterminal::ExpList),
                      v_t(LuaTerminal::Do),
                      v_n(LuaNonterminal::Block),
                      v_t(LuaTerminal::End),
                  ]),
                  v_all(seq![
                      v_t(LuaTerminal::Function),
                      v_n(LuaNonterminal::FuncName),
                      v_n(LuaNonterminal::FuncBody),
                  ]),
                  v_all(seq![
                      v_t(LuaTerminal::Local),
                      v_t(LuaTerminal::Function),
                      v_t(LuaTerminal::Identifier),
                      v_n(LuaNonterminal::FuncBody),
                  ]),
                  v_all(seq![
                      v_t(LuaTerminal::Local),
                      v_n(LuaNonterminal::AttNameList),
                      v_maybe(v_all(seq![v_t(LuaTerminal::Equals), v_n(LuaNonterminal::ExpList)])),
                  ]),
              ])),
    );
    let b = add_production(
        b,
        LuaNonterminal::AttNameList,
        all3(
            t(LuaTerminal::Identifier),
            n(LuaNonterminal::Attrib),
            many(all3(t(LuaTerminal::Comma), t(LuaTerminal::Identifier), n(LuaNonterminal::Attrib))),
        ),
        Ghost(v_all(seq![
                  v_t(LuaTerminal::Identifier),
                  v_n(LuaNonterminal::Attrib),
                  v_many(v_all(seq![
                      v_t(LuaTerminal::Comma),
                      v_t(LuaTerminal::Identifier),
                      v_n(LuaNonterminal::Attrib),
                  ])),
              ])),
    );
    let b = add_production(
        b,
        LuaNonterminal::Attrib,
        maybe(all3(t(LuaTerminal::LessThan), t(LuaTerminal::Identifier), t(LuaTerminal::GreaterThan))),
        Ghost(v_maybe(v_all(seq![
                  v_t(LuaTerminal::LessThan),
                  v_t(LuaTerminal::Identifier),
                  v_t(LuaTerminal::GreaterThan),
              ]))),
    );
    let b = add_production(
        b,
        LuaNonterminal::RetStat,
        all3(
            t(LuaTerminal::Return),
            maybe(n(LuaNonterminal::ExpList)),
            maybe(t(LuaTerminal::Semicolon)),
        ),
        Ghost(v_all(seq![
                  v_t(LuaTerminal::Return),
                  v_maybe(v_n(LuaNonterminal::ExpList)),
                  v_maybe(v_t(LuaTerminal::Semicolon)),
              ])),
    );
    let b = add_production(
        b,
        LuaNonterminal::Label,
        all3(
            t(LuaTerminal::DoubleColon),
            t(LuaTerminal::Identifier),
            t(LuaTerminal::DoubleColon),
        ),
        Ghost(v_all(seq![
                  v_t(LuaTerminal::DoubleColon),
                  v_t(LuaTerminal::Identifier),
                  v_t(LuaTerminal::DoubleColon),
              ])),
    );
    let b = add_production(
        b,
        LuaNonterminal::FuncName,
        all3(
            t(LuaTerminal::Identifier),
            many(all2(t(LuaTerminal::Dot), t(LuaTerminal::Identifier))),
            maybe(all2(t(LuaTerminal::Colon), t(LuaTerminal::Identifier))),
        ),
        Ghost(v_all(seq![
                  v_t(LuaTerminal::Identifier),
                  v_many(v_all(seq![v_t(LuaTerminal::Dot), v_t(LuaTerminal::Identifier)])),
                  v_maybe(v_all(seq![v_t(LuaTerminal::Colon), v_t(LuaTerminal::Identifier)])),
              ])),
    );
    proof {
        assert(productions_view(b.productions@) =~= v0 + lua_block_grammar());
    }
    b
}

/// Appends the productions of names, variables and lists.
fn lua_list_productions(b: ParserBuilder<LuaNonterminal>) -> (r: ParserBuilder<LuaNonterminal>)
    requires
        b.wf(),
        b.shape == lua_shape(),
    ensures
        r.wf(),
        r.shape == b.shape,
        r.start_symbol == b.start_symbol,
        productions_view(r.productions@) == productions_view(b.productions@) + lua_list_grammar(),
{
    let ghost v0 = productions_view(b.productions@);
    let b = add_production(
        b,
        LuaNonterminal::VarList,
        all2(
            n(LuaNonterminal::Var),
            many(all2(t(LuaTerminal::Comma), n(LuaNonterminal::Var))),
        ),
        Ghost(v_all(seq![
                  v_n(LuaNonterminal::Var),
                  v_many(v_all(seq![v_t(LuaTerminal::Comma), v_n(LuaNonterminal::Var)])),
              ])),
    );
    let b = add_production(
        b,
        LuaNonterminal::Var,
        one_of3(
            t(LuaTerminal::Identifier),
            all4(
                n(LuaNonterminal::PrefixExp),
                t(LuaTerminal::LeftBracket),
                n(LuaNonterminal::Exp),
                t(LuaTerminal::RightBracket),
            ),
            all3(n(LuaNonterminal::PrefixExp), t(LuaTerminal::Dot), t(LuaTerminal::Identifier)),
        ),
        Ghost(v_one_of(seq![
                  v_t(LuaTerminal::Identifier),
                  v_all(seq![
                      v_n(LuaNonterminal::PrefixExp),
                      v_t(LuaTerminal::LeftBracket),
                      v_n(LuaNonterminal::Exp),
                      v_t(LuaTerminal::RightBracket),
                  ]),
                  v_all(seq![
                      v_n(LuaNonterminal::PrefixExp),
                      v_t(LuaTerminal::Dot),
                      v_t(LuaTerminal::Identifier),
                  ]),
              ])),
    );
    let b = add_production(
        b,
        LuaNonterminal::NameList,
        all2(
            t(LuaTerminal::Identifier),
            many(all2(t(LuaTerminal::Comma), t(LuaTerminal::Identifier))),
        ),
        Ghost(v_all(seq![
                  v_t(LuaTerminal::Identifier),
                  v_many(v_all(seq![v_t(LuaTerminal::Comma), v_t(LuaTerminal::Identifier)])),
              ])),
    );
    let b = add_production(
        b,
        LuaNonterminal::ExpList,
        all2(
            n(LuaNonterminal::Exp),
            many(all2(t(LuaTerminal::Comma), n(LuaNonterminal::Exp))),
        ),
        Ghost(v_all(seq![
                  v_n(LuaNonterminal::Exp),
                  v_many(v_all(seq![v_t(LuaTerminal::Comma), v_n(LuaNonterminal::Exp)])),
              ])),
    );
    let b = add_production(
        b,
        LuaNonterminal::Exp,
        one_of2(
            all3(n(LuaNonterminal::Exp), t(LuaTerminal::Or), n(LuaNonterminal::Exp2)),
            n(LuaNonterminal::Exp2),
        ),
        Ghost(v_one_of(seq![
                  v_all(seq![
                      v_n(LuaNonterminal::Exp),
                      v_t(LuaTerminal::Or),
                      v_n(LuaNonterminal::Exp2),
                  ]),
                  v_n(LuaNonterminal::Exp2),
              ])),
    );
    let b = add_production(
        b,
        LuaNonterminal::Exp2,
        one_of2(
            all3(n(LuaNonterminal::Exp2), t(LuaTerminal::And), n(LuaNonterminal::Exp3)),
            n(LuaNonterminal::Exp3),
        ),
        Ghost(v_one_of(seq![
                  v_all(seq![
                      v_n(LuaNonterminal::Exp2),
                      v_t(LuaTerminal::And),
                      v_n(LuaNonterminal::Exp3),
                  ]),
                  v_n(LuaNonterminal::Exp3),
              ])),
    );
    proof {
        assert(productions_view(b.productions@) =~= v0 + lua_list_grammar());
    }
    b
}

/// Appends the productions of expressions, by precedence.
fn lua_expression_productions(b: ParserBuilder<LuaNonterminal>) -> (r: ParserBuilder<LuaNonterminal>)
    requires
        b.wf(),
        b.shape == lua_shape(),
    ensures
        r.wf(),
        r.shape == b.shape,
        r.start_symbol == b.start_symbol,
        productions_view(r.productions@) == productions_view(b.productions@) + lua_expression_grammar(),
{
    let ghost v0 = productions_view(b.productions@);
    let b = add_production(
        b,
        LuaNonterminal::Exp3,
        one_of7(
            all3(n(LuaNonterminal::Exp3), t(LuaTerminal::LessThan), n(LuaNonterminal::Exp4)),
            all3(n(LuaNonterminal::Exp3), t(LuaTerminal::GreaterThan), n(LuaNonterminal::Exp4)),
            all3(n(LuaNonterminal::Exp3), t(LuaTerminal::LessEq), n(LuaNonterminal::Exp4)),
            all3(n(LuaNonterminal::Exp3), t(LuaTerminal::GreaterEq), n(LuaNonterminal::Exp4)),
            all3(n(LuaNonterminal::Exp3), t(LuaTerminal::NotEq), n(LuaNonterminal::Exp4)),
            all3(
                n(LuaNonterminal::Exp3),
                t(LuaTerminal::DoubleEquals),
                n(LuaNonterminal::Exp4),
            ),
            n(LuaNonterminal::Exp4),
        ),
        Ghost(v_one_of(seq![
                  v_all(seq![
                      v_n(LuaNonterminal::Exp3),
                      v_t(LuaTerminal::LessThan),
                      v_n(LuaNonterminal::Exp4),
                  ]),
                  v_all(seq![
                      v_n(LuaNonterminal::Exp3),
                      v_t(LuaTerminal::GreaterThan),
                      v_n(LuaNonterminal::Exp4),
                  ]),
                  v_all(seq![
                      v_n(LuaNonterminal::Exp3),
                      v_t(LuaTerminal::LessEq),
                      v_n(LuaNonterminal::Exp4),
                  ]),
                  v_all(seq![
                      v_n(LuaNonterminal::Exp3),
                      v_t(LuaTerminal::GreaterEq),
                      v_n(LuaNonterminal::Exp4),
                  ]),
                  v_all(seq![
                      v_n(LuaNonterminal::Exp3),
                      v_t(LuaTerminal::NotEq),
                      v_n(LuaNonterminal::Exp4),
                  ]),
                  v_all(seq![
                      v_n(LuaNonterminal::Exp3),
                      v_t(LuaTerminal::DoubleEquals),
                      v_n(LuaNonterminal::Exp4),
                  ]),
                  v_n(LuaNonterminal::Exp4),
              ])),
    );
    let b = add_production(
        b,
        LuaNonterminal::Exp4,
        one_of2(
            all3(n(LuaNonterminal::Exp4), t(LuaTerminal::BitwiseOr), n(LuaNonterminal::Exp5)),
            n(LuaNonterminal::Exp5),
        ),
        Ghost(v_one_of(seq![
                  v_all(seq![
                      v_n(LuaNonterminal::Exp4),
                      v_t(LuaTerminal::BitwiseOr),
                      v_n(LuaNonterminal::Exp5),
                  ]),
                  v_n(LuaNonterminal::Exp5),
              ])),
    );
    let b = add_production(
        b,
        LuaNonterminal::Exp5,
        one_of2(
            all3(n(LuaNonterminal::Exp5), t(LuaTerminal::BitwiseNeg), n(LuaNonterminal::Exp6)),
            n(LuaNonterminal::Exp6),
        ),
        Ghost(v_one_of(seq![
                  v_all(seq![
                      v_n(LuaNonterminal::Exp5),
                      v_t(LuaTerminal::BitwiseNeg),
                      v_n(LuaNonterminal::Exp6),
                  ]),
                  v_n(LuaNonterminal::Exp6),
              ])),
    );
    let b = add_production(
        b,
        LuaNonterminal::Exp6,
        one_of2(
            all3(n(LuaNonterminal::Exp6), t(LuaTerminal::BitwiseAnd), n(LuaNonterminal::Exp7)),
            n(LuaNonterminal::Exp7),
        ),
        Ghost(v_one_of(seq![
                  v_all(seq![
                      v_n(LuaNonterminal::Exp6),
                      v_t(LuaTerminal::BitwiseAnd),
                      v_n(LuaNonterminal::Exp7),
                  ]),
                  v_n(LuaNonterminal::Exp7),
              ])),
    );
    let b = add_production(
        b,
        LuaNonterminal::Exp7,
        one_of3(
            all3(n(LuaNonterminal::Exp7), t(LuaTerminal::LeftShift), n(LuaNonterminal::Exp8)),
            all3(n(LuaNonterminal::Exp7), t(LuaTerminal::RightShift), n(LuaNonterminal::Exp8)),
            n(LuaNonterminal::Exp8),
        ),
        Ghost(v_one_of(seq![
                  v_all(seq![
                      v_n(LuaNonterminal::Exp7),
                      v_t(LuaTerminal::LeftShift),
                      v_n(LuaNonterminal::Exp8),
                  ]),
                  v_all(seq![
                      v_n(LuaNonterminal::Exp7),
                      v_t(LuaTerminal::RightShift),
                      v_n(LuaNonterminal::Exp8),
                  ]),
                  v_n(LuaNonterminal::Exp8),
              ])),
    );
    let b = add_production(
        b,
        LuaNonterminal::Exp8,
        one_of2(
            all3(n(LuaNonterminal::Exp9), t(LuaTerminal::Concat), n(LuaNonterminal::Exp8)),
            n(LuaNonterminal::Exp9),
        ),
        Ghost(v_one_of(seq![
                  v_all(seq![
                      v_n(LuaNonterminal::Exp9),
                      v_t(LuaTerminal::Concat),
                      v_n(LuaNonterminal::Exp8),
                  ]),
                  v_n(LuaNonterminal::Exp9),
              ])),
    );
    let b = add_production(
        b,
        LuaNonterminal::Exp9,
        one_of3(
            all3(n(LuaNonterminal::Exp9), t(LuaTerminal::Plus), n(LuaNonterminal::Exp10)),
            all3(n(LuaNonterminal::Exp9), t(LuaTerminal::Minus), n(LuaNonterminal::Exp10)),
            n(LuaNonterminal::Exp10),
        ),
        Ghost(v_one_of(seq![
                  v_all(seq![
                      v_n(LuaNonterminal::Exp9),
                      v_t(LuaTerminal::Plus),
                      v_n(LuaNonterminal::Exp10),
                  ]),
                  v_all(seq![
                      v_n(LuaNonterminal::Exp9),
                      v_t(LuaTerminal::Minus),
                      v_n(LuaNonterminal::Exp10),
                  ]),
                  v_n(LuaNonterminal::Exp10),
              ])),
    );
    let b = add_production(
        b,
        LuaNonterminal::Exp10,
        one_of5(
            all3(n(LuaNonterminal::Exp10), t(LuaTerminal::Multiply), n(LuaNonterminal::Exp11)),
            all3(n(LuaNonterminal::Exp10), t(LuaTerminal::Divide), n(LuaNonterminal::Exp11)),
            all3(
                n(LuaNonterminal::Exp10),
                t(LuaTerminal::FloorDivide),
                n(LuaNonterminal::Exp11),
            ),
            all3(n(LuaNonterminal::Exp10), t(LuaTerminal::Modulo), n(LuaNonterminal::Exp11)),
            n(LuaNonterminal::Exp11),
        ),
        Ghost(v_one_of(seq![
                  v_all(seq![
                      v_n(LuaNonterminal::Exp10),
                      v_t(LuaTerminal::Multiply),
                      v_n(LuaNonterminal::Exp11),
                  ]),
                  v_all(seq![
                      v_n(LuaNonterminal::Exp10),
                      v_t(LuaTerminal::Divide),
                      v_n(LuaNonterminal::Exp11),
                  ]),
                  v_all(seq![
                      v_n(LuaNonterminal::Exp10),
                      v_t(LuaTerminal::FloorDivide),
                      v_n(LuaNonterminal::Exp11),
                  ]),
                  v_all(seq![
                      v_n(LuaNonterminal::Exp10),
                      v_t(LuaTerminal::Modulo),
                      v_n(LuaNonterminal::Exp11),
                  ]),
                  v_n(LuaNonterminal::Exp11),
              ])),
    );
    let b = add_production(
        b,
        LuaNonterminal::Exp11,
        one_of5(
            all2(t(LuaTerminal::Not), n(LuaNonterminal::Exp12)),
            all2(t(LuaTerminal::Length), n(LuaNonterminal::Exp12)),
            all2(t(LuaTerminal::Minus), n(LuaNonterminal::Exp12)),
            all2(t(LuaTerminal::BitwiseNeg), n(LuaNonterminal::Exp12)),
            n(LuaNonterminal::Exp12),
        ),
        Ghost(v_one_of(seq![
                  v_all(seq![v_t(LuaTerminal::Not), v_n(LuaNonterminal::Exp12)]),
                  v_all(seq![v_t(LuaTerminal::Length), v_n(LuaNonterminal::Exp12)]),
                  v_all(seq![v_t(LuaTerminal::Minus), v_n(LuaNonterminal::Exp12)]),
                  v_all(seq![v_t(LuaTerminal::BitwiseNeg), v_n(LuaNonterminal::Exp12)]),
                  v_n(LuaNonterminal::Exp12),
              ])),
    );
    let b = add_production(
        b,
        LuaNonterminal::Exp12,
        one_of2(
            all3(n(LuaNonterminal::Exp13), t(LuaTerminal::Power), n(LuaNonterminal::Exp12)),
            n(LuaNonterminal::Exp13),
        ),
        Ghost(v_one_of(seq![
                  v_all(seq![
                      v_n(LuaNonterminal::Exp13),
                      v_t(LuaTerminal::Power),
                      v_n(LuaNonterminal::Exp12),
                  ]),
                  v_n(LuaNonterminal::Exp13),
              ])),
    );
    let b = add_production(
        b,
        LuaNonterminal::Exp13,
        one_of9(
            t(LuaTerminal::Nil),
            t(LuaTerminal::False),
            t(LuaTerminal::True),
            t(LuaTerminal::NumberLiteral),
            t(LuaTerminal::StringLiteral),
            t(LuaTerminal::Varargs),
            n(LuaNonterminal::FunctionDef),
            n(LuaNonterminal::PrefixExp),
            n(LuaNonterminal::TableConstructor),
        ),
        Ghost(v_one_of(seq![
                  v_t(LuaTerminal::Nil),
                  v_t(LuaTerminal::False),
                  v_t(LuaTerminal::True),
                  v_t(LuaTerminal::NumberLiteral),
                  v_t(LuaTerminal::StringLiteral),
                  v_t(LuaTerminal::Varargs),
                  v_n(LuaNonterminal::FunctionDef),
                  v_n(LuaNonterminal::PrefixExp),
                  v_n(LuaNonterminal::TableConstructor),
              ])),
    );
    let b = add_production(
        b,
        LuaNonterminal::PrefixExp,
        one_of3(
            n(LuaNonterminal::Var),
            n(LuaNonterminal::FunctionCall),
            all3(
                t(LuaTerminal::LeftParenthesis),
                n(LuaNonterminal::Exp),
                t(LuaTerminal::RightParenthesis),
            ),
        ),
        Ghost(v_one_of(seq![
                  v_n(LuaNonterminal::Var),
                  v_n(LuaNonterminal::FunctionCall),
                  v_all(seq![
                      v_t(LuaTerminal::LeftParenthesis),
                      v_n(LuaNonterminal::Exp),
                      v_t(LuaTerminal::RightParenthesis),
                  ]),
              ])),
    );
    let b = add_production(
        b,
        LuaNonterminal::FunctionCall,
        one_of2(
            all2(n(LuaNonterminal::PrefixExp), n(LuaNonterminal::Args)),
            all4(
                n(LuaNonterminal::PrefixExp),
                t(LuaTerminal::Colon),
                t(LuaTerminal::Identifier),
                n(LuaNonterminal::Args),
            ),
        ),
        Ghost(v_one_of(seq![
                  v_all(seq![v_n(LuaNonterminal::PrefixExp), v_n(LuaNonterminal::Args)]),
                  v_all(seq![
                      v_n(LuaNonterminal::PrefixExp),
                      v_t(LuaTerminal::Colon),
                      v_t(LuaTerminal::Identifier),
                      v_n(LuaNonterminal::Args),
                  ]),
              ])),
    );
    let b = add_production(
        b,
        LuaNonterminal::Args,
        one_of3(
            all3(
                t(LuaTerminal::LeftParenthesis),
                maybe(n(LuaNonterminal::ExpList)),
                t(LuaTerminal::RightParenthesis),
            ),
            n(LuaNonterminal::TableConstructor),
            t(LuaTerminal::StringLiteral),
        ),
        Ghost(v_one_of(seq![
                  v_all(seq![
                      v_t(LuaTerminal::LeftParenthesis),
                      v_maybe(v_n(LuaNonterminal::ExpList)),
                      v_t(LuaTerminal::RightParenthesis),
                  ]),
                  v_n(LuaNonterminal::TableConstructor),
                  v_t(LuaTerminal::StringLiteral),
              ])),
    );
    proof {
        assert(productions_view(b.productions@) =~= v0 + lua_expression_grammar());
    }
    b
}

/// Appends the productions of calls, functions and tables.
fn lua_function_productions(b: ParserBuilder<LuaNonterminal>) -> (r: ParserBuilder<LuaNonterminal>)
    requires
        b.wf(),
        b.shape == lua_shape(),
    ensures
        r.wf(),
        r.shape == b.shape,
        r.start_symbol == b.start_symbol,
        productions_view(r.productions@) == productions_view(b.productions@) + lua_function_grammar(),
{
    let ghost v0 = productions_view(b.productions@);
    let b = add_production(
        b,
        LuaNonterminal::FunctionDef,
        all2(t(LuaTerminal::Function), n(LuaNonterminal::FuncBody)),
        Ghost(v_all(seq![v_t(LuaTerminal::Function), v_n(LuaNonterminal::FuncBody)])),
    );
    let b = add_production(
        b,
        LuaNonterminal::FuncBody,
        all5(
            t(LuaTerminal::LeftParenthesis),
            maybe(n(LuaNonterminal::ParList)),
            t(LuaTerminal::RightParenthesis),
            n(LuaNonterminal::Block),
            t(LuaTerminal::End),
        ),
        Ghost(v_all(seq![
                  v_t(LuaTerminal::LeftParenthesis),
                  v_maybe(v_n(LuaNonterminal::ParList)),
                  v_t(LuaTerminal::RightParenthesis),
                  v_n(LuaNonterminal::Block),
                  v_t(LuaTerminal::End),
              ])),
    );
    let b = add_production(
        b,
        LuaNonterminal::ParList,
        one_of2(
            all2(
                n(LuaNonterminal::NameList),
                maybe(all2(t(LuaTerminal::Comma), t(LuaTerminal::Varargs))),
            ),
            t(LuaTerminal::Varargs),
        ),
        Ghost(v_one_of(seq![
                  v_all(seq![
                      v_n(LuaNonterminal::NameList),
                      v_maybe(v_all(seq![v_t(LuaTerminal::Comma), v_t(LuaTerminal::Varargs)])),
                  ]),
                  v_t(LuaTerminal::Varargs),
              ])),
    );
    let b = add_production(
        b,
        LuaNonterminal::TableConstructor,
        all3(
            t(LuaTerminal::LeftBrace),
            maybe(n(LuaNonterminal::FieldList)),
            t(LuaTerminal::RightBrace),
        ),
        Ghost(v_all(seq![
                  v_t(LuaTerminal::LeftBrace),
                  v_maybe(v_n(LuaNonterminal::FieldList)),
                  v_t(LuaTerminal::RightBrace),
              ])),
    );
    let b = add_production(
        b,
        LuaNonterminal::FieldList,
        all3(
            n(LuaNonterminal::Field),
            many(all2(n(LuaNonterminal::FieldSep), n(LuaNonterminal::Field))),
            maybe(n(LuaNonterminal::FieldSep)),
        ),
        Ghost(v_all(seq![
                  v_n(LuaNonterminal::Field),
                  v_many(v_all(seq![v_n(LuaNonterminal::FieldSep), v_n(LuaNonterminal::Field)])),
                  v_maybe(v_n(LuaNonterminal::FieldSep)),
              ])),
    );
    let b = add_production(
        b,
        LuaNonterminal::Field,
        one_of3(
            all5(
                t(LuaTerminal::LeftBracket),
                n(LuaNonterminal::Exp),
                t(LuaTerminal::RightBracket),
                t(LuaTerminal::Equals),
                n(LuaNonterminal::Exp),
            ),
            all3(t(LuaTerminal::Identifier), t(LuaTerminal::Equals), n(LuaNonterminal::Exp)),
            n(LuaNonterminal::Exp),
        ),
        Ghost(v_one_of(seq![
                  v_all(seq![
                      v_t(LuaTerminal::LeftBracket),
                      v_n(LuaNonterminal::Exp),
                      v_t(LuaTerminal::RightBracket),
                      v_t(LuaTerminal::Equals),
                      v_n(LuaNonterminal::Exp),
                  ]),
                  v_all(seq![
                      v_t(LuaTerminal::Identifier),
                      v_t(LuaTerminal::Equals),
                      v_n(LuaNonterminal::Exp),
                  ]),
                  v_n(LuaNonterminal::Exp),
              ])),
    );
    let b = add_production(
        b,
        LuaNonterminal::FieldSep,
        one_of2(t(LuaTerminal::Comma), t(LuaTerminal::Semicolon)),
        Ghost(v_one_of(seq![v_t(LuaTerminal::Comma), v_t(LuaTerminal::Semicolon)])),
    );
    proof {
        assert(productions_view(b.productions@) =~= v0 + lua_function_grammar());
    }
    b
}

/// The Lua grammar: blocks and statements, names and lists, expressions by
/// precedence, then calls, functions and tables.
pub open spec fn lua_grammar() -> Seq<(usize, SequenceView)> {
    lua_block_grammar() + lua_list_grammar() + lua_expression_grammar() + lua_function_grammar()
}

/// The FIRST and FOLLOW sets of the Lua grammar, with `Chunk` as its start
/// symbol: those of productions whose views are `lua_grammar()`.
pub fn get_lua_parser() -> (r: Option<GrammarSets>)
    ensures
        r matches Some(g) && g.shape == lua_shape() && g.start_symbol == LuaNonterminal::Chunk.spec_index() && g.wf()
            && exists|ps: Seq<Production<LuaNonterminal>>| productions_view(ps) == lua_grammar()
                && rows(g.first_sets@) == first_sets(ps, lua_shape())
                && rows(g.follow_sets@) == follow_sets(ps, lua_shape(), LuaNonterminal::Chunk.spec_index() as int),
{
    let b: ParserBuilder<LuaNonterminal> = ParserBuilder::new(LUA_TERMINAL_COUNT, LUA_NONTERMINAL_COUNT);
    let b = lua_block_productions(b);
    let b = lua_list_productions(b);
    let b = lua_expression_productions(b);
    let b = lua_function_productions(b);
    let b = b.with_start_symbol(LuaNonterminal::Chunk.index());
    let ghost ps = b.productions@;
    proof {
        assert(productions_view(ps) =~= lua_grammar());
        assert(productions_view(ps)[0].0 == LuaNonterminal::Chunk.spec_index());
        assert(ps[0].produced_symbol == LuaNonterminal::Chunk.spec_index());
    }
    b.build()
}

} // verus!
