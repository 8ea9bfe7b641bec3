use phobos::lua_grammar::get_lua_parser;
use phobos::lua_symbols::{LuaNonterminal, LuaTerminal, LUA_NONTERMINAL_COUNT, LUA_TERMINAL_COUNT};
use phobos::symbol::{PossiblyEmptyTerminalSymbol as Fe, PossiblyEndOfFileTerminalSymbol as Fo};

fn tid(t: LuaTerminal) -> usize {
    t.index()
}

fn nid(n: LuaNonterminal) -> usize {
    n.index()
}

#[test]
fn lua_grammar_sets() {
    let g = get_lua_parser().unwrap();
    assert_eq!(g.start_symbol, nid(LuaNonterminal::Chunk));
    // a chunk may be empty and is followed only by the end of input
    assert!(g.first_contains(nid(LuaNonterminal::Chunk), Fe::Empty));
    assert_eq!(g.follow_set(nid(LuaNonterminal::Chunk)), vec![Fo::EndOfFile]);
    assert_eq!(
        g.first_set(nid(LuaNonterminal::FieldSep)),
        vec![Fe::Terminal(tid(LuaTerminal::Comma)), Fe::Terminal(tid(LuaTerminal::Semicolon))]
    );
    assert_eq!(g.first_set(nid(LuaNonterminal::Label)), vec![Fe::Terminal(tid(LuaTerminal::DoubleColon))]);
    for t in [LuaTerminal::End, LuaTerminal::Until, LuaTerminal::Else, LuaTerminal::Elseif] {
        assert!(g.follow_contains(nid(LuaNonterminal::Block), Fo::Terminal(tid(t))));
    }
    assert!(g.follow_contains(nid(LuaNonterminal::Block), Fo::EndOfFile));
    for t in [LuaTerminal::Nil, LuaTerminal::True, LuaTerminal::NumberLiteral, LuaTerminal::StringLiteral, LuaTerminal::Varargs, LuaTerminal::Function, LuaTerminal::LeftBrace, LuaTerminal::Identifier, LuaTerminal::LeftParenthesis] {
        assert!(g.first_contains(nid(LuaNonterminal::Exp13), Fo_to_fe(t)));
    }
    assert!(!g.first_contains(nid(LuaNonterminal::Exp13), Fe::Empty));
}

#[allow(non_snake_case)]
fn Fo_to_fe(t: LuaTerminal) -> Fe {
    Fe::Terminal(t.index())
}

#[test]
fn enumerations_round_trip() {
    for i in 0..LUA_TERMINAL_COUNT {
        assert_eq!(LuaTerminal::from_index(i).unwrap().index(), i);
    }
    for i in 0..LUA_NONTERMINAL_COUNT {
        assert_eq!(LuaNonterminal::from_index(i).unwrap().index(), i);
    }
    assert!(LuaTerminal::from_index(LUA_TERMINAL_COUNT).is_none());
    assert!(LuaNonterminal::from_index(LUA_NONTERMINAL_COUNT).is_none());
    assert_eq!(LuaTerminal::NotEq.get_name(), "`~=`");
    assert_eq!(LuaTerminal::Identifier.get_name(), "Name");
    assert_eq!(LuaNonterminal::TableConstructor.get_name(), "tableconstructor");
    assert!(LuaNonterminal::Exp.same_symbol(&LuaNonterminal::Exp));
    assert!(!LuaNonterminal::Exp.same_symbol(&LuaNonterminal::Exp2));
}
