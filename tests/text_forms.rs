use phobos::lua_node::{LuaValue};
use phobos::lua_tokeniser::get_lua_tokeniser;
use phobos::production::Production;
use phobos::symbol::{Symbol, SymbolSequence};
use phobos::token::{Location, LuaNumber};
use phobos::text::decimal_text;

fn names(v: &[&str]) -> Vec<String> {
    v.iter().map(|s| s.to_string()).collect()
}

#[test]
fn symbol_sequence_display() {
    let tn = names(&["if", "then", "else"]);
    let nn = names(&["stat", "exp", "block"]);
    let body = SymbolSequence::Sequence(vec![
        SymbolSequence::from_terminal(0),
        SymbolSequence::from_nonterminal(1),
        SymbolSequence::from_terminal(1),
        SymbolSequence::many(SymbolSequence::from_nonterminal(2)),
        SymbolSequence::maybe(SymbolSequence::either(SymbolSequence::from_terminal(2), SymbolSequence::from_symbol(Symbol::Empty))),
    ]);
    assert_eq!(body.to_text(&tn, &nn), "if exp then { block } [ else | ε ]");
    let p: Production<u8> = Production::new(0, body, 0u8);
    assert_eq!(p.to_text(&tn, &nn), "stat ::= if exp then { block } [ else | ε ]");
}

#[test]
fn token_and_error_text() {
    let t = get_lua_tokeniser().unwrap();
    let v = t.tokenise("x = 'hi' 12").unwrap();
    assert_eq!(v[0].to_text(), "Identifier(x) at line 1, col 1");
    assert_eq!(v[1].to_text(), "Equals at line 1, col 3");
    assert_eq!(v[2].to_text(), "StringLiteral('hi') at line 1, col 5");
    assert_eq!(v[3].to_text(), "NumberLiteral('12') at line 1, col 10");
    let e = t.tokenise("\n  \"open").unwrap_err();
    assert_eq!(e.message(), "2: unfinished string near '\"open'");
    assert_eq!(Location { line: 3, col: 40 }.to_text(), "line 3, col 40");
    assert_eq!(decimal_text(0), "0");
    assert_eq!(decimal_text(18446744073709551615), "18446744073709551615");
}

#[test]
fn value_type_names() {
    assert_eq!(LuaValue::Nil.name(), "nil");
    assert_eq!(LuaValue::Boolean(true).name(), "boolean");
    assert_eq!(LuaValue::Number(LuaNumber::Integer(1)).name(), "number");
    assert_eq!(LuaValue::LuaString("s".to_string()).name(), "string");
    assert_eq!(LuaValue::Thread.name(), "thread");
    assert_eq!(LuaValue::Userdata.name(), "userdata");
}
