use phobos::lua_symbols::LuaTerminal;
use phobos::lua_tokeniser::get_lua_tokeniser;
use phobos::tokeniser::TokeniserBuilder;
use phobos::token::{Location, LuaNumber, LuaTokenData, Token, TokenisationError, TokenisationErrorType};

fn tokens(src: &str) -> Vec<Token> {
    let t = get_lua_tokeniser().unwrap();
    match t.tokenise(src) {
        Ok(v) => v,
        Err(e) => panic!("unexpected error {:?}", e),
    }
}

fn error(src: &str) -> TokenisationError {
    let t = get_lua_tokeniser().unwrap();
    match t.tokenise(src) {
        Ok(v) => panic!("unexpected tokens {:?}", v),
        Err(e) => e,
    }
}

fn loc(line: usize, col: usize) -> Location {
    Location { line, col }
}

fn kinds(v: &[Token]) -> Vec<LuaTerminal> {
    v.iter().map(|t| t.token_type).collect()
}

#[test]
fn local_assignment_tokens() {
    let v = tokens("local x = 42");
    assert_eq!(v.len(), 5);
    assert_eq!(v[0].token_type, LuaTerminal::Local);
    assert_eq!(v[0].location, loc(1, 1));
    assert_eq!(v[1].token_type, LuaTerminal::Identifier);
    assert_eq!(v[1].token_data, Some(LuaTokenData::Identifier("x".to_string())));
    assert_eq!(v[1].location, loc(1, 7));
    assert_eq!(v[2].token_type, LuaTerminal::Equals);
    assert_eq!(v[2].location, loc(1, 9));
    assert_eq!(v[3].token_type, LuaTerminal::NumberLiteral);
    assert_eq!(v[3].token_data, Some(LuaTokenData::NumberLiteral(LuaNumber::Integer(42))));
    assert_eq!(v[3].location, loc(1, 11));
    assert_eq!(v[4].token_type, LuaTerminal::EndOfFile);
    assert_eq!(v[4].location, loc(1, 13));
}

#[test]
fn unfinished_quoted_string() {
    let e = error("\"hello\nworld\"");
    assert_eq!(e.error_type, TokenisationErrorType::UnfinishedString);
    assert_eq!(e.partial_token.token_data, Some(LuaTokenData::Error("\"hello".to_string())));
    assert_eq!(e.partial_token.location, loc(1, 1));
}

#[test]
fn long_string_of_depth_two() {
    let v = tokens("[==[ body ]=] still ]==]");
    assert_eq!(v.len(), 2);
    assert_eq!(v[0].token_type, LuaTerminal::StringLiteral);
    assert_eq!(v[0].token_data, Some(LuaTokenData::StringLiteral(" body ]=] still ".to_string())));
    assert_eq!(v[0].location, loc(1, 1));
    assert_eq!(v[1].token_type, LuaTerminal::EndOfFile);
}

#[test]
fn line_comment_is_skipped() {
    let v = tokens("-- comment\n1 + 2");
    assert_eq!(kinds(&v), vec![LuaTerminal::NumberLiteral, LuaTerminal::Plus, LuaTerminal::NumberLiteral, LuaTerminal::EndOfFile]);
    assert_eq!(v[0].token_data, Some(LuaTokenData::NumberLiteral(LuaNumber::Integer(1))));
    assert_eq!(v[0].location, loc(2, 1));
    assert_eq!(v[1].location, loc(2, 3));
    assert_eq!(v[2].token_data, Some(LuaTokenData::NumberLiteral(LuaNumber::Integer(2))));
    assert_eq!(v[2].location, loc(2, 5));
}

#[test]
fn long_string_across_lines() {
    let v = tokens("x = [[\nab\ncd]] y");
    assert_eq!(kinds(&v), vec![LuaTerminal::Identifier, LuaTerminal::Equals, LuaTerminal::StringLiteral, LuaTerminal::Identifier, LuaTerminal::EndOfFile]);
    assert_eq!(v[2].token_data, Some(LuaTokenData::StringLiteral("\nab\ncd".to_string())));
    assert_eq!(v[2].location, loc(1, 5));
    assert_eq!(v[3].location, loc(3, 6));
}

#[test]
fn long_comment_across_lines() {
    let v = tokens("a --[=[ one\ntwo ]] ]=] b");
    assert_eq!(kinds(&v), vec![LuaTerminal::Identifier, LuaTerminal::Identifier, LuaTerminal::EndOfFile]);
    assert_eq!(v[1].location, loc(2, 12));
}

#[test]
fn unfinished_long_string() {
    let e = error("s = [==[ never\nclosed ]=]");
    assert_eq!(e.error_type, TokenisationErrorType::UnfinishedLongString);
    assert_eq!(e.partial_token.location, loc(1, 5));
}

#[test]
fn unfinished_long_comment() {
    let e = error("--[[ open");
    assert_eq!(e.error_type, TokenisationErrorType::UnfinishedLongComment);
    assert_eq!(e.partial_token.location, loc(1, 1));
}

#[test]
fn unexpected_symbol() {
    let e = error("a = $");
    assert_eq!(e.error_type, TokenisationErrorType::UnexpectedSymbol);
    assert_eq!(e.partial_token.token_type, LuaTerminal::Error);
    assert_eq!(e.partial_token.token_data, Some(LuaTokenData::Error("$".to_string())));
    assert_eq!(e.partial_token.location, loc(1, 5));
}

#[test]
fn malformed_number() {
    let e = error("x = 1..2");
    assert_eq!(e.error_type, TokenisationErrorType::MalformedNumber);
    assert_eq!(e.partial_token.token_data, Some(LuaTokenData::Error("1..2".to_string())));
    assert_eq!(e.partial_token.location, loc(1, 5));
}

#[test]
fn numerals() {
    let v = tokens("0xff 0x10p1 3.5 1e10 .5 9223372036854775807 9223372036854775808 0xffffffffffffffffff");
    let data: Vec<Option<LuaTokenData>> = v.iter().map(|t| t.token_data.clone()).collect();
    assert_eq!(data[0], Some(LuaTokenData::NumberLiteral(LuaNumber::Integer(255))));
    assert_eq!(data[1], Some(LuaTokenData::NumberLiteral(LuaNumber::Float("0x10p1".to_string()))));
    assert_eq!(data[2], Some(LuaTokenData::NumberLiteral(LuaNumber::Float("3.5".to_string()))));
    assert_eq!(data[3], Some(LuaTokenData::NumberLiteral(LuaNumber::Float("1e10".to_string()))));
    assert_eq!(data[4], Some(LuaTokenData::NumberLiteral(LuaNumber::Float(".5".to_string()))));
    assert_eq!(data[5], Some(LuaTokenData::NumberLiteral(LuaNumber::Integer(9223372036854775807))));
    assert_eq!(data[6], Some(LuaTokenData::NumberLiteral(LuaNumber::Float("9223372036854775808".to_string()))));
    assert_eq!(data[7], Some(LuaTokenData::NumberLiteral(LuaNumber::Integer(0xffffffffffffffff))));
}

#[test]
fn quoted_string_escapes() {
    let v = tokens("'a\\tb\\'c' \"q\\\"\"");
    assert_eq!(v[0].token_data, Some(LuaTokenData::StringLiteral("a\tb'c".to_string())));
    assert_eq!(v[1].token_data, Some(LuaTokenData::StringLiteral("q\"".to_string())));
    assert_eq!(v[1].location, loc(1, 11));
}

#[test]
fn earlier_rule_wins() {
    let v = tokens("a ~= b == c ... .. . // / <= << >= >> :: elseif else");
    assert_eq!(
        kinds(&v),
        vec![
            LuaTerminal::Identifier,
            LuaTerminal::NotEq,
            LuaTerminal::Identifier,
            LuaTerminal::DoubleEquals,
            LuaTerminal::Identifier,
            LuaTerminal::Varargs,
            LuaTerminal::Concat,
            LuaTerminal::Dot,
            LuaTerminal::FloorDivide,
            LuaTerminal::Divide,
            LuaTerminal::LessEq,
            LuaTerminal::LeftShift,
            LuaTerminal::GreaterEq,
            LuaTerminal::RightShift,
            LuaTerminal::DoubleColon,
            LuaTerminal::Elseif,
            LuaTerminal::Else,
            LuaTerminal::EndOfFile,
        ]
    );
}

#[test]
fn keyword_prefix_is_a_name() {
    let v = tokens("ending");
    assert_eq!(v[0].token_type, LuaTerminal::Identifier);
    assert_eq!(v[0].token_data, Some(LuaTokenData::Identifier("ending".to_string())));
}

#[test]
fn locations_never_go_backwards() {
    let v = tokens("if a then\n  b = {1, 2}\nend -- done\n\nreturn b");
    for w in v.windows(2) {
        let (a, b) = (w[0].location, w[1].location);
        assert!(a.line < b.line || (a.line == b.line && a.col <= b.col));
    }
    assert_eq!(v.last().unwrap().location, loc(5, 9));
}

#[test]
fn end_of_input_lies_past_the_source() {
    let v = tokens("a\n\n  -- trailing\n   ");
    assert_eq!(kinds(&v), vec![LuaTerminal::Identifier, LuaTerminal::EndOfFile]);
    assert_eq!(v[1].location, loc(4, 4));
    let ended = tokens("a\n");
    assert_eq!(ended[1].location, loc(1, 3));
    let wide = tokens("'é' xé");
    assert_eq!(wide[1].location, loc(1, 5));
    assert_eq!(wide[1].token_data, Some(LuaTokenData::Identifier("xé".to_string())));
    assert_eq!(wide[2].location, loc(1, 7));
    let empty = tokens("");
    assert_eq!(kinds(&empty), vec![LuaTerminal::EndOfFile]);
    assert_eq!(empty[0].location, loc(1, 1));
}

#[test]
fn retokenising_joined_text_keeps_the_terminals() {
    let src = "local t = {x = 1, [2] = 'y'} print(t.x .. #t)";
    let first = tokens(src);
    let spaced = "local t = { x = 1 , [ 2 ] = 'y' } print ( t . x .. # t )";
    let second = tokens(spaced);
    assert_eq!(kinds(&first), kinds(&second));
}

#[test]
fn builder_needs_both_handlers() {
    use_builder();
}

fn use_builder() {
    let no_eof = TokeniserBuilder::new()
        .with_static_token("^x".to_string(), LuaTerminal::Identifier)
        .with_unexpected_symbol_handler(LuaTerminal::Error)
        .build();
    assert!(no_eof.is_none());
    let no_error = TokeniserBuilder::new().with_eof_handler(LuaTerminal::EndOfFile).build();
    assert!(no_error.is_none());
    let t = TokeniserBuilder::new()
        .with_static_token("^ab".to_string(), LuaTerminal::Plus)
        .with_static_token("^a".to_string(), LuaTerminal::Minus)
        .with_error_handler('"', TokenisationErrorType::UnfinishedString)
        .with_eof_handler(LuaTerminal::EndOfFile)
        .with_unexpected_symbol_handler(LuaTerminal::Error)
        .build()
        .unwrap();
    let v = t.tokenise("ab a").unwrap();
    assert_eq!(kinds(&v), vec![LuaTerminal::Plus, LuaTerminal::Minus, LuaTerminal::EndOfFile]);
    let e = t.tokenise("a \"q").unwrap_err();
    assert_eq!(e.error_type, TokenisationErrorType::UnfinishedString);
    assert_eq!(e.partial_token.token_data, Some(LuaTokenData::Error("\"q".to_string())));
}

#[test]
fn handlers_keyed_by_character_last_wins() {
    let t = TokeniserBuilder::new()
        .with_static_token("^a".to_string(), LuaTerminal::Minus)
        .with_error_handler('é', TokenisationErrorType::SyntaxError)
        .with_error_handler('"', TokenisationErrorType::UnfinishedString)
        .with_error_handler('"', TokenisationErrorType::UnfinishedLongString)
        .with_eof_handler(LuaTerminal::EndOfFile)
        .with_unexpected_symbol_handler(LuaTerminal::Error)
        .build()
        .unwrap();
    let e = t.tokenise("a éa").unwrap_err();
    assert_eq!(e.error_type, TokenisationErrorType::SyntaxError);
    assert_eq!(e.partial_token.token_data, Some(LuaTokenData::Error("éa".to_string())));
    assert_eq!(e.partial_token.location, loc(1, 3));
    let e = t.tokenise("\"x").unwrap_err();
    assert_eq!(e.error_type, TokenisationErrorType::UnfinishedLongString);
    let e = t.tokenise("ü").unwrap_err();
    assert_eq!(e.error_type, TokenisationErrorType::UnexpectedSymbol);
    assert_eq!(e.partial_token.token_data, Some(LuaTokenData::Error("ü".to_string())));
}
