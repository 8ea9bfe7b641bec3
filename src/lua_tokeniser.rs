//! The Lua 5.3 rule table.
use vstd::prelude::*;
use crate::lua_symbols::LuaTerminal;
use crate::token::TokenisationErrorType;
use crate::tokeniser::{Tokeniser, TokeniserBuilder, LexemeBuilder, builder_emits};

verus! {

/// The Lua rules in order: each pattern with what its match builds.
pub open spec fn lua_rules() -> Seq<(Seq<char>, LexemeBuilder)> {
    seq![
        ("^end\\b"@, LexemeBuilder::Static(LuaTerminal::End)),
        ("^do\\b"@, LexemeBuilder::Static(LuaTerminal::Do)),
        ("^while\\b"@, LexemeBuilder::Static(LuaTerminal::While)),
        ("^repeat\\b"@, LexemeBuilder::Static(LuaTerminal::Repeat)),
        ("^until\\b"@, LexemeBuilder::Static(LuaTerminal::Until)),
        ("^if\\b"@, LexemeBuilder::Static(LuaTerminal::If)),
        ("^in\\b"@, LexemeBuilder::Static(LuaTerminal::In)),
        ("^then\\b"@, LexemeBuilder::Static(LuaTerminal::Then)),
        ("^elseif\\b"@, LexemeBuilder::Static(LuaTerminal::Elseif)),
        ("^else\\b"@, LexemeBuilder::Static(LuaTerminal::Else)),
        ("^for\\b"@, LexemeBuilder::Static(LuaTerminal::For)),
        ("^function\\b"@, LexemeBuilder::Static(LuaTerminal::Function)),
        ("^local\\b"@, LexemeBuilder::Static(LuaTerminal::Local)),
        ("^return\\b"@, LexemeBuilder::Static(LuaTerminal::Return)),
        ("^break\\b"@, LexemeBuilder::Static(LuaTerminal::Break)),
        ("^true\\b"@, LexemeBuilder::Static(LuaTerminal::True)),
        ("^false\\b"@, LexemeBuilder::Static(LuaTerminal::False)),
        ("^nil\\b"@, LexemeBuilder::Static(LuaTerminal::Nil)),
        ("^and\\b"@, LexemeBuilder::Static(LuaTerminal::And)),
        ("^or\\b"@, LexemeBuilder::Static(LuaTerminal::Or)),
        ("^not\\b"@, LexemeBuilder::Static(LuaTerminal::Not)),
        ("^goto\\b"@, LexemeBuilder::Static(LuaTerminal::Goto)),
        ("^[A-Za-z_]\\w*"@, LexemeBuilder::Identifier),
        ("^(0[xX]([pP][+-]?|[0-9a-fA-F.])*|\\.?[0-9]([eE][+-]?|[0-9a-fA-F.])*)"@, LexemeBuilder::Number),
        ("^\\.\\.\\."@, LexemeBuilder::Static(LuaTerminal::Varargs)),
        ("^\\.\\."@, LexemeBuilder::Static(LuaTerminal::Concat)),
        ("^\\."@, LexemeBuilder::Static(LuaTerminal::Dot)),
        ("^=="@, LexemeBuilder::Static(LuaTerminal::DoubleEquals)),
        ("^="@, LexemeBuilder::Static(LuaTerminal::Equals)),
        ("^::"@, LexemeBuilder::Static(LuaTerminal::DoubleColon)),
        ("^:"@, LexemeBuilder::Static(LuaTerminal::Colon)),
        ("^,"@, LexemeBuilder::Static(LuaTerminal::Comma)),
        ("^\\]"@, LexemeBuilder::Static(LuaTerminal::RightBracket)),
        ("^\\("@, LexemeBuilder::Static(LuaTerminal::LeftParenthesis)),
        ("^\\)"@, LexemeBuilder::Static(LuaTerminal::RightParenthesis)),
        ("^\\{"@, LexemeBuilder::Static(LuaTerminal::LeftBrace)),
        ("^\\}"@, LexemeBuilder::Static(LuaTerminal::RightBrace)),
        ("^<<"@, LexemeBuilder::Static(LuaTerminal::LeftShift)),
        ("^<="@, LexemeBuilder::Static(LuaTerminal::LessEq)),
        ("^<"@, LexemeBuilder::Static(LuaTerminal::LessThan)),
        ("^>>"@, LexemeBuilder::Static(LuaTerminal::RightShift)),
        ("^>="@, LexemeBuilder::Static(LuaTerminal::GreaterEq)),
        ("^>"@, LexemeBuilder::Static(LuaTerminal::GreaterThan)),
        ("^&"@, LexemeBuilder::Static(LuaTerminal::BitwiseAnd)),
        ("^\\|"@, LexemeBuilder::Static(LuaTerminal::BitwiseOr)),
        ("^~="@, LexemeBuilder::Static(LuaTerminal::NotEq)),
        ("^~"@, LexemeBuilder::Static(LuaTerminal::BitwiseNeg)),
        ("^;"@, LexemeBuilder::Static(LuaTerminal::Semicolon)),
        ("^\\+"@, LexemeBuilder::Static(LuaTerminal::Plus)),
        ("^\\*"@, LexemeBuilder::Static(LuaTerminal::Multiply)),
        ("^//"@, LexemeBuilder::Static(LuaTerminal::FloorDivide)),
        ("^/"@, LexemeBuilder::Static(LuaTerminal::Divide)),
        ("^\\^"@, LexemeBuilder::Static(LuaTerminal::Power)),
        ("^%"@, LexemeBuilder::Static(LuaTerminal::Modulo)),
        ("^#"@, LexemeBuilder::Static(LuaTerminal::Length)),
        ("^\"(\\\\.|[^\"\\\\\\n])*\""@, LexemeBuilder::QuotedString),
        ("^'(\\\\.|[^'\\\\\\n])*'"@, LexemeBuilder::QuotedString),
        ("^\\[=*\\["@, LexemeBuilder::LongString),
        ("^\\["@, LexemeBuilder::Static(LuaTerminal::LeftBracket)),
        ("^--\\[=*\\["@, LexemeBuilder::LongComment),
        ("^--[^\\n]*"@, LexemeBuilder::Skip),
        ("^-"@, LexemeBuilder::Static(LuaTerminal::Minus)),
    ]
}

/// A tokeniser for Lua 5.3. Keywords come before names, longer operators
/// before their prefixes, long comments before line comments.
pub fn get_lua_tokeniser() -> (r: Option<Tokeniser>)
    ensures
        r matches Some(t) && t.lexemes@.len() == lua_rules().len()
            && (forall|i: int| 0 <= i < lua_rules().len() ==> (#[trigger] t.lexemes@[i]).pattern@ == lua_rules()[i].0
                && t.lexemes@[i].builder == lua_rules()[i].1)
            && (forall|i: int| 0 <= i < t.lexemes@.len() ==> !builder_emits(#[trigger] t.lexemes@[i].builder, t.eof_terminal))
            && t.eof_terminal == LuaTerminal::EndOfFile
            && t.error_terminal == LuaTerminal::Error
            && t.error_handlers@ == seq![('"', TokenisationErrorType::UnfinishedString), ('\'', TokenisationErrorType::UnfinishedString)],
{
    TokeniserBuilder::new()
        .with_static_token("^end\\b".to_owned(), LuaTerminal::End)
        .with_static_token("^do\\b".to_owned(), LuaTerminal::Do)
        .with_static_token("^while\\b".to_owned(), LuaTerminal::While)
        .with_static_token("^repeat\\b".to_owned(), LuaTerminal::Repeat)
        .with_static_token("^until\\b".to_owned(), LuaTerminal::Until)
        .with_static_token("^if\\b".to_owned(), LuaTerminal::If)
        .with_static_token("^in\\b".to_owned(), LuaTerminal::In)
        .with_static_token("^then\\b".to_owned(), LuaTerminal::Then)
        .with_static_token("^elseif\\b".to_owned(), LuaTerminal::Elseif)
        .with_static_token("^else\\b".to_owned(), LuaTerminal::Else)
        .with_static_token("^for\\b".to_owned(), LuaTerminal::For)
        .with_static_token("^function\\b".to_owned(), LuaTerminal::Function)
        .with_static_token("^local\\b".to_owned(), LuaTerminal::Local)
        .with_static_token("^return\\b".to_owned(), LuaTerminal::Return)
        .with_static_token("^break\\b".to_owned(), LuaTerminal::Break)
        .with_static_token("^true\\b".to_owned(), LuaTerminal::True)
        .with_static_token("^false\\b".to_owned(), LuaTerminal::False)
        .with_static_token("^nil\\b".to_owned(), LuaTerminal::Nil)
        .with_static_token("^and\\b".to_owned(), LuaTerminal::And)
        .with_static_token("^or\\b".to_owned(), LuaTerminal::Or)
        .with_static_token("^not\\b".to_owned(), LuaTerminal::Not)
        .with_static_token("^goto\\b".to_owned(), LuaTerminal::Goto)
        .with_dynamic_token("^[A-Za-z_]\\w*".to_owned(), LexemeBuilder::Identifier)
        .with_dynamic_token("^(0[xX]([pP][+-]?|[0-9a-fA-F.])*|\\.?[0-9]([eE][+-]?|[0-9a-fA-F.])*)".to_owned(), LexemeBuilder::Number)
        .with_static_token("^\\.\\.\\.".to_owned(), LuaTerminal::Varargs)
        .with_static_token("^\\.\\.".to_owned(), LuaTerminal::Concat)
        .with_static_token("^\\.".to_owned(), LuaTerminal::Dot)
        .with_static_token("^==".to_owned(), LuaTerminal::DoubleEquals)
        .with_static_token("^=".to_owned(), LuaTerminal::Equals)
        .with_static_token("^::".to_owned(), LuaTerminal::DoubleColon)
        .with_static_token("^:".to_owned(), LuaTerminal::Colon)
        .with_static_token("^,".to_owned(), LuaTerminal::Comma)
        .with_static_token("^\\]".to_owned(), LuaTerminal::RightBracket)
        .with_static_token("^\\(".to_owned(), LuaTerminal::LeftParenthesis)
        .with_static_token("^\\)".to_owned(), LuaTerminal::RightParenthesis)
        .with_static_token("^\\{".to_owned(), LuaTerminal::LeftBrace)
        .with_static_token("^\\}".to_owned(), LuaTerminal::RightBrace)
        .with_static_token("^<<".to_owned(), LuaTerminal::LeftShift)
        .with_static_token("^<=".to_owned(), LuaTerminal::LessEq)
        .with_static_token("^<".to_owned(), LuaTerminal::LessThan)
        .with_static_token("^>>".to_owned(), LuaTerminal::RightShift)
        .with_static_token("^>=".to_owned(), LuaTerminal::GreaterEq)
        .with_static_token("^>".to_owned(), LuaTerminal::GreaterThan)
        .with_static_token("^&".to_owned(), LuaTerminal::BitwiseAnd)
        .with_static_token("^\\|".to_owned(), LuaTerminal::BitwiseOr)
        .with_static_token("^~=".to_owned(), LuaTerminal::NotEq)
        .with_static_token("^~".to_owned(), LuaTerminal::BitwiseNeg)
        .with_static_token("^;".to_owned(), LuaTerminal::Semicolon)
        .with_static_token("^\\+".to_owned(), LuaTerminal::Plus)
        .with_static_token("^\\*".to_owned(), LuaTerminal::Multiply)
        .with_static_token("^//".to_owned(), LuaTerminal::FloorDivide)
        .with_static_token("^/".to_owned(), LuaTerminal::Divide)
        .with_static_token("^\\^".to_owned(), LuaTerminal::Power)
        .with_static_token("^%".to_owned(), LuaTerminal::Modulo)
        .with_static_token("^#".to_owned(), LuaTerminal::Length)
        .with_dynamic_token("^\"(\\\\.|[^\"\\\\\\n])*\"".to_owned(), LexemeBuilder::QuotedString)
        .with_dynamic_token("^'(\\\\.|[^'\\\\\\n])*'".to_owned(), LexemeBuilder::QuotedString)
        .with_complicated_token("^\\[=*\\[".to_owned(), LexemeBuilder::LongString)
        .with_static_token("^\\[".to_owned(), LuaTerminal::LeftBracket)
        .with_complicated_token("^--\\[=*\\[".to_owned(), LexemeBuilder::LongComment)
        .with_dynamic_token("^--[^\\n]*".to_owned(), LexemeBuilder::Skip)
        .with_static_token("^-".to_owned(), LuaTerminal::Minus)
        .with_error_handler('"', TokenisationErrorType::UnfinishedString)
        .with_error_handler('\'', TokenisationErrorType::UnfinishedString)
        .with_eof_handler(LuaTerminal::EndOfFile)
        .with_unexpected_symbol_handler(LuaTerminal::Error)
        .build()
}

} // verus!
