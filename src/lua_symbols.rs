//! The Lua 5.3 terminal and nonterminal enumerations that instantiate the
//! tokeniser and the grammar toolkit.
use vstd::prelude::*;
use crate::symbol::{TerminalSymbol, NonterminalSymbol};

verus! {

/// A Lua lexical token kind.
#[derive(PartialEq, Eq, Structural, Clone, Copy, Debug, Hash)]
pub enum LuaTerminal {
    End,
    Do,
    While,
    Repeat,
    Until,
    If,
    In,
    Then,
    Elseif,
    Else,
    For,
    Function,
    Local,
    Return,
    Break,
    True,
    False,
    Nil,
    And,
    Or,
    Not,
    Goto,
    Equals,
    DoubleEquals,
    Dot,
    Colon,
    DoubleColon,
    Comma,
    LeftBracket,
    RightBracket,
    LeftParenthesis,
    RightParenthesis,
    LeftBrace,
    RightBrace,
    LeftShift,
    RightShift,
    BitwiseAnd,
    BitwiseOr,
    BitwiseNeg,
    Varargs,
    Semicolon,
    Plus,
    Minus,
    Multiply,
    Divide,
    FloorDivide,
    Power,
    Modulo,
    Concat,
    LessThan,
    LessEq,
    GreaterThan,
    GreaterEq,
    NotEq,
    Length,
    Comment,
    EndOfFile,
    Error,
    Identifier,
    StringLiteral,
    NumberLiteral,
}

/// The number of variants of `LuaTerminal`.
pub const LUA_TERMINAL_COUNT: usize = 61;

impl LuaTerminal {
    /// The position of the variant in the enumeration.
    pub open spec fn spec_index(self) -> usize {
        match self {
            LuaTerminal::End => 0,
            LuaTerminal::Do => 1,
            LuaTerminal::While => 2,
            LuaTerminal::Repeat => 3,
            LuaTerminal::Until => 4,
            LuaTerminal::If => 5,
            LuaTerminal::In => 6,
            LuaTerminal::Then => 7,
            LuaTerminal::Elseif => 8,
            LuaTerminal::Else => 9,
            LuaTerminal::For => 10,
            LuaTerminal::Function => 11,
            LuaTerminal::Local => 12,
            LuaTerminal::Return => 13,
            LuaTerminal::Break => 14,
            LuaTerminal::True => 15,
            LuaTerminal::False => 16,
            LuaTerminal::Nil => 17,
            LuaTerminal::And => 18,
            LuaTerminal::Or => 19,
            LuaTerminal::Not => 20,
            LuaTerminal::Goto => 21,
            LuaTerminal::Equals => 22,
            LuaTerminal::DoubleEquals => 23,
            LuaTerminal::Dot => 24,
            LuaTerminal::Colon => 25,
            LuaTerminal::DoubleColon => 26,
            LuaTerminal::Comma => 27,
            LuaTerminal::LeftBracket => 28,
            LuaTerminal::RightBracket => 29,
            LuaTerminal::LeftParenthesis => 30,
            LuaTerminal::RightParenthesis => 31,
            LuaTerminal::LeftBrace => 32,
            LuaTerminal::RightBrace => 33,
            LuaTerminal::LeftShift => 34,
            LuaTerminal::RightShift => 35,
            LuaTerminal::BitwiseAnd => 36,
            LuaTerminal::BitwiseOr => 37,
            LuaTerminal::BitwiseNeg => 38,
            LuaTerminal::Varargs => 39,
            LuaTerminal::Semicolon => 40,
            LuaTerminal::Plus => 41,
            LuaTerminal::Minus => 42,
            LuaTerminal::Multiply => 43,
            LuaTerminal::Divide => 44,
            LuaTerminal::FloorDivide => 45,
            LuaTerminal::Power => 46,
            LuaTerminal::Modulo => 47,
            LuaTerminal::Concat => 48,
            LuaTerminal::LessThan => 49,
            LuaTerminal::LessEq => 50,
            LuaTerminal::GreaterThan => 51,
            LuaTerminal::GreaterEq => 52,
            LuaTerminal::NotEq => 53,
            LuaTerminal::Length => 54,
            LuaTerminal::Comment => 55,
            LuaTerminal::EndOfFile => 56,
            LuaTerminal::Error => 57,
            LuaTerminal::Identifier => 58,
            LuaTerminal::StringLiteral => 59,
            LuaTerminal::NumberLiteral => 60,
        }
    }

    /// The printable name of the variant.
    pub open spec fn spec_name(self) -> Seq<char> {
        match self {
            LuaTerminal::End => "end"@,
            LuaTerminal::Do => "do"@,
            LuaTerminal::While => "while"@,
            LuaTerminal::Repeat => "repeat"@,
            LuaTerminal::Until => "until"@,
            LuaTerminal::If => "if"@,
            LuaTerminal::In => "in"@,
            LuaTerminal::Then => "then"@,
            LuaTerminal::Elseif => "elseif"@,
            LuaTerminal::Else => "else"@,
            LuaTerminal::For => "for"@,
            LuaTerminal::Function => "function"@,
            LuaTerminal::Local => "local"@,
            LuaTerminal::Return => "return"@,
            LuaTerminal::Break => "break"@,
            LuaTerminal::True => "true"@,
            LuaTerminal::False => "false"@,
            LuaTerminal::Nil => "nil"@,
            LuaTerminal::And => "and"@,
            LuaTerminal::Or => "or"@,
            LuaTerminal::Not => "not"@,
            LuaTerminal::Goto => "goto"@,
            LuaTerminal::Equals => "`=`"@,
            LuaTerminal::DoubleEquals => "`==`"@,
            LuaTerminal::Dot => "`.`"@,
            LuaTerminal::Colon => "`:`"@,
            LuaTerminal::DoubleColon => "`::`"@,
            LuaTerminal::Comma => "`,`"@,
            LuaTerminal::LeftBracket => "`[`"@,
            LuaTerminal::RightBracket => "`]`"@,
            LuaTerminal::LeftParenthesis => "`(`"@,
            LuaTerminal::RightParenthesis => "`)`"@,
            LuaTerminal::LeftBrace => "`{`"@,
            LuaTerminal::RightBrace => "`}`"@,
            LuaTerminal::LeftShift => "`<<`"@,
            LuaTerminal::RightShift => "`>>`"@,
            LuaTerminal::BitwiseAnd => "`&`"@,
            LuaTerminal::BitwiseOr => "`|`"@,
            LuaTerminal::BitwiseNeg => "`~`"@,
            LuaTerminal::Varargs => "`...`"@,
            LuaTerminal::Semicolon => "`;`"@,
            LuaTerminal::Plus => "`+`"@,
            LuaTerminal::Minus => "`-`"@,
            LuaTerminal::Multiply => "`*`"@,
            LuaTerminal::Divide => "`/`"@,
            LuaTerminal::FloorDivide => "`//`"@,
            LuaTerminal::Power => "`^`"@,
            LuaTerminal::Modulo => "`%`"@,
            LuaTerminal::Concat => "`..`"@,
            LuaTerminal::LessThan => "`<`"@,
            LuaTerminal::LessEq => "`<=`"@,
            LuaTerminal::GreaterThan => "`>`"@,
            LuaTerminal::GreaterEq => "`>=`"@,
            LuaTerminal::NotEq => "`~=`"@,
            LuaTerminal::Length => "`#`"@,
            LuaTerminal::Comment => "Comment"@,
            LuaTerminal::EndOfFile => "<eof>"@,
            LuaTerminal::Error => "Error"@,
            LuaTerminal::Identifier => "Name"@,
            LuaTerminal::StringLiteral => "LiteralString"@,
            LuaTerminal::NumberLiteral => "Numeral"@,
        }
    }

    /// The position of the variant in the enumeration.
    pub fn index(&self) -> (r: usize)
        ensures
            r == self.spec_index(),
            r < LUA_TERMINAL_COUNT,
    {
        match self {
            LuaTerminal::End => 0,
            LuaTerminal::Do => 1,
            LuaTerminal::While => 2,
            LuaTerminal::Repeat => 3,
            LuaTerminal::Until => 4,
            LuaTerminal::If => 5,
            LuaTerminal::In => 6,
            LuaTerminal::Then => 7,
            LuaTerminal::Elseif => 8,
            LuaTerminal::Else => 9,
            LuaTerminal::For => 10,
            LuaTerminal::Function => 11,
            LuaTerminal::Local => 12,
            LuaTerminal::Return => 13,
            LuaTerminal::Break => 14,
            LuaTerminal::True => 15,
            LuaTerminal::False => 16,
            LuaTerminal::Nil => 17,
            LuaTerminal::And => 18,
            LuaTerminal::Or => 19,
            LuaTerminal::Not => 20,
            LuaTerminal::Goto => 21,
            LuaTerminal::Equals => 22,
            LuaTerminal::DoubleEquals => 23,
            LuaTerminal::Dot => 24,
            LuaTerminal::Colon => 25,
            LuaTerminal::DoubleColon => 26,
            LuaTerminal::Comma => 27,
            LuaTerminal::LeftBracket => 28,
            LuaTerminal::RightBracket => 29,
            LuaTerminal::LeftParenthesis => 30,
            LuaTerminal::RightParenthesis => 31,
            LuaTerminal::LeftBrace => 32,
            LuaTerminal::RightBrace => 33,
            LuaTerminal::LeftShift => 34,
            LuaTerminal::RightShift => 35,
            LuaTerminal::BitwiseAnd => 36,
            LuaTerminal::BitwiseOr => 37,
            LuaTerminal::BitwiseNeg => 38,
            LuaTerminal::Varargs => 39,
            LuaTerminal::Semicolon => 40,
            LuaTerminal::Plus => 41,
            LuaTerminal::Minus => 42,
            LuaTerminal::Multiply => 43,
            LuaTerminal::Divide => 44,
            LuaTerminal::FloorDivide => 45,
            LuaTerminal::Power => 46,
            LuaTerminal::Modulo => 47,
            LuaTerminal::Concat => 48,
            LuaTerminal::LessThan => 49,
            LuaTerminal::LessEq => 50,
            LuaTerminal::GreaterThan => 51,
            LuaTerminal::GreaterEq => 52,
            LuaTerminal::NotEq => 53,
            LuaTerminal::Length => 54,
            LuaTerminal::Comment => 55,
            LuaTerminal::EndOfFile => 56,
            LuaTerminal::Error => 57,
            LuaTerminal::Identifier => 58,
            LuaTerminal::StringLiteral => 59,
            LuaTerminal::NumberLiteral => 60,
        }
    }

    /// The variant at position `i`, if there is one.
    pub fn from_index(i: usize) -> (r: Option<LuaTerminal>)
        ensures
            r is Some <==> i < LUA_TERMINAL_COUNT,
            r matches Some(t) ==> t.spec_index() == i,
    {
        match i {
            0 => Some(LuaTerminal::End),
            1 => Some(LuaTerminal::Do),
            2 => Some(LuaTerminal::While),
            3 => Some(LuaTerminal::Repeat),
            4 => Some(LuaTerminal::Until),
            5 => Some(LuaTerminal::If),
            6 => Some(LuaTerminal::In),
            7 => Some(LuaTerminal::Then),
            8 => Some(LuaTerminal::Elseif),
            9 => Some(LuaTerminal::Else),
            10 => Some(LuaTerminal::For),
            11 => Some(LuaTerminal::Function),
            12 => Some(LuaTerminal::Local),
            13 => Some(LuaTerminal::Return),
            14 => Some(LuaTerminal::Break),
            15 => Some(LuaTerminal::True),
            16 => Some(LuaTerminal::False),
            17 => Some(LuaTerminal::Nil),
            18 => Some(LuaTerminal::And),
            19 => Some(LuaTerminal::Or),
            20 => Some(LuaTerminal::Not),
            21 => Some(LuaTerminal::Goto),
            22 => Some(LuaTerminal::Equals),
            23 => Some(LuaTerminal::DoubleEquals),
            24 => Some(LuaTerminal::Dot),
            25 => Some(LuaTerminal::Colon),
            26 => Some(LuaTerminal::DoubleColon),
            27 => Some(LuaTerminal::Comma),
            28 => Some(LuaTerminal::LeftBracket),
            29 => Some(LuaTerminal::RightBracket),
            30 => Some(LuaTerminal::LeftParenthesis),
            31 => Some(LuaTerminal::RightParenthesis),
            32 => Some(LuaTerminal::LeftBrace),
            33 => Some(LuaTerminal::RightBrace),
            34 => Some(LuaTerminal::LeftShift),
            35 => Some(LuaTerminal::RightShift),
            36 => Some(LuaTerminal::BitwiseAnd),
            37 => Some(LuaTerminal::BitwiseOr),
            38 => Some(LuaTerminal::BitwiseNeg),
            39 => Some(LuaTerminal::Varargs),
            40 => Some(LuaTerminal::Semicolon),
            41 => Some(LuaTerminal::Plus),
            42 => Some(LuaTerminal::Minus),
            43 => Some(LuaTerminal::Multiply),
            44 => Some(LuaTerminal::Divide),
            45 => Some(LuaTerminal::FloorDivide),
            46 => Some(LuaTerminal::Power),
            47 => Some(LuaTerminal::Modulo),
            48 => Some(LuaTerminal::Concat),
            49 => Some(LuaTerminal::LessThan),
            50 => Some(LuaTerminal::LessEq),
            51 => Some(LuaTerminal::GreaterThan),
            52 => Some(LuaTerminal::GreaterEq),
            53 => Some(LuaTerminal::NotEq),
            54 => Some(LuaTerminal::Length),
            55 => Some(LuaTerminal::Comment),
            56 => Some(LuaTerminal::EndOfFile),
            57 => Some(LuaTerminal::Error),
            58 => Some(LuaTerminal::Identifier),
            59 => Some(LuaTerminal::StringLiteral),
            60 => Some(LuaTerminal::NumberLiteral),
            _ => None,
        }
    }

    /// The printable name of the variant.
    pub fn get_name(&self) -> (r: &'static str)
        ensures
            r@ == self.spec_name(),
    {
        match self {
            LuaTerminal::End => "end",
            LuaTerminal::Do => "do",
            LuaTerminal::While => "while",
            LuaTerminal::Repeat => "repeat",
            LuaTerminal::Until => "until",
            LuaTerminal::If => "if",
            LuaTerminal::In => "in",
            LuaTerminal::Then => "then",
            LuaTerminal::Elseif => "elseif",
            LuaTerminal::Else => "else",
            LuaTerminal::For => "for",
            LuaTerminal::Function => "function",
            LuaTerminal::Local => "local",
            LuaTerminal::Return => "return",
            LuaTerminal::Break => "break",
            LuaTerminal::True => "true",
            LuaTerminal::False => "false",
            LuaTerminal::Nil => "nil",
            LuaTerminal::And => "and",
            LuaTerminal::Or => "or",
            LuaTerminal::Not => "not",
            LuaTerminal::Goto => "goto",
            LuaTerminal::Equals => "`=`",
            LuaTerminal::DoubleEquals => "`==`",
            LuaTerminal::Dot => "`.`",
            LuaTerminal::Colon => "`:`",
            LuaTerminal::DoubleColon => "`::`",
            LuaTerminal::Comma => "`,`",
            LuaTerminal::LeftBracket => "`[`",
            LuaTerminal::RightBracket => "`]`",
            LuaTerminal::LeftParenthesis => "`(`",
            LuaTerminal::RightParenthesis => "`)`",
            LuaTerminal::LeftBrace => "`{`",
            LuaTerminal::RightBrace => "`}`",
            LuaTerminal::LeftShift => "`<<`",
            LuaTerminal::RightShift => "`>>`",
            LuaTerminal::BitwiseAnd => "`&`",
            LuaTerminal::BitwiseOr => "`|`",
            LuaTerminal::BitwiseNeg => "`~`",
            LuaTerminal::Varargs => "`...`",
            LuaTerminal::Semicolon => "`;`",
            LuaTerminal::Plus => "`+`",
            LuaTerminal::Minus => "`-`",
            LuaTerminal::Multiply => "`*`",
            LuaTerminal::Divide => "`/`",
            LuaTerminal::FloorDivide => "`//`",
            LuaTerminal::Power => "`^`",
            LuaTerminal::Modulo => "`%`",
            LuaTerminal::Concat => "`..`",
            LuaTerminal::LessThan => "`<`",
            LuaTerminal::LessEq => "`<=`",
            LuaTerminal::GreaterThan => "`>`",
            LuaTerminal::GreaterEq => "`>=`",
            LuaTerminal::NotEq => "`~=`",
            LuaTerminal::Length => "`#`",
            LuaTerminal::Comment => "Comment",
            LuaTerminal::EndOfFile => "<eof>",
            LuaTerminal::Error => "Error",
            LuaTerminal::Identifier => "Name",
            LuaTerminal::StringLiteral => "LiteralString",
            LuaTerminal::NumberLiteral => "Numeral",
        }
    }
}

impl TerminalSymbol for LuaTerminal {
    fn get_name(&self) -> &'static str {
        LuaTerminal::get_name(self)
    }

    fn index(&self) -> usize {
        LuaTerminal::index(self)
    }
}

/// A nonterminal of the Lua grammar; `Exp` to `Exp13` layer the operators
/// from lowest to highest precedence.
#[derive(PartialEq, Eq, Structural, Clone, Copy, Debug, Hash)]
pub enum LuaNonterminal {
    Chunk,
    Block,
    Stat,
    AttNameList,
    Attrib,
    RetStat,
    Label,
    FuncName,
    VarList,
    Var,
    NameList,
    ExpList,
    Exp,
    Exp2,
    Exp3,
    Exp4,
    Exp5,
    Exp6,
    Exp7,
    Exp8,
    Exp9,
    Exp10,
    Exp11,
    Exp12,
    Exp13,
    PrefixExp,
    FunctionCall,
    Args,
    FunctionDef,
    FuncBody,
    ParList,
    TableConstructor,
    FieldList,
    Field,
    FieldSep,
}

/// The number of variants of `LuaNonterminal`.
pub const LUA_NONTERMINAL_COUNT: usize = 35;

impl LuaNonterminal {
    /// The position of the variant in the enumeration.
    pub open spec fn spec_index(self) -> usize {
        match self {
            LuaNonterminal::Chunk => 0,
            LuaNonterminal::Block => 1,
            LuaNonterminal::Stat => 2,
            LuaNonterminal::AttNameList => 3,
            LuaNonterminal::Attrib => 4,
            LuaNonterminal::RetStat => 5,
            LuaNonterminal::Label => 6,
            LuaNonterminal::FuncName => 7,
            LuaNonterminal::VarList => 8,
            LuaNonterminal::Var => 9,
            LuaNonterminal::NameList => 10,
            LuaNonterminal::ExpList => 11,
            LuaNonterminal::Exp => 12,
            LuaNonterminal::Exp2 => 13,
            LuaNonterminal::Exp3 => 14,
            LuaNonterminal::Exp4 => 15,
            LuaNonterminal::Exp5 => 16,
            LuaNonterminal::Exp6 => 17,
            LuaNonterminal::Exp7 => 18,
            LuaNonterminal::Exp8 => 19,
            LuaNonterminal::Exp9 => 20,
            LuaNonterminal::Exp10 => 21,
            LuaNonterminal::Exp11 => 22,
            LuaNonterminal::Exp12 => 23,
            LuaNonterminal::Exp13 => 24,
            LuaNonterminal::PrefixExp => 25,
            LuaNonterminal::FunctionCall => 26,
            LuaNonterminal::Args => 27,
            LuaNonterminal::FunctionDef => 28,
            LuaNonterminal::FuncBody => 29,
            LuaNonterminal::ParList => 30,
            LuaNonterminal::TableConstructor => 31,
            LuaNonterminal::FieldList => 32,
            LuaNonterminal::Field => 33,
            LuaNonterminal::FieldSep => 34,
        }
    }

    /// The printable name of the variant.
    pub open spec fn spec_name(self) -> Seq<char> {
        match self {
            LuaNonterminal::Chunk => "chunk"@,
            LuaNonterminal::Block => "block"@,
            LuaNonterminal::Stat => "stat"@,
            LuaNonterminal::AttNameList => "attnamelist"@,
            LuaNonterminal::Attrib => "attrib"@,
            LuaNonterminal::RetStat => "retstat"@,
            LuaNonterminal::Label => "label"@,
            LuaNonterminal::FuncName => "funcname"@,
            LuaNonterminal::VarList => "varlist"@,
            LuaNonterminal::Var => "var"@,
            LuaNonterminal::NameList => "namelist"@,
            LuaNonterminal::ExpList => "explist"@,
            LuaNonterminal::Exp => "exp"@,
            LuaNonterminal::Exp2 => "exp2"@,
            LuaNonterminal::Exp3 => "exp3"@,
            LuaNonterminal::Exp4 => "exp4"@,
            LuaNonterminal::Exp5 => "exp5"@,
            LuaNonterminal::Exp6 => "exp6"@,
            LuaNonterminal::Exp7 => "exp7"@,
            LuaNonterminal::Exp8 => "exp8"@,
            LuaNonterminal::Exp9 => "exp9"@,
            LuaNonterminal::Exp10 => "exp10"@,
            LuaNonterminal::Exp11 => "exp11"@,
            LuaNonterminal::Exp12 => "exp12"@,
            LuaNonterminal::Exp13 => "exp13"@,
            LuaNonterminal::PrefixExp => "prefixexp"@,
            LuaNonterminal::FunctionCall => "functioncall"@,
            LuaNonterminal::Args => "args"@,
            LuaNonterminal::FunctionDef => "functiondef"@,
            LuaNonterminal::FuncBody => "funcbody"@,
            LuaNonterminal::ParList => "parlist"@,
            LuaNonterminal::TableConstructor => "tableconstructor"@,
            LuaNonterminal::FieldList => "fieldlist"@,
            LuaNonterminal::Field => "field"@,
            LuaNonterminal::FieldSep => "fieldsep"@,
        }
    }

    /// The position of the variant in the enumeration.
    pub fn index(&self) -> (r: usize)
        ensures
            r == self.spec_index(),
            r < LUA_NONTERMINAL_COUNT,
    {
        match self {
            LuaNonterminal::Chunk => 0,
            LuaNonterminal::Block => 1,
            LuaNonterminal::Stat => 2,
            LuaNonterminal::AttNameList => 3,
            LuaNonterminal::Attrib => 4,
            LuaNonterminal::RetStat => 5,
            LuaNonterminal::Label => 6,
            LuaNonterminal::FuncName => 7,
            LuaNonterminal::VarList => 8,
            LuaNonterminal::Var => 9,
            LuaNonterminal::NameList => 10,
            LuaNonterminal::ExpList => 11,
            LuaNonterminal::Exp => 12,
            LuaNonterminal::Exp2 => 13,
            LuaNonterminal::Exp3 => 14,
            LuaNonterminal::Exp4 => 15,
            LuaNonterminal::Exp5 => 16,
            LuaNonterminal::Exp6 => 17,
            LuaNonterminal::Exp7 => 18,
            LuaNonterminal::Exp8 => 19,
            LuaNonterminal::Exp9 => 20,
            LuaNonterminal::Exp10 => 21,
            LuaNonterminal::Exp11 => 22,
            LuaNonterminal::Exp12 => 23,
            LuaNonterminal::Exp13 => 24,
            LuaNonterminal::PrefixExp => 25,
            LuaNonterminal::FunctionCall => 26,
            LuaNonterminal::Args => 27,
            LuaNonterminal::FunctionDef => 28,
            LuaNonterminal::FuncBody => 29,
            LuaNonterminal::ParList => 30,
            LuaNonterminal::TableConstructor => 31,
            LuaNonterminal::FieldList => 32,
            LuaNonterminal::Field => 33,
            LuaNonterminal::FieldSep => 34,
        }
    }

    /// The variant at position `i`, if there is one.
    pub fn from_index(i: usize) -> (r: Option<LuaNonterminal>)
        ensures
            r is Some <==> i < LUA_NONTERMINAL_COUNT,
            r matches Some(t) ==> t.spec_index() == i,
    {
        match i {
            0 => Some(LuaNonterminal::Chunk),
            1 => Some(LuaNonterminal::Block),
            2 => Some(LuaNonterminal::Stat),
            3 => Some(LuaNonterminal::AttNameList),
            4 => Some(LuaNonterminal::Attrib),
            5 => Some(LuaNonterminal::RetStat),
            6 => Some(LuaNonterminal::Label),
            7 => Some(LuaNonterminal::FuncName),
            8 => Some(LuaNonterminal::VarList),
            9 => Some(LuaNonterminal::Var),
            10 => Some(LuaNonterminal::NameList),
            11 => Some(LuaNonterminal::ExpList),
            12 => Some(LuaNonterminal::Exp),
            13 => Some(LuaNonterminal::Exp2),
            14 => Some(LuaNonterminal::Exp3),
            15 => Some(LuaNonterminal::Exp4),
            16 => Some(LuaNonterminal::Exp5),
            17 => Some(LuaNonterminal::Exp6),
            18 => Some(LuaNonterminal::Exp7),
            19 => Some(LuaNonterminal::Exp8),
            20 => Some(LuaNonterminal::Exp9),
            21 => Some(LuaNonterminal::Exp10),
            22 => Some(LuaNonterminal::Exp11),
            23 => Some(LuaNonterminal::Exp12),
            24 => Some(LuaNonterminal::Exp13),
            25 => Some(LuaNonterminal::PrefixExp),
            26 => Some(LuaNonterminal::FunctionCall),
            27 => Some(LuaNonterminal::Args),
            28 => Some(LuaNonterminal::FunctionDef),
            29 => Some(LuaNonterminal::FuncBody),
            30 => Some(LuaNonterminal::ParList),
            31 => Some(LuaNonterminal::TableConstructor),
            32 => Some(LuaNonterminal::FieldList),
            33 => Some(LuaNonterminal::Field),
            34 => Some(LuaNonterminal::FieldSep),
            _ => None,
        }
    }

    /// The printable name of the variant.
    pub fn get_name(&self) -> (r: &'static str)
        ensures
            r@ == self.spec_name(),
    {
        match self {
            LuaNonterminal::Chunk => "chunk",
            LuaNonterminal::Block => "block",
            LuaNonterminal::Stat => "stat",
            LuaNonterminal::AttNameList => "attnamelist",
            LuaNonterminal::Attrib => "attrib",
            LuaNonterminal::RetStat => "retstat",
            LuaNonterminal::Label => "label",
            LuaNonterminal::FuncName => "funcname",
            LuaNonterminal::VarList => "varlist",
            LuaNonterminal::Var => "var",
            LuaNonterminal::NameList => "namelist",
            LuaNonterminal::ExpList => "explist",
            LuaNonterminal::Exp => "exp",
            LuaNonterminal::Exp2 => "exp2",
            LuaNonterminal::Exp3 => "exp3",
            LuaNonterminal::Exp4 => "exp4",
            LuaNonterminal::Exp5 => "exp5",
            LuaNonterminal::Exp6 => "exp6",
            LuaNonterminal::Exp7 => "exp7",
            LuaNonterminal::Exp8 => "exp8",
            LuaNonterminal::Exp9 => "exp9",
            LuaNonterminal::Exp10 => "exp10",
            LuaNonterminal::Exp11 => "exp11",
            LuaNonterminal::Exp12 => "exp12",
            LuaNonterminal::Exp13 => "exp13",
            LuaNonterminal::PrefixExp => "prefixexp",
            LuaNonterminal::FunctionCall => "functioncall",
            LuaNonterminal::Args => "args",
            LuaNonterminal::FunctionDef => "functiondef",
            LuaNonterminal::FuncBody => "funcbody",
            LuaNonterminal::ParList => "parlist",
            LuaNonterminal::TableConstructor => "tableconstructor",
            LuaNonterminal::FieldList => "fieldlist",
            LuaNonterminal::Field => "field",
            LuaNonterminal::FieldSep => "fieldsep",
        }
    }

    /// Whether both values are the same variant.
    pub fn same_symbol(&self, other: &Self) -> (r: bool)
        ensures
            r == (*self == *other),
    {
        self.index() == other.index()
    }
}

impl NonterminalSymbol for LuaNonterminal {
    fn get_name(&self) -> &'static str {
        LuaNonterminal::get_name(self)
    }

    fn index(&self) -> usize {
        LuaNonterminal::index(self)
    }
}
impl LuaTerminal {
    /// The variant's own name, as tokens print their kind.
    pub open spec fn spec_variant_name(self) -> Seq<char> {
        match self {
            LuaTerminal::End => "End"@,
            LuaTerminal::Do => "Do"@,
            LuaTerminal::While => "While"@,
            LuaTerminal::Repeat => "Repeat"@,
            LuaTerminal::Until => "Until"@,
            LuaTerminal::If => "If"@,
            LuaTerminal::In => "In"@,
            LuaTerminal::Then => "Then"@,
            LuaTerminal::Elseif => "Elseif"@,
            LuaTerminal::Else => "Else"@,
            LuaTerminal::For => "For"@,
            LuaTerminal::Function => "Function"@,
            LuaTerminal::Local => "Local"@,
            LuaTerminal::Return => "Return"@,
            LuaTerminal::Break => "Break"@,
            LuaTerminal::True => "True"@,
            LuaTerminal::False => "False"@,
            LuaTerminal::Nil => "Nil"@,
            LuaTerminal::And => "And"@,
            LuaTerminal::Or => "Or"@,
            LuaTerminal::Not => "Not"@,
            LuaTerminal::Goto => "Goto"@,
            LuaTerminal::Equals => "Equals"@,
            LuaTerminal::DoubleEquals => "DoubleEquals"@,
            LuaTerminal::Dot => "Dot"@,
            LuaTerminal::Colon => "Colon"@,
            LuaTerminal::DoubleColon => "DoubleColon"@,
            LuaTerminal::Comma => "Comma"@,
            LuaTerminal::LeftBracket => "LeftBracket"@,
            LuaTerminal::RightBracket => "RightBracket"@,
            LuaTerminal::LeftParenthesis => "LeftParenthesis"@,
            LuaTerminal::RightParenthesis => "RightParenthesis"@,
            LuaTerminal::LeftBrace => "LeftBrace"@,
            LuaTerminal::RightBrace => "RightBrace"@,
            LuaTerminal::LeftShift => "LeftShift"@,
            LuaTerminal::RightShift => "RightShift"@,
            LuaTerminal::BitwiseAnd => "BitwiseAnd"@,
            LuaTerminal::BitwiseOr => "BitwiseOr"@,
            LuaTerminal::BitwiseNeg => "BitwiseNeg"@,
            LuaTerminal::Varargs => "Varargs"@,
            LuaTerminal::Semicolon => "Semicolon"@,
            LuaTerminal::Plus => "Plus"@,
            LuaTerminal::Minus => "Minus"@,
            LuaTerminal::Multiply => "Multiply"@,
            LuaTerminal::Divide => "Divide"@,
            LuaTerminal::FloorDivide => "FloorDivide"@,
            LuaTerminal::Power => "Power"@,
            LuaTerminal::Modulo => "Modulo"@,
            LuaTerminal::Concat => "Concat"@,
            LuaTerminal::LessThan => "LessThan"@,
            LuaTerminal::LessEq => "LessEq"@,
            LuaTerminal::GreaterThan => "GreaterThan"@,
            LuaTerminal::GreaterEq => "GreaterEq"@,
            LuaTerminal::NotEq => "NotEq"@,
            LuaTerminal::Length => "Length"@,
            LuaTerminal::Comment => "Comment"@,
            LuaTerminal::EndOfFile => "EndOfFile"@,
            LuaTerminal::Error => "Error"@,
            LuaTerminal::Identifier => "Identifier"@,
            LuaTerminal::StringLiteral => "StringLiteral"@,
            LuaTerminal::NumberLiteral => "NumberLiteral"@,
        }
    }

    /// The variant's own name, as tokens print their kind.
    pub fn variant_name(&self) -> (r: &'static str)
        ensures
            r@ == self.spec_variant_name(),
    {
        match self {
            LuaTerminal::End => "End",
            LuaTerminal::Do => "Do",
            LuaTerminal::While => "While",
            LuaTerminal::Repeat => "Repeat",
            LuaTerminal::Until => "Until",
            LuaTerminal::If => "If",
            LuaTerminal::In => "In",
            LuaTerminal::Then => "Then",
            LuaTerminal::Elseif => "Elseif",
            LuaTerminal::Else => "Else",
            LuaTerminal::For => "For",
            LuaTerminal::Function => "Function",
            LuaTerminal::Local => "Local",
            LuaTerminal::Return => "Return",
            LuaTerminal::Break => "Break",
            LuaTerminal::True => "True",
            LuaTerminal::False => "False",
            LuaTerminal::Nil => "Nil",
            LuaTerminal::And => "And",
            LuaTerminal::Or => "Or",
            LuaTerminal::Not => "Not",
            LuaTerminal::Goto => "Goto",
            LuaTerminal::Equals => "Equals",
            LuaTerminal::DoubleEquals => "DoubleEquals",
            LuaTerminal::Dot => "Dot",
            LuaTerminal::Colon => "Colon",
            LuaTerminal::DoubleColon => "DoubleColon",
            LuaTerminal::Comma => "Comma",
            LuaTerminal::LeftBracket => "LeftBracket",
            LuaTerminal::RightBracket => "RightBracket",
            LuaTerminal::LeftParenthesis => "LeftParenthesis",
            LuaTerminal::RightParenthesis => "RightParenthesis",
            LuaTerminal::LeftBrace => "LeftBrace",
            LuaTerminal::RightBrace => "RightBrace",
            LuaTerminal::LeftShift => "LeftShift",
            LuaTerminal::RightShift => "RightShift",
            LuaTerminal::BitwiseAnd => "BitwiseAnd",
            LuaTerminal::BitwiseOr => "BitwiseOr",
            LuaTerminal::BitwiseNeg => "BitwiseNeg",
            LuaTerminal::Varargs => "Varargs",
            LuaTerminal::Semicolon => "Semicolon",
            LuaTerminal::Plus => "Plus",
            LuaTerminal::Minus => "Minus",
            LuaTerminal::Multiply => "Multiply",
            LuaTerminal::Divide => "Divide",
            LuaTerminal::FloorDivide => "FloorDivide",
            LuaTerminal::Power => "Power",
            LuaTerminal::Modulo => "Modulo",
            LuaTerminal::Concat => "Concat",
            LuaTerminal::LessThan => "LessThan",
            LuaTerminal::LessEq => "LessEq",
            LuaTerminal::GreaterThan => "GreaterThan",
            LuaTerminal::GreaterEq => "GreaterEq",
            LuaTerminal::NotEq => "NotEq",
            LuaTerminal::Length => "Length",
            LuaTerminal::Comment => "Comment",
            LuaTerminal::EndOfFile => "EndOfFile",
            LuaTerminal::Error => "Error",
            LuaTerminal::Identifier => "Identifier",
            LuaTerminal::StringLiteral => "StringLiteral",
            LuaTerminal::NumberLiteral => "NumberLiteral",
        }
    }
}

} // verus!
