//! Tokens, their locations, and tokenisation errors.
use vstd::prelude::*;
use crate::lua_symbols::LuaTerminal;

verus! {

/// A 1-indexed position in the source: line, and column in characters.
#[derive(PartialEq, Eq, Structural, Clone, Copy, Debug)]
pub struct Location {
    pub line: usize,
    pub col: usize,
}

/// `b` continues a UTF-8 sequence rather than starting a character.
pub open spec fn is_continuation(b: u8) -> bool {
    128u8 <= b && b < 192u8
}

/// The location reached after reading byte `b` at location `l`: a newline
/// starts the next line, a byte that starts a character moves one column.
pub open spec fn loc_step(l: Location, b: u8) -> Location {
    if b == 10u8 {
        Location { line: (l.line + 1) as usize, col: 1 }
    } else if is_continuation(b) {
        l
    } else {
        Location { line: l.line, col: (l.col + 1) as usize }
    }
}

/// The location of the byte that follows the text `s` at the start of the
/// source.
pub open spec fn loc_after(s: Seq<u8>) -> Location
    decreases s.len(),
{
    if s.len() == 0 {
        Location { line: 1, col: 1 }
    } else {
        loc_step(loc_after(s.drop_last()), s.last())
    }
}

/// `a` comes no later than `b`.
pub open spec fn loc_le(a: Location, b: Location) -> bool {
    a.line < b.line || (a.line == b.line && a.col <= b.col)
}

/// Locations stay within the length of the text read.
pub proof fn lemma_loc_after_bound(s: Seq<u8>)
    requires
        s.len() + 2 <= usize::MAX,
    ensures
        1 <= loc_after(s).line <= 1 + s.len(),
        1 <= loc_after(s).col <= 1 + s.len(),
    decreases s.len(),
{
    if s.len() > 0 {
        lemma_loc_after_bound(s.drop_last());
    }
}

/// Reading more text never moves the location backwards.
pub proof fn lemma_loc_after_mono(s: Seq<u8>, k: int)
    requires
        0 <= k <= s.len(),
        s.len() + 2 <= usize::MAX,
    ensures
        loc_le(loc_after(s.subrange(0, k)), loc_after(s)),
    decreases s.len() - k,
{
    if k < s.len() {
        let t = s.subrange(0, k + 1);
        lemma_loc_after_mono(s, k + 1);
        assert(t.drop_last() =~= s.subrange(0, k));
        lemma_loc_after_bound(s.subrange(0, k));
        assert(loc_le(loc_after(s.subrange(0, k)), loc_after(t)));
    } else {
        assert(s.subrange(0, k) =~= s);
    }
}

/// The value of a Lua numeral: an integer, or the text of a float numeral,
/// whose binary value is left to the reader of the token.
#[derive(PartialEq, Eq, Clone, Debug)]
pub enum LuaNumber {
    Integer(u64),
    Float(String),
}

/// The payload of a token.
#[derive(PartialEq, Eq, Clone, Debug)]
pub enum LuaTokenData {
    Error(String),
    Identifier(String),
    NumberLiteral(LuaNumber),
    StringLiteral(String),
}

/// A token: its kind, its payload, and the location of its first byte.
#[derive(Clone, Debug)]
pub struct Token {
    pub token_type: LuaTerminal,
    pub token_data: Option<LuaTokenData>,
    pub location: Location,
}

/// The kinds of tokenisation error.
#[derive(PartialEq, Eq, Structural, Clone, Copy, Debug)]
pub enum TokenisationErrorType {
    MalformedNumber,
    UnfinishedString,
    UnfinishedLongString,
    UnfinishedLongComment,
    SyntaxError,
    UnexpectedSymbol,
    Unimplemented,
}

/// A failed tokenisation: the best-effort partial token, with the offending
/// text as its payload, and the kind of error.
#[derive(Clone, Debug)]
pub struct TokenisationError {
    pub partial_token: Token,
    pub error_type: TokenisationErrorType,
}

/// A number as its text is seen: an integer, or the characters of a float.
pub enum NumberView {
    Integer(u64),
    Float(Seq<char>),
}

/// A payload with its text seen as characters.
pub enum DataView {
    Error(Seq<char>),
    Identifier(Seq<char>),
    NumberLiteral(NumberView),
    StringLiteral(Seq<char>),
}

/// A token with its payload text seen as characters.
pub struct TokenView {
    pub token_type: LuaTerminal,
    pub token_data: Option<DataView>,
    pub location: Location,
}

/// An error with its partial token seen as a view.
pub struct ErrorView {
    pub partial_token: TokenView,
    pub error_type: TokenisationErrorType,
}

pub open spec fn number_view(n: LuaNumber) -> NumberView {
    match n {
        LuaNumber::Integer(v) => NumberView::Integer(v),
        LuaNumber::Float(t) => NumberView::Float(t@),
    }
}

pub open spec fn data_view(d: LuaTokenData) -> DataView {
    match d {
        LuaTokenData::Error(x) => DataView::Error(x@),
        LuaTokenData::Identifier(x) => DataView::Identifier(x@),
        LuaTokenData::NumberLiteral(n) => DataView::NumberLiteral(number_view(n)),
        LuaTokenData::StringLiteral(x) => DataView::StringLiteral(x@),
    }
}

pub open spec fn token_view(t: Token) -> TokenView {
    TokenView {
        token_type: t.token_type,
        token_data: match t.token_data {
            Some(d) => Some(data_view(d)),
            None => None,
        },
        location: t.location,
    }
}

pub open spec fn error_view(e: TokenisationError) -> ErrorView {
    ErrorView { partial_token: token_view(e.partial_token), error_type: e.error_type }
}

/// The view of the outcome of reading one lexeme.
pub open spec fn outcome_view(r: Result<Option<Token>, TokenisationError>) -> Result<Option<TokenView>, ErrorView> {
    match r {
        Ok(Some(t)) => Ok(Some(token_view(t))),
        Ok(None) => Ok(None),
        Err(e) => Err(error_view(e)),
    }
}

/// The views of a sequence of tokens.
pub open spec fn tokens_view(ts: Seq<Token>) -> Seq<TokenView> {
    Seq::new(ts.len(), |i: int| token_view(ts[i]))
}

} // verus!
