//! Printable forms: of symbol sequences and productions, of locations and
//! tokens, and the one-line message of a tokenisation error.
use vstd::prelude::*;
use vstd::string::StringExecFns;
use crate::symbol::{Symbol, SymbolSequence};
use crate::production::Production;
use crate::token::{Location, Token, LuaTokenData, LuaNumber, TokenisationError, TokenisationErrorType};

verus! {

/// The name of id `i` in `names`, or `?` outside the table.
pub open spec fn name_in(names: Seq<String>, i: usize) -> Seq<char> {
    if i < names.len() { names[i as int]@ } else { "?"@ }
}

/// The debugging form of a tree: a concatenation space-separated, a choice
/// `|`-joined, an option as `[ … ]`, a repetition as `{ … }`, symbols by
/// name and ε as `ε`.
pub open spec fn display_of(s: SymbolSequence, tn: Seq<String>, nn: Seq<String>) -> Seq<char>
    decreases s, 0int,
{
    match s {
        SymbolSequence::Single(sym) => match sym {
            Symbol::Terminal(t) => name_in(tn, t),
            Symbol::Nonterminal(n) => name_in(nn, n),
            Symbol::Empty => "ε"@,
        },
        SymbolSequence::Sequence(v) => display_join(v@, 0, " "@, tn, nn),
        SymbolSequence::Optional(x) => "[ "@ + display_of(*x, tn, nn) + " ]"@,
        SymbolSequence::Repeated(x) => "{ "@ + display_of(*x, tn, nn) + " }"@,
        SymbolSequence::Alternatives(v) => display_join(v@, 0, " | "@, tn, nn),
    }
}

/// The forms of `xs[i..]` joined by `sep`.
pub open spec fn display_join(xs: Seq<SymbolSequence>, i: int, sep: Seq<char>, tn: Seq<String>, nn: Seq<String>) -> Seq<char>
    decreases xs, xs.len() - i,
{
    if i < 0 || i >= xs.len() {
        Seq::empty()
    } else if i == xs.len() - 1 {
        display_of(xs[i], tn, nn)
    } else {
        display_of(xs[i], tn, nn) + sep + display_join(xs, i + 1, sep, tn, nn)
    }
}

fn name_of(names: &Vec<String>, i: usize) -> (r: String)
    ensures
        r@ == name_in(names@, i),
{
    if i < names.len() {
        names[i].clone()
    } else {
        String::from_str("?")
    }
}

impl SymbolSequence {
    /// The debugging form, with the names of terminals and nonterminals
    /// looked up by id.
    pub fn to_text(&self, terminal_names: &Vec<String>, nonterminal_names: &Vec<String>) -> (r: String)
        ensures
            r@ == display_of(*self, terminal_names@, nonterminal_names@),
        decreases self, 0int,
    {
        match self {
            SymbolSequence::Single(sym) => match sym {
                Symbol::Terminal(t) => name_of(terminal_names, *t),
                Symbol::Nonterminal(n) => name_of(nonterminal_names, *n),
                Symbol::Empty => String::from_str("ε"),
            },
            SymbolSequence::Sequence(v) => join_text(v, " ", terminal_names, nonterminal_names),
            SymbolSequence::Optional(x) => {
                let mut r = String::from_str("[ ");
                let inner = x.to_text(terminal_names, nonterminal_names);
                r.append(inner.as_str());
                r.append(" ]");
                r
            },
            SymbolSequence::Repeated(x) => {
                let mut r = String::from_str("{ ");
                let inner = x.to_text(terminal_names, nonterminal_names);
                r.append(inner.as_str());
                r.append(" }");
                r
            },
            SymbolSequence::Alternatives(v) => join_text(v, " | ", terminal_names, nonterminal_names),
        }
    }
}

/// The forms of `v` joined by `sep`.
fn join_text(v: &Vec<SymbolSequence>, sep: &str, tn: &Vec<String>, nn: &Vec<String>) -> (r: String)
    ensures
        r@ == display_join(v@, 0, sep@, tn@, nn@),
    decreases v@, 0int,
{
    let mut r = String::new();
    let mut i: usize = v.len();
    proof {
        assert(r@ == display_join(v@, i as int, sep@, tn@, nn@));
    }
    while i > 0
        invariant
            i <= v@.len(),
            r@ == display_join(v@, i as int, sep@, tn@, nn@),
        decreases i,
    {
        i -= 1;
        let mut piece = v[i].to_text(tn, nn);
        if i + 1 < v.len() {
            piece.append(sep);
            piece.append(r.as_str());
            proof {
                assert(piece@ =~= display_of(v@[i as int], tn@, nn@) + sep@ + display_join(v@, i + 1, sep@, tn@, nn@));
            }
        }
        r = piece;
    }
    r
}

impl<H> Production<H> {
    /// `A ::= body`, with names looked up by id.
    pub fn to_text(&self, terminal_names: &Vec<String>, nonterminal_names: &Vec<String>) -> (r: String)
        ensures
            r@ == name_in(nonterminal_names@, self.produced_symbol) + " ::= "@
                + display_of(self.consumed_symbols, terminal_names@, nonterminal_names@),
    {
        let mut r = name_of(nonterminal_names, self.produced_symbol);
        r.append(" ::= ");
        let body = self.consumed_symbols.to_text(terminal_names, nonterminal_names);
        r.append(body.as_str());
        r
    }
}

/// The decimal digits of `n`.
pub open spec fn decimal(n: nat) -> Seq<char>
    decreases n,
{
    if n < 10 {
        seq![digit_char(n)]
    } else {
        decimal(n / 10) + seq![digit_char(n % 10)]
    }
}

pub open spec fn digit_char(d: nat) -> char {
    if d == 0 { '0' } else if d == 1 { '1' } else if d == 2 { '2' } else if d == 3 { '3' } else if d == 4 { '4' }
    else if d == 5 { '5' } else if d == 6 { '6' } else if d == 7 { '7' } else if d == 8 { '8' } else { '9' }
}

fn digit_str(d: u64) -> (r: &'static str)
    requires
        d < 10,
    ensures
        r@ == seq![digit_char(d as nat)],
{
    proof {
        reveal_strlit("0");
        reveal_strlit("1");
        reveal_strlit("2");
        reveal_strlit("3");
        reveal_strlit("4");
        reveal_strlit("5");
        reveal_strlit("6");
        reveal_strlit("7");
        reveal_strlit("8");
        reveal_strlit("9");
        assert("0"@ =~= seq!['0']);
        assert("9"@ =~= seq!['9']);
    }
    if d == 0 { "0" } else if d == 1 { "1" } else if d == 2 { "2" } else if d == 3 { "3" } else if d == 4 { "4" }
    else if d == 5 { "5" } else if d == 6 { "6" } else if d == 7 { "7" } else if d == 8 { "8" } else { "9" }
}

/// `n` in decimal.
pub fn decimal_text(n: u64) -> (r: String)
    ensures
        r@ == decimal(n as nat),
    decreases n,
{
    if n < 10 {
        String::from_str(digit_str(n))
    } else {
        let mut r = decimal_text(n / 10);
        r.append(digit_str(n % 10));
        r
    }
}

/// `line L, col C`.
pub open spec fn location_display(l: Location) -> Seq<char> {
    "line "@ + decimal(l.line as nat) + ", col "@ + decimal(l.col as nat)
}

impl Location {
    /// `line L, col C`.
    pub fn to_text(&self) -> (r: String)
        ensures
            r@ == location_display(*self),
    {
        let mut r = String::from_str("line ");
        r.append(decimal_text(self.line as u64).as_str());
        r.append(", col ");
        r.append(decimal_text(self.col as u64).as_str());
        r
    }
}

/// A number as its value prints: an integer in decimal, a float as written.
pub open spec fn number_display(n: LuaNumber) -> Seq<char> {
    match n {
        LuaNumber::Integer(v) => decimal(v as nat),
        LuaNumber::Float(t) => t@,
    }
}

/// A payload as it prints: error text and names bare, literals quoted.
pub open spec fn data_display(d: LuaTokenData) -> Seq<char> {
    match d {
        LuaTokenData::Error(v) => v@,
        LuaTokenData::Identifier(v) => v@,
        LuaTokenData::StringLiteral(v) => "'"@ + v@ + "'"@,
        LuaTokenData::NumberLiteral(n) => "'"@ + number_display(n) + "'"@,
    }
}

/// `Kind(payload) at line L, col C`, or `Kind at line L, col C`.
pub open spec fn token_display(t: Token) -> Seq<char> {
    match t.token_data {
        Some(d) => t.token_type.spec_variant_name() + "("@ + data_display(d) + ") at "@ + location_display(t.location),
        None => t.token_type.spec_variant_name() + " at "@ + location_display(t.location),
    }
}

impl LuaTokenData {
    /// The payload as it prints.
    pub fn to_text(&self) -> (r: String)
        ensures
            r@ == data_display(*self),
    {
        match self {
            LuaTokenData::Error(v) => v.clone(),
            LuaTokenData::Identifier(v) => v.clone(),
            LuaTokenData::StringLiteral(v) => {
                let mut r = String::from_str("'");
                r.append(v.as_str());
                r.append("'");
                r
            },
            LuaTokenData::NumberLiteral(n) => {
                let mut r = String::from_str("'");
                match n {
                    LuaNumber::Integer(v) => r.append(decimal_text(*v).as_str()),
                    LuaNumber::Float(t) => r.append(t.as_str()),
                }
                r.append("'");
                r
            },
        }
    }
}

impl Token {
    /// The token as it prints.
    pub fn to_text(&self) -> (r: String)
        ensures
            r@ == token_display(*self),
    {
        let mut r = String::from_str(self.token_type.variant_name());
        match &self.token_data {
            Some(d) => {
                r.append("(");
                r.append(d.to_text().as_str());
                r.append(") at ");
            },
            None => {
                r.append(" at ");
            },
        }
        r.append(self.location.to_text().as_str());
        r
    }
}

/// How an error kind reads in a message.
pub open spec fn kind_display(k: TokenisationErrorType) -> Seq<char> {
    match k {
        TokenisationErrorType::MalformedNumber => "malformed number"@,
        TokenisationErrorType::UnfinishedString => "unfinished string"@,
        TokenisationErrorType::UnfinishedLongString => "unfinished long string"@,
        TokenisationErrorType::UnfinishedLongComment => "unfinished long comment"@,
        TokenisationErrorType::SyntaxError => "syntax error"@,
        TokenisationErrorType::UnexpectedSymbol => "unexpected symbol"@,
        TokenisationErrorType::Unimplemented => "unimplemented"@,
    }
}

fn kind_text(k: TokenisationErrorType) -> (r: &'static str)
    ensures
        r@ == kind_display(k),
{
    match k {
        TokenisationErrorType::MalformedNumber => "malformed number",
        TokenisationErrorType::UnfinishedString => "unfinished string",
        TokenisationErrorType::UnfinishedLongString => "unfinished long string",
        TokenisationErrorType::UnfinishedLongComment => "unfinished long comment",
        TokenisationErrorType::SyntaxError => "syntax error",
        TokenisationErrorType::UnexpectedSymbol => "unexpected symbol",
        TokenisationErrorType::Unimplemented => "unimplemented",
    }
}

/// `L: kind near 'text'`, the offending text being the partial token's
/// payload.
pub open spec fn error_display(e: TokenisationError) -> Seq<char> {
    let text = match e.partial_token.token_data {
        Some(d) => data_display(d),
        None => Seq::empty(),
    };
    decimal(e.partial_token.location.line as nat) + ": "@ + kind_display(e.error_type) + " near '"@ + text + "'"@
}

impl TokenisationError {
    /// The one-line message: line number, kind, and the partial lexeme.
    pub fn message(&self) -> (r: String)
        ensures
            r@ == error_display(*self),
    {
        let mut r = decimal_text(self.partial_token.location.line as u64);
        r.append(": ");
        r.append(kind_text(self.error_type));
        r.append(" near '");
        match &self.partial_token.token_data {
            Some(d) => r.append(d.to_text().as_str()),
            None => {},
        }
        r.append("'");
        r
    }
}

} // verus!
