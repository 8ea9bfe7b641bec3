//! The tokeniser driver: an ordered table of lexeme rules consulted at the
//! start of the line buffer, the first matching rule winning.
use vstd::prelude::*;
use vstd::string::{StrSliceExecFns, StringSliceAdditionalSpecFns};
use crate::lua_symbols::LuaTerminal;
use crate::token::{Location, Token, TokenisationError, TokenisationErrorType, LuaTokenData, TokenView, ErrorView, DataView, loc_after, loc_le, lemma_loc_after_mono, outcome_view, error_view, token_view, tokens_view};
use crate::tokeniser_state::{TokeniserState, copy_bytes, lemma_line_end_from, line_end_from, is_space, cursor_loc, last_line_start, lemma_aligned_loc, lemma_pop_line_start, lemma_line_start_props, lemma_line_start_at, lemma_loc_after_closed, lemma_counts_bound, lemma_newlines_flat, lemma_chars_grow, lemma_newlines_mono};
use crate::lua_lexemes::{text_of, utf8_text, long_bracket_level, find_long_close, unescape_bytes, unescape, parse_numeral, valid_numeral, numeral_read, utf8_len_of, utf8_len, long_string_at, long_body, lemma_long_open_unique, numeral_view, is_long_close};

verus! {

/// The span of the first match of the regular expression `pattern` in
/// `text`, or `None` when there is none or the pattern does not compile.
pub uninterp spec fn regex_find(pattern: Seq<char>, text: Seq<u8>) -> Option<(usize, usize)>;

/// Relies on `regex::bytes::Regex::new`, which compiles the pattern (here at
/// every call), and `regex::bytes::Regex::find`, which gives the first match
/// as byte offsets into `text` with `start <= end`; a pattern that fails to
/// compile finds nothing.
#[verifier::external_body]
fn find_match(pattern: &str, text: &Vec<u8>) -> (r: Option<(usize, usize)>)
    ensures
        r == regex_find(pattern@, text@),
        r matches Some((s, e)) ==> s <= e <= text@.len(),
{
    match regex::bytes::Regex::new(pattern) {
        Ok(re) => match re.find(text.as_slice()) {
            Some(m) => Some((m.start(), m.end())),
            None => None,
        },
        Err(_) => None,
    }
}

/// How a rule turns its match into a token.
#[derive(PartialEq, Eq, Structural, Clone, Copy, Debug)]
pub enum LexemeBuilder {
    /// A fixed terminal without payload.
    Static(LuaTerminal),
    /// Text that is consumed and yields no token, such as a line comment.
    Skip,
    /// A name, whose text is the payload.
    Identifier,
    /// A numeral, read as a number.
    Number,
    /// A quoted string; the payload is its body with escapes read.
    QuotedString,
    /// A long-bracket string `[==[ ... ]==]`, which may span lines.
    LongString,
    /// A long comment `--[==[ ... ]==]`, which may span lines.
    LongComment,
}

/// One rule: a regular expression anchored at the start of the line buffer,
/// and what to build from its match.
pub struct LexemeTokeniser {
    pub pattern: String,
    pub builder: LexemeBuilder,
}

/// The length of a rule's match at the start of `text`: a match must start
/// there and be non-empty.
pub open spec fn rule_match(pattern: Seq<char>, text: Seq<u8>) -> Option<usize> {
    match regex_find(pattern, text) {
        Some((s, e)) => if s == 0 && 0 < e && e <= text.len() {
            Some(e)
        } else {
            None
        },
        None => None,
    }
}

/// The length of `rule`'s match at the start of `text`.
pub fn match_rule(rule: &LexemeTokeniser, text: &Vec<u8>) -> (r: Option<usize>)
    ensures
        r == rule_match(rule.pattern@, text@),
{
    match find_match(rule.pattern.as_str(), text) {
        Some((s, e)) => if s == 0 && 0 < e {
            Some(e)
        } else {
            None
        },
        None => None,
    }
}

/// The first rule from `i` on that matches at the start of `text`, and its
/// match length.
pub open spec fn first_rule(rules: Seq<LexemeTokeniser>, text: Seq<u8>, i: int) -> Option<(usize, usize)>
    decreases rules.len() - i,
{
    if i < 0 || i >= rules.len() {
        None
    } else {
        match rule_match(rules[i].pattern@, text) {
            Some(n) => Some((i as usize, n)),
            None => first_rule(rules, text, i + 1),
        }
    }
}

proof fn lemma_first_rule_from(rules: Seq<LexemeTokeniser>, text: Seq<u8>, j: int, i: int)
    requires
        0 <= j <= i < rules.len(),
        rules.len() <= usize::MAX,
        rule_match(rules[i].pattern@, text) is Some,
    ensures
        first_rule(rules, text, j) matches Some((k, n)) && j <= k <= i
            && rule_match(rules[k as int].pattern@, text) == Some(n)
            && forall|q: int| j <= q < k ==> rule_match(#[trigger] rules[q].pattern@, text) is None,
    decreases i - j,
{
    if rule_match(rules[j].pattern@, text) is None {
        lemma_first_rule_from(rules, text, j + 1, i);
    }
}

/// Rule priority: where rule `i` matches, the rule that builds the lexeme is
/// the earliest matching one, `i` itself or one before it, and no rule before
/// that one matches.
pub proof fn lemma_rule_priority(rules: Seq<LexemeTokeniser>, text: Seq<u8>, i: int)
    requires
        0 <= i < rules.len(),
        rules.len() <= usize::MAX,
        rule_match(rules[i].pattern@, text) is Some,
    ensures
        first_rule(rules, text, 0) matches Some((k, n)) && k <= i
            && rule_match(rules[k as int].pattern@, text) == Some(n)
            && forall|q: int| 0 <= q < k ==> rule_match(#[trigger] rules[q].pattern@, text) is None,
{
    lemma_first_rule_from(rules, text, 0, i);
}

/// The first rule that matches at the start of `text`, and its match length:
/// where several rules match, the earliest in the table wins.
pub fn first_matching_rule(lexemes: &Vec<LexemeTokeniser>, text: &Vec<u8>) -> (r: Option<(usize, usize)>)
    ensures
        r matches Some((i, n)) ==> i < lexemes@.len() && rule_match(lexemes@[i as int].pattern@, text@) == Some(n)
            && forall|k: int| 0 <= k < i ==> rule_match(#[trigger] lexemes@[k].pattern@, text@) is None,
        r is None ==> forall|k: int| 0 <= k < lexemes@.len() ==> rule_match(#[trigger] lexemes@[k].pattern@, text@) is None,
        r == first_rule(lexemes@, text@, 0),
{
    let mut i: usize = 0;
    while i < lexemes.len()
        invariant
            i <= lexemes@.len(),
            first_rule(lexemes@, text@, 0) == first_rule(lexemes@, text@, i as int),
            forall|k: int| 0 <= k < i ==> rule_match(#[trigger] lexemes@[k].pattern@, text@) is None,
        decreases lexemes.len() - i,
    {
        match match_rule(&lexemes[i], text) {
            Some(n) => {
                return Some((i, n));
            },
            None => {},
        }
        i += 1;
    }
    None
}

/// Whether a rule with builder `b` can yield a token of kind `k`.
pub open spec fn builder_emits(b: LexemeBuilder, k: LuaTerminal) -> bool {
    match b {
        LexemeBuilder::Static(t) => t == k,
        LexemeBuilder::Identifier => k == LuaTerminal::Identifier,
        LexemeBuilder::Number => k == LuaTerminal::NumberLiteral,
        LexemeBuilder::QuotedString => k == LuaTerminal::StringLiteral,
        LexemeBuilder::LongString => k == LuaTerminal::StringLiteral,
        _ => false,
    }
}

/// A rule table with its error handling: errors keyed by the first character
/// where no rule matches, and the terminals of the end-of-input token and of
/// unexpected symbols.
pub struct Tokeniser {
    pub lexemes: Vec<LexemeTokeniser>,
    pub error_handlers: Vec<(char, TokenisationErrorType)>,
    pub eof_terminal: LuaTerminal,
    pub error_terminal: LuaTerminal,
}

/// The UTF-8 encoding of `c`.
pub open spec fn utf8_encode(c: char) -> Seq<u8> {
    let v = c as u32 as int;
    if v < 0x80 {
        seq![v as u8]
    } else if v < 0x800 {
        seq![(0xC0 + v / 64) as u8, (0x80 + v % 64) as u8]
    } else if v < 0x10000 {
        seq![(0xE0 + v / 4096) as u8, (0x80 + (v / 64) % 64) as u8, (0x80 + v % 64) as u8]
    } else {
        seq![(0xF0 + v / 262144) as u8, (0x80 + (v / 4096) % 64) as u8, (0x80 + (v / 64) % 64) as u8, (0x80 + v % 64) as u8]
    }
}

/// The UTF-8 encoding of `c`.
pub fn encode_char(c: char) -> (r: Vec<u8>)
    ensures
        r@ == utf8_encode(c),
{
    let v = c as u32;
    proof {
        assert(v <= 0x10FFFF) by {
            assert(c as u32 <= 0x10FFFF);
        }
    }
    if v < 0x80 {
        vec![v as u8]
    } else if v < 0x800 {
        vec![(0xC0 + v / 64) as u8, (0x80 + v % 64) as u8]
    } else if v < 0x10000 {
        vec![(0xE0 + v / 4096) as u8, (0x80 + (v / 64) % 64) as u8, (0x80 + v % 64) as u8]
    } else {
        vec![(0xF0 + v / 262144) as u8, (0x80 + (v / 4096) % 64) as u8, (0x80 + (v / 64) % 64) as u8, (0x80 + v % 64) as u8]
    }
}

/// `text` begins with `prefix`.
pub open spec fn starts_with(text: Seq<u8>, prefix: Seq<u8>) -> bool {
    prefix.len() <= text.len() && text.subrange(0, prefix.len() as int) == prefix
}

fn starts_with_bytes(text: &Vec<u8>, prefix: &Vec<u8>) -> (r: bool)
    ensures
        r == starts_with(text@, prefix@),
{
    if prefix.len() > text.len() {
        return false;
    }
    let mut i: usize = 0;
    while i < prefix.len()
        invariant
            prefix@.len() <= text@.len(),
            i <= prefix@.len(),
            forall|k: int| 0 <= k < i ==> text@[k] == prefix@[k],
        decreases prefix.len() - i,
    {
        if text[i] != prefix[i] {
            proof {
                assert(text@.subrange(0, prefix@.len() as int)[i as int] != prefix@[i as int]);
            }
            return false;
        }
        i += 1;
    }
    proof {
        assert(text@.subrange(0, prefix@.len() as int) =~= prefix@);
    }
    true
}

/// The error kind registered for the character that `text` starts with, the
/// last one registered winning.
pub open spec fn handler_for(handlers: Seq<(char, TokenisationErrorType)>, text: Seq<u8>) -> Option<TokenisationErrorType>
    decreases handlers.len(),
{
    if handlers.len() == 0 {
        None
    } else if starts_with(text, utf8_encode(handlers.last().0)) {
        Some(handlers.last().1)
    } else {
        handler_for(handlers.drop_last(), text)
    }
}

fn find_handler(handlers: &Vec<(char, TokenisationErrorType)>, text: &Vec<u8>) -> (r: Option<TokenisationErrorType>)
    ensures
        r == handler_for(handlers@, text@),
{
    let mut i: usize = handlers.len();
    proof {
        assert(handlers@.subrange(0, i as int) =~= handlers@);
    }
    while i > 0
        invariant
            i <= handlers@.len(),
            handler_for(handlers@.subrange(0, i as int), text@) == handler_for(handlers@, text@),
        decreases i,
    {
        let ghost pre = handlers@.subrange(0, i as int);
        proof {
            assert(pre.drop_last() =~= handlers@.subrange(0, i - 1));
            assert(pre.last() == handlers@[i - 1]);
        }
        let enc = encode_char(handlers[i - 1].0);
        if starts_with_bytes(text, &enc) {
            return Some(handlers[i - 1].1);
        }
        i -= 1;
    }
    None
}

/// A token whose only payload is the text `b`, marked as an error.
fn error_token(token_type: LuaTerminal, b: &Vec<u8>, location: Location) -> (r: Token)
    ensures
        r.token_type == token_type,
        r.location == location,
        r.token_data matches Some(LuaTokenData::Error(s)) && s@ == crate::lua_lexemes::utf8_text(b@),
{
    Token { token_type, token_data: Some(LuaTokenData::Error(text_of(b))), location }
}

/// The index of the first `\n` at or after `i`, or `end`.
pub open spec fn text_end(s: Seq<u8>, i: int, end: int) -> int
    decreases end - i,
{
    if i >= end || i < 0 || i >= s.len() {
        i
    } else if s[i] == 10u8 {
        i
    } else {
        text_end(s, i + 1, end)
    }
}

/// The body of a quoted string lexeme: all but its first and last bytes.
pub open spec fn quoted_body(lexeme: Seq<u8>) -> Seq<u8> {
    if lexeme.len() >= 2 { lexeme.subrange(1, lexeme.len() - 1) } else { Seq::empty() }
}



/// The end of the line buffer after pulling in lines until it reaches `e`.
pub open spec fn long_le(s: Seq<u8>, le: int, e: int) -> int
    decreases s.len() - le,
{
    if le < e && le < line_end_from(s, le) <= s.len() {
        long_le(s, line_end_from(s, le), e)
    } else {
        le
    }
}

/// A token view of kind `t` at `l` with payload `d`.
pub open spec fn tv(t: LuaTerminal, d: Option<DataView>, l: Location) -> TokenView {
    TokenView { token_type: t, token_data: d, location: l }
}

/// An error view of kind `k` whose partial token has kind `t`, location `l`
/// and the text read from `b`.
pub open spec fn ev(k: TokenisationErrorType, t: LuaTerminal, b: Seq<u8>, l: Location) -> ErrorView {
    ErrorView { partial_token: tv(t, Some(DataView::Error(utf8_text(b))), l), error_type: k }
}

/// What a rule with `builder` yields when its match is `n` bytes long at
/// position `p` of `s`, the line buffer ending at `le` and the location being
/// `l`: the outcome, the position after it, and the end of the line buffer.
pub open spec fn build_view(builder: LexemeBuilder, s: Seq<u8>, p: int, n: int, le: int, l: Location)
    -> (Result<Option<TokenView>, ErrorView>, int, int)
{
    let lexeme = s.subrange(p, p + n);
    match builder {
        LexemeBuilder::Static(t) => (Ok(Some(tv(t, None, l))), p + n, le),
        LexemeBuilder::Skip => (Ok(None), p + n, le),
        LexemeBuilder::Identifier => (Ok(Some(tv(LuaTerminal::Identifier, Some(DataView::Identifier(utf8_text(lexeme))), l))), p + n, le),
        LexemeBuilder::Number => match numeral_view(lexeme) {
            Some(v) => (Ok(Some(tv(LuaTerminal::NumberLiteral, Some(DataView::NumberLiteral(v)), l))), p + n, le),
            None => (Err(ev(TokenisationErrorType::MalformedNumber, LuaTerminal::NumberLiteral, lexeme, l)), p, le),
        },
        LexemeBuilder::QuotedString => (Ok(Some(tv(LuaTerminal::StringLiteral,
            Some(DataView::StringLiteral(utf8_text(unescape(quoted_body(lexeme), 0)))), l))), p + n, le),
        LexemeBuilder::LongString => if exists|lv: int, c: int| #[trigger] long_string_at(s, p, lv, c) {
            let (lv, c) = choose|lv: int, c: int| #[trigger] long_string_at(s, p, lv, c);
            (Ok(Some(tv(LuaTerminal::StringLiteral, Some(DataView::StringLiteral(utf8_text(long_body(s, p, lv, c)))), l))),
                c + lv + 2, long_le(s, le, c + lv + 2))
        } else {
            (Err(ev(TokenisationErrorType::UnfinishedLongString, LuaTerminal::StringLiteral, s.subrange(p, text_end(s, p, le)), l)), p, le)
        },
        LexemeBuilder::LongComment => if exists|lv: int, c: int| #[trigger] long_string_at(s, p + 2, lv, c) {
            let (lv, c) = choose|lv: int, c: int| #[trigger] long_string_at(s, p + 2, lv, c);
            (Ok(None), c + lv + 2, long_le(s, le, c + lv + 2))
        } else {
            (Err(ev(TokenisationErrorType::UnfinishedLongComment, LuaTerminal::Comment, s.subrange(p, text_end(s, p, le)), l)), p, le)
        },
    }
}

/// The error where no rule matches at `p`, the buffer ending at `le`: the
/// error registered for the first character, with the rest of the line as
/// text, or else an unexpected symbol, with the first character as text.
pub open spec fn unmatched_view(t: Tokeniser, s: Seq<u8>, p: int, le: int, l: Location) -> ErrorView {
    let b = s[p];
    match handler_for(t.error_handlers@, s.subrange(p, le)) {
        Some(k) => ev(k, LuaTerminal::StringLiteral, s.subrange(p, text_end(s, p, le)), l),
        None => ev(TokenisationErrorType::UnexpectedSymbol, t.error_terminal,
            s.subrange(p, if p + utf8_len(b) <= le { p + utf8_len(b) } else { le }), l),
    }
}

/// Where scanning resumes from `pos`, the buffer ending at `le`: past the
/// whitespace, pulling in the next line whenever the buffer runs out.
pub open spec fn skip_space(s: Seq<u8>, pos: int, le: int) -> (int, int)
    decreases s.len() - pos, s.len() - le,
{
    if 0 <= pos < le <= s.len() && is_space(s[pos]) {
        skip_space(s, pos + 1, le)
    } else if 0 <= pos == le && le < line_end_from(s, le) <= s.len() {
        skip_space(s, pos, line_end_from(s, le))
    } else {
        (pos, le)
    }
}

/// What reading one lexeme from `pos` yields, the buffer ending at `le`: the
/// first rule matching the line buffer past the whitespace builds a token,
/// skipped text is passed over, and no match is an error. With the outcome
/// come the position after it and the end of the line buffer.
pub open spec fn lexed(t: Tokeniser, s: Seq<u8>, pos: int, le: int) -> (Result<Option<TokenView>, ErrorView>, int, int)
    decreases s.len() - pos,
{
    let (p, le1) = skip_space(s, pos, le);
    if !(pos <= p && p <= le1 && le1 <= s.len()) || p == le1 {
        (Ok(None), p, le1)
    } else {
        let l = loc_after(s.subrange(0, p));
        match first_rule(t.lexemes@, s.subrange(p, le1), 0) {
            None => (Err(unmatched_view(t, s, p, le1, l)), p, le1),
            Some((i, n)) => {
                let (r0, q0, le0) = build_view(t.lexemes@[i as int].builder, s, p, n as int, le1, l);
                if r0 == Ok::<Option<TokenView>, ErrorView>(None) && pos < q0 <= s.len() {
                    lexed(t, s, q0, le0)
                } else {
                    (r0, q0, le0)
                }
            },
        }
    }
}

/// The tokens of `s` from `pos` on, the buffer ending at `le`, ending with
/// the end-of-input token at the cursor's final location; or the first error.
pub open spec fn tokens_from(t: Tokeniser, s: Seq<u8>, pos: int, le: int) -> Result<Seq<TokenView>, ErrorView>
    decreases s.len() - pos,
{
    let (r, q, le1) = lexed(t, s, pos, le);
    match r {
        Err(e) => Err(e),
        Ok(None) => Ok(seq![tv(t.eof_terminal, None, cursor_loc(s, q, le1))]),
        Ok(Some(x)) => if pos < q <= s.len() {
            prepend(seq![x], tokens_from(t, s, q, le1))
        } else {
            Ok(seq![x])
        },
    }
}

/// `pre` followed by the tokens of `r`, or the error of `r`.
pub open spec fn prepend(pre: Seq<TokenView>, r: Result<Seq<TokenView>, ErrorView>) -> Result<Seq<TokenView>, ErrorView> {
    match r {
        Ok(rest) => Ok(pre + rest),
        Err(e) => Err(e),
    }
}

/// The tokenisation of the whole of `s`.
pub open spec fn tokenisation(t: Tokeniser, s: Seq<u8>) -> Result<Seq<TokenView>, ErrorView> {
    tokens_from(t, s, 0, line_end_from(s, 0))
}

proof fn lemma_skip_space_bounds(s: Seq<u8>, pos: int, le: int)
    requires
        0 <= pos <= le <= s.len(),
    ensures
        pos <= skip_space(s, pos, le).0 <= skip_space(s, pos, le).1 <= s.len(),
        skip_space(s, pos, le).0 == skip_space(s, pos, le).1 ==> skip_space(s, pos, le).1 == s.len(),
    decreases s.len() - pos, s.len() - le,
{
    lemma_line_end_from(s, le);
    if pos < le && is_space(s[pos]) {
        lemma_skip_space_bounds(s, pos + 1, le);
    } else if pos == le && le < line_end_from(s, le) <= s.len() {
        lemma_skip_space_bounds(s, pos, line_end_from(s, le));
    }
}

proof fn lemma_first_rule_found(rules: Seq<LexemeTokeniser>, text: Seq<u8>, i: int)
    requires
        0 <= i,
        rules.len() <= usize::MAX,
        first_rule(rules, text, i) is Some,
    ensures
        ({
            let (k, n) = first_rule(rules, text, i)->Some_0;
            &&& i <= k < rules.len()
            &&& rule_match(rules[k as int].pattern@, text) == Some(n)
        }),
    decreases rules.len() - i,
{
    if i < rules.len() && rule_match(rules[i].pattern@, text) is None {
        lemma_first_rule_found(rules, text, i + 1);
    }
}

proof fn lemma_long_le_bounds(s: Seq<u8>, le: int, e: int)
    requires
        0 <= le <= s.len(),
        e <= s.len(),
    ensures
        le <= long_le(s, le, e) <= s.len(),
        e <= long_le(s, le, e),
    decreases s.len() - le,
{
    lemma_line_end_from(s, le);
    if le < e && le < line_end_from(s, le) <= s.len() {
        lemma_long_le_bounds(s, line_end_from(s, le), e);
    }
}

/// Coverage: when reading from a position inside the source reports the end
/// of input, every byte of the source has been read, by tokens, whitespace or
/// skipped comments.
pub proof fn lemma_end_of_input_reads_everything(t: Tokeniser, s: Seq<u8>, pos: int, le: int)
    requires
        0 <= pos <= le <= s.len(),
        t.lexemes@.len() <= usize::MAX,
        lexed(t, s, pos, le).0 == Ok::<Option<TokenView>, ErrorView>(None),
    ensures
        lexed(t, s, pos, le).1 == s.len(),
    decreases s.len() - pos,
{
    lemma_skip_space_bounds(s, pos, le);
    let (p, le1) = skip_space(s, pos, le);
    if p < le1 {
        let text = s.subrange(p, le1);
        let l = loc_after(s.subrange(0, p));
        if first_rule(t.lexemes@, text, 0) is Some {
            lemma_first_rule_found(t.lexemes@, text, 0);
            let (i, n) = first_rule(t.lexemes@, text, 0)->Some_0;
            let (r0, q0, le0) = build_view(t.lexemes@[i as int].builder, s, p, n as int, le1, l);
            if r0 == Ok::<Option<TokenView>, ErrorView>(None) && pos < q0 <= s.len() {
                match t.lexemes@[i as int].builder {
                    LexemeBuilder::LongComment => {
                        let (lv, c) = choose|lv: int, c: int| #[trigger] long_string_at(s, p + 2, lv, c);
                        lemma_long_le_bounds(s, le1, c + lv + 2);
                    },
                    _ => {},
                }
                lemma_end_of_input_reads_everything(t, s, q0, le0);
            } else {
                match t.lexemes@[i as int].builder {
                    LexemeBuilder::LongComment => {
                        if exists|lv: int, c: int| #[trigger] long_string_at(s, p + 2, lv, c) {
                            let (lv, c) = choose|lv: int, c: int| #[trigger] long_string_at(s, p + 2, lv, c);
                            assert(is_long_close(s, c, lv, s.len() as int));
                        }
                    },
                    _ => {},
                }
            }
        }
    }
}

/// Passing over a run of whitespace inside the buffer does not change where
/// scanning resumes.
proof fn lemma_skip_run(s: Seq<u8>, a: int, b: int, le: int)
    requires
        0 <= a <= b <= le <= s.len(),
        forall|k: int| a <= k < b ==> is_space(#[trigger] s[k]),
    ensures
        skip_space(s, a, le) == skip_space(s, b, le),
    decreases b - a,
{
    if a < b {
        lemma_skip_run(s, a + 1, b, le);
    }
}

impl TokeniserState {
    /// The text from `pos` up to the end of its line, without the `\n`.
    fn rest_of_line(&self) -> (r: Vec<u8>)
        requires
            self.wf(),
        ensures
            r@ == self.input@.subrange(self.pos as int, text_end(self.input@, self.pos as int, self.line_end as int)),
    {
        let mut end = self.pos;
        while end < self.line_end && self.input[end] != 10u8
            invariant
                self.pos <= end <= self.line_end,
                self.wf(),
                text_end(self.input@, end as int, self.line_end as int) == text_end(self.input@, self.pos as int, self.line_end as int),
            decreases self.line_end - end,
        {
            end += 1;
        }
        copy_bytes(&self.input, self.pos, end)
    }

    /// Reads a long bracket that opens at `at`, popping lines until its
    /// closing bracket is in the buffer, and consumes through the close,
    /// counting the column from the start of the close's line. The body comes
    /// back; `None`, with nothing consumed, when no long bracket opens there
    /// or it never closes.
    fn read_long_bracket(&mut self, at: usize) -> (r: Option<Vec<u8>>)
        requires
            old(self).aligned(),
            old(self).pos <= at <= old(self).input@.len(),
        ensures
            final(self).aligned(),
            final(self).input == old(self).input,
            r matches Some(body) ==> exists|lv: int, c: int| long_string_at(old(self).input@, at as int, lv, c)
                && final(self).pos == c + lv + 2 && body@ == long_body(old(self).input@, at as int, lv, c)
                && final(self).line_end == long_le(old(self).input@, old(self).line_end as int, c + lv + 2),
            r is None ==> *final(self) == *old(self) && forall|lv: int, c: int| !#[trigger] long_string_at(old(self).input@, at as int, lv, c),
    {
        let level = match long_bracket_level(&self.input, at) {
            Some(level) => level,
            None => {
                return None;
            },
        };
        let body_start = at + level + 2;
        let ghost s = self.input@;
        match find_long_close(&self.input, body_start, self.input.len(), level) {
            None => {
                proof {
                    assert forall|lv: int, c: int| !#[trigger] long_string_at(s, at as int, lv, c) by {
                        if long_string_at(s, at as int, lv, c) {
                            lemma_long_open_unique(s, at as int, lv, level as int);
                        }
                    }
                }
                None
            },
            Some(c) => {
                let close_end = c + level + 2;
                while self.line_end < close_end
                    invariant
                        self.wf(),
                        self.input == old(self).input,
                        self.input@ == s,
                        self.pos == old(self).pos,
                        self.pos <= close_end,
                        last_line_start(s, self.line_end as int) <= close_end,
                        close_end <= s.len(),
                        long_le(s, self.line_end as int, close_end as int) == long_le(s, old(self).line_end as int, close_end as int),
                    decreases s.len() - self.line_end,
                {
                    proof {
                        lemma_line_end_from(self.input@, self.line_end as int);
                        lemma_pop_line_start(self.input@, self.line_end as int);
                    }
                    self.pop_line();
                }
                let body = copy_bytes(&self.input, body_start, c);
                let n = close_end - self.pos;
                self.consume_chars(n);
                self.realign();
                proof {
                    assert(long_string_at(s, at as int, level as int, c as int));
                }
                Some(body)
            },
        }
    }

    /// Builds the token of a rule with `builder` whose match at the start of
    /// the line buffer is `n` bytes long, consuming what the token spans.
    pub fn build_token(&mut self, builder: LexemeBuilder, n: usize) -> (r: Result<Option<Token>, TokenisationError>)
        requires
            old(self).aligned(),
            0 < n,
            old(self).pos + n <= old(self).line_end,
        ensures
            final(self).aligned(),
            final(self).input == old(self).input,
            (outcome_view(r), final(self).pos as int, final(self).line_end as int)
                == build_view(builder, old(self).input@, old(self).pos as int, n as int, old(self).line_end as int, old(self).location),
            r is Ok ==> final(self).pos > old(self).pos,
            r is Err ==> *final(self) == *old(self),
            r matches Ok(Some(t)) ==> builder_emits(builder, t.token_type),
    {
        let start = self.location;
        let ghost s = self.input@;
        let ghost p = self.pos as int;
        match builder {
            LexemeBuilder::LongString => {
                let at = self.pos;
                match self.read_long_bracket(at) {
                    Some(body) => {
                        let t = Token {
                            token_type: LuaTerminal::StringLiteral,
                            token_data: Some(LuaTokenData::StringLiteral(text_of(&body))),
                            location: start,
                        };
                        Ok(Some(t))
                    },
                    None => {
                        let line = self.rest_of_line();
                        Err(TokenisationError {
                            partial_token: error_token(LuaTerminal::StringLiteral, &line, start),
                            error_type: TokenisationErrorType::UnfinishedLongString,
                        })
                    },
                }
            },
            LexemeBuilder::LongComment => {
                let at = self.pos + 2;
                let opened = at <= self.input.len();
                let body = if opened { self.read_long_bracket(at) } else { None };
                match body {
                    Some(_) => Ok(None),
                    None => {
                        proof {
                            if !opened {
                                assert forall|lv: int, c: int| !#[trigger] long_string_at(s, p + 2, lv, c) by {
                                    if long_string_at(s, p + 2, lv, c) {
                                        assert(s[p + 2] == 91u8);
                                    }
                                }
                            }
                        }
                        let line = self.rest_of_line();
                        Err(TokenisationError {
                            partial_token: error_token(LuaTerminal::Comment, &line, start),
                            error_type: TokenisationErrorType::UnfinishedLongComment,
                        })
                    },
                }
            },
            LexemeBuilder::Number => {
                let lexeme = copy_bytes(&self.input, self.pos, self.pos + n);
                match parse_numeral(&lexeme) {
                    Some(value) => {
                        self.consume_chars(n);
                        Ok(Some(Token {
                            token_type: LuaTerminal::NumberLiteral,
                            token_data: Some(LuaTokenData::NumberLiteral(value)),
                            location: start,
                        }))
                    },
                    None => Err(TokenisationError {
                        partial_token: error_token(LuaTerminal::NumberLiteral, &lexeme, start),
                        error_type: TokenisationErrorType::MalformedNumber,
                    }),
                }
            },
            _ => {
                let lexeme = copy_bytes(&self.input, self.pos, self.pos + n);
                self.consume_chars(n);
                match builder {
                    LexemeBuilder::Static(terminal) => Ok(Some(Token { token_type: terminal, token_data: None, location: start })),
                    LexemeBuilder::Identifier => Ok(Some(Token {
                        token_type: LuaTerminal::Identifier,
                        token_data: Some(LuaTokenData::Identifier(text_of(&lexeme))),
                        location: start,
                    })),
                    LexemeBuilder::QuotedString => {
                        let body = if n >= 2 { copy_bytes(&lexeme, 1, n - 1) } else { Vec::new() };
                        proof {
                            assert(body@ =~= quoted_body(lexeme@));
                        }
                        let value = unescape_bytes(&body);
                        Ok(Some(Token {
                            token_type: LuaTerminal::StringLiteral,
                            token_data: Some(LuaTokenData::StringLiteral(text_of(&value))),
                            location: start,
                        }))
                    },
                    _ => Ok(None),
                }
            },
        }
    }

    /// The error where no rule matches at the start of the line buffer: the
    /// error registered for its first byte, with the rest of the line as the
    /// partial token's text, or else an unexpected symbol, with its first
    /// character as the text.
    pub fn unmatched_error(&self, tokeniser: &Tokeniser) -> (e: TokenisationError)
        requires
            self.wf(),
            self.pos < self.line_end,
        ensures
            error_view(e) == unmatched_view(*tokeniser, self.input@, self.pos as int, self.line_end as int, self.location),
    {
        let first = self.input[self.pos];
        let buffer = self.line_buffer();
        match find_handler(&tokeniser.error_handlers, &buffer) {
            Some(kind) => {
                let line = self.rest_of_line();
                TokenisationError { partial_token: error_token(LuaTerminal::StringLiteral, &line, self.location), error_type: kind }
            },
            None => {
                let len = utf8_len_of(first);
                let end = if len <= self.line_end - self.pos { self.pos + len } else { self.line_end };
                let symbol = copy_bytes(&self.input, self.pos, end);
                TokenisationError {
                    partial_token: error_token(tokeniser.error_terminal, &symbol, self.location),
                    error_type: TokenisationErrorType::UnexpectedSymbol,
                }
            },
        }
    }

    /// Reads the next token, skipping whitespace, comments and line ends;
    /// `None` once the input is exhausted. At each step the first rule that
    /// matches the line buffer decides, and `build_token` builds from it.
    #[verifier::rlimit(50)]
    pub fn next_lexeme(&mut self, tokeniser: &Tokeniser) -> (r: Result<Option<Token>, TokenisationError>)
        requires
            old(self).aligned(),
        ensures
            final(self).aligned(),
            final(self).input == old(self).input,
            r matches Ok(Some(t)) ==> old(self).pos < final(self).pos && exists|p: int| old(self).pos <= p < final(self).pos
                && t.location == loc_after(old(self).input@.subrange(0, p)),
            r matches Ok(Some(t)) ==> exists|i: int| 0 <= i < tokeniser.lexemes@.len()
                && builder_emits(#[trigger] tokeniser.lexemes@[i].builder, t.token_type),
            r matches Ok(None) ==> final(self).pos == final(self).input@.len() && final(self).line_end == final(self).input@.len(),
            (outcome_view(r), final(self).pos as int, final(self).line_end as int)
                == lexed(*tokeniser, old(self).input@, old(self).pos as int, old(self).line_end as int),
    {
        let ghost pos0 = self.pos;
        let ghost s = self.input@;
        loop
            invariant
                self.wf(),
                self.input == old(self).input,
                s == self.input@,
                pos0 == old(self).pos,
                pos0 <= self.pos,
                self.aligned(),
                lexed(*tokeniser, s, self.pos as int, self.line_end as int)
                    == lexed(*tokeniser, s, pos0 as int, old(self).line_end as int),
            decreases self.input@.len() - self.pos,
        {
            let ghost iter_start = self.pos;
            let ghost iter_le = self.line_end;
            let ghost before_trim = self.pos;
            self.trim_whitespace();
            proof {
                lemma_skip_run(s, before_trim as int, self.pos as int, self.line_end as int);
            }
            while self.is_end_of_line() && self.has_next_line()
                invariant
                    self.aligned(),
                    self.input == old(self).input,
                    s == self.input@,
                    pos0 <= iter_start <= self.pos,
                    skip_space(s, self.pos as int, self.line_end as int) == skip_space(s, iter_start as int, iter_le as int),
                    self.pos == self.line_end || !is_space(s[self.pos as int]),
                decreases self.input@.len() - self.line_end,
            {
                proof {
                    lemma_line_end_from(self.input@, self.line_end as int);
                }
                self.pop_line();
                let ghost b = self.pos;
                self.trim_whitespace();
                proof {
                    lemma_skip_run(s, b as int, self.pos as int, self.line_end as int);
                }
            }
            proof {
                lemma_line_end_from(s, self.line_end as int);
                assert(skip_space(s, self.pos as int, self.line_end as int) == (self.pos as int, self.line_end as int));
            }
            if self.is_end_of_line() {
                return Ok(None);
            }
            proof {
                lemma_aligned_loc(s, self.pos as int, self.line_end as int);
            }
            let start = self.location;
            let text = self.line_buffer();
            match first_matching_rule(&tokeniser.lexemes, &text) {
                Some((i, n)) => {
                    let ghost p_start = self.pos;
                    match self.build_token(tokeniser.lexemes[i].builder, n) {
                        Ok(None) => {},
                        Ok(Some(t)) => {
                            return Ok(Some(t));
                        },
                        Err(e) => {
                            return Err(e);
                        },
                    }
                },
                None => {
                    return Err(self.unmatched_error(tokeniser));
                },
            }
        }
    }
}

/// `r` is what `get_token` owes for the lexing outcome `o`: that token, that
/// error, or at the end of input the end-of-input token at `l`.
pub open spec fn token_outcome(r: Result<Token, TokenisationError>, o: Result<Option<TokenView>, ErrorView>, eof: LuaTerminal, l: Location) -> bool {
    match o {
        Ok(Some(x)) => r matches Ok(t) && token_view(t) == x,
        Ok(None) => r matches Ok(t) && token_view(t) == tv(eof, None, l),
        Err(e) => r matches Err(err) && error_view(err) == e,
    }
}

impl TokeniserState {
    /// The next token; at the end of input, the end-of-input token at the
    /// current location.
    pub fn get_token(&mut self, tokeniser: &Tokeniser) -> (r: Result<Token, TokenisationError>)
        requires
            old(self).aligned(),
        ensures
            final(self).aligned(),
            final(self).input == old(self).input,
            token_outcome(r, lexed(*tokeniser, old(self).input@, old(self).pos as int, old(self).line_end as int).0,
                tokeniser.eof_terminal, final(self).location),
            final(self).pos == lexed(*tokeniser, old(self).input@, old(self).pos as int, old(self).line_end as int).1,
    {
        match self.next_lexeme(tokeniser) {
            Ok(Some(t)) => Ok(t),
            Ok(None) => {
                Ok(Token { token_type: tokeniser.eof_terminal, token_data: None, location: self.location })
            },
            Err(e) => Err(e),
        }
    }
}

impl Tokeniser {
    pub fn new(
        lexemes: Vec<LexemeTokeniser>,
        error_handlers: Vec<(char, TokenisationErrorType)>,
        eof_terminal: LuaTerminal,
        error_terminal: LuaTerminal,
    ) -> (r: Tokeniser)
        ensures
            r.lexemes == lexemes,
            r.error_handlers == error_handlers,
            r.eof_terminal == eof_terminal,
            r.error_terminal == error_terminal,
    {
        Tokeniser { lexemes, error_handlers, eof_terminal, error_terminal }
    }

    /// Tokenises `src`: the tokens in source order, ending with one
    /// end-of-input token, or the first error. Token locations never go
    /// backwards, and the end-of-input token lies past the whole source.
    #[verifier::rlimit(50)]
    pub fn tokenise(&self, src: &str) -> (r: Result<Vec<Token>, TokenisationError>)
        requires
            src.spec_bytes().len() + 2 <= usize::MAX,
            forall|i: int| 0 <= i < self.lexemes@.len() ==> !builder_emits(#[trigger] self.lexemes@[i].builder, self.eof_terminal),
        ensures
            r matches Ok(tokens) ==> {
                &&& tokens@.len() >= 1
                &&& tokens@.last().token_type == self.eof_terminal
                &&& forall|i: int| 0 <= i < tokens@.len() - 1 ==> (#[trigger] tokens@[i]).token_type != self.eof_terminal
                &&& tokens@.last().location == cursor_loc(src.spec_bytes(), src.spec_bytes().len() as int, src.spec_bytes().len() as int)
                &&& forall|i: int| 0 <= i < tokens@.len() - 1 ==> loc_le(#[trigger] tokens@[i].location, tokens@[i + 1].location)
            },
            match r {
                Ok(tokens) => tokenisation(*self, src.spec_bytes()) == Ok::<Seq<TokenView>, ErrorView>(tokens_view(tokens@)),
                Err(e) => tokenisation(*self, src.spec_bytes()) == Err::<Seq<TokenView>, ErrorView>(error_view(e)),
            },
    {
        let input = src.as_bytes_vec();
        let mut state = TokeniserState::new(input);
        let mut tokens: Vec<Token> = Vec::new();
        let ghost mut last_p: int = 0;
        loop
            invariant
                state.aligned(),
                state.input@ == src.spec_bytes(),
                forall|i: int| 0 <= i < self.lexemes@.len() ==> !builder_emits(#[trigger] self.lexemes@[i].builder, self.eof_terminal),
                forall|i: int| 0 <= i < tokens@.len() - 1 ==> loc_le(#[trigger] tokens@[i].location, tokens@[i + 1].location),
                forall|i: int| 0 <= i < tokens@.len() ==> (#[trigger] tokens@[i]).token_type != self.eof_terminal,
                tokens@.len() > 0 ==> 0 <= last_p < state.pos && tokens@.last().location == loc_after(state.input@.subrange(0, last_p)),
                prepend(tokens_view(tokens@), tokens_from(*self, state.input@, state.pos as int, state.line_end as int))
                    == tokenisation(*self, src.spec_bytes()),
            decreases state.input@.len() - state.pos,
        {
            let ghost t0 = tokens@;
            let ghost p0 = state.pos as int;
            let ghost le0 = state.line_end as int;
            match state.next_lexeme(self) {
                Ok(Some(t)) => {
                    let ghost p_t = choose|p: int| p0 <= p < state.pos && t.location == loc_after(state.input@.subrange(0, p));
                    proof {
                        if t0.len() > 0 {
                            lemma_loc_prefix_mono(state.input@, last_p, p_t);
                        }
                        last_p = p_t;
                    }
                    tokens.push(t);
                    proof {
                        let rest = tokens_from(*self, state.input@, state.pos as int, state.line_end as int);
                        assert(tokens_from(*self, state.input@, p0, le0) == prepend(seq![token_view(t)], rest));
                        assert(tokens_view(tokens@) =~= tokens_view(t0) + seq![token_view(t)]);
                        match rest {
                            Ok(x) => {
                                assert(tokens_view(t0) + (seq![token_view(t)] + x) =~= tokens_view(tokens@) + x);
                            },
                            Err(_) => {},
                        }
                    }
                    proof {
                        assert forall|i: int| 0 <= i < tokens@.len() - 1 implies loc_le(#[trigger] tokens@[i].location, tokens@[i + 1].location) by {
                            if i < t0.len() - 1 {
                                assert(tokens@[i] == t0[i] && tokens@[i + 1] == t0[i + 1]);
                            } else {
                                assert(tokens@[i] == t0.last());
                            }
                        }
                        assert forall|i: int| 0 <= i < tokens@.len() implies (#[trigger] tokens@[i]).token_type != self.eof_terminal by {
                            if i < t0.len() {
                                assert(tokens@[i] == t0[i]);
                            }
                        }
                    }
                },
                Ok(None) => {
                    let eof = Token { token_type: self.eof_terminal, token_data: None, location: state.location };
                    tokens.push(eof);
                    proof {
                        assert(tokens_view(tokens@) =~= tokens_view(t0) + seq![token_view(eof)]);
                    }
                    proof {
                        if t0.len() > 0 {
                            lemma_loc_below_end(state.input@, last_p);
                        }
                        assert forall|i: int| 0 <= i < tokens@.len() - 1 implies (#[trigger] tokens@[i]).token_type != self.eof_terminal by {
                            assert(tokens@[i] == t0[i]);
                        }
                        assert forall|i: int| 0 <= i < tokens@.len() - 1 implies loc_le(#[trigger] tokens@[i].location, tokens@[i + 1].location) by {
                            if i < t0.len() - 1 {
                                assert(tokens@[i] == t0[i] && tokens@[i + 1] == t0[i + 1]);
                            } else {
                                assert(tokens@[i] == t0.last());
                            }
                        }
                    }
                    return Ok(tokens);
                },
                Err(e) => {
                    return Err(e);
                },
            }
        }
    }
}

/// Collects the rules and handlers of a tokeniser; `build` succeeds once the
/// end-of-input and unexpected-symbol handlers are both set.
pub struct TokeniserBuilder {
    pub lexemes: Vec<LexemeTokeniser>,
    pub error_handlers: Vec<(char, TokenisationErrorType)>,
    pub eof_terminal: Option<LuaTerminal>,
    pub error_terminal: Option<LuaTerminal>,
}

impl TokeniserBuilder {
    pub fn new() -> (r: TokeniserBuilder)
        ensures
            r.lexemes@.len() == 0,
            r.error_handlers@.len() == 0,
            r.eof_terminal is None,
            r.error_terminal is None,
    {
        TokeniserBuilder { lexemes: Vec::new(), error_handlers: Vec::new(), eof_terminal: None, error_terminal: None }
    }

    /// Adds a rule of any kind at the end of the table.
    pub fn with_rule(self, pattern: String, builder: LexemeBuilder) -> (r: TokeniserBuilder)
        ensures
            r.lexemes@.len() == self.lexemes@.len() + 1,
            r.lexemes@.subrange(0, self.lexemes@.len() as int) == self.lexemes@,
            r.lexemes@.last().pattern@ == pattern@,
            r.lexemes@.last().builder == builder,
            r.error_handlers == self.error_handlers,
            r.eof_terminal == self.eof_terminal,
            r.error_terminal == self.error_terminal,
    {
        let mut lexemes = self.lexemes;
        lexemes.push(LexemeTokeniser { pattern, builder });
        proof {
            assert(lexemes@.subrange(0, self.lexemes@.len() as int) =~= self.lexemes@);
        }
        TokeniserBuilder {
            lexemes,
            error_handlers: self.error_handlers,
            eof_terminal: self.eof_terminal,
            error_terminal: self.error_terminal,
        }
    }

    /// Adds a rule that yields `token_type` without payload.
    pub fn with_static_token(self, token_matcher: String, token_type: LuaTerminal) -> (r: TokeniserBuilder)
        ensures
            r.lexemes@.len() == self.lexemes@.len() + 1,
            r.lexemes@.subrange(0, self.lexemes@.len() as int) == self.lexemes@,
            r.lexemes@.last().pattern@ == token_matcher@,
            r.lexemes@.last().builder == LexemeBuilder::Static(token_type),
            r.error_handlers == self.error_handlers,
            r.eof_terminal == self.eof_terminal,
            r.error_terminal == self.error_terminal,
    {
        self.with_rule(token_matcher, LexemeBuilder::Static(token_type))
    }

    /// Adds a rule whose match is consumed whole and then read: a name, a
    /// numeral, a quoted string, or text that is skipped.
    pub fn with_dynamic_token(self, token_matcher: String, builder: LexemeBuilder) -> (r: TokeniserBuilder)
        requires
            builder is Identifier || builder is Number || builder is QuotedString || builder is Skip,
        ensures
            r.lexemes@.len() == self.lexemes@.len() + 1,
            r.lexemes@.subrange(0, self.lexemes@.len() as int) == self.lexemes@,
            r.lexemes@.last().pattern@ == token_matcher@,
            r.lexemes@.last().builder == builder,
            r.error_handlers == self.error_handlers,
            r.eof_terminal == self.eof_terminal,
            r.error_terminal == self.error_terminal,
    {
        self.with_rule(token_matcher, builder)
    }

    /// Adds a rule whose match only opens a construct that may span lines,
    /// which its builder then reads to the end.
    pub fn with_complicated_token(self, token_start_matcher: String, builder: LexemeBuilder) -> (r: TokeniserBuilder)
        requires
            builder is LongString || builder is LongComment,
        ensures
            r.lexemes@.len() == self.lexemes@.len() + 1,
            r.lexemes@.subrange(0, self.lexemes@.len() as int) == self.lexemes@,
            r.lexemes@.last().pattern@ == token_start_matcher@,
            r.lexemes@.last().builder == builder,
            r.error_handlers == self.error_handlers,
            r.eof_terminal == self.eof_terminal,
            r.error_terminal == self.error_terminal,
    {
        self.with_rule(token_start_matcher, builder)
    }

    /// Registers the error raised where no rule matches and the line buffer
    /// starts with `start_char`; a later registration for the same character
    /// replaces an earlier one.
    pub fn with_error_handler(self, start_char: char, error_type: TokenisationErrorType) -> (r: TokeniserBuilder)
        ensures
            r.lexemes == self.lexemes,
            r.error_handlers@ == self.error_handlers@.push((start_char, error_type)),
            r.eof_terminal == self.eof_terminal,
            r.error_terminal == self.error_terminal,
    {
        let mut error_handlers = self.error_handlers;
        error_handlers.push((start_char, error_type));
        TokeniserBuilder {
            lexemes: self.lexemes,
            error_handlers,
            eof_terminal: self.eof_terminal,
            error_terminal: self.error_terminal,
        }
    }

    /// Sets the terminal of the end-of-input token.
    pub fn with_eof_handler(self, eof_terminal: LuaTerminal) -> (r: TokeniserBuilder)
        ensures
            r.lexemes == self.lexemes,
            r.error_handlers == self.error_handlers,
            r.eof_terminal == Some(eof_terminal),
            r.error_terminal == self.error_terminal,
    {
        TokeniserBuilder {
            lexemes: self.lexemes,
            error_handlers: self.error_handlers,
            eof_terminal: Some(eof_terminal),
            error_terminal: self.error_terminal,
        }
    }

    /// Sets the terminal of the partial token of an unexpected symbol.
    pub fn with_unexpected_symbol_handler(self, error_terminal: LuaTerminal) -> (r: TokeniserBuilder)
        ensures
            r.lexemes == self.lexemes,
            r.error_handlers == self.error_handlers,
            r.eof_terminal == self.eof_terminal,
            r.error_terminal == Some(error_terminal),
    {
        TokeniserBuilder {
            lexemes: self.lexemes,
            error_handlers: self.error_handlers,
            eof_terminal: self.eof_terminal,
            error_terminal: Some(error_terminal),
        }
    }

    /// The tokeniser, or `None` unless both mandatory handlers are set.
    pub fn build(self) -> (r: Option<Tokeniser>)
        ensures
            r is Some <==> (self.eof_terminal is Some && self.error_terminal is Some),
            r matches Some(t) ==> t.lexemes == self.lexemes && t.error_handlers == self.error_handlers
                && Some(t.eof_terminal) == self.eof_terminal && Some(t.error_terminal) == self.error_terminal,
    {
        match (self.eof_terminal, self.error_terminal) {
            (Some(eof), Some(err)) => Some(Tokeniser::new(self.lexemes, self.error_handlers, eof, err)),
            _ => None,
        }
    }
}

/// A position before the end of the source lies no later than the cursor's
/// location at the end of input.
pub proof fn lemma_loc_below_end(s: Seq<u8>, p: int)
    requires
        0 <= p < s.len(),
        s.len() + 2 <= usize::MAX,
    ensures
        loc_le(loc_after(s.subrange(0, p)), cursor_loc(s, s.len() as int, s.len() as int)),
{
    let n = s.len() as int;
    let ls = last_line_start(s, n);
    lemma_line_start_props(s, n - 1);
    lemma_line_start_props(s, p);
    lemma_loc_after_closed(s, p);
    lemma_counts_bound(s, 0, n);
    lemma_counts_bound(s, ls, n);
    if p >= ls {
        lemma_line_start_at(s, ls, p);
        lemma_newlines_flat(s, ls, p);
        lemma_chars_grow(s, ls, p, n);
    } else {
        lemma_counts_bound(s, p, ls - 1);
        lemma_counts_bound(s, 0, ls - 1);
        lemma_newlines_mono(s, p, ls - 1);
    }
}

/// Reading further never moves the location backwards.
pub proof fn lemma_loc_prefix_mono(s: Seq<u8>, i: int, j: int)
    requires
        0 <= i <= j <= s.len(),
        s.len() + 2 <= usize::MAX,
    ensures
        loc_le(loc_after(s.subrange(0, i)), loc_after(s.subrange(0, j))),
{
    lemma_loc_after_mono(s.subrange(0, j), i);
    assert(s.subrange(0, j).subrange(0, i) =~= s.subrange(0, i));
}

} // verus!
