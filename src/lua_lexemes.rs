//! Byte-level pieces of Lua lexemes: long brackets, escape sequences in
//! quoted strings, numerals.
use vstd::prelude::*;
use crate::token::{LuaNumber, NumberView, number_view};

verus! {

/// The text that `String::from_utf8_lossy` reads from `b`.
pub uninterp spec fn utf8_text(b: Seq<u8>) -> Seq<char>;

/// The characters of bytes that are all ASCII.
pub open spec fn ascii_text(b: Seq<u8>) -> Seq<char> {
    Seq::new(b.len(), |i: int| b[i] as char)
}

/// Relies on `String::from_utf8_lossy`: the result depends on the bytes alone,
/// and valid UTF-8, ASCII in particular, comes back unchanged.
#[verifier::external_body]
pub(crate) fn text_of(b: &Vec<u8>) -> (r: String)
    ensures
        r@ == utf8_text(b@),
        (forall|i: int| 0 <= i < b@.len() ==> #[trigger] b@[i] < 128u8) ==> r@ == ascii_text(b@),
{
    String::from_utf8_lossy(b.as_slice()).into_owned()
}

/// `s[at..]` opens a long bracket `[`, `level` times `=`, `[`.
pub open spec fn is_long_open(s: Seq<u8>, at: int, level: int) -> bool {
    &&& 0 <= at
    &&& 0 <= level
    &&& at + level + 2 <= s.len()
    &&& s[at] == 91u8
    &&& forall|i: int| at < i <= at + level ==> #[trigger] s[i] == 61u8
    &&& s[at + level + 1] == 91u8
}

/// `s[p..]` closes a long bracket of `level`, ending before `end`.
pub open spec fn is_long_close(s: Seq<u8>, p: int, level: int, end: int) -> bool {
    &&& 0 <= p
    &&& p + level + 2 <= end
    &&& end <= s.len()
    &&& s[p] == 93u8
    &&& forall|i: int| p < i <= p + level ==> #[trigger] s[i] == 61u8
    &&& s[p + level + 1] == 93u8
}

/// The level of the long bracket that opens at `at`, if one does.
pub fn long_bracket_level(s: &Vec<u8>, at: usize) -> (r: Option<usize>)
    ensures
        r matches Some(level) ==> is_long_open(s@, at as int, level as int),
        r is None ==> forall|level: int| !is_long_open(s@, at as int, level),
{
    if at >= s.len() || s[at] != 91u8 {
        return None;
    }
    let mut i = at + 1;
    while i < s.len() && s[i] == 61u8
        invariant
            at < i <= s@.len(),
            s@[at as int] == 91u8,
            forall|k: int| at < k < i ==> #[trigger] s@[k] == 61u8,
        decreases s.len() - i,
    {
        i += 1;
    }
    if i < s.len() && s[i] == 91u8 {
        Some(i - at - 1)
    } else {
        proof {
            assert forall|level: int| !is_long_open(s@, at as int, level) by {
                if is_long_open(s@, at as int, level) {
                    if at + level + 1 < i {
                        assert(s@[at + level + 1] == 61u8);
                    } else if at + level + 1 > i {
                        assert(s@[i as int] == 61u8);
                    }
                }
            }
        }
        None
    }
}

/// A long bracket of `level` opens at `at` and first closes at `p`, anywhere
/// in the rest of `s`.
pub open spec fn long_string_at(s: Seq<u8>, at: int, level: int, p: int) -> bool {
    &&& is_long_open(s, at, level)
    &&& at + level + 2 <= p
    &&& is_long_close(s, p, level, s.len() as int)
    &&& forall|q: int| at + level + 2 <= q < p ==> !is_long_close(s, q, level, s.len() as int)
}

/// The body of that long bracket: every byte between the opening and the
/// close.
pub open spec fn long_body(s: Seq<u8>, at: int, level: int, p: int) -> Seq<u8> {
    s.subrange(at + level + 2, p)
}

/// A long bracket opens at one level at most.
pub proof fn lemma_long_open_unique(s: Seq<u8>, at: int, l1: int, l2: int)
    requires
        is_long_open(s, at, l1),
        is_long_open(s, at, l2),
    ensures
        l1 == l2,
{
    if l1 < l2 {
        assert(s[at + l1 + 1] == 61u8);
    } else if l2 < l1 {
        assert(s[at + l2 + 1] == 61u8);
    }
}

/// Whether a long bracket of `level` closes at `p`, before `end`.
fn closes_at(s: &Vec<u8>, p: usize, level: usize, end: usize) -> (r: bool)
    requires
        end <= s@.len(),
    ensures
        r == is_long_close(s@, p as int, level as int, end as int),
{
    if level >= end || p >= end - level - 1 || end - level - 1 - p < 1 {
        return false;
    }
    if s[p] != 93u8 || s[p + level + 1] != 93u8 {
        return false;
    }
    let mut i: usize = 1;
    while i <= level
        invariant
            1 <= i <= level + 1,
            p + level + 2 <= end <= s@.len(),
            forall|k: int| p < k < p + i ==> #[trigger] s@[k] == 61u8,
        decreases level + 1 - i,
    {
        if s[p + i] != 61u8 {
            return false;
        }
        i += 1;
    }
    true
}

/// The first position at or after `from` where a long bracket of `level`
/// closes before `end`.
pub fn find_long_close(s: &Vec<u8>, from: usize, end: usize, level: usize) -> (r: Option<usize>)
    requires
        from <= end <= s@.len(),
    ensures
        r matches Some(p) ==> from <= p && is_long_close(s@, p as int, level as int, end as int)
            && forall|q: int| from <= q < p ==> !is_long_close(s@, q, level as int, end as int),
        r is None ==> forall|q: int| from <= q ==> !is_long_close(s@, q, level as int, end as int),
{
    let mut p = from;
    while p < end
        invariant
            from <= p <= end <= s@.len(),
            forall|q: int| from <= q < p ==> !is_long_close(s@, q, level as int, end as int),
        decreases end - p,
    {
        if closes_at(s, p, level, end) {
            return Some(p);
        }
        p += 1;
    }
    None
}

/// The byte that the escape `\c` stands for, for the single-character escapes
/// of Lua; any other `c` stands for itself.
pub open spec fn escaped(c: u8) -> u8 {
    if c == 110u8 {
        10u8
    } else if c == 116u8 {
        9u8
    } else if c == 114u8 {
        13u8
    } else if c == 97u8 {
        7u8
    } else if c == 98u8 {
        8u8
    } else if c == 102u8 {
        12u8
    } else if c == 118u8 {
        11u8
    } else {
        c
    }
}

/// The bytes that `s[i..]` stands for once its escapes are read.
pub open spec fn unescape(s: Seq<u8>, i: int) -> Seq<u8>
    decreases s.len() - i,
{
    if i < 0 || i >= s.len() {
        Seq::empty()
    } else if s[i] == 92u8 && i + 1 < s.len() {
        seq![escaped(s[i + 1])] + unescape(s, i + 2)
    } else {
        seq![s[i]] + unescape(s, i + 1)
    }
}

fn escaped_byte(c: u8) -> (r: u8)
    ensures
        r == escaped(c),
{
    if c == 110u8 {
        10u8
    } else if c == 116u8 {
        9u8
    } else if c == 114u8 {
        13u8
    } else if c == 97u8 {
        7u8
    } else if c == 98u8 {
        8u8
    } else if c == 102u8 {
        12u8
    } else if c == 118u8 {
        11u8
    } else {
        c
    }
}

/// Reads the escapes of a quoted string's body.
pub fn unescape_bytes(s: &Vec<u8>) -> (r: Vec<u8>)
    ensures
        r@ == unescape(s@, 0),
{
    let mut r: Vec<u8> = Vec::new();
    let mut i: usize = 0;
    while i < s.len()
        invariant
            i <= s@.len(),
            r@ + unescape(s@, i as int) == unescape(s@, 0),
        decreases s.len() - i,
    {
        let ghost r0 = r@;
        if s[i] == 92u8 && i + 1 < s.len() {
            r.push(escaped_byte(s[i + 1]));
            proof {
                assert(r0 + unescape(s@, i as int) == r0 + (seq![escaped(s@[i + 1])] + unescape(s@, i + 2)));
                assert(r@ + unescape(s@, i + 2) =~= r0 + (seq![escaped(s@[i + 1])] + unescape(s@, i + 2)));
            }
            i += 2;
        } else {
            r.push(s[i]);
            proof {
                assert(r@ + unescape(s@, i + 1) =~= r0 + (seq![s@[i as int]] + unescape(s@, i + 1)));
            }
            i += 1;
        }
    }
    proof {
        assert(r@ + unescape(s@, i as int) =~= r@);
    }
    r
}

/// The length of the UTF-8 sequence that lead byte `b` starts.
pub open spec fn utf8_len(b: u8) -> int {
    if b < 128u8 {
        1
    } else if b >= 240u8 {
        4
    } else if b >= 224u8 {
        3
    } else if b >= 192u8 {
        2
    } else {
        1
    }
}

/// The length of the UTF-8 sequence that lead byte `b` starts.
pub fn utf8_len_of(b: u8) -> (r: usize)
    ensures
        r == utf8_len(b),
{
    if b < 128u8 {
        1
    } else if b >= 240u8 {
        4
    } else if b >= 224u8 {
        3
    } else if b >= 192u8 {
        2
    } else {
        1
    }
}

/// The value of a hexadecimal digit, or -1.
pub open spec fn hex_val(b: u8) -> int {
    if 48u8 <= b && b <= 57u8 {
        b - 48
    } else if 97u8 <= b && b <= 102u8 {
        b - 87
    } else if 65u8 <= b && b <= 70u8 {
        b - 55
    } else {
        -1
    }
}

/// `b` is a digit of the numeral's base.
pub open spec fn digit_ok(b: u8, hex: bool) -> bool {
    if hex {
        hex_val(b) >= 0
    } else {
        48u8 <= b && b <= 57u8
    }
}

/// The end of the run of digits that starts at `i`.
pub open spec fn digits_end(s: Seq<u8>, i: int, hex: bool) -> int
    decreases s.len() - i,
{
    if i < 0 || i >= s.len() {
        i
    } else if digit_ok(s[i], hex) {
        digits_end(s, i + 1, hex)
    } else {
        i
    }
}

/// The numeral starts with `0x` or `0X`.
pub open spec fn is_hex_numeral(s: Seq<u8>) -> bool {
    s.len() >= 2 && s[0] == 48u8 && (s[1] == 120u8 || s[1] == 88u8)
}

pub open spec fn mantissa_start(s: Seq<u8>) -> int {
    if is_hex_numeral(s) { 2 } else { 0 }
}

/// The end of the integer part.
pub open spec fn int_end(s: Seq<u8>) -> int {
    digits_end(s, mantissa_start(s), is_hex_numeral(s))
}

/// A radix point follows the integer part.
pub open spec fn has_point(s: Seq<u8>) -> bool {
    int_end(s) < s.len() && s[int_end(s)] == 46u8
}

/// The end of the mantissa.
pub open spec fn frac_end(s: Seq<u8>) -> int {
    if has_point(s) {
        digits_end(s, int_end(s) + 1, is_hex_numeral(s))
    } else {
        int_end(s)
    }
}

/// Where the digits of the exponent start, after its marker and sign.
pub open spec fn exp_digits_start(s: Seq<u8>) -> int {
    let c = frac_end(s) + 1;
    if c < s.len() && (s[c] == 43u8 || s[c] == 45u8) { c + 1 } else { c }
}

/// `b` marks the exponent: `e` or `E` in decimal, `p` or `P` in hexadecimal.
pub open spec fn exp_marker(b: u8, hex: bool) -> bool {
    if hex {
        b == 112u8 || b == 80u8
    } else {
        b == 101u8 || b == 69u8
    }
}

/// `s` is a Lua numeral: decimal or hexadecimal digits with an optional
/// radix point and at least one digit, then an optional exponent with an
/// optional sign and at least one decimal digit.
pub open spec fn valid_numeral(s: Seq<u8>) -> bool {
    &&& (int_end(s) - mantissa_start(s)) + (frac_end(s) - int_end(s) - if has_point(s) { 1int } else { 0int }) > 0
    &&& (frac_end(s) == s.len() || (exp_marker(s[frac_end(s)], is_hex_numeral(s))
        && exp_digits_start(s) < s.len() && digits_end(s, exp_digits_start(s), false) == s.len()))
}

/// A numeral without radix point or exponent.
pub open spec fn is_integer_numeral(s: Seq<u8>) -> bool {
    valid_numeral(s) && !has_point(s) && frac_end(s) == s.len()
}

/// The value of the digits `s[from..to]` in `base`.
pub open spec fn digits_value(s: Seq<u8>, from: int, to: int, base: int) -> int
    decreases to - from,
{
    if to <= from {
        0
    } else {
        digits_value(s, from, to - 1, base) * base + hex_val(s[to - 1])
    }
}

/// The largest Lua integer.
pub const LUA_MAX_INTEGER: u64 = 9223372036854775807;

/// The integer value of a numeral, where it has one: a hexadecimal integer
/// numeral wraps around modulo 2^64, a decimal one counts only when it is at
/// most the largest Lua integer; any other numeral is a float.
pub open spec fn numeral_integer(s: Seq<u8>) -> Option<u64> {
    if is_integer_numeral(s) && is_hex_numeral(s) {
        Some((digits_value(s, 2, s.len() as int, 16) % 0x1_0000_0000_0000_0000) as u64)
    } else if is_integer_numeral(s) && digits_value(s, 0, s.len() as int, 10) <= LUA_MAX_INTEGER {
        Some(digits_value(s, 0, s.len() as int, 10) as u64)
    } else {
        None
    }
}

/// `r` is what `s` reads as: nothing when malformed, else its integer value,
/// else a float given by its text.
pub open spec fn numeral_read(s: Seq<u8>, r: Option<LuaNumber>) -> bool {
    if !valid_numeral(s) {
        r is None
    } else {
        match numeral_integer(s) {
            Some(v) => r == Some(LuaNumber::Integer(v)),
            None => r matches Some(LuaNumber::Float(t)) && t@ == utf8_text(s),
        }
    }
}

fn digit_ok_byte(b: u8, hex: bool) -> (r: bool)
    ensures
        r == digit_ok(b, hex),
{
    if hex {
        (48u8 <= b && b <= 57u8) || (97u8 <= b && b <= 102u8) || (65u8 <= b && b <= 70u8)
    } else {
        48u8 <= b && b <= 57u8
    }
}

fn hex_val_of(b: u8) -> (r: u64)
    requires
        hex_val(b) >= 0,
    ensures
        r == hex_val(b),
{
    if 48u8 <= b && b <= 57u8 {
        (b - 48u8) as u64
    } else if 97u8 <= b && b <= 102u8 {
        (b - 87u8) as u64
    } else {
        (b - 55u8) as u64
    }
}

fn find_digits_end(s: &Vec<u8>, i: usize, hex: bool) -> (r: usize)
    requires
        i <= s@.len(),
    ensures
        r == digits_end(s@, i as int, hex),
        i <= r <= s@.len(),
{
    let mut j = i;
    while j < s.len() && digit_ok_byte(s[j], hex)
        invariant
            i <= j <= s@.len(),
            digits_end(s@, j as int, hex) == digits_end(s@, i as int, hex),
        decreases s.len() - j,
    {
        j += 1;
    }
    j
}

proof fn lemma_digits_value_nonneg(s: Seq<u8>, from: int, i: int)
    requires
        0 <= from <= i <= s.len(),
        forall|k: int| from <= k < i ==> #[trigger] hex_val(s[k]) >= 0,
    ensures
        digits_value(s, from, i, 10) >= 0,
    decreases i - from,
{
    if from < i {
        lemma_digits_value_nonneg(s, from, i - 1);
        let v = digits_value(s, from, i - 1, 10);
        assert(v * 10 >= 0) by (nonlinear_arith)
            requires
                v >= 0,
        ;
    }
}

proof fn lemma_digits_value_grows(s: Seq<u8>, from: int, i: int, j: int)
    requires
        0 <= from <= i <= j <= s.len(),
        forall|k: int| from <= k < j ==> #[trigger] hex_val(s[k]) >= 0,
    ensures
        digits_value(s, from, i, 10) <= digits_value(s, from, j, 10),
    decreases j - i,
{
    if i < j {
        lemma_digits_value_grows(s, from, i, j - 1);
        lemma_digits_value_nonneg(s, from, j - 1);
        let v = digits_value(s, from, j - 1, 10);
        assert(v * 10 >= v) by (nonlinear_arith)
            requires
                v >= 0,
        ;
    }
}

/// Reads a Lua numeral; `None` when `s` is malformed.
pub fn parse_numeral(s: &Vec<u8>) -> (r: Option<LuaNumber>)
    ensures
        numeral_read(s@, r),
{
    let n = s.len();
    let hex = n >= 2 && s[0] == 48u8 && (s[1] == 120u8 || s[1] == 88u8);
    let start: usize = if hex { 2 } else { 0 };
    let ie = find_digits_end(s, start, hex);
    let point = ie < n && s[ie] == 46u8;
    let fe = if point { find_digits_end(s, ie + 1, hex) } else { ie };
    let digits = (ie - start) + (fe - ie - if point { 1usize } else { 0usize });
    if digits == 0 {
        return None;
    }
    if fe < n {
        let b = s[fe];
        let marker = if hex { b == 112u8 || b == 80u8 } else { b == 101u8 || b == 69u8 };
        if !marker {
            return None;
        }
        let mut c = fe + 1;
        if c < n && (s[c] == 43u8 || s[c] == 45u8) {
            c += 1;
        }
        if c >= n || find_digits_end(s, c, false) != n {
            return None;
        }
        return Some(LuaNumber::Float(text_of(s)));
    }
    if point {
        return Some(LuaNumber::Float(text_of(s)));
    }
    proof {
        assert(is_integer_numeral(s@));
        assert forall|k: int| start <= k < n implies #[trigger] hex_val(s@[k]) >= 0 by {
            lemma_digits_all(s@, start as int, k, hex);
        }
    }
    if hex {
        let mut v: u64 = 0;
        let mut i: usize = 2;
        while i < n
            invariant
                2 <= i <= n,
                n == s@.len(),
                forall|k: int| 2 <= k < n ==> #[trigger] hex_val(s@[k]) >= 0,
                v == digits_value(s@, 2, i as int, 16) % 0x1_0000_0000_0000_0000,
                is_hex_numeral(s@),
                is_integer_numeral(s@),
            decreases n - i,
        {
            let d = hex_val_of(s[i]);
            let w: u128 = ((v as u128) * 16 + d as u128) % 0x1_0000_0000_0000_0000u128;
            proof {
                let x = digits_value(s@, 2, i as int, 16);
                let m: int = 0x1_0000_0000_0000_0000;
                vstd::arithmetic::div_mod::lemma_mul_mod_noop_left(x, 16, m);
                vstd::arithmetic::div_mod::lemma_add_mod_noop((x % m) * 16, d as int, m);
                vstd::arithmetic::div_mod::lemma_add_mod_noop(x * 16, d as int, m);
                assert(digits_value(s@, 2, i + 1, 16) == x * 16 + d);
            }
            v = w as u64;
            i += 1;
        }
        Some(LuaNumber::Integer(v))
    } else {
        let mut v: u64 = 0;
        let mut i: usize = 0;
        while i < n
            invariant
                i <= n,
                n == s@.len(),
                forall|k: int| 0 <= k < n ==> #[trigger] hex_val(s@[k]) >= 0,
                v == digits_value(s@, 0, i as int, 10),
                v <= LUA_MAX_INTEGER,
                !is_hex_numeral(s@),
                is_integer_numeral(s@),
            decreases n - i,
        {
            let d = hex_val_of(s[i]);
            if v > (LUA_MAX_INTEGER - d) / 10 {
                proof {
                    assert(digits_value(s@, 0, i + 1, 10) == v * 10 + d);
                    let q = (LUA_MAX_INTEGER - d) / 10;
                    assert(q * 10 + 10 > LUA_MAX_INTEGER - d) by (nonlinear_arith)
                        requires
                            q == (LUA_MAX_INTEGER - d) / 10,
                            d <= 15,
                    ;
                    assert(v * 10 >= q * 10 + 10) by (nonlinear_arith)
                        requires
                            v >= q + 1,
                    ;
                    lemma_digits_value_grows(s@, 0, i + 1, n as int);
                    assert(digits_value(s@, 0, n as int, 10) > LUA_MAX_INTEGER);
                    assert(!is_hex_numeral(s@));
                    assert(numeral_integer(s@) is None);
                }
                return Some(LuaNumber::Float(text_of(s)));
            }
            proof {
                assert(v * 10 + d <= LUA_MAX_INTEGER) by (nonlinear_arith)
                    requires
                        v <= (LUA_MAX_INTEGER - d) / 10,
                        d <= 15,
                ;
            }
            v = v * 10 + d;
            i += 1;
        }
        Some(LuaNumber::Integer(v))
    }
}

proof fn lemma_digits_all(s: Seq<u8>, i: int, k: int, hex: bool)
    requires
        0 <= i <= k < digits_end(s, i, hex),
    ensures
        hex_val(s[k]) >= 0,
        digit_ok(s[k], hex),
    decreases k - i,
{
    if i < k {
        lemma_digits_all(s, i + 1, k, hex);
    }
}

/// What the numeral `s` reads as, if it is one.
pub open spec fn numeral_view(s: Seq<u8>) -> Option<NumberView> {
    if !valid_numeral(s) {
        None
    } else {
        match numeral_integer(s) {
            Some(v) => Some(NumberView::Integer(v)),
            None => Some(NumberView::Float(utf8_text(s))),
        }
    }
}

} // verus!
