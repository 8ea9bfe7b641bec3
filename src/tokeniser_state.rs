//! The scanning cursor of the tokeniser.
//!
//! The source is held whole; `pos .. line_end` is the line buffer, the text
//! not yet consumed on the active logical line. A line that another line
//! follows keeps its `\n`, and `pop_line` extends the buffer by the next line.
//!
//! Consuming text, its `\n` included, moves the column by the characters
//! consumed; pulling in a line moves to the next line, column 1. The column
//! counts characters from `col_start`, where the last line was pulled in.
use vstd::prelude::*;
use crate::token::{Location, loc_after, loc_step, is_continuation};

verus! {

/// The index just past the first `\n` at or after `from`, or `s.len()`.
pub open spec fn line_end_from(s: Seq<u8>, from: int) -> int
    decreases s.len() - from,
{
    if from >= s.len() {
        s.len() as int
    } else if s[from] == 10u8 {
        from + 1
    } else {
        line_end_from(s, from + 1)
    }
}

/// Whitespace as Lua reads it: space, `\t`, `\n`, `\v`, `\f`, `\r`.
pub open spec fn is_space(b: u8) -> bool {
    b == 32u8 || (9u8 <= b && b <= 13u8)
}

pub struct TokeniserState {
    pub location: Location,
    pub input: Vec<u8>,
    pub pos: usize,
    pub line_end: usize,
    pub col_start: usize,
}

/// The number of `\n` in `s[..a]`.
pub open spec fn newlines_before(s: Seq<u8>, a: int) -> nat
    decreases a,
{
    if a <= 0 || a > s.len() {
        0
    } else {
        newlines_before(s, a - 1) + if s[a - 1] == 10u8 { 1nat } else { 0nat }
    }
}

/// The number of characters that start in `s[a..b]`.
pub open spec fn chars_between(s: Seq<u8>, a: int, b: int) -> nat
    decreases b - a,
{
    if b <= a || a < 0 || b > s.len() {
        0
    } else {
        chars_between(s, a, b - 1) + if is_continuation(s[b - 1]) { 0nat } else { 1nat }
    }
}

/// The start of the line that holds position `p`.
pub open spec fn line_start(s: Seq<u8>, p: int) -> int
    decreases p,
{
    if p <= 0 || p > s.len() {
        0
    } else if s[p - 1] == 10u8 {
        p
    } else {
        line_start(s, p - 1)
    }
}

/// The start of the last line of a buffer that ends at `le`.
pub open spec fn last_line_start(s: Seq<u8>, le: int) -> int {
    if le <= 0 { 0 } else { line_start(s, le - 1) }
}

/// The location of a cursor at `pos` whose buffer ends at `le`, counting
/// columns from `from`: the line is that of the buffer's last line.
pub open spec fn buffer_loc(s: Seq<u8>, le: int, from: int, pos: int) -> Location {
    Location {
        line: (1 + newlines_before(s, last_line_start(s, le))) as usize,
        col: (1 + chars_between(s, from, pos)) as usize,
    }
}

/// The location of a cursor at `pos` whose columns count from the start of
/// the buffer's last line.
pub open spec fn cursor_loc(s: Seq<u8>, pos: int, le: int) -> Location {
    buffer_loc(s, le, last_line_start(s, le), pos)
}

pub proof fn lemma_counts_bound(s: Seq<u8>, a: int, b: int)
    requires
        0 <= a <= b <= s.len(),
    ensures
        chars_between(s, a, b) <= b - a,
        newlines_before(s, b) <= b,
        newlines_before(s, a) <= newlines_before(s, b),
        chars_between(s, a, a) == 0,
    decreases b - a + b,
{
    if a < b {
        lemma_counts_bound(s, a, b - 1);
    } else if b > 0 {
        lemma_counts_bound(s, a - 1, b - 1);
    }
}

pub proof fn lemma_chars_grow(s: Seq<u8>, a: int, b: int, c: int)
    requires
        0 <= a <= b <= c <= s.len(),
    ensures
        chars_between(s, a, b) <= chars_between(s, a, c),
    decreases c - b,
{
    if b < c {
        lemma_chars_grow(s, a, b, c - 1);
    }
}

pub proof fn lemma_newlines_mono(s: Seq<u8>, a: int, b: int)
    requires
        0 <= a <= b <= s.len(),
    ensures
        newlines_before(s, a) <= newlines_before(s, b),
    decreases b - a,
{
    if a < b {
        lemma_newlines_mono(s, a, b - 1);
    }
}

/// A stretch without `\n` adds no newline.
pub proof fn lemma_newlines_flat(s: Seq<u8>, a: int, b: int)
    requires
        0 <= a <= b <= s.len(),
        forall|k: int| a <= k < b ==> s[k] != 10u8,
    ensures
        newlines_before(s, b) == newlines_before(s, a),
    decreases b - a,
{
    if a < b {
        lemma_newlines_flat(s, a, b - 1);
    }
}

pub proof fn lemma_line_start_props(s: Seq<u8>, p: int)
    requires
        0 <= p <= s.len(),
    ensures
        0 <= line_start(s, p) <= p,
        line_start(s, p) == 0 || s[line_start(s, p) - 1] == 10u8,
        forall|k: int| line_start(s, p) <= k < p ==> s[k] != 10u8,
    decreases p,
{
    if p > 0 && s[p - 1] != 10u8 {
        lemma_line_start_props(s, p - 1);
    }
}

/// A stretch without `\n` that follows a line break lies in one line.
pub proof fn lemma_line_start_at(s: Seq<u8>, a: int, p: int)
    requires
        0 <= a <= p <= s.len(),
        a == 0 || s[a - 1] == 10u8,
        forall|k: int| a <= k < p ==> s[k] != 10u8,
    ensures
        line_start(s, p) == a,
    decreases p - a,
{
    if a < p {
        lemma_line_start_at(s, a, p - 1);
    }
}

/// The location after a prefix: its line counts the newlines, its column
/// the characters since the last one.
pub proof fn lemma_loc_after_closed(s: Seq<u8>, p: int)
    requires
        0 <= p <= s.len(),
        s.len() + 2 <= usize::MAX,
    ensures
        loc_after(s.subrange(0, p)) == (Location {
            line: (1 + newlines_before(s, p)) as usize,
            col: (1 + chars_between(s, line_start(s, p), p)) as usize,
        }),
    decreases p,
{
    if p > 0 {
        lemma_loc_after_closed(s, p - 1);
        assert(s.subrange(0, p).drop_last() =~= s.subrange(0, p - 1));
        lemma_line_start_props(s, p - 1);
        lemma_counts_bound(s, line_start(s, p - 1), p - 1);
        lemma_counts_bound(s, p, p);
    }
}

pub proof fn lemma_line_end_from(s: Seq<u8>, from: int)
    requires
        0 <= from <= s.len(),
    ensures
        from <= line_end_from(s, from) <= s.len(),
        from < s.len() ==> from < line_end_from(s, from),
        line_end_from(s, from) == s.len() || s[line_end_from(s, from) - 1] == 10u8,
        forall|k: int| from <= k < line_end_from(s, from) - 1 ==> s[k] != 10u8,
    decreases s.len() - from,
{
    if from < s.len() && s[from] != 10u8 {
        lemma_line_end_from(s, from + 1);
    }
}

/// Pulling in the line after a buffer that ends with `\n`: the new buffer's
/// last line starts where the old buffer ended, one line further on.
pub proof fn lemma_pop_line_start(s: Seq<u8>, le: int)
    requires
        0 < le < s.len(),
        s[le - 1] == 10u8,
    ensures
        last_line_start(s, line_end_from(s, le)) == le,
        newlines_before(s, le) == newlines_before(s, last_line_start(s, le)) + 1,
{
    lemma_line_end_from(s, le);
    let le2 = line_end_from(s, le);
    lemma_line_start_at(s, le, le2 - 1);
    lemma_line_start_props(s, le - 1);
    lemma_newlines_flat(s, line_start(s, le - 1), le - 1);
}


impl TokeniserState {
    /// The cursor lies inside the source, the buffer ends at a line end, and
    /// the location has the buffer's last line and the characters consumed
    /// since `col_start`.
    pub open spec fn wf(&self) -> bool {
        &&& self.pos <= self.line_end <= self.input@.len()
        &&& self.input@.len() + 2 <= usize::MAX
        &&& self.col_start <= self.pos
        &&& (self.line_end == self.input@.len() || (0 < self.line_end && self.input@[self.line_end - 1] == 10u8))
        &&& self.location == buffer_loc(self.input@, self.line_end as int, self.col_start as int, self.pos as int)
    }

    /// Columns count from the start of the buffer's last line, as they do
    /// whenever lines are pulled in only once the buffer is empty.
    pub open spec fn aligned(&self) -> bool {
        &&& self.wf()
        &&& self.col_start == last_line_start(self.input@, self.line_end as int)
    }

    /// A cursor at the start of `input`, with the first line in the buffer.
    pub fn new(input: Vec<u8>) -> (r: TokeniserState)
        requires
            input@.len() + 2 <= usize::MAX,
        ensures
            r.aligned(),
            r.input == input,
            r.pos == 0,
            r.line_end == line_end_from(input@, 0),
            r.location == (Location { line: 1, col: 1 }),
    {
        let line_end = find_line_end(&input, 0);
        let r = TokeniserState { location: Location { line: 1, col: 1 }, input, pos: 0, line_end, col_start: 0 };
        proof {
            let s = r.input@;
            lemma_line_end_from(s, 0);
            if line_end > 0 {
                lemma_line_start_at(s, 0, line_end - 1);
            }
            lemma_counts_bound(s, 0, 0);
        }
        r
    }

    /// The line buffer is empty.
    pub fn is_end_of_line(&self) -> (r: bool)
        ensures
            r == (self.pos == self.line_end),
    {
        self.pos == self.line_end
    }

    /// There is a line that has not been read into the buffer.
    pub fn has_next_line(&self) -> (r: bool)
        ensures
            r == (self.line_end < self.input@.len()),
    {
        self.line_end < self.input.len()
    }

    /// The whole source has been consumed.
    pub fn is_end_of_file(&self) -> (r: bool)
        requires
            self.wf(),
        ensures
            r == (self.pos == self.input@.len()),
    {
        self.is_end_of_line() && !self.has_next_line()
    }

    /// A copy of the line buffer.
    pub fn line_buffer(&self) -> (r: Vec<u8>)
        requires
            self.wf(),
        ensures
            r@ == self.input@.subrange(self.pos as int, self.line_end as int),
    {
        copy_bytes(&self.input, self.pos, self.line_end)
    }

    /// Appends the next line of the source to the line buffer, moving to the
    /// next line, column 1.
    pub fn pop_line(&mut self)
        requires
            old(self).wf(),
        ensures
            final(self).wf(),
            final(self).input == old(self).input,
            final(self).pos == old(self).pos,
            old(self).line_end < old(self).input@.len() ==> {
                &&& final(self).line_end == line_end_from(old(self).input@, old(self).line_end as int)
                &&& final(self).location == (Location { line: (old(self).location.line + 1) as usize, col: 1 })
                &&& final(self).col_start == old(self).pos
            },
            old(self).line_end == old(self).input@.len() ==> *final(self) == *old(self),
            old(self).aligned() && old(self).pos == old(self).line_end ==> final(self).aligned(),
    {
        if self.line_end < self.input.len() {
            let ghost s = self.input@;
            let ghost le = self.line_end as int;
            proof {
                lemma_line_end_from(s, le);
                lemma_pop_line_start(s, le);
                lemma_counts_bound(s, 0, le);
                lemma_counts_bound(s, self.pos as int, self.pos as int);
            }
            self.line_end = find_line_end(&self.input, self.line_end);
            self.location = Location { line: self.location.line + 1, col: 1 };
            self.col_start = self.pos;
        }
    }

    /// Consumes `num_chars` bytes of the line buffer, moving the column by the
    /// characters they hold.
    pub fn consume_chars(&mut self, num_chars: usize)
        requires
            old(self).wf(),
            old(self).pos + num_chars <= old(self).line_end,
        ensures
            final(self).wf(),
            final(self).input == old(self).input,
            final(self).line_end == old(self).line_end,
            final(self).col_start == old(self).col_start,
            final(self).pos == old(self).pos + num_chars,
            final(self).location == (Location {
                line: old(self).location.line,
                col: (old(self).location.col + chars_between(old(self).input@, old(self).pos as int, final(self).pos as int)) as usize,
            }),
            old(self).aligned() ==> final(self).aligned(),
    {
        let target = self.pos + num_chars;
        let ghost p0 = self.pos as int;
        while self.pos < target
            invariant
                self.wf(),
                target <= self.line_end,
                self.input == old(self).input,
                self.line_end == old(self).line_end,
                self.col_start == old(self).col_start,
                old(self).pos <= self.pos <= target,
                p0 == old(self).pos,
                self.location.line == old(self).location.line,
                self.location.col == old(self).location.col + chars_between(self.input@, p0, self.pos as int),
            decreases target - self.pos,
        {
            let b = self.input[self.pos];
            proof {
                lemma_counts_bound(self.input@, self.col_start as int, self.pos as int);
                lemma_counts_bound(self.input@, p0, self.pos as int);
                assert(chars_between(self.input@, self.col_start as int, self.pos + 1)
                    == chars_between(self.input@, self.col_start as int, self.pos as int) + if is_continuation(b) { 0nat } else { 1nat });
                assert(chars_between(self.input@, p0, self.pos + 1)
                    == chars_between(self.input@, p0, self.pos as int) + if is_continuation(b) { 0nat } else { 1nat });
            }
            if !(128u8 <= b && b < 192u8) {
                self.location = Location { line: self.location.line, col: self.location.col + 1 };
            }
            self.pos = self.pos + 1;
        }
    }

    /// Consumes the whitespace at the start of the line buffer, its `\n`
    /// included, moving the column over it.
    pub fn trim_whitespace(&mut self)
        requires
            old(self).wf(),
        ensures
            final(self).wf(),
            final(self).input == old(self).input,
            final(self).line_end == old(self).line_end,
            final(self).col_start == old(self).col_start,
            old(self).pos <= final(self).pos <= final(self).line_end,
            forall|k: int| old(self).pos <= k < final(self).pos ==> is_space(#[trigger] final(self).input@[k]),
            final(self).pos == final(self).line_end || !is_space(final(self).input@[final(self).pos as int]),
            final(self).location == (Location {
                line: old(self).location.line,
                col: (old(self).location.col + (final(self).pos - old(self).pos)) as usize,
            }),
            old(self).aligned() ==> final(self).aligned(),
    {
        let mut n: usize = 0;
        while self.pos + n < self.line_end && is_space_byte(self.input[self.pos + n])
            invariant
                self.wf(),
                self.pos + n <= self.line_end,
                forall|k: int| self.pos <= k < self.pos + n ==> is_space(#[trigger] self.input@[k]),
            decreases self.line_end - self.pos - n,
        {
            n += 1;
        }
        proof {
            lemma_ascii_chars(self.input@, self.pos as int, self.pos + n);
        }
        self.consume_chars(n);
    }

    /// Recounts the column from the start of the buffer's last line.
    pub fn realign(&mut self)
        requires
            old(self).wf(),
            last_line_start(old(self).input@, old(self).line_end as int) <= old(self).pos,
        ensures
            final(self).aligned(),
            final(self).input == old(self).input,
            final(self).pos == old(self).pos,
            final(self).line_end == old(self).line_end,
    {
        let ghost s = self.input@;
        let mut k: usize = if self.line_end > 0 { self.line_end - 1 } else { 0 };
        while k > 0 && self.input[k - 1] != 10u8
            invariant
                k <= self.line_end,
                self.line_end > 0 ==> k <= self.line_end - 1,
                self.wf(),
                s == self.input@,
                last_line_start(s, self.line_end as int) == line_start(s, k as int),
            decreases k,
        {
            k -= 1;
        }
        let mut col: usize = 1;
        let mut i = k;
        proof {
            lemma_counts_bound(s, k as int, k as int);
        }
        while i < self.pos
            invariant
                k <= i <= self.pos,
                self.wf(),
                s == self.input@,
                k == last_line_start(s, self.line_end as int),
                col == 1 + chars_between(s, k as int, i as int),
            decreases self.pos - i,
        {
            proof {
                lemma_counts_bound(s, k as int, i as int);
            }
            if !(128u8 <= self.input[i] && self.input[i] < 192u8) {
                col = col + 1;
            }
            i += 1;
        }
        self.location = Location { line: self.location.line, col };
        self.col_start = k;
    }
}

/// Whitespace bytes are characters of their own.
pub proof fn lemma_ascii_chars(s: Seq<u8>, a: int, b: int)
    requires
        0 <= a <= b <= s.len(),
        forall|k: int| a <= k < b ==> is_space(#[trigger] s[k]),
    ensures
        chars_between(s, a, b) == b - a,
    decreases b - a,
{
    if a < b {
        lemma_ascii_chars(s, a, b - 1);
    }
}

/// Where columns count from the start of the last line, a cursor inside the
/// buffer sits at the location after the text before it.
pub proof fn lemma_aligned_loc(s: Seq<u8>, pos: int, le: int)
    requires
        0 <= pos < le <= s.len(),
        s.len() + 2 <= usize::MAX,
        last_line_start(s, le) <= pos,
    ensures
        cursor_loc(s, pos, le) == loc_after(s.subrange(0, pos)),
{
    let ls = last_line_start(s, le);
    lemma_line_start_props(s, le - 1);
    lemma_line_start_at(s, ls, pos);
    lemma_newlines_flat(s, ls, pos);
    lemma_loc_after_closed(s, pos);
}

/// Whitespace as Lua reads it.
pub fn is_space_byte(b: u8) -> (r: bool)
    ensures
        r == is_space(b),
{
    b == 32u8 || (9u8 <= b && b <= 13u8)
}

/// The index just past the first `\n` at or after `from`, or the length.
pub fn find_line_end(s: &Vec<u8>, from: usize) -> (r: usize)
    requires
        from <= s@.len(),
    ensures
        r == line_end_from(s@, from as int),
{
    let mut i = from;
    while i < s.len()
        invariant
            from <= i <= s@.len(),
            line_end_from(s@, i as int) == line_end_from(s@, from as int),
        decreases s.len() - i,
    {
        if s[i] == 10u8 {
            return i + 1;
        }
        i += 1;
    }
    i
}

/// A copy of `s[from..to]`.
pub fn copy_bytes(s: &Vec<u8>, from: usize, to: usize) -> (r: Vec<u8>)
    requires
        from <= to <= s@.len(),
    ensures
        r@ == s@.subrange(from as int, to as int),
{
    let mut r: Vec<u8> = Vec::new();
    let mut i = from;
    while i < to
        invariant
            from <= i <= to,
            to <= s@.len(),
            r@ == s@.subrange(from as int, i as int),
        decreases to - i,
    {
        r.push(s[i]);
        i += 1;
        proof {
            assert(r@ =~= s@.subrange(from as int, i as int));
        }
    }
    r
}

} // verus!
