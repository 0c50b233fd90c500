//! Source buffer: owns the raw text of one file as an indexable sequence of
//! characters, tracks the read cursor, and records per-line start offsets so
//! the offending line of a diagnostic can be looked up directly.

use vstd::prelude::*;

use crate::text::chars_to_string;

verus! {

/// Upper bound on the number of characters of one source file. It keeps all
/// position arithmetic of a pass comfortably inside `usize` on every target.
pub const MAX_SOURCE_LEN: usize = 0x0FFF_FFFF;

/// Index of the first newline of `s` at or after `i`, or `s.len()` when the
/// rest of the text holds none.
pub open spec fn line_stop(s: Seq<char>, i: int) -> int
    recommends
        0 <= i <= s.len(),
    decreases s.len() - i,
{
    if i >= s.len() {
        s.len() as int
    } else if s[i] == '\n' {
        i
    } else {
        line_stop(s, i + 1)
    }
}

/// The text of the line that begins at offset `from`: everything up to but
/// excluding the next newline.
pub open spec fn spec_line_at(s: Seq<char>, from: int) -> Seq<char>
    recommends
        0 <= from <= s.len(),
{
    s.subrange(from, line_stop(s, from))
}

/// The text of the line whose recorded start offset is `starts[index]`, or
/// the empty text when no offset was recorded for `index`.
pub open spec fn spec_line_text(s: Seq<char>, starts: Seq<int>, index: int) -> Seq<char> {
    if 0 <= index < starts.len() {
        spec_line_at(s, starts[index])
    } else {
        Seq::empty()
    }
}

/// The source text of one file, with a read cursor and the recorded start
/// offset of every line seen so far (`line_start[0] == 0`).
pub struct Buffer {
    pub filename: String,
    pub symbols: Vec<char>,
    pub cursor: usize,
    pub line_start: Vec<usize>,
}

impl Buffer {
    /// Well-formedness: the text fits the size bound, the cursor stays inside
    /// it, and every recorded line start lies inside the text.
    pub open spec fn wf(&self) -> bool {
        &&& self.symbols@.len() <= MAX_SOURCE_LEN
        &&& self.cursor <= self.symbols@.len()
        &&& self.line_start@.len() >= 1
        &&& self.line_start@[0] == 0
        &&& forall|k: int|
            0 <= k < self.line_start@.len() ==> self.line_start@[k] <= self.symbols@.len()
    }

    /// The recorded line starts, as mathematical integers.
    pub open spec fn starts_view(&self) -> Seq<int> {
        self.line_start@.map_values(|x: usize| x as int)
    }

    /// A buffer at the beginning of a pass: cursor at the first character and
    /// only the first line's start recorded.
    pub open spec fn fresh(&self) -> bool {
        &&& self.wf()
        &&& self.cursor == 0
        &&& self.line_start@ == seq![0usize]
    }

    /// Creates a buffer over the given text, ready for one pass.
    pub fn new(filename: String, symbols: Vec<char>) -> (r: Buffer)
        requires
            symbols@.len() <= MAX_SOURCE_LEN,
        ensures
            r.fresh(),
            r.filename == filename,
            r.symbols == symbols,
    {
        let mut line_start: Vec<usize> = Vec::new();
        line_start.push(0);
        proof {
            assert(line_start@ =~= seq![0usize]);
        }
        Buffer { filename, symbols, cursor: 0, line_start }
    }

    /// Returns the character under the cursor and advances the cursor, or
    /// `None` at end of input (the cursor never leaves the text).
    pub fn next(&mut self) -> (r: Option<char>)
        ensures
            old(self).cursor < old(self).symbols@.len() ==> {
                &&& final(self).cursor == old(self).cursor + 1
                &&& r == Some(old(self).symbols@[old(self).cursor as int])
            },
            old(self).cursor >= old(self).symbols@.len() ==> {
                &&& final(self).cursor == old(self).cursor
                &&& r is None
            },
            final(self).filename == old(self).filename,
            final(self).symbols == old(self).symbols,
            final(self).line_start == old(self).line_start,
    {
        if self.cursor < self.symbols.len() {
            let c = self.symbols[self.cursor];
            self.cursor = self.cursor + 1;
            Some(c)
        } else {
            None
        }
    }

    /// Returns the character under the cursor without consuming it.
    pub fn peek(&self) -> (r: Option<char>)
        ensures
            self.cursor < self.symbols@.len() ==> r == Some(
                self.symbols@[self.cursor as int],
            ),
            self.cursor >= self.symbols@.len() ==> r is None,
    {
        if self.cursor < self.symbols.len() {
            Some(self.symbols[self.cursor])
        } else {
            None
        }
    }

    /// Records the cursor as the next line's start offset; the scanner calls
    /// this immediately after consuming a newline.
    pub fn notfify_new_line(&mut self)
        ensures
            final(self).line_start@ == old(self).line_start@.push(old(self).cursor),
            final(self).filename == old(self).filename,
            final(self).symbols == old(self).symbols,
            final(self).cursor == old(self).cursor,
    {
        self.line_start.push(self.cursor);
    }

    /// The text of the recorded line `index` (0-based), up to but excluding
    /// its newline; empty when no such line was recorded.
    pub fn get_line(&self, index: usize) -> (r: String)
        requires
            self.wf(),
        ensures
            r@ == spec_line_text(self.symbols@, self.starts_view(), index as int),
    {
        if index < self.line_start.len() {
            let from = self.line_start[index];
            let mut out: Vec<char> = Vec::new();
            let mut k = from;
            while k < self.symbols.len() && self.symbols[k] != '\n'
                invariant
                    from <= k <= self.symbols@.len(),
                    out@ == self.symbols@.subrange(from as int, k as int),
                    line_stop(self.symbols@, k as int) == line_stop(self.symbols@, from as int),
                decreases self.symbols@.len() - k,
            {
                out.push(self.symbols[k]);
                proof {
                    assert(self.symbols@.subrange(from as int, k + 1) =~= self.symbols@.subrange(
                        from as int,
                        k as int,
                    ).push(self.symbols@[k as int]));
                }
                k = k + 1;
            }
            proof {
                assert(line_stop(self.symbols@, k as int) == k as int);
            }
            chars_to_string(&out)
        } else {
            String::new()
        }
    }
}

} // verus!
