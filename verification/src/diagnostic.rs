//! Diagnostics: what a check reports, where, and at which level.

use vstd::prelude::*;
use vstd::string::StringSliceAdditionalSpecFns;
use vstd::utf8::is_char_boundary;

verus! {

/// A half-open range of byte offsets into a source text.
#[derive(Debug, Clone, Copy, PartialEq, Eq, Structural)]
pub struct ByteRange {
    pub start: u32,
    pub end: u32,
}

impl ByteRange {
    /// The range from `start` to `end`.
    pub fn new(start: u32, end: u32) -> (r: ByteRange)
        ensures
            r == (ByteRange { start, end }),
    {
        ByteRange { start, end }
    }

    /// The first byte offset of the range.
    pub fn start(&self) -> (r: u32)
        ensures
            r == self.start,
    {
        self.start
    }

    /// The byte offset just past the range.
    pub fn end(&self) -> (r: u32)
        ensures
            r == self.end,
    {
        self.end
    }
}

} // verus!

verus! {

/// What level of checking surfaces a diagnostic: `Fix` (bugs, security, data
/// loss) is the strictest, `All` (style, complexity) the loosest.
#[derive(Debug, Clone, Copy, PartialEq, Eq, Structural, PartialOrd, Ord, Hash)]
pub enum Level {
    Fix,
    Improve,
    All,
}

/// The position of a level in the order `Fix < Improve < All`.
pub open spec fn level_rank(l: Level) -> nat {
    match l {
        Level::Fix => 0,
        Level::Improve => 1,
        Level::All => 2,
    }
}

/// The name of a level as the command line spells it.
pub open spec fn level_label(l: Level) -> Seq<char> {
    match l {
        Level::Fix => seq!['f', 'i', 'x'],
        Level::Improve => seq!['i', 'm', 'p', 'r', 'o', 'v', 'e'],
        Level::All => seq!['a', 'l', 'l'],
    }
}

impl Level {
    /// The name of the level: "fix", "improve" or "all".
    pub fn label(&self) -> (r: &'static str)
        ensures
            r@ == level_label(*self),
    {
        proof {
            reveal_strlit("fix");
            reveal_strlit("improve");
            reveal_strlit("all");
        }
        match self {
            Level::Fix => "fix",
            Level::Improve => "improve",
            Level::All => "all",
        }
    }

    /// The position of the level in the order `Fix < Improve < All`.
    pub fn rank(&self) -> (r: u8)
        ensures
            r == level_rank(*self),
    {
        match self {
            Level::Fix => 0,
            Level::Improve => 1,
            Level::All => 2,
        }
    }

    /// Whether a diagnostic at this level is shown when checking at `max`:
    /// it is when it is no looser than `max`.
    pub fn within(&self, max: Level) -> (r: bool)
        ensures
            r == (level_rank(*self) <= level_rank(max)),
    {
        self.rank() <= max.rank()
    }
}

/// The level a diagnostic has when none is given.
pub fn default_level() -> (r: Level)
    ensures
        r == Level::Improve,
{
    Level::Improve
}

/// One finding of a check: its rule code, its message, the file and where in
/// it, and the level that surfaces it.
#[derive(Debug, Clone)]
pub struct Diagnostic {
    pub code: String,
    pub message: String,
    pub range: Option<ByteRange>,
    pub filename: String,
    pub line: Option<u32>,
    pub col: Option<u32>,
    pub level: Level,
}

/// The number of newline bytes among `b`.
pub open spec fn newline_count(b: Seq<u8>) -> nat
    decreases b.len(),
{
    if b.len() == 0 {
        0
    } else {
        newline_count(b.drop_last()) + (if b.last() == 10 { 1nat } else { 0nat })
    }
}

/// The index of the last newline byte among `b`, if there is one.
pub open spec fn last_newline(b: Seq<u8>) -> Option<int>
    decreases b.len(),
{
    if b.len() == 0 {
        None
    } else if b.last() == 10 {
        Some(b.len() - 1)
    } else {
        last_newline(b.drop_last())
    }
}

/// The 1-based line of byte offset `offset` in the bytes `b`.
pub open spec fn line_at(b: Seq<u8>, offset: int) -> int {
    newline_count(b.subrange(0, offset)) + 1int
}

/// The 1-based column, counted in bytes, of byte offset `offset` in `b`.
pub open spec fn col_at(b: Seq<u8>, offset: int) -> int {
    match last_newline(b.subrange(0, offset)) {
        Some(nl) => offset - nl,
        None => offset + 1,
    }
}

proof fn lemma_newline_step(b: Seq<u8>, i: int)
    requires
        0 <= i < b.len(),
    ensures
        newline_count(b.subrange(0, i + 1)) == newline_count(b.subrange(0, i)) + (if b[i] == 10 { 1nat } else { 0nat }),
        last_newline(b.subrange(0, i + 1)) == (if b[i] == 10 { Some(i) } else { last_newline(b.subrange(0, i)) }),
{
    assert(b.subrange(0, i + 1).drop_last() =~= b.subrange(0, i));
}

impl Diagnostic {
    /// A diagnostic with no range and no position, at level `Improve`.
    pub fn new(code: &str, message: &str, filename: &str) -> (r: Diagnostic)
        ensures
            r.code@ == code@,
            r.message@ == message@,
            r.filename@ == filename@,
            r.range is None,
            r.line is None,
            r.col is None,
            r.level == Level::Improve,
    {
        Diagnostic {
            code: code.to_owned(),
            message: message.to_owned(),
            range: None,
            filename: filename.to_owned(),
            line: None,
            col: None,
            level: Level::Improve,
        }
    }

    /// The same diagnostic with its range set to `range`.
    pub fn with_range(self, range: ByteRange) -> (r: Diagnostic)
        ensures
            r == (Diagnostic { range: Some(range), ..self }),
    {
        let mut d = self;
        d.range = Some(range);
        d
    }

    /// The same diagnostic with its level set to `level`.
    pub fn with_level(self, level: Level) -> (r: Diagnostic)
        ensures
            r == (Diagnostic { level, ..self }),
    {
        let mut d = self;
        d.level = level;
        d
    }

    /// Sets the 1-based line and column (the column counted in bytes) of the
    /// start of the range in `source`. A diagnostic without a range, or whose
    /// range starts past the end of `source`, is left as it is.
    pub fn resolve_location(&mut self, source: &str)
        requires
            match old(self).range {
                Some(r) => r.start <= source.spec_bytes().len() ==> is_char_boundary(source.spec_bytes(), r.start as int),
                None => true,
            },
        ensures
            match old(self).range {
                Some(r) => if r.start <= source.spec_bytes().len() {
                    &&& final(self).line == Some(line_at(source.spec_bytes(), r.start as int) as u32)
                    &&& final(self).col == Some(col_at(source.spec_bytes(), r.start as int) as u32)
                    &&& *final(self) == (Diagnostic { line: final(self).line, col: final(self).col, ..*old(self) })
                } else {
                    *final(self) == *old(self)
                },
                None => *final(self) == *old(self),
            },
    {
        match self.range {
            Some(range) => {
                let offset = range.start as usize;
                let bytes = source.as_bytes();
                if offset <= bytes.len() {
                    let ghost b = bytes@;
                    let mut lines: u64 = 1;
                    let mut last: Option<usize> = None;
                    let mut i: usize = 0;
                    while i < offset
                        invariant
                            b == bytes@,
                            offset <= b.len(),
                            offset <= u32::MAX,
                            i <= offset,
                            lines == newline_count(b.subrange(0, i as int)) + 1,
                            newline_count(b.subrange(0, i as int)) <= i,
                            match last {
                                Some(k) => last_newline(b.subrange(0, i as int)) == Some(k as int),
                                None => last_newline(b.subrange(0, i as int)) is None,
                            },
                        decreases offset - i,
                    {
                        proof { lemma_newline_step(b, i as int); }
                        if bytes[i] == 10 {
                            lines = lines + 1;
                            last = Some(i);
                        }
                        i = i + 1;
                    }
                    let col: u32 = match last {
                        Some(k) => {
                            proof { lemma_last_newline_bound(b.subrange(0, offset as int)); }
                            (offset - k) as u32
                        },
                        None => (offset as u64 + 1) as u32,
                    };
                    self.line = Some(lines as u32);
                    self.col = Some(col);
                }
            },
            None => {},
        }
    }
}

proof fn lemma_last_newline_bound(b: Seq<u8>)
    ensures
        match last_newline(b) {
            Some(k) => 0 <= k < b.len(),
            None => true,
        },
    decreases b.len(),
{
    if b.len() > 0 {
        lemma_last_newline_bound(b.drop_last());
    }
}

} // verus!
