//! The help document of a command, and the slicing of its usage excerpt.

use std::ops::Range;
use vstd::prelude::*;
use vstd::string::*;

verus! {

/// Offset of the first line terminator at or after `from`, or the length of
/// `text` (or `from` itself, if that is larger) when none follows.
pub open spec fn line_end(text: Seq<char>, from: int) -> int
    decreases text.len() - from,
{
    if from < 0 || from >= text.len() || text[from] == '\n' {
        from
    } else {
        line_end(text, from + 1)
    }
}

/// Offset at which line `i` of `text` starts. Lines are what stands between
/// line terminators; an offset at or past the end of `text` starts no line.
pub open spec fn line_start(text: Seq<char>, i: nat) -> int
    decreases i,
{
    if i == 0 {
        0
    } else {
        line_end(text, line_start(text, (i - 1) as nat)) + 1
    }
}

/// Whether `text` has a line of index `i`. A terminator at the very end of
/// the text closes the last line and opens no further one.
pub open spec fn has_line(text: Seq<char>, i: nat) -> bool {
    line_start(text, i) < text.len()
}

/// Whether the lines `start..end` can be cut out of `text`: the range is not
/// empty and its last line exists.
pub open spec fn can_excerpt(text: Seq<char>, start: int, end: int) -> bool {
    0 <= start < end && has_line(text, (end - 1) as nat)
}

/// The lines `start..end` of `text` as one contiguous piece: from the first
/// character of line `start` up to, and without, the terminator of line
/// `end - 1`.
pub open spec fn excerpt(text: Seq<char>, start: int, end: int) -> Seq<char>
    recommends
        can_excerpt(text, start, end),
{
    text.subrange(
        line_start(text, start as nat),
        line_end(text, line_start(text, (end - 1) as nat)),
    )
}

/// View of an optional text.
pub open spec fn text_view(t: Option<&str>) -> Option<Seq<char>> {
    match t {
        Some(s) => Some(s@),
        None => None,
    }
}

/// Scanning over characters that are no terminators does not move the end
/// of the line.
pub proof fn lemma_line_end_skips(text: Seq<char>, from: int, upto: int)
    requires
        0 <= from <= upto <= text.len(),
        forall|j: int| from <= j < upto ==> text[j] != '\n',
    ensures
        line_end(text, from) == line_end(text, upto),
    decreases upto - from,
{
    if from < upto {
        lemma_line_end_skips(text, from + 1, upto);
    }
}

/// A line ends at or after its start, and within the text if it starts
/// there.
pub proof fn lemma_line_end_bounds(text: Seq<char>, from: int)
    requires
        0 <= from,
    ensures
        from <= line_end(text, from),
        from <= text.len() ==> line_end(text, from) <= text.len(),
        from > text.len() ==> line_end(text, from) == from,
        line_end(text, from) < text.len() ==> text[line_end(text, from)] == '\n',
        forall|j: int| from <= j < line_end(text, from) ==> text[j] != '\n',
    decreases text.len() - from,
{
    if from < text.len() && text[from] != '\n' {
        lemma_line_end_bounds(text, from + 1);
    }
}

/// Lines start at strictly increasing offsets, so the lines that exist are
/// an initial segment of the indices.
pub proof fn lemma_line_start_increases(text: Seq<char>, i: nat, j: nat)
    requires
        i <= j,
    ensures
        0 <= line_start(text, i),
        line_start(text, i) + (j - i) <= line_start(text, j),
        has_line(text, j) ==> has_line(text, i),
    decreases j,
{
    if j == 0 {
    } else if i == j {
        lemma_line_start_increases(text, (i - 1) as nat, (i - 1) as nat);
        lemma_line_end_bounds(text, line_start(text, (i - 1) as nat));
    } else {
        lemma_line_start_increases(text, i, (j - 1) as nat);
        lemma_line_end_bounds(text, line_start(text, (j - 1) as nat));
    }
}

/// An excerpt is a contiguous piece of the text it is cut from, and it is
/// made of whole lines: it starts where a line starts, and ends where a line
/// ends, before that line's terminator.
pub proof fn lemma_excerpt_is_whole_lines(text: Seq<char>, start: int, end: int)
    requires
        can_excerpt(text, start, end),
    ensures
        0 <= line_start(text, start as nat) <= line_end(text, line_start(text, (end - 1) as nat))
            <= text.len(),
        line_start(text, start as nat) == 0 || text[line_start(text, start as nat) - 1] == '\n',
        line_end(text, line_start(text, (end - 1) as nat)) == text.len() || text[line_end(
            text,
            line_start(text, (end - 1) as nat),
        )] == '\n',
{
    lemma_line_start_increases(text, start as nat, (end - 1) as nat);
    lemma_line_end_bounds(text, line_start(text, (end - 1) as nat));
    if start > 0 {
        lemma_line_start_increases(text, (start - 1) as nat, start as nat);
        lemma_line_start_increases(text, 0, (start - 1) as nat);
        lemma_line_end_bounds(text, line_start(text, (start - 1) as nat));
    }
}

/// Line `i` of `text`, without its terminator.
pub open spec fn line(text: Seq<char>, i: nat) -> Seq<char> {
    text.subrange(line_start(text, i), line_end(text, line_start(text, i)))
}

/// Inside a piece of `text` that ends where a line ends, lines end where
/// they end in `text`.
proof fn lemma_line_end_in_piece(text: Seq<char>, from: int, to: int, at: int)
    requires
        0 <= from <= from + at <= to <= text.len(),
        to == text.len() || text[to] == '\n',
    ensures
        line_end(text.subrange(from, to), at) == line_end(text, from + at) - from,
        line_end(text, from + at) <= to,
    decreases to - from - at,
{
    let piece = text.subrange(from, to);
    if from + at < to {
        assert(piece[at] == text[from + at]);
        if text[from + at] != '\n' {
            lemma_line_end_in_piece(text, from, to, at + 1);
        }
    }
}

/// Inside an excerpt, the lines start where they start in the text, counted
/// from the start of the excerpt.
proof fn lemma_line_start_in_excerpt(text: Seq<char>, start: int, end: int, k: nat)
    requires
        can_excerpt(text, start, end),
        k < end - start,
    ensures
        line_start(excerpt(text, start, end), k) == line_start(text, (start + k) as nat)
            - line_start(text, start as nat),
        line_start(text, start as nat) <= line_start(text, (start + k) as nat) <= line_end(
            text,
            line_start(text, (end - 1) as nat),
        ),
    decreases k,
{
    let from = line_start(text, start as nat);
    let to = line_end(text, line_start(text, (end - 1) as nat));
    lemma_excerpt_is_whole_lines(text, start, end);
    lemma_line_start_increases(text, start as nat, (start + k) as nat);
    lemma_line_start_increases(text, (start + k) as nat, (end - 1) as nat);
    lemma_line_end_bounds(text, line_start(text, (end - 1) as nat));
    if k > 0 {
        let prev = (k - 1) as nat;
        lemma_line_start_in_excerpt(text, start, end, prev);
        lemma_line_end_in_piece(text, from, to, line_start(text, (start + prev) as nat) - from);
    }
}

/// The lines of an excerpt are the lines of the text that it was cut from:
/// line `k` of the excerpt of the lines `start..end` is line `start + k` of
/// the text.
pub proof fn lemma_excerpt_keeps_lines(text: Seq<char>, start: int, end: int, k: nat)
    requires
        can_excerpt(text, start, end),
        k < end - start,
    ensures
        line(excerpt(text, start, end), k) == line(text, (start + k) as nat),
{
    let from = line_start(text, start as nat);
    let to = line_end(text, line_start(text, (end - 1) as nat));
    let at = line_start(text, (start + k) as nat);
    lemma_excerpt_is_whole_lines(text, start, end);
    lemma_line_start_in_excerpt(text, start, end, k);
    lemma_line_end_in_piece(text, from, to, at - from);
    lemma_line_end_bounds(text, at);
    assert(line(excerpt(text, start, end), k) =~= line(text, (start + k) as nat));
}

/// What a help document holds, as plain text.
pub struct HelpView {
    pub summary: Option<Seq<char>>,
    pub usage: Option<Seq<char>>,
    pub quick_text: Seq<char>,
    pub long_text: Option<Seq<char>>,
}

/// The help document of one command: a one-line summary, a usage excerpt,
/// the quick-reference text and a long text.
#[derive(Debug, PartialEq, Clone, Copy)]
pub struct Help<'c> {
    summary: Option<&'c str>,
    usage: Option<&'c str>,
    quick_text: &'c str,
    long_text: Option<&'c str>,
}

impl<'c> View for Help<'c> {
    type V = HelpView;

    closed spec fn view(&self) -> HelpView {
        HelpView {
            summary: text_view(self.summary),
            usage: text_view(self.usage),
            quick_text: self.quick_text@,
            long_text: text_view(self.long_text),
        }
    }
}

impl<'c> Help<'c> {
    /// A document with an empty quick-reference text and nothing else.
    pub fn new() -> (r: Self)
        ensures
            r@.summary is None,
            r@.usage is None,
            r@.quick_text == Seq::<char>::empty(),
            r@.long_text is None,
    {
        let empty = "";
        proof {
            reveal_strlit("");
            assert(empty@ =~= Seq::<char>::empty());
        }
        Self { summary: None, usage: None, quick_text: empty, long_text: None }
    }

    /// Sets the one-line summary.
    pub fn summary(self, t: &'c str) -> (r: Self)
        ensures
            r@ == (HelpView { summary: Some(t@), ..self@ }),
    {
        Self { summary: Some(t), ..self }
    }

    /// Sets the long text.
    pub fn long_text(self, t: &'c str) -> (r: Self)
        ensures
            r@ == (HelpView { long_text: Some(t@), ..self@ }),
    {
        Self { long_text: Some(t), ..self }
    }

    /// Sets the quick-reference text. A usage excerpt that was set before
    /// stays as it is.
    pub fn quick_text(self, t: &'c str) -> (r: Self)
        ensures
            r@ == (HelpView { quick_text: t@, ..self@ }),
    {
        Self { quick_text: t, ..self }
    }

    /// Sets the usage excerpt to an authored text.
    pub fn usage(self, t: &'c str) -> (r: Self)
        ensures
            r@ == (HelpView { usage: Some(t@), ..self@ }),
    {
        Self { usage: Some(t), ..self }
    }

    /// The one-line summary, if one was set.
    pub fn get_summary(&self) -> (r: Option<&'c str>)
        ensures
            text_view(r) == self@.summary,
    {
        self.summary
    }

    /// The quick-reference text.
    pub fn get_quick_text(&self) -> (r: &'c str)
        ensures
            r@ == self@.quick_text,
    {
        self.quick_text
    }

    /// The usage excerpt, if one was set or derived.
    pub fn get_usage(&self) -> (r: Option<&'c str>)
        ensures
            text_view(r) == self@.usage,
    {
        self.usage
    }

    /// The long text, if one was set.
    pub fn get_long_text(&self) -> (r: Option<&'c str>)
        ensures
            text_view(r) == self@.long_text,
    {
        self.long_text
    }

    /// Derives the usage excerpt from the quick-reference text: the lines
    /// `line_bounds.start..line_bounds.end`, counted from zero, the end
    /// exclusive, offsets counted in characters.
    ///
    /// Where the range is empty or reversed, or reaches past the last line,
    /// the document is returned as it was.
    pub fn ref_usage(self, line_bounds: Range<usize>) -> (r: Self)
        ensures
            can_excerpt(self@.quick_text, line_bounds.start as int, line_bounds.end as int) ==> r@
                == (HelpView {
                usage: Some(
                    excerpt(self@.quick_text, line_bounds.start as int, line_bounds.end as int),
                ),
                ..self@
            }),
            !can_excerpt(self@.quick_text, line_bounds.start as int, line_bounds.end as int) ==> r@
                == self@,
    {
        let first: usize = line_bounds.start;
        let end: usize = line_bounds.end;
        if first >= end {
            return self;
        }
        let text = self.quick_text;
        let n: usize = text.unicode_len();
        // index and start offset of the line being walked
        let mut line: usize = 0;
        let mut line_at: usize = 0;
        // start offset of line `first`, once the walk has reached it
        let mut start_char: usize = 0;
        let mut pos: usize = 0;
        while pos < n
            invariant
                text@ == self@.quick_text,
                n == text@.len(),
                first == line_bounds.start,
                end == line_bounds.end,
                first < end,
                line < end,
                line <= line_at <= pos <= n,
                line_at == line_start(text@, line as nat),
                forall|j: int| line_at <= j < pos ==> text@[j] != '\n',
                line >= first ==> start_char == line_start(text@, first as nat),
                start_char <= line_at,
            decreases n - pos,
        {
            let c = text.get_char(pos);
            if c == '\n' {
                proof {
                    lemma_line_end_skips(text@, line_at as int, pos as int);
                }
                if line + 1 == end {
                    return Self { usage: Some(text.substring_char(start_char, pos)), ..self };
                }
                line = line + 1;
                line_at = pos + 1;
                if line == first {
                    start_char = line_at;
                }
            }
            pos = pos + 1;
        }
        proof {
            lemma_line_end_skips(text@, line_at as int, n as int);
        }
        if line_at < n && line + 1 == end {
            Self { usage: Some(text.substring_char(start_char, n)), ..self }
        } else {
            proof {
                if line_at < n {
                    lemma_line_start_increases(text@, (line + 1) as nat, (end - 1) as nat);
                } else {
                    lemma_line_start_increases(text@, line as nat, (end - 1) as nat);
                }
            }
            self
        }
    }
}

} // verus!
