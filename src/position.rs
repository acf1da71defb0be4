use vstd::prelude::*;
use vstd::string::*;

verus! {

/// A 0-based line and column in a text.
#[derive(Clone, Copy, Debug, PartialEq, Eq, Structural)]
pub struct Position {
    pub line: u32,
    pub character: u32,
}

/// A display range, from `start` to `end`.
#[derive(Clone, Copy, Debug, PartialEq, Eq, Structural)]
pub struct Range {
    pub start: Position,
    pub end: Position,
}

/// The line of a text, given as its UTF-8 bytes, that holds the byte at `offset`, as
/// ropey counts lines: the number of line endings before that byte.
pub uninterp spec fn line_of_byte(text: Seq<u8>, offset: int) -> int;

/// The byte offset at which line `line` of a text begins, as ropey counts lines; the
/// text's length for the line past the last.
pub uninterp spec fn line_start_byte(text: Seq<u8>, line: int) -> int;

/// Relies on `ropey::Rope::try_byte_to_line` on a rope built from `text`. An offset up to
/// the length in bytes is accepted; a larger one is refused. The line is the count of line
/// endings before the offset, so it is no larger than the offset; that line starts no later
/// than the offset, and the next one after it, unless the offset is the end of the text.
#[verifier::external_body]
fn rope_byte_to_line(text: &str, offset: usize) -> (r: Option<usize>)
    ensures
        r.is_some() <==> offset <= text.spec_bytes().len(),
        r matches Some(l) ==> {
            &&& l == line_of_byte(text.spec_bytes(), offset as int)
            &&& l <= offset
            &&& line_start_byte(text.spec_bytes(), l as int) <= offset
            &&& (offset < line_start_byte(text.spec_bytes(), l + 1) || offset
                == text.spec_bytes().len())
        },
{
    ropey::Rope::from_str(text).try_byte_to_line(offset).ok()
}

/// Relies on `ropey::Rope::try_line_to_byte` on a rope built from `text`: it gives the
/// byte offset at which a line begins, and accepts every line that holds an offset up to
/// the length of the text.
#[verifier::external_body]
fn rope_line_to_byte(text: &str, line: usize) -> (r: Option<usize>)
    ensures
        r matches Some(c) ==> c == line_start_byte(text.spec_bytes(), line as int),
        (exists|o: int|
            0 <= o <= text.spec_bytes().len() && #[trigger] line_of_byte(text.spec_bytes(), o)
                == line) ==> r.is_some(),
{
    ropey::Rope::from_str(text).try_line_to_byte(line).ok()
}

/// Whether a byte offset of `text` can be mapped to a position: it lies within the text
/// and fits in a `u32`.
pub open spec fn mappable(text: Seq<u8>, offset: int) -> bool {
    &&& 0 <= offset <= text.len()
    &&& offset <= u32::MAX
}

/// The position of a byte offset: its line, and its distance in bytes from the start of
/// that line; line 0, column 0 where the offset cannot be mapped.
pub open spec fn mapped(text: Seq<u8>, offset: int) -> Position {
    if mappable(text, offset) {
        Position {
            line: line_of_byte(text, offset) as u32,
            character: (offset - line_start_byte(text, line_of_byte(text, offset))) as u32,
        }
    } else {
        Position { line: 0, character: 0 }
    }
}

/// Maps a byte offset of `text` to its line and column. An offset past the end of the
/// text, or one that a `u32` cannot hold, gives `None`; any other gives the line that holds
/// it, and the column that leads back from the start of that line to the offset.
pub fn offset_to_position(offset: usize, text: &str) -> (r: Option<Position>)
    ensures
        r == (if mappable(text.spec_bytes(), offset as int) {
            Some(mapped(text.spec_bytes(), offset as int))
        } else {
            None::<Position>
        }),
        offset <= text.spec_bytes().len() && offset <= u32::MAX ==> r.is_some(),
        offset > text.spec_bytes().len() ==> r.is_none(),
        r matches Some(p) ==> {
            &&& p.line == line_of_byte(text.spec_bytes(), offset as int)
            &&& line_start_byte(text.spec_bytes(), p.line as int) + p.character == offset
            &&& (offset < line_start_byte(text.spec_bytes(), p.line + 1) || offset
                == text.spec_bytes().len())
        },
{
    if offset > u32::MAX as usize {
        return None;
    }
    let line = match rope_byte_to_line(text, offset) {
        Some(l) => l,
        None => return None,
    };
    assert(line_of_byte(text.spec_bytes(), offset as int) == line);
    let first = match rope_line_to_byte(text, line) {
        Some(c) => c,
        None => return None,
    };
    let column = offset - first;
    Some(Position { line: line as u32, character: column as u32 })
}

/// The position of a byte offset, or line 0, column 0 where it cannot be mapped.
pub fn position_or_default(offset: usize, text: &str) -> (r: Position)
    ensures
        r == mapped(text.spec_bytes(), offset as int),
{
    match offset_to_position(offset, text) {
        Some(p) => p,
        None => Position { line: 0, character: 0 },
    }
}

/// Lexicographic order of positions, by line and then by column.
pub open spec fn position_cmp(a: Position, b: Position) -> std::cmp::Ordering {
    if a.line < b.line {
        std::cmp::Ordering::Less
    } else if a.line > b.line {
        std::cmp::Ordering::Greater
    } else if a.character < b.character {
        std::cmp::Ordering::Less
    } else if a.character > b.character {
        std::cmp::Ordering::Greater
    } else {
        std::cmp::Ordering::Equal
    }
}

/// Lexicographic order of ranges on (start line, start column, end line, end column).
pub open spec fn range_cmp(a: Range, b: Range) -> std::cmp::Ordering {
    match position_cmp(a.start, b.start) {
        std::cmp::Ordering::Equal => position_cmp(a.end, b.end),
        o => o,
    }
}

pub open spec fn range_lt(a: Range, b: Range) -> bool {
    range_cmp(a, b) == std::cmp::Ordering::Less
}

fn cmp_position(a: &Position, b: &Position) -> (r: std::cmp::Ordering)
    ensures
        r == position_cmp(*a, *b),
{
    if a.line < b.line {
        std::cmp::Ordering::Less
    } else if a.line > b.line {
        std::cmp::Ordering::Greater
    } else if a.character < b.character {
        std::cmp::Ordering::Less
    } else if a.character > b.character {
        std::cmp::Ordering::Greater
    } else {
        std::cmp::Ordering::Equal
    }
}

/// Compares two ranges lexicographically.
pub fn cmp_range(first: &Range, other: &Range) -> (r: std::cmp::Ordering)
    ensures
        r == range_cmp(*first, *other),
{
    match cmp_position(&first.start, &other.start) {
        std::cmp::Ordering::Equal => cmp_position(&first.end, &other.end),
        o => o,
    }
}

/// The largest range there is, which every other range precedes.
pub open spec fn max_range() -> Range {
    Range {
        start: Position { line: u32::MAX, character: u32::MAX },
        end: Position { line: u32::MAX, character: u32::MAX },
    }
}

/// Whether `r` is the lexicographic minimum of `ranges`.
pub open spec fn is_min_range(r: Range, ranges: Seq<Range>) -> bool {
    &&& exists|i: int| 0 <= i < ranges.len() && ranges[i] == r
    &&& forall|j: int| 0 <= j < ranges.len() ==> !range_lt(#[trigger] ranges[j], r)
}

/// The lexicographic minimum of `ranges`; the largest range where there is none.
pub fn min_range(ranges: &Vec<Range>) -> (r: Range)
    ensures
        ranges@.len() > 0 ==> is_min_range(r, ranges@),
        ranges@.len() == 0 ==> r == max_range(),
{
    let mut best = Range {
        start: Position { line: u32::MAX, character: u32::MAX },
        end: Position { line: u32::MAX, character: u32::MAX },
    };
    let mut i: usize = 0;
    while i < ranges.len()
        invariant
            i <= ranges@.len(),
            i == 0 ==> best == max_range(),
            i > 0 ==> is_min_range(best, ranges@.subrange(0, i as int)),
        decreases ranges@.len() - i,
    {
        let cur = ranges[i];
        let ghost prev = best;
        if let std::cmp::Ordering::Greater = cmp_range(&best, &cur) {
            best = cur;
        }
        proof {
            let s = ranges@.subrange(0, i + 1);
            let t = ranges@.subrange(0, i as int);
            assert forall|k: int| 0 <= k < i implies s[k] == t[k] by {}
            assert(s[i as int] == cur);
            if best != cur {
                let k = choose|k: int| 0 <= k < i && t[k] == prev;
                assert(s[k] == best);
            }
            assert forall|j: int| 0 <= j < s.len() implies !range_lt(#[trigger] s[j], best) by {
                if j < i {
                    assert(t[j] == s[j]);
                }
            }
        }
        i = i + 1;
    }
    assert(ranges@.subrange(0, ranges@.len() as int) =~= ranges@);
    best
}

} // verus!
