//! The layout of a note that is printed on one page: the lines of the note
//! from the top down, as many as fit above the bottom margin.

use vstd::prelude::*;

verus! {

/// Where the first line stands, in millimetres above the bottom of the
/// page.
pub const FIRST_LINE_MM: u32 = 280;

/// How far a line stands below the line before it, in millimetres.
pub const LINE_STEP_MM: u32 = 7;

/// How far above the bottom of the page a line has to stand, in
/// millimetres.
pub const BOTTOM_MARGIN_MM: u32 = 20;

/// How many lines of a note are looked at, at most.
pub const MOST_LINES: usize = 40;

/// Where the line with this index would stand, in millimetres above the
/// bottom of the page.
pub open spec fn line_height(index: int) -> int {
    FIRST_LINE_MM - LINE_STEP_MM * index
}

/// The line with this index is printed: it is among the lines that are
/// looked at, and it stands above the bottom margin.
pub open spec fn fits(index: int) -> bool {
    0 <= index < MOST_LINES && line_height(index) >= BOTTOM_MARGIN_MM
}

/// How many lines of a note of `count` lines are printed: the lines from
/// the first one on, up to the first that does not fit.
pub open spec fn lines_printed(count: int) -> int {
    if count < 38 {
        count
    } else {
        38
    }
}

/// The lines that are printed are the lines that fit, and the line after
/// them, if the note has one, does not fit.
pub proof fn lemma_lines_printed(count: int)
    requires
        0 <= count,
    ensures
        0 <= lines_printed(count) <= count,
        forall|index: int| 0 <= index < lines_printed(count) ==> fits(index),
        lines_printed(count) < count ==> !fits(lines_printed(count)),
{
}

/// Tells how many lines of a note of `count` lines are printed.
pub fn printed_lines(count: usize) -> (printed: usize)
    ensures
        printed == lines_printed(count as int),
        printed <= count,
        forall|index: int| 0 <= index < printed ==> fits(index),
        printed < count ==> !fits(printed as int),
{
    let mut printed: usize = 0;
    let mut height: u32 = FIRST_LINE_MM;
    while printed < count && printed < MOST_LINES && height >= BOTTOM_MARGIN_MM
        invariant
            printed <= count,
            printed <= MOST_LINES,
            printed <= 38,
            height == line_height(printed as int),
            forall|index: int| 0 <= index < printed ==> fits(index),
        decreases count - printed,
    {
        printed = printed + 1;
        height = height - LINE_STEP_MM;
    }
    printed
}

/// Tells where a printed line stands, in millimetres above the bottom of
/// the page.
pub fn line_position(index: usize) -> (height: u32)
    requires
        fits(index as int),
    ensures
        height == line_height(index as int),
        BOTTOM_MARGIN_MM <= height <= FIRST_LINE_MM,
{
    FIRST_LINE_MM - LINE_STEP_MM * (index as u32)
}

} // verus!
