//! Horizontal placement of a line of text in a paragraph.
use vstd::prelude::*;

verus! {

/// Horizontal alignment of text.
#[derive(Debug, Clone, Copy, PartialEq, Eq, Structural)]
pub enum Alignment {
    Left,
    Center,
    Right,
}

/// How to wrap text across lines: whether leading whitespace is trimmed.
#[derive(Debug, Clone, Copy, PartialEq, Eq, Structural)]
pub struct Wrap {
    pub trim: bool,
}

/// Where a line of width `line_width` starts in an area of width `area_width`:
/// centred lines start at half the area less half the line, right-aligned lines at
/// the area less the line, both floored at zero; left-aligned lines at zero.
pub open spec fn line_offset(line_width: int, area_width: int, alignment: Alignment) -> int {
    match alignment {
        Alignment::Center => if area_width / 2 > line_width / 2 {
            area_width / 2 - line_width / 2
        } else {
            0
        },
        Alignment::Right => if area_width > line_width {
            area_width - line_width
        } else {
            0
        },
        Alignment::Left => 0,
    }
}

/// The column where a line starts (see [`line_offset`]).
pub fn get_line_offset(line_width: u16, text_area_width: u16, alignment: Alignment) -> (r: u16)
    ensures
        r == line_offset(line_width as int, text_area_width as int, alignment),
{
    match alignment {
        Alignment::Center => (text_area_width / 2).saturating_sub(line_width / 2),
        Alignment::Right => text_area_width.saturating_sub(line_width),
        Alignment::Left => 0,
    }
}

/// A line that fits in its area also ends inside it, whatever the alignment.
pub proof fn law_aligned_line_fits(line_width: int, area_width: int, alignment: Alignment)
    requires
        0 <= line_width <= area_width,
    ensures
        0 <= line_offset(line_width, area_width, alignment),
        line_offset(line_width, area_width, alignment) + line_width <= area_width,
{
}

} // verus!
