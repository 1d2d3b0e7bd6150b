//! Rectangles of terminal cells and the few ways in which the panes cut
//! them up.
use vstd::prelude::*;

verus! {

/// A rectangle of terminal cells.
#[derive(Copy, Clone, PartialEq, Eq, Structural, Hash, Debug)]
pub struct Rect {
    /// The column of the leftmost cells.
    pub x: u16,
    /// The row of the topmost cells.
    pub y: u16,
    /// The number of columns.
    pub width: u16,
    /// The number of rows.
    pub height: u16,
}

/// The sides on which a block has a border.
#[derive(Copy, Clone, PartialEq, Eq, Structural, Debug)]
pub enum Borders {
    /// A border on top.
    Top,
    /// A border on top and one at the bottom.
    TopAndBottom,
    /// A border on all four sides.
    All,
}

/// The sum of both numbers, or the largest number if the sum is beyond it.
pub open spec fn capped_sum(a: u16, b: u16) -> u16 {
    if a + b > u16::MAX {
        u16::MAX
    } else {
        (a + b) as u16
    }
}

/// What is left of `a` after `b`, or nothing.
pub open spec fn left_of(a: u16, b: u16) -> u16 {
    if a > b {
        (a - b) as u16
    } else {
        0
    }
}

/// The smaller of both numbers.
pub open spec fn smaller(a: u16, b: u16) -> u16 {
    if a < b {
        a
    } else {
        b
    }
}

/// The larger of both numbers.
pub open spec fn larger(a: u16, b: u16) -> u16 {
    if a > b {
        a
    } else {
        b
    }
}

impl Default for Rect {
    fn default() -> (r: Self)
        ensures
            r == (Rect { x: 0, y: 0, width: 0, height: 0 }),
    {
        Rect { x: 0, y: 0, width: 0, height: 0 }
    }
}

impl Rect {
    /// The column behind the rightmost cells, as far as columns can be
    /// counted.
    pub open spec fn right_edge(self) -> u16 {
        capped_sum(self.x, self.width)
    }

    /// The row below the lowest cells, as far as rows can be counted.
    pub open spec fn bottom_edge(self) -> u16 {
        capped_sum(self.y, self.height)
    }

    /// The column of the leftmost cells.
    pub fn left(&self) -> (r: u16)
        ensures
            r == self.x,
    {
        self.x
    }

    /// The row of the topmost cells.
    pub fn top(&self) -> (r: u16)
        ensures
            r == self.y,
    {
        self.y
    }

    /// The column behind the rightmost cells.
    pub fn right(&self) -> (r: u16)
        ensures
            r == self.right_edge(),
    {
        self.x.saturating_add(self.width)
    }

    /// The row below the lowest cells.
    pub fn bottom(&self) -> (r: u16)
        ensures
            r == self.bottom_edge(),
    {
        self.y.saturating_add(self.height)
    }
}

/// The cells that both rectangles share.
pub open spec fn intersected(lhs: Rect, rhs: Rect) -> Rect {
    let x1 = larger(lhs.x, rhs.x);
    let y1 = larger(lhs.y, rhs.y);
    let x2 = smaller(lhs.right_edge(), rhs.right_edge());
    let y2 = smaller(lhs.bottom_edge(), rhs.bottom_edge());
    Rect { x: x1, y: y1, width: left_of(x2, x1), height: left_of(y2, y1) }
}

/// `r` without its `offset` leftmost columns.
pub open spec fn moved_right(r: Rect, offset: u16) -> Rect {
    Rect { x: capped_sum(r.x, offset), width: left_of(r.width, offset), ..r }
}

/// The `new_width` rightmost columns of `bound`, or all of it if it is
/// narrower.
pub open spec fn snapped_to_right(bound: Rect, new_width: u16) -> Rect {
    moved_right(bound, left_of(bound.width, new_width))
}

/// The row `line` of `bound`, counted from zero at its top.
pub open spec fn line_of(bound: Rect, line: int) -> Rect {
    Rect {
        y: if bound.y + line > u16::MAX {
            u16::MAX
        } else {
            (bound.y + line) as u16
        },
        height: 1,
        ..bound
    }
}

/// `offset`, or the first offset that would leave lines empty when
/// `num_items` are shown on `num_displayable_lines` lines, if that is
/// smaller.
pub open spec fn sanitized_offset(offset: u16, num_items: int, num_displayable_lines: u16) -> u16 {
    let last = if num_items > num_displayable_lines {
        num_items - num_displayable_lines
    } else {
        0
    };
    if offset <= last {
        offset
    } else {
        last as u16
    }
}

/// The inside of a block in `bound`: what its borders leave.
pub open spec fn inside(bound: Rect, borders: Borders) -> Rect {
    let rows: u16 = if borders == Borders::Top {
        1
    } else {
        2
    };
    let columns: u16 = if borders == Borders::All {
        2
    } else {
        0
    };
    Rect {
        x: capped_sum(bound.x, smaller(columns / 2, bound.width)),
        y: capped_sum(bound.y, smaller(1, bound.height)),
        width: left_of(bound.width, columns),
        height: left_of(bound.height, rows),
    }
}

/// The cells that both rectangles share.
pub fn intersect(lhs: Rect, rhs: Rect) -> (r: Rect)
    ensures
        r == intersected(lhs, rhs),
{
    let x1 = if lhs.x > rhs.x {
        lhs.x
    } else {
        rhs.x
    };
    let y1 = if lhs.y > rhs.y {
        lhs.y
    } else {
        rhs.y
    };
    let x2 = if lhs.right() < rhs.right() {
        lhs.right()
    } else {
        rhs.right()
    };
    let y2 = if lhs.bottom() < rhs.bottom() {
        lhs.bottom()
    } else {
        rhs.bottom()
    };
    Rect { x: x1, y: y1, width: x2.saturating_sub(x1), height: y2.saturating_sub(y1) }
}

/// `r` without its `offset` leftmost columns.
pub fn offset_x(r: Rect, offset: u16) -> (res: Rect)
    ensures
        res == moved_right(r, offset),
{
    Rect { x: r.x.saturating_add(offset), width: r.width.saturating_sub(offset), ..r }
}

/// The `new_width` rightmost columns of `bound`.
pub fn snap_to_right(bound: Rect, new_width: u16) -> (r: Rect)
    ensures
        r == snapped_to_right(bound, new_width),
{
    offset_x(bound, bound.width.saturating_sub(new_width))
}

/// The row `line` of `bound`, counted from zero at its top.
pub fn line_bound(bound: Rect, line: usize) -> (r: Rect)
    ensures
        r == line_of(bound, line as int),
{
    let y = if line > (u16::MAX - bound.y) as usize {
        u16::MAX
    } else {
        bound.y + line as u16
    };
    Rect { y, height: 1, ..bound }
}

/// The offset among `num_items` items on `num_displayable_lines` lines that
/// is nearest to `offset` and leaves no line empty.
pub fn sanitize_offset(offset: u16, num_items: usize, num_displayable_lines: u16) -> (r: u16)
    ensures
        r == sanitized_offset(offset, num_items as int, num_displayable_lines),
        r <= offset,
        r <= num_items,
{
    let last = num_items.saturating_sub(num_displayable_lines as usize);
    if (offset as usize) <= last {
        offset
    } else {
        last as u16
    }
}

/// The inside of a block in `bound`: what its borders leave.
pub fn inner(bound: Rect, borders: Borders) -> (r: Rect)
    ensures
        r == inside(bound, borders),
{
    let rows: u16 = match borders {
        Borders::Top => 1,
        _ => 2,
    };
    let columns: u16 = match borders {
        Borders::All => 2,
        _ => 0,
    };
    let left: u16 = if columns / 2 < bound.width {
        columns / 2
    } else {
        bound.width
    };
    let top: u16 = if bound.height >= 1 {
        1
    } else {
        0
    };
    Rect {
        x: bound.x.saturating_add(left),
        y: bound.y.saturating_add(top),
        width: bound.width.saturating_sub(columns),
        height: bound.height.saturating_sub(rows),
    }
}

/// How many of `len` items are on display from `offset` on in `height`
/// rows.
pub open spec fn visible(len: int, offset: u16, height: u16) -> int {
    if offset >= len {
        0
    } else if len - offset < height {
        len - offset
    } else {
        height as int
    }
}

/// How many of `len` items are on display from `offset` on in `height`
/// rows.
pub fn visible_count(len: usize, offset: u16, height: u16) -> (r: usize)
    ensures
        r == visible(len as int, offset, height),
        r <= height,
        r == 0 || offset + r <= len,
{
    if offset as usize >= len {
        0
    } else if len - (offset as usize) < height as usize {
        len - offset as usize
    } else {
        height as usize
    }
}

} // verus!
