//! The pane of information: titles with a rule behind them and lines of
//! text, as the application provides them.
use crate::text::{block_width, block_width_of};
use crate::tui::draw::{draw_block, draw_text_nowrap, draw_title, draw_views, Draw, DrawView, Line};
use crate::tui::layout::{
    inner, inside, left_of, line_bound, line_of, moved_right, offset_x, snap_to_right,
    snapped_to_right, Borders, Rect,
};
use vstd::prelude::*;

verus! {

/// A line of the information pane, as a mathematical value.
pub enum LineView {
    Title(Seq<char>),
    Text(Seq<char>),
}

impl View for Line {
    type V = LineView;

    open spec fn view(&self) -> LineView {
        match self {
            Line::Title(text) => LineView::Title(text@),
            Line::Text(text) => LineView::Text(text@),
        }
    }
}

/// The lines of `s` as mathematical values.
pub open spec fn line_views(s: Seq<Line>) -> Seq<LineView> {
    Seq::new(s.len(), |i: int| s[i]@)
}

/// The keys that hide and enlarge the pane of information.
pub open spec fn pane_help() -> Seq<char> {
    " \u{2a2f} = [ | \u{25a2} = { "@
}

/// What the pane draws for `info` on the row `line`: a title with its
/// rule, or a text after one column.
pub open spec fn info_draw(info: LineView, bound: Rect, line: int) -> DrawView {
    match info {
        LineView::Title(text) => DrawView::Title { bound: line_of(bound, line), text },
        LineView::Text(text) => DrawView::Text {
            bound: moved_right(line_of(bound, line), 1),
            text,
            style: None,
        },
    }
}

/// The rows that the line `i` and what follows it take beside their own: a
/// title is followed by an empty row, and so is a line in front of a title.
pub open spec fn rows_around(lines: Seq<LineView>, i: int) -> int {
    (if lines[i] is Title {
        1int
    } else {
        0int
    }) + (if lines[i + 1] is Title {
        1int
    } else {
        0int
    })
}

/// What the pane draws for the lines from `i` on except the last, when
/// `offset` rows were left empty before them, and the rows that are left
/// empty in all: line after line, until the rows of `bound` are used up.
pub open spec fn walk(lines: Seq<LineView>, bound: Rect, i: int, offset: int) -> (
    Seq<DrawView>,
    int,
)
    decreases lines.len() - i,
{
    if i < 0 || i + 1 >= lines.len() || i + offset >= bound.height {
        (Seq::empty(), offset)
    } else {
        let (rest, rows) = walk(lines, bound, i + 1, offset + rows_around(lines, i));
        (seq![info_draw(lines[i], bound, i + offset)] + rest, rows)
    }
}

/// What the pane draws for the last line: a text on the row after all
/// others, if that row is in `bound`. A title in the last place is not
/// drawn.
pub open spec fn last_draw(lines: Seq<LineView>, bound: Rect, offset: int) -> Seq<DrawView> {
    if lines.len() > 0 && lines.last() is Text && lines.len() - 1 + offset < bound.height {
        seq![info_draw(lines.last(), bound, lines.len() - 1 + offset)]
    } else {
        Seq::empty()
    }
}

/// The rows and columns for the lines of a pane in `bound`: what the
/// borders leave, without the last column.
pub open spec fn text_area(bound: Rect) -> Rect {
    let within = inside(bound, Borders::TopAndBottom);
    Rect { width: left_of(within.width, 1), ..within }
}

/// What the pane of information draws: its block and the keys that change
/// it, and the lines one below the other with an empty row around each
/// title.
#[verifier::opaque]
pub open spec fn pane_draws(lines: Seq<LineView>, bound: Rect) -> Seq<DrawView> {
    let area = text_area(bound);
    let (drawn, offset) = walk(lines, area, 0, 0);
    seq![
        DrawView::Block { bound, title: "Information"@, borders: Borders::TopAndBottom },
        DrawView::Text {
            bound: snapped_to_right(bound, block_width_of(pane_help())),
            text: pane_help(),
            style: None,
        },
    ] + drawn + last_draw(lines, area, offset)
}

/// Appends what the pane draws for `info` on the row `line`.
fn draw_line(out: &mut Vec<Draw>, info: &Line, bound: Rect, line: usize)
    ensures
        draw_views(final(out)@) == draw_views(old(out)@).push(info_draw(info@, bound, line as int)),
{
    let on = line_bound(bound, line);
    match info {
        Line::Title(text) => {
            draw_title(out, on, text.clone());
        },
        Line::Text(text) => {
            draw_text_nowrap(out, offset_x(on, 1), text.clone(), None);
        },
    }
}

/// Draws the pane of information into `bound`.
pub fn pane(out: &mut Vec<Draw>, lines: &[Line], bound: Rect)
    ensures
        draw_views(final(out)@) == draw_views(old(out)@) + pane_draws(line_views(lines@), bound),
{
    reveal(pane_draws);
    let ghost start = draw_views(out@);
    let ghost all = line_views(lines@);
    draw_block(out, bound, "Information".to_owned(), Borders::TopAndBottom);
    let help_text = " \u{2a2f} = [ | \u{25a2} = { ";
    draw_text_nowrap(out, snap_to_right(bound, block_width(help_text)), help_text.to_owned(), None);
    let within = inner(bound, Borders::TopAndBottom);
    let area = Rect { width: within.width.saturating_sub(1), ..within };
    let ghost head = draw_views(out@);
    let len = lines.len();
    let mut offset: usize = 0;
    let mut i: usize = 0;
    assert(draw_views(out@) =~= head + Seq::<DrawView>::empty());
    let ghost mut drawn: Seq<DrawView> = Seq::empty();
    while i + 1 < len
        invariant
            len == lines@.len(),
            all == line_views(lines@),
            i + offset <= 0x1_0002,
            i <= len,
            draw_views(out@) == head + drawn,
            drawn + walk(all, area, i as int, offset as int).0 == walk(all, area, 0, 0).0,
            walk(all, area, i as int, offset as int).1 == walk(all, area, 0, 0).1,
        ensures
            draw_views(out@) == head + walk(all, area, 0, 0).0,
            offset == walk(all, area, 0, 0).1,
            offset <= 0x1_0002,
        decreases len - i,
    {
        let line = i + offset;
        if line >= area.height as usize {
            assert(drawn + Seq::<DrawView>::empty() =~= drawn);
            break ;
        }
        let ghost before = walk(all, area, i as int, offset as int);
        let ghost rest = walk(all, area, i + 1, offset + rows_around(all, i as int));
        draw_line(out, &lines[i], area, line);
        let ghost this = info_draw(all[i as int], area, line as int);
        assert(before.0 == seq![this] + rest.0);
        assert((drawn.push(this)) + rest.0 =~= drawn + before.0);
        proof {
            drawn = drawn.push(this);
        }
        match &lines[i] {
            Line::Title(_) => {
                offset = offset + 1;
            },
            Line::Text(_) => {},
        }
        match &lines[i + 1] {
            Line::Title(_) => {
                offset = offset + 1;
            },
            Line::Text(_) => {},
        }
        i = i + 1;
    }
    let ghost body = draw_views(out@);
    if len > 0 {
        match &lines[len - 1] {
            Line::Text(_) => {
                let line = (len - 1).saturating_add(offset);
                if line < area.height as usize {
                    draw_line(out, &lines[len - 1], area, line);
                    assert(all.last() == lines@[len - 1]@);
                } else {
                    assert(draw_views(out@) =~= body + Seq::<DrawView>::empty());
                }
            },
            Line::Title(_) => {
                assert(draw_views(out@) =~= body + Seq::<DrawView>::empty());
            },
        }
    } else {
        assert(draw_views(out@) =~= body + Seq::<DrawView>::empty());
    }
    assert(draw_views(out@) =~= start + pane_draws(all, bound));
}

} // verus!
