//! The OS caption shown in the middle of the primary monitor: its text lines,
//! cut to the width the caption may take, and the grid cell of every letter.

use vstd::prelude::*;

verus! {

/// `text` cut to at most `max_cols` characters; a cut text ends in `…`.
pub open spec fn truncated(text: Seq<char>, max_cols: nat) -> Seq<char> {
    if text.len() <= max_cols {
        text
    } else if max_cols == 0 {
        Seq::empty()
    } else {
        text.take(max_cols - 1).push('…')
    }
}

/// Cuts `text` to `max_cols` characters, marking a cut with a trailing `…`.
pub fn truncate_to_width(text: &str, max_cols: usize) -> (out: String)
    ensures
        out@ == truncated(text@, max_cols as nat),
        text@.len() <= max_cols ==> out@ == text@,
        text@.len() > max_cols ==> out@.len() == max_cols,
        text@.len() > max_cols && max_cols > 0 ==> {
            &&& out@.last() == '…'
            &&& forall|i: int| 0 <= i < max_cols - 1 ==> #[trigger] out@[i] == text@[i]
        },
{
    proof {
        lemma_truncation_shape(text@, max_cols as nat);
    }
    let len = text.unicode_len();
    if len <= max_cols {
        return String::from_str(text);
    }
    if max_cols == 0 {
        return String::new();
    }
    proof {
        reveal_strlit("…");
    }
    if max_cols == 1 {
        let out = String::from_str("…");
        assert(out@ =~= truncated(text@, max_cols as nat));
        return out;
    }
    let mut out = String::from_str(text.substring_char(0, max_cols - 1));
    out.append("…");
    assert(out@ =~= truncated(text@, max_cols as nat));
    out
}

/// A line that fits is kept whole; a line that does not fit is cut to
/// exactly the allowed width, keeping its first characters and ending in `…`.
pub proof fn lemma_truncation_shape(text: Seq<char>, max_cols: nat)
    ensures
        text.len() <= max_cols ==> truncated(text, max_cols) == text,
        text.len() > max_cols ==> truncated(text, max_cols).len() == max_cols,
        text.len() > max_cols && max_cols > 0 ==> {
            &&& truncated(text, max_cols).last() == '…'
            &&& forall|i: int| 0 <= i < max_cols - 1 ==> #[trigger] truncated(text, max_cols)[i] == text[i]
        },
{
}

/// A truncated line never exceeds the width it was cut to, and keeps as many
/// characters as fit.
pub proof fn lemma_truncated_width(text: Seq<char>, max_cols: nat)
    ensures
        truncated(text, max_cols).len() == if text.len() <= max_cols {
            text.len()
        } else {
            max_cols
        },
        truncated(text, max_cols).len() <= max_cols,
{
}

/// The two caption rows (OS name, then kernel), each cut to `max_cols`.
pub fn build_text_lines(logo_text: &str, kernel: &str, max_cols: usize) -> (lines: Vec<String>)
    ensures
        lines@.len() == 2,
        lines@[0]@ == truncated(logo_text@, max_cols as nat),
        lines@[1]@ == truncated(kernel@, max_cols as nat),
{
    let mut lines: Vec<String> = Vec::new();
    lines.push(truncate_to_width(logo_text, max_cols));
    lines.push(truncate_to_width(kernel, max_cols));
    lines
}


/// One caption letter fixed to its grid cell.
#[derive(Clone, Copy, Debug, PartialEq, Eq, Structural)]
pub struct LogoCell {
    pub screen_col: usize,
    pub screen_row: usize,
    /// The letter belongs to a row below the first.
    pub is_subline: bool,
    /// Index within its caption row.
    pub char_idx: usize,
    pub ch: char,
}

/// The characters of each caption row.
pub open spec fn line_views(lines: Seq<String>) -> Seq<Seq<char>> {
    lines.map_values(|line: String| line@)
}

/// Width of the caption: its longest row, in characters.
pub open spec fn caption_width(lines: Seq<Seq<char>>) -> nat
    decreases lines.len(),
{
    if lines.len() == 0 {
        0
    } else {
        let rest = caption_width(lines.drop_last());
        if lines.last().len() > rest {
            lines.last().len()
        } else {
            rest
        }
    }
}

/// First cell of a span of `size` cells centered in `extent` cells from
/// `start`; a span wider than the extent starts at `start`.
pub open spec fn centered_start(start: nat, extent: nat, size: nat) -> nat {
    start + if extent > size {
        ((extent - size) as nat / 2) as nat
    } else {
        0
    }
}

/// Caption letter `c` of row `r`, for a caption whose top-left letter is at (`col0`, `row0`).
pub open spec fn caption_letter(line: Seq<char>, col0: nat, row0: nat, r: nat, c: int) -> LogoCell {
    LogoCell {
        screen_col: (col0 + c) as usize,
        screen_row: (row0 + r) as usize,
        is_subline: r > 0,
        char_idx: c as usize,
        ch: line[c],
    }
}

/// The letters of caption row `r`, starting at cell (`col0`, `row0 + r`).
pub open spec fn row_cells(line: Seq<char>, col0: nat, row0: nat, r: nat) -> Seq<LogoCell> {
    Seq::new(line.len(), |c: int| caption_letter(line, col0, row0, r, c))
}

/// The letters of all rows, row by row, with the top-left letter at (`col0`, `row0`).
pub open spec fn caption_cells(lines: Seq<Seq<char>>, col0: nat, row0: nat) -> Seq<LogoCell>
    decreases lines.len(),
{
    if lines.len() == 0 {
        Seq::empty()
    } else {
        caption_cells(lines.drop_last(), col0, row0) + row_cells(
            lines.last(),
            col0,
            row0,
            (lines.len() - 1) as nat,
        )
    }
}

/// The caption centered in the monitor area that starts at (`start_col`,
/// `start_row`) and spans `width` × `height` cells; no cells at all when the
/// caption has no letters.
pub open spec fn caption_layout(
    lines: Seq<Seq<char>>,
    start_col: nat,
    start_row: nat,
    width: nat,
    height: nat,
) -> Seq<LogoCell> {
    let w = caption_width(lines);
    let h = lines.len();
    if w == 0 || h == 0 {
        Seq::empty()
    } else {
        caption_cells(
            lines,
            centered_start(start_col, width, w),
            centered_start(start_row, height, h),
        )
    }
}

/// Every cell of the caption layout has a grid coordinate that a `usize` holds.
pub open spec fn caption_layout_fits(
    lines: Seq<Seq<char>>,
    start_col: nat,
    start_row: nat,
    width: nat,
    height: nat,
) -> bool {
    let w = caption_width(lines);
    let h = lines.len();
    w > 0 ==> {
        &&& centered_start(start_col, width, w) + w <= usize::MAX + 1
        &&& centered_start(start_row, height, h) + h <= usize::MAX + 1
    }
}

proof fn lemma_row_within_width(lines: Seq<Seq<char>>, r: int)
    requires
        0 <= r < lines.len(),
    ensures
        lines[r].len() <= caption_width(lines),
    decreases lines.len(),
{
    if r < lines.len() - 1 {
        lemma_row_within_width(lines.drop_last(), r);
    }
}

/// Places every caption letter on its grid cell: the caption is centered in
/// the monitor area, one row per line, one cell per character.
pub fn layout_caption(
    lines: &Vec<String>,
    start_col: usize,
    start_row: usize,
    width: usize,
    height: usize,
) -> (cells: Vec<LogoCell>)
    requires
        caption_layout_fits(line_views(lines@), start_col as nat, start_row as nat, width as nat, height as nat),
    ensures
        cells@ == caption_layout(line_views(lines@), start_col as nat, start_row as nat, width as nat, height as nat),
        cells@.len() == total_chars(line_views(lines@)),
        forall|r: int, c: int|
            0 <= r < lines@.len() && 0 <= c < line_views(lines@)[r].len() ==> #[trigger] letter_cell_is(
                cells@,
                line_views(lines@),
                r,
                c,
                centered_start(start_col as nat, width as nat, caption_width(line_views(lines@))) as int,
                centered_start(start_row as nat, height as nat, lines@.len()) as int,
            ),
{
    let ghost views = line_views(lines@);
    proof {
        lemma_caption_layout_one_per_character(views, start_col as nat, start_row as nat, width as nat, height as nat);
        assert(views.len() == lines@.len());
    }
    let mut logo_w: usize = 0;
    let mut k: usize = 0;
    while k < lines.len()
        invariant
            k <= lines.len(),
            views == line_views(lines@),
            logo_w == caption_width(views.take(k as int)),
        decreases lines.len() - k,
    {
        let n = lines[k].as_str().unicode_len();
        proof {
            assert(views.take(k + 1).drop_last() =~= views.take(k as int));
        }
        if n > logo_w {
            logo_w = n;
        }
        k += 1;
    }
    assert(views.take(lines.len() as int) =~= views);
    let logo_h = lines.len();
    if logo_w == 0 || logo_h == 0 {
        return Vec::new();
    }
    let x = start_col + width.saturating_sub(logo_w) / 2;
    let y = start_row + height.saturating_sub(logo_h) / 2;
    assert(x == centered_start(start_col as nat, width as nat, logo_w as nat));
    assert(y == centered_start(start_row as nat, height as nat, logo_h as nat));
    let mut cells: Vec<LogoCell> = Vec::new();
    let mut r: usize = 0;
    while r < logo_h
        invariant
            r <= logo_h,
            logo_h == lines.len(),
            views == line_views(lines@),
            logo_w == caption_width(views),
            x + logo_w <= usize::MAX + 1,
            y + logo_h <= usize::MAX + 1,
            cells@ == caption_cells(views.take(r as int), x as nat, y as nat),
        decreases logo_h - r,
    {
        let line = lines[r].as_str();
        let n = line.unicode_len();
        proof {
            lemma_row_within_width(views, r as int);
            assert(views.take(r + 1).drop_last() =~= views.take(r as int));
        }
        let ghost before = cells@;
        let mut c: usize = 0;
        while c < n
            invariant
                c <= n,
                n == line@.len(),
                line@ == views[r as int],
                n <= logo_w,
                r < logo_h,
                views.len() == logo_h,
                x + logo_w <= usize::MAX + 1,
                y + logo_h <= usize::MAX + 1,
                cells@ == before + row_cells(line@, x as nat, y as nat, r as nat).take(c as int),
            decreases n - c,
        {
            let ch = line.get_char(c);
            cells.push(LogoCell { screen_col: x + c, screen_row: y + r, is_subline: r > 0, char_idx: c, ch });
            proof {
                let rc = row_cells(line@, x as nat, y as nat, r as nat);
                assert(rc.len() == n);
                assert(rc[c as int] == cells@.last());
                assert(rc.take(c + 1) =~= rc.take(c as int).push(rc[c as int]));
            }
            c += 1;
        }
        proof {
            let rc = row_cells(line@, x as nat, y as nat, r as nat);
            assert(rc.len() == n);
            assert(rc.take(n as int) =~= rc);
            assert(views.take(r + 1).last() == views[r as int]);
        }
        r += 1;
    }
    assert(views.take(logo_h as int) =~= views);
    cells
}

proof fn lemma_caption_cells_bounds(lines: Seq<Seq<char>>, col0: nat, row0: nat)
    requires
        col0 + caption_width(lines) <= usize::MAX + 1,
        row0 + lines.len() <= usize::MAX + 1,
    ensures
        forall|i: int|
            0 <= i < caption_cells(lines, col0, row0).len() ==> {
                let cell = #[trigger] caption_cells(lines, col0, row0)[i];
                &&& col0 <= cell.screen_col < col0 + caption_width(lines)
                &&& row0 <= cell.screen_row < row0 + lines.len()
                &&& cell.is_subline == (cell.screen_row > row0)
            },
    decreases lines.len(),
{
    if lines.len() > 0 {
        let rest = lines.drop_last();
        lemma_caption_cells_bounds(rest, col0, row0);
        lemma_row_within_width(lines, lines.len() - 1);
        let head = caption_cells(rest, col0, row0);
        let row = row_cells(lines.last(), col0, row0, (lines.len() - 1) as nat);
        assert forall|i: int| 0 <= i < caption_cells(lines, col0, row0).len() implies {
            let cell = #[trigger] caption_cells(lines, col0, row0)[i];
            &&& col0 <= cell.screen_col < col0 + caption_width(lines)
            &&& row0 <= cell.screen_row < row0 + lines.len()
            &&& cell.is_subline == (cell.screen_row > row0)
        } by {
            if i < head.len() {
                assert(caption_cells(lines, col0, row0)[i] == head[i]);
            } else {
                assert(caption_cells(lines, col0, row0)[i] == row[i - head.len()]);
            }
        }
    }
}

/// A caption that fits the monitor area stays inside it: every letter lies
/// within the area's columns and rows, and only letters below the first row
/// are marked as sub-line letters.
pub proof fn lemma_caption_inside_area(
    lines: Seq<Seq<char>>,
    start_col: nat,
    start_row: nat,
    width: nat,
    height: nat,
)
    requires
        caption_width(lines) <= width,
        lines.len() <= height,
        start_col + width <= usize::MAX + 1,
        start_row + height <= usize::MAX + 1,
    ensures
        forall|i: int|
            0 <= i < caption_layout(lines, start_col, start_row, width, height).len() ==> {
                let cell = #[trigger] caption_layout(lines, start_col, start_row, width, height)[i];
                &&& start_col <= cell.screen_col < start_col + width
                &&& start_row <= cell.screen_row < start_row + height
                &&& cell.is_subline == (cell.screen_row > centered_start(
                    start_row,
                    height,
                    lines.len(),
                ))
            },
{
    let w = caption_width(lines);
    let h = lines.len();
    if w > 0 && h > 0 {
        lemma_caption_cells_bounds(
            lines,
            centered_start(start_col, width, w),
            centered_start(start_row, height, h),
        );
    }
}


/// Number of characters over all caption rows.
pub open spec fn total_chars(lines: Seq<Seq<char>>) -> nat
    decreases lines.len(),
{
    if lines.len() == 0 {
        0
    } else {
        total_chars(lines.drop_last()) + lines.last().len()
    }
}

proof fn lemma_total_chars_step(lines: Seq<Seq<char>>, r: int)
    requires
        0 <= r < lines.len(),
    ensures
        total_chars(lines.take(r + 1)) == total_chars(lines.take(r)) + lines[r].len(),
{
    assert(lines.take(r + 1).drop_last() =~= lines.take(r));
}

proof fn lemma_total_chars_prefix(lines: Seq<Seq<char>>, k: int)
    requires
        0 <= k <= lines.len(),
    ensures
        total_chars(lines.take(k)) <= total_chars(lines),
    decreases lines.len() - k,
{
    if k < lines.len() {
        lemma_total_chars_prefix(lines, k + 1);
        lemma_total_chars_step(lines, k);
    } else {
        assert(lines.take(k) =~= lines);
    }
}

/// A span placed by `centered_start` is centered: when it fits, the space
/// left of it and the space right of it differ by at most one cell (the extra
/// cell going right); when it does not fit, it starts at the area's start.
pub proof fn lemma_centered_start_centers(start: nat, extent: nat, size: nat)
    ensures
        size <= extent ==> {
            let left = centered_start(start, extent, size) - start;
            let right = extent - size - left;
            &&& 0 <= left
            &&& left <= right <= left + 1
        },
        size > extent ==> centered_start(start, extent, size) == start,
{
}

/// The width of a caption is the length of its longest row: no row is
/// longer, and some row has that length.
pub proof fn lemma_caption_width_is_longest_row(lines: Seq<Seq<char>>)
    ensures
        forall|r: int| 0 <= r < lines.len() ==> (#[trigger] lines[r]).len() <= caption_width(lines),
        lines.len() > 0 ==> exists|r: int| 0 <= r < lines.len() && (#[trigger] lines[r]).len()
            == caption_width(lines),
        lines.len() == 0 ==> caption_width(lines) == 0,
    decreases lines.len(),
{
    if lines.len() > 0 {
        let rest = lines.drop_last();
        lemma_caption_width_is_longest_row(rest);
        assert forall|r: int| 0 <= r < lines.len() implies (#[trigger] lines[r]).len()
            <= caption_width(lines) by {
            if r < rest.len() {
                assert(lines[r] == rest[r]);
            }
        }
        if lines.last().len() > caption_width(rest) {
            assert(lines[lines.len() - 1].len() == caption_width(lines));
        } else if rest.len() > 0 {
            let r = choose|r: int| 0 <= r < rest.len() && (#[trigger] rest[r]).len() == caption_width(rest);
            assert(lines[r] == rest[r]);
        } else {
            assert(lines[0].len() == caption_width(lines));
        }
    }
}

/// In `cells`, the cell that follows all cells of the rows above row `r` by
/// `c` shows character `c` of row `r`, records `c` as its index, marks rows
/// below the first as sub-lines, and sits `c` columns right of `col0` and
/// `r` rows below `row0`.
pub open spec fn letter_cell_is(cells: Seq<LogoCell>, lines: Seq<Seq<char>>, r: int, c: int, col0: int, row0: int) -> bool {
    let cell = cells[total_chars(lines.take(r)) + c];
    &&& cell.ch == lines[r][c]
    &&& cell.char_idx == c
    &&& cell.screen_col == col0 + c
    &&& cell.screen_row == row0 + r
    &&& cell.is_subline == (r > 0)
}

/// Every character of every caption row gets exactly one cell, in row order:
/// the cells are as many as the characters, and the cell of character `c` of
/// row `r` comes after all cells of the rows above, shows that very
/// character, records `c` as its index, and sits `c` columns right and `r`
/// rows down from the first letter.
pub proof fn lemma_caption_cells_one_per_character(lines: Seq<Seq<char>>, col0: nat, row0: nat)
    requires
        col0 + caption_width(lines) <= usize::MAX + 1,
        row0 + lines.len() <= usize::MAX + 1,
    ensures
        caption_cells(lines, col0, row0).len() == total_chars(lines),
        forall|r: int, c: int|
            0 <= r < lines.len() && 0 <= c < lines[r].len() ==> #[trigger] letter_cell_is(
                caption_cells(lines, col0, row0),
                lines,
                r,
                c,
                col0 as int,
                row0 as int,
            ),
    decreases lines.len(),
{
    if lines.len() > 0 {
        let n = lines.len() - 1;
        let rest = lines.drop_last();
        lemma_caption_width_is_longest_row(lines);
        lemma_caption_width_is_longest_row(rest);
        assert(caption_width(rest) <= caption_width(lines));
        lemma_caption_cells_one_per_character(rest, col0, row0);
        let head = caption_cells(rest, col0, row0);
        let row = row_cells(lines.last(), col0, row0, n as nat);
        let all = caption_cells(lines, col0, row0);
        assert(row.len() == lines.last().len());
        assert(all.len() == total_chars(lines));
        assert forall|r: int, c: int|
            0 <= r < lines.len() && 0 <= c < lines[r].len() implies #[trigger] letter_cell_is(
                all,
                lines,
                r,
                c,
                col0 as int,
                row0 as int,
            ) by {
            assert(lines[r].len() <= caption_width(lines));
            if r < n {
                assert(lines.take(r) =~= rest.take(r));
                assert(lines[r] == rest[r]);
                lemma_total_chars_step(rest, r);
                lemma_total_chars_prefix(rest, r + 1);
                assert(rest[r][c] == lines[r][c]);
                assert(letter_cell_is(head, rest, r, c, col0 as int, row0 as int));
                let k = total_chars(lines.take(r)) + c;
                assert(k < head.len());
                assert(all[k] == head[k]);
            } else {
                assert(lines.take(r) =~= rest);
                let k = total_chars(lines.take(r)) + c;
                assert(all[k] == row[c]);
                assert(row[c] == caption_letter(lines.last(), col0, row0, n as nat, c));
            }
        }
    }
}

/// The laid-out caption holds one cell per character of every row, spaces
/// included, in row order; the cell of character `c` of row `r` shows that
/// character with index `c`, at the caption's centered top-left cell moved
/// `c` columns right and `r` rows down.
pub proof fn lemma_caption_layout_one_per_character(
    lines: Seq<Seq<char>>,
    start_col: nat,
    start_row: nat,
    width: nat,
    height: nat,
)
    requires
        caption_layout_fits(lines, start_col, start_row, width, height),
    ensures
        caption_layout(lines, start_col, start_row, width, height).len() == total_chars(lines),
        forall|r: int, c: int|
            0 <= r < lines.len() && 0 <= c < lines[r].len() ==> #[trigger] letter_cell_is(
                caption_layout(lines, start_col, start_row, width, height),
                lines,
                r,
                c,
                centered_start(start_col, width, caption_width(lines)) as int,
                centered_start(start_row, height, lines.len()) as int,
            ),
{
    let w = caption_width(lines);
    let h = lines.len();
    lemma_caption_width_is_longest_row(lines);
    if w == 0 || h == 0 {
        lemma_total_chars_zero(lines);
    } else {
        lemma_caption_cells_one_per_character(
            lines,
            centered_start(start_col, width, w),
            centered_start(start_row, height, h),
        );
    }
}

proof fn lemma_total_chars_zero(lines: Seq<Seq<char>>)
    requires
        forall|r: int| 0 <= r < lines.len() ==> (#[trigger] lines[r]).len() == 0,
    ensures
        total_chars(lines) == 0,
    decreases lines.len(),
{
    if lines.len() > 0 {
        let rest = lines.drop_last();
        assert forall|r: int| 0 <= r < rest.len() implies (#[trigger] rest[r]).len() == 0 by {
            assert(rest[r] == lines[r]);
        }
        lemma_total_chars_zero(rest);
        assert(lines[lines.len() - 1].len() == 0);
    }
}

} // verus!
