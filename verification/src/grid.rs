//! The terminal grid the universe is drawn on, and the rules for putting a
//! glyph into one of its cells.

use vstd::prelude::*;

verus! {

/// An RGB color.
pub type Rgb = (u8, u8, u8);

/// One character cell of the terminal grid.
#[derive(Clone, Copy, Debug, PartialEq, Eq)]
pub struct TerminalCell {
    pub ch: char,
    pub fg: Rgb,
    pub bg: Rgb,
    pub bold: bool,
}

/// A blank cell: a space, black on black, not bold.
pub open spec fn blank() -> TerminalCell {
    TerminalCell { ch: ' ', fg: (0, 0, 0), bg: (0, 0, 0), bold: false }
}

/// A blank cell: a space, black on black, not bold.
pub fn blank_cell() -> (cell: TerminalCell)
    ensures
        cell == blank(),
{
    TerminalCell { ch: ' ', fg: (0, 0, 0), bg: (0, 0, 0), bold: false }
}

impl Default for TerminalCell {
    fn default() -> (cell: Self)
        ensures
            cell == blank(),
    {
        blank_cell()
    }
}

/// Faint glyphs that any plotted glyph may draw over.
pub open spec fn is_faint_glyph(ch: char) -> bool {
    ch == ' ' || ch == '·' || ch == '.' || ch == '\''
}

/// The index of grid cell (`x`, `y`) in a row-major grid of `cols` × `rows`
/// cells stored in `len` slots, if the cell is on the grid.
pub open spec fn cell_index(cols: usize, rows: usize, x: i32, y: i32, len: nat) -> Option<int> {
    if x < 0 || y < 0 || x >= cols as i32 || y >= rows as i32 {
        None
    } else if y * cols + x >= len {
        None
    } else {
        Some(y * cols + x)
    }
}

/// The cell `old` after plotting `ch` in color `fg`: a space clears it; any
/// other glyph replaces a faint glyph, and replaces anything when bold.
pub open spec fn plotted(old: TerminalCell, ch: char, fg: Rgb, bold: bool) -> TerminalCell {
    if ch == ' ' {
        blank()
    } else if is_faint_glyph(old.ch) || bold {
        TerminalCell { ch, fg, bg: (0, 0, 0), bold }
    } else {
        old
    }
}

/// The index of grid cell (`x`, `y`), if the cell is on the grid.
pub fn grid_index(cols: usize, rows: usize, x: i32, y: i32, len: usize) -> (idx: Option<usize>)
    requires
        (0 <= x < cols as i32 && 0 <= y < rows as i32) ==> y * cols + x <= usize::MAX,
    ensures
        match idx {
            Some(i) => cell_index(cols, rows, x, y, len as nat) == Some(i as int),
            None => cell_index(cols, rows, x, y, len as nat) is None,
        },
        (idx matches Some(i) ==> 0 <= x < cols as i32 && 0 <= y < rows as i32 && i == y * cols + x
            && i < len),
        (idx is None ==> !(0 <= x < cols as i32 && 0 <= y < rows as i32 && y * cols + x < len)),
{
    if x < 0 || y < 0 || x >= cols as i32 || y >= rows as i32 {
        return None;
    }
    assert(y * cols <= y * cols + x);
    let idx = y as usize * cols + x as usize;
    if idx >= len {
        None
    } else {
        Some(idx)
    }
}

/// Plots one glyph at (`x`, `y`); positions off the grid are ignored.
pub fn plot_cell(
    grid: &mut [TerminalCell],
    cols: usize,
    rows: usize,
    x: i32,
    y: i32,
    ch: char,
    fg: Rgb,
    bold: bool,
)
    requires
        (0 <= x < cols as i32 && 0 <= y < rows as i32) ==> y * cols + x <= usize::MAX,
    ensures
        final(grid)@ == (match cell_index(cols, rows, x, y, old(grid)@.len()) {
            None => old(grid)@,
            Some(i) => old(grid)@.update(i, plotted(old(grid)@[i], ch, fg, bold)),
        }),
        final(grid)@.len() == old(grid)@.len(),
        forall|j: int|
            0 <= j < old(grid)@.len() && !(0 <= x < cols as i32 && 0 <= y < rows as i32 && j == y
                * cols + x) ==> #[trigger] final(grid)@[j] == old(grid)@[j],
        (0 <= x < cols as i32 && 0 <= y < rows as i32 && y * cols + x < old(grid)@.len() && ch
            == ' ') ==> final(grid)@[y * cols + x] == (TerminalCell {
            ch: ' ',
            fg: (0, 0, 0),
            bg: (0, 0, 0),
            bold: false,
        }),
        (0 <= x < cols as i32 && 0 <= y < rows as i32 && y * cols + x < old(grid)@.len() && ch
            != ' ' && (bold || old(grid)@[y * cols + x].ch == ' ' || old(grid)@[y * cols + x].ch
            == '·' || old(grid)@[y * cols + x].ch == '.' || old(grid)@[y * cols + x].ch == '\''))
            ==> final(grid)@[y * cols + x] == (TerminalCell { ch, fg, bg: (0, 0, 0), bold }),
        (ch != ' ' && !bold && !(0 <= x < cols as i32 && 0 <= y < rows as i32 && y * cols + x
            < old(grid)@.len() && (old(grid)@[y * cols + x].ch == ' ' || old(grid)@[y * cols
            + x].ch == '·' || old(grid)@[y * cols + x].ch == '.' || old(grid)@[y * cols + x].ch
            == '\''))) ==> final(grid)@ == old(grid)@,
{
    let idx = match grid_index(cols, rows, x, y, grid.len()) {
        Some(i) => i,
        None => return,
    };
    if ch == ' ' {
        grid[idx] = blank_cell();
        return;
    }
    if matches!(grid[idx].ch, ' ' | '·' | '.' | '\'') || bold {
        grid[idx] = TerminalCell { ch, fg, bg: (0, 0, 0), bold };
    }
}

/// Blanks every cell of the grid.
pub fn clear_grid(grid: &mut [TerminalCell])
    ensures
        final(grid)@.len() == old(grid)@.len(),
        forall|i: int| 0 <= i < final(grid)@.len() ==> #[trigger] final(grid)@[i] == blank(),
{
    let n = grid.len();
    let mut i: usize = 0;
    while i < n
        invariant
            i <= n,
            n == grid@.len(),
            n == old(grid)@.len(),
            forall|k: int| 0 <= k < i ==> #[trigger] grid@[k] == blank(),
        decreases n - i,
    {
        grid[i] = blank_cell();
        i += 1;
    }
}

/// The middle cell of an area of `width` × `height` cells whose top-left cell
/// is (`start_col`, `start_row`).
pub fn area_center(start_col: usize, width: usize, start_row: usize, height: usize) -> (center: (usize, usize))
    requires
        start_col + width / 2 <= usize::MAX,
        start_row + height / 2 <= usize::MAX,
    ensures
        center == ((start_col + width / 2) as usize, (start_row + height / 2) as usize),
{
    (start_col + width / 2, start_row + height / 2)
}

/// Plotting touches at most the one cell it aims at, and never a cell off the grid.
pub proof fn lemma_plot_touches_one_cell(
    before: Seq<TerminalCell>,
    after: Seq<TerminalCell>,
    cols: usize,
    rows: usize,
    x: i32,
    y: i32,
    ch: char,
    fg: Rgb,
    bold: bool,
)
    requires
        after == (match cell_index(cols, rows, x, y, before.len()) {
            None => before,
            Some(i) => before.update(i, plotted(before[i], ch, fg, bold)),
        }),
    ensures
        after.len() == before.len(),
        forall|j: int|
            0 <= j < before.len() && cell_index(cols, rows, x, y, before.len()) != Some(j)
                ==> #[trigger] after[j] == before[j],
        cell_index(cols, rows, x, y, before.len()) is None ==> after == before,
{
}

/// How a plotted glyph meets the cell under it: a space always blanks the
/// cell; a bold glyph always takes it; a plain glyph takes it only when the
/// cell shows one of the four faint glyphs ' ', '·', '.', '\'' and leaves any
/// other cell as it was. A plotted cell always has a black background.
pub proof fn lemma_plot_rules(old: TerminalCell, ch: char, fg: Rgb, bold: bool)
    ensures
        ch == ' ' ==> plotted(old, ch, fg, bold) == (TerminalCell {
            ch: ' ',
            fg: (0, 0, 0),
            bg: (0, 0, 0),
            bold: false,
        }),
        (ch != ' ' && bold) ==> plotted(old, ch, fg, bold) == (TerminalCell {
            ch,
            fg,
            bg: (0, 0, 0),
            bold,
        }),
        (ch != ' ' && !bold) ==> (plotted(old, ch, fg, bold) == (if old.ch == ' ' || old.ch == '·'
            || old.ch == '.' || old.ch == '\'' {
            TerminalCell { ch, fg, bg: (0, 0, 0), bold }
        } else {
            old
        })),
        plotted(old, ch, fg, bold) != old ==> plotted(old, ch, fg, bold).bg == (0u8, 0u8, 0u8),
{
}

/// A grid cell is found exactly when it lies on the grid: its index is its
/// row times the row width plus its column, and it falls inside the storage.
pub proof fn lemma_cell_index_is_row_major(cols: usize, rows: usize, x: i32, y: i32, len: nat)
    ensures
        (cell_index(cols, rows, x, y, len) matches Some(i) ==> (0 <= x < cols as i32 && 0 <= y
            < rows as i32 && i == y * cols + x && 0 <= i < len)),
        (cell_index(cols, rows, x, y, len) is None ==> !(0 <= x < cols as i32 && 0 <= y < rows as i32
            && y * cols + x < len)),
{
    if 0 <= x && 0 <= y {
        assert(0 <= y * cols) by (nonlinear_arith)
            requires
                0 <= y,
        ;
    }
}

/// Glyph a cell shows once a gravitational wave passes over it: disk strokes
/// turn into waves, star cores into crossings, anything else is kept.
pub open spec fn wave_glyph(ch: char) -> char {
    if ch == '═' || ch == '─' {
        '≈'
    } else if ch == '☼' || ch == '❂' {
        '╬'
    } else {
        ch
    }
}

/// A passing wave turns the disk strokes '═' and '─' into '≈' and the star
/// cores '☼' and '❂' into '╬', and leaves every other glyph as it is.
pub proof fn lemma_wave_glyph_rules(ch: char)
    ensures
        (ch == '═' || ch == '─') ==> wave_glyph(ch) == '≈',
        (ch == '☼' || ch == '❂') ==> wave_glyph(ch) == '╬',
        !(ch == '═' || ch == '─' || ch == '☼' || ch == '❂') ==> wave_glyph(ch) == ch,
{
}

/// Glyph a cell shows once a gravitational wave passes over it.
pub fn wave_overlay_glyph(ch: char) -> (out: char)
    ensures
        out == wave_glyph(ch),
        (ch == '═' || ch == '─') ==> out == '≈',
        (ch == '☼' || ch == '❂') ==> out == '╬',
        !(ch == '═' || ch == '─' || ch == '☼' || ch == '❂') ==> out == ch,
{
    if ch == '═' || ch == '─' {
        '≈'
    } else if ch == '☼' || ch == '❂' {
        '╬'
    } else {
        ch
    }
}

} // verus!
