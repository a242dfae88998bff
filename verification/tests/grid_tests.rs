use cosmos::grid::{area_center, blank_cell, clear_grid, grid_index, plot_cell, wave_overlay_glyph, TerminalCell};

fn cell(ch: char) -> TerminalCell {
    TerminalCell { ch, fg: (1, 2, 3), bg: (0, 0, 0), bold: false }
}

#[test]
fn default_cell_is_blank() {
    let c = TerminalCell::default();
    assert_eq!(c, blank_cell());
    assert_eq!(c.ch, ' ');
    assert_eq!(c.fg, (0, 0, 0));
    assert!(!c.bold);
}

#[test]
fn plot_writes_the_aimed_cell_only() {
    let mut grid = vec![TerminalCell::default(); 4 * 3];
    plot_cell(&mut grid, 4, 3, 2, 1, '*', (9, 8, 7), false);
    let idx = 1 * 4 + 2;
    assert_eq!(grid[idx], TerminalCell { ch: '*', fg: (9, 8, 7), bg: (0, 0, 0), bold: false });
    for (i, c) in grid.iter().enumerate() {
        if i != idx {
            assert_eq!(*c, TerminalCell::default());
        }
    }
}

#[test]
fn plot_ignores_positions_off_the_grid() {
    let mut grid = vec![TerminalCell::default(); 4 * 3];
    let before = grid.clone();
    plot_cell(&mut grid, 4, 3, -1, 0, '*', (9, 8, 7), true);
    plot_cell(&mut grid, 4, 3, 0, -1, '*', (9, 8, 7), true);
    plot_cell(&mut grid, 4, 3, 4, 0, '*', (9, 8, 7), true);
    plot_cell(&mut grid, 4, 3, 0, 3, '*', (9, 8, 7), true);
    assert_eq!(grid, before);
    // A grid shorter than cols * rows ignores cells past its end.
    let mut short = vec![TerminalCell::default(); 5];
    plot_cell(&mut short, 4, 3, 2, 1, '*', (9, 8, 7), true);
    assert_eq!(short, vec![TerminalCell::default(); 5]);
}

#[test]
fn plot_respects_solid_glyphs_unless_bold() {
    let mut grid = vec![cell('#'), cell('·'), cell('.'), cell('\'')];
    plot_cell(&mut grid, 4, 1, 0, 0, '+', (5, 5, 5), false);
    assert_eq!(grid[0], cell('#'));
    for x in 1..4 {
        plot_cell(&mut grid, 4, 1, x, 0, '+', (5, 5, 5), false);
        assert_eq!(grid[x as usize], TerminalCell { ch: '+', fg: (5, 5, 5), bg: (0, 0, 0), bold: false });
    }
    plot_cell(&mut grid, 4, 1, 0, 0, '+', (5, 5, 5), true);
    assert_eq!(grid[0], TerminalCell { ch: '+', fg: (5, 5, 5), bg: (0, 0, 0), bold: true });
}

#[test]
fn plotting_a_space_clears_the_cell() {
    let mut grid = vec![TerminalCell { ch: '#', fg: (4, 4, 4), bg: (1, 1, 1), bold: true }];
    plot_cell(&mut grid, 1, 1, 0, 0, ' ', (9, 9, 9), false);
    assert_eq!(grid[0], TerminalCell::default());
}

#[test]
fn wave_overlay_rewrites_disk_and_core_glyphs() {
    assert_eq!(wave_overlay_glyph('═'), '≈');
    assert_eq!(wave_overlay_glyph('─'), '≈');
    assert_eq!(wave_overlay_glyph('☼'), '╬');
    assert_eq!(wave_overlay_glyph('❂'), '╬');
    assert_eq!(wave_overlay_glyph('*'), '*');
    assert_eq!(wave_overlay_glyph(' '), ' ');
}

#[test]
fn grid_index_is_row_major_and_bounded() {
    assert_eq!(grid_index(80, 24, 0, 0, 80 * 24), Some(0));
    assert_eq!(grid_index(80, 24, 79, 23, 80 * 24), Some(80 * 24 - 1));
    assert_eq!(grid_index(80, 24, 5, 2, 80 * 24), Some(165));
    assert_eq!(grid_index(80, 24, 80, 0, 80 * 24), None);
    assert_eq!(grid_index(80, 24, 0, 24, 80 * 24), None);
    assert_eq!(grid_index(80, 24, -1, 3, 80 * 24), None);
    assert_eq!(grid_index(80, 24, 5, 2, 100), None);
}

#[test]
fn clear_grid_blanks_every_cell() {
    let mut grid = vec![TerminalCell { ch: '#', fg: (4, 4, 4), bg: (1, 1, 1), bold: true }; 6];
    clear_grid(&mut grid);
    assert_eq!(grid, vec![TerminalCell::default(); 6]);
}

#[test]
fn area_center_halves_down() {
    assert_eq!(area_center(0, 80, 0, 24), (40, 12));
    assert_eq!(area_center(10, 5, 3, 7), (12, 6));
}
