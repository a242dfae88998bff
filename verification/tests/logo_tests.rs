use cosmos::logo::{build_text_lines, layout_caption, truncate_to_width, LogoCell};

#[test]
fn truncate_adds_ellipsis_when_needed() {
    assert_eq!(truncate_to_width("hello", 10), "hello");
    assert_eq!(truncate_to_width("hello world", 8), "hello w…");
}

#[test]
fn build_text_lines_keeps_two_rows() {
    let lines = build_text_lines("Pop!_OS 22.04", "6.17.9-generic", 40);
    assert_eq!(lines.len(), 2);
    assert_eq!(lines[0], "Pop!_OS 22.04");
    assert_eq!(lines[1], "6.17.9-generic");
}

#[test]
fn truncate_edge_widths() {
    assert_eq!(truncate_to_width("hello", 5), "hello");
    assert_eq!(truncate_to_width("hello", 0), "");
    assert_eq!(truncate_to_width("hello", 1), "…");
    assert_eq!(truncate_to_width("hello", 2), "h…");
    assert_eq!(truncate_to_width("", 0), "");
    assert_eq!(truncate_to_width("héllo wörld", 4), "hél…");
    assert_eq!(truncate_to_width("hello world", 8).chars().count(), 8);
}

#[test]
fn build_text_lines_cuts_each_row() {
    let lines = build_text_lines("Ubuntu 24.04 LTS", "6.8.0-45-generic", 10);
    assert_eq!(lines, vec!["Ubuntu 24…".to_string(), "6.8.0-45-…".to_string()]);
}

#[test]
fn caption_is_centered_in_the_monitor_area() {
    let lines = vec!["abcd".to_string(), "xy".to_string()];
    let cells = layout_caption(&lines, 10, 5, 20, 10);
    // width 4 centered in 20 columns starting at 10: first column 18;
    // height 2 centered in 10 rows starting at 5: first row 9.
    assert_eq!(cells.len(), 6);
    assert_eq!(
        cells[0],
        LogoCell { screen_col: 18, screen_row: 9, is_subline: false, char_idx: 0, ch: 'a' }
    );
    assert_eq!(
        cells[3],
        LogoCell { screen_col: 21, screen_row: 9, is_subline: false, char_idx: 3, ch: 'd' }
    );
    assert_eq!(
        cells[4],
        LogoCell { screen_col: 18, screen_row: 10, is_subline: true, char_idx: 0, ch: 'x' }
    );
    assert_eq!(
        cells[5],
        LogoCell { screen_col: 19, screen_row: 10, is_subline: true, char_idx: 1, ch: 'y' }
    );
}

#[test]
fn caption_wider_than_area_starts_at_its_edge() {
    let lines = vec!["abcdef".to_string()];
    let cells = layout_caption(&lines, 3, 2, 4, 0);
    assert_eq!(cells.len(), 6);
    assert_eq!(cells[0].screen_col, 3);
    assert_eq!(cells[0].screen_row, 2);
    assert_eq!(cells[5].screen_col, 8);
}

#[test]
fn empty_caption_has_no_cells() {
    let lines = vec![String::new(), String::new()];
    assert!(layout_caption(&lines, 0, 0, 80, 24).is_empty());
    let none: Vec<String> = Vec::new();
    assert!(layout_caption(&none, 0, 0, 80, 24).is_empty());
}
