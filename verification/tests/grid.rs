use crytter::grid::{Grid, MAX_SCROLLBACK};

#[test]
fn new_grid_dimensions() {
    let grid = Grid::new(80, 24);
    assert_eq!(grid.cols(), 80);
    assert_eq!(grid.rows(), 24);
}

#[test]
fn new_grid_clamps_zero() {
    let grid = Grid::new(0, 0);
    assert_eq!(grid.cols(), 1);
    assert_eq!(grid.rows(), 1);
}

#[test]
fn cell_default_is_space() {
    let grid = Grid::new(80, 24);
    assert_eq!(grid.cell(0, 0).c, ' ');
}

#[test]
fn cell_oob_returns_default() {
    let grid = Grid::new(80, 24);
    assert_eq!(grid.cell(999, 999).c, ' ');
}

#[test]
fn scroll_up_adds_to_scrollback() {
    let mut grid = Grid::new(80, 24);
    grid.cell_mut(0, 0).unwrap().c = 'X';
    grid.scroll_up(0, 24);
    assert_eq!(grid.scrollback_len(), 1);
    assert_eq!(grid.scrollback_line(0).unwrap()[0].c, 'X');
    assert_eq!(grid.cell(0, 0).c, ' ');
}

#[test]
fn resize_preserves_content() {
    let mut grid = Grid::new(80, 24);
    grid.cell_mut(0, 0).unwrap().c = 'A';
    grid.resize(120, 40);
    assert_eq!(grid.cell(0, 0).c, 'A');
    assert_eq!(grid.cols(), 120);
    assert_eq!(grid.rows(), 40);
}

#[test]
fn delete_lines_does_not_save_scrollback() {
    let mut grid = Grid::new(80, 5);
    grid.cell_mut(0, 0).unwrap().c = 'A';
    grid.delete_lines(0, 1, 5);
    assert_eq!(grid.scrollback_len(), 0);
}

#[test]
fn erase_cells_oob_row_is_noop() {
    let mut grid = Grid::new(80, 24);
    grid.erase_cells(999, 0, 80); // should not panic
}

#[test]
fn scrollback_uses_deque() {
    let mut grid = Grid::new(5, 2);
    // Fill scrollback past max
    for i in 0..10_001u32 {
        grid.cell_mut(0, 0).unwrap().c = char::from_u32(b'A' as u32 + (i % 26)).unwrap();
        grid.scroll_up(0, 2);
    }
    assert_eq!(grid.scrollback_len(), 10_000);
}

#[test]
fn scrollback_drops_oldest_line_first() {
    let mut grid = Grid::new(5, 2);
    for i in 0..10_002u32 {
        grid.cell_mut(0, 0).unwrap().c = char::from_u32(b'A' as u32 + (i % 26)).unwrap();
        grid.scroll_up(0, 2);
    }
    assert_eq!(grid.scrollback_len(), MAX_SCROLLBACK);
    // lines 0 and 1 ('A', 'B') fell off; the oldest kept is line 2 ('C')
    assert_eq!(grid.scrollback_line(0).unwrap()[0].c, 'C');
    assert_eq!(grid.scrollback_line(MAX_SCROLLBACK - 1).unwrap()[0].c, char::from_u32(b'A' as u32 + (10_001 % 26)).unwrap());
}

#[test]
fn resize_shrink_keeps_overlap_and_clamps() {
    let mut grid = Grid::new(0, 0);
    grid.resize(10, 3);
    grid.cell_mut(2, 9).unwrap().c = 'Z';
    grid.cell_mut(0, 1).unwrap().c = 'Q';
    grid.resize(5, 2);
    assert_eq!(grid.cols(), 5);
    assert_eq!(grid.rows(), 2);
    assert_eq!(grid.cell(0, 1).c, 'Q');
    assert_eq!(grid.cell(2, 9).c, ' ');
    grid.resize(0, 100_000);
    assert_eq!(grid.cols(), 1);
    assert_eq!(grid.rows(), 10_000);
}

#[test]
fn scroll_down_inserts_blank_at_top() {
    let mut grid = Grid::new(3, 3);
    grid.cell_mut(0, 0).unwrap().c = 'a';
    grid.cell_mut(1, 0).unwrap().c = 'b';
    grid.cell_mut(2, 0).unwrap().c = 'c';
    grid.scroll_down(0, 3);
    assert_eq!(grid.cell(0, 0).c, ' ');
    assert_eq!(grid.cell(1, 0).c, 'a');
    assert_eq!(grid.cell(2, 0).c, 'b');
    assert_eq!(grid.scrollback_len(), 0);
}

#[test]
fn insert_lines_within_region() {
    let mut grid = Grid::new(3, 4);
    for (r, c) in ['a', 'b', 'c', 'd'].iter().enumerate() {
        grid.cell_mut(r, 0).unwrap().c = *c;
    }
    grid.insert_lines(1, 2, 3);
    assert_eq!(grid.cell(0, 0).c, 'a');
    assert_eq!(grid.cell(1, 0).c, ' ');
    assert_eq!(grid.cell(2, 0).c, ' ');
    assert_eq!(grid.cell(3, 0).c, 'd');
}

#[test]
fn clear_and_clear_scrollback() {
    let mut grid = Grid::new(4, 2);
    grid.cell_mut(0, 0).unwrap().c = 'x';
    grid.scroll_up(0, 2);
    grid.cell_mut(1, 3).unwrap().c = 'y';
    grid.clear();
    assert_eq!(grid.cell(1, 3).c, ' ');
    assert_eq!(grid.scrollback_len(), 1);
    grid.clear_scrollback();
    assert_eq!(grid.scrollback_len(), 0);
    assert!(grid.scrollback_line(0).is_none());
}

#[test]
fn erase_cells_clamps_range_and_marks_dirty() {
    let mut grid = Grid::new(4, 1);
    for c in 0..4 {
        grid.cell_mut(0, c).unwrap().c = 'k';
    }
    grid.clear_dirty();
    assert!(!grid.cell(0, 2).dirty);
    grid.erase_cells(0, 2, 100);
    assert_eq!(grid.row(0).len(), 4);
    assert_eq!(grid.cell(0, 1).c, 'k');
    assert_eq!(grid.cell(0, 2).c, ' ');
    assert_eq!(grid.cell(0, 3).c, ' ');
    assert!(grid.cell(0, 3).dirty);
    assert!(grid.cell_mut(1, 0).is_none());
}
