use crytter::grid::Grid;
use crytter::search::search;

fn write(grid: &mut Grid, row: usize, text: &str) {
    for (i, c) in text.chars().enumerate() {
        if let Some(cell) = grid.cell_mut(row, i) {
            cell.c = c;
        }
    }
}

#[test]
fn search_visible_grid() {
    let mut grid = Grid::new(80, 24);
    write(&mut grid, 0, "hello world");
    let results = search(&grid, "world", 100);
    assert_eq!(results.len(), 1);
    assert_eq!(results[0].row, 0);
    assert_eq!(results[0].start_col, 6);
    assert_eq!(results[0].end_col, 11);
}

#[test]
fn search_case_insensitive() {
    let mut grid = Grid::new(80, 24);
    write(&mut grid, 0, "Hello World");
    let results = search(&grid, "hello", 100);
    assert_eq!(results.len(), 1);
}

#[test]
fn search_no_match() {
    let grid = Grid::new(80, 24);
    let results = search(&grid, "xyz", 100);
    assert!(results.is_empty());
}

#[test]
fn search_empty_needle() {
    let grid = Grid::new(80, 24);
    let results = search(&grid, "", 100);
    assert!(results.is_empty());
}

#[test]
fn search_scrollback() {
    let mut grid = Grid::new(80, 3);
    write(&mut grid, 0, "find me in scrollback");
    grid.scroll_up(0, 3); // push row 0 into scrollback
    let results = search(&grid, "scrollback", 100);
    assert_eq!(results.len(), 1);
    assert!(results[0].row < 0); // in scrollback
}

#[test]
fn search_max_results() {
    let mut grid = Grid::new(80, 24);
    for row in 0..10 {
        write(&mut grid, row, "match");
    }
    let results = search(&grid, "match", 3);
    assert_eq!(results.len(), 3);
}

#[test]
fn search_order_and_no_overlaps() {
    let mut grid = Grid::new(10, 2);
    write(&mut grid, 0, "aaa");
    grid.scroll_up(0, 2);
    write(&mut grid, 0, "xaAa");
    let results = search(&grid, "AA", 100);
    // scrollback first (row -1), then the grid; a match resumes the scan after itself
    let got: Vec<(i64, usize, usize)> =
        results.iter().map(|m| (m.row, m.start_col, m.end_col)).collect();
    assert_eq!(got, vec![(-1, 0, 2), (0, 1, 3)]);
}

#[test]
fn search_zero_max_gives_nothing() {
    let mut grid = Grid::new(10, 2);
    write(&mut grid, 1, "abc");
    assert!(search(&grid, "b", 0).is_empty());
    assert_eq!(search(&grid, "B", 1)[0].row, 1);
}
