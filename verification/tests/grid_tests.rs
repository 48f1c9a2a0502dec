use incredi::grid::{Block, Grid};

fn covers(block: &Block, x: u32, y: u32) -> bool {
    block.col <= x && x < block.col + block.width && block.row <= y && y < block.row + block.height
}

// Two blocks overlap if a cell belongs to both.
fn overlap(a: &Block, b: &Block) -> bool {
    (a.col..a.col + a.width).any(|x| (a.row..a.row + a.height).any(|y| covers(b, x, y)))
}

fn place(grid: &mut Grid, width: u32, height: u32, grid_width: u32, grid_height: u32) -> Block {
    let (col, row) = grid.find_space(width, height);
    Block { col, row, width: width.min(grid_width), height: height.min(grid_height) }
}

fn rows(grid: &Grid) -> Vec<u32> {
    (0..grid.row_count()).map(|y| grid.filled_width(y)).collect()
}

#[test]
fn first_block_goes_to_the_origin() {
    let mut grid = Grid::new(3, 2);
    assert_eq!(grid.find_space(1, 1), (0, 0));
    assert_eq!(rows(&grid), vec![1]);
}

#[test]
fn new_grid_has_no_rows() {
    let grid = Grid::new(5, 4);
    assert_eq!(grid.columns(), 5);
    assert_eq!(grid.row_count(), 0);
}

#[test]
fn blocks_fill_a_row_from_the_left() {
    let mut grid = Grid::new(3, 2);
    assert_eq!(grid.find_space(1, 1), (0, 0));
    assert_eq!(grid.find_space(1, 1), (1, 0));
    assert_eq!(grid.find_space(1, 1), (2, 0));
    assert_eq!(rows(&grid), vec![3]);
}

#[test]
fn a_full_grid_grows_by_the_height_of_the_block() {
    let mut grid = Grid::new(3, 2);
    assert_eq!(grid.find_space(3, 1), (0, 0));
    assert_eq!(grid.row_count(), 1);
    assert_eq!(grid.find_space(2, 2), (0, 1));
    assert_eq!(grid.row_count(), 3);
    assert_eq!(rows(&grid), vec![3, 2, 2]);
}

#[test]
fn a_wide_request_is_clamped_to_the_grid() {
    let mut grid = Grid::new(4, 3);
    let (col, row) = grid.find_space(100, 1);
    assert_eq!((col, row), (0, 0));
    assert_eq!(rows(&grid), vec![4]);
}

#[test]
fn a_tall_request_is_clamped_to_the_nominal_height() {
    let mut grid = Grid::new(4, 3);
    let (col, row) = grid.find_space(1, 100);
    assert_eq!((col, row), (0, 0));
    assert_eq!(rows(&grid), vec![1, 1, 1]);
}

#[test]
fn a_block_goes_right_of_the_widest_row_under_it() {
    let mut grid = Grid::new(10, 4);
    assert_eq!(grid.find_space(3, 1), (0, 0));
    assert_eq!(grid.find_space(8, 1), (0, 1));
    assert_eq!(grid.find_space(5, 1), (3, 0));
    assert_eq!(rows(&grid), vec![8, 8]);
    // Rows 0 and 1 both have room for two cells; the block starts where the
    // fuller of them ends.
    assert_eq!(grid.find_space(2, 2), (8, 0));
    assert_eq!(rows(&grid), vec![10, 10]);
}

#[test]
fn a_row_without_room_restarts_the_search() {
    let mut grid = Grid::new(4, 4);
    assert_eq!(grid.find_space(1, 1), (0, 0));
    assert_eq!(grid.find_space(4, 1), (0, 1));
    assert_eq!(grid.find_space(1, 2), (0, 2));
    assert_eq!(rows(&grid), vec![1, 4, 1, 1]);
    // Row 0 has room, row 1 has none: two rows together are first found
    // from row 2.
    assert_eq!(grid.find_space(2, 2), (1, 2));
    assert_eq!(rows(&grid), vec![1, 4, 3, 3]);
}

#[test]
fn a_block_without_height_fills_nothing() {
    let mut grid = Grid::new(4, 4);
    assert_eq!(grid.find_space(2, 0), (0, 0));
    assert_eq!(grid.row_count(), 0);
    assert_eq!(grid.find_space(2, 1), (0, 0));
    assert_eq!(grid.find_space(2, 0), (2, 0));
    assert_eq!(rows(&grid), vec![2]);
}

#[test]
fn a_block_without_width_takes_no_room() {
    let mut grid = Grid::new(4, 4);
    assert_eq!(grid.find_space(4, 1), (0, 0));
    assert_eq!(grid.find_space(0, 1), (4, 0));
    assert_eq!(rows(&grid), vec![4]);
}

#[test]
fn a_grid_without_columns_still_places() {
    let mut grid = Grid::new(0, 2);
    assert_eq!(grid.find_space(3, 1), (0, 0));
    assert_eq!(grid.find_space(3, 1), (0, 0));
    assert_eq!(rows(&grid), vec![0]);
}

#[test]
fn fill_marks_the_rows_under_the_block() {
    let mut grid = Grid::new(5, 3);
    grid.find_space(1, 3);
    grid.fill(2, 1, 3, 2);
    assert_eq!(rows(&grid), vec![1, 5, 5]);
}

#[test]
fn placements_never_overlap() {
    let grid_width = 7;
    let grid_height = 5;
    let mut seed: u32 = 12345;
    for _ in 0..50 {
        let mut grid = Grid::new(grid_width, grid_height);
        let mut blocks: Vec<Block> = Vec::new();
        for _ in 0..40 {
            seed = seed.wrapping_mul(1664525).wrapping_add(1013904223);
            let width = (seed >> 16) % (grid_width + 1);
            seed = seed.wrapping_mul(1664525).wrapping_add(1013904223);
            let height = (seed >> 16) % (grid_height + 3);
            let block = place(&mut grid, width, height, grid_width, grid_height);
            assert!(block.col + block.width <= grid_width);
            assert!((block.row + block.height) as usize <= grid.row_count());
            for earlier in &blocks {
                assert!(!overlap(earlier, &block));
            }
            blocks.push(block);
        }
        for y in 0..grid.row_count() {
            assert!(grid.filled_width(y) <= grid_width);
        }
    }
}

#[test]
fn no_room_in_any_row_means_new_rows_at_column_zero() {
    let mut grid = Grid::new(6, 4);
    grid.find_space(5, 3);
    let before = grid.row_count();
    assert_eq!(before, 3);
    assert_eq!(grid.find_space(2, 2), (0, 3));
    assert_eq!(grid.row_count(), before + 2);
    assert_eq!(rows(&grid), vec![5, 5, 5, 2, 2]);
}
