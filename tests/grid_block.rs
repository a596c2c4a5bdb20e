use block_builder::ascii_art_lib::{build_1, build_4, build_double_point};
use block_builder::grid_block::{BlockGridBuilder, GridBlock};

fn rows_of(grid: &GridBlock<char>) -> Vec<String> {
    grid.iter().into_iter().map(|row| row.iter().collect()).collect()
}

fn create_base_nine() -> BlockGridBuilder<char> {
    let mut block = BlockGridBuilder::with_default(' ');
    block
        .blocks_in_y(5)
        .blocks_in_x(3)
        .block_size(1)
        .set_block_sector(0, 0, '*')
        .set_block_sector(1, 0, '*')
        .set_block_sector(2, 0, '*')
        .set_block_sector(0, 1, '*')
        .set_block_sector(2, 1, '*')
        .set_block_sector(0, 2, '*')
        .set_block_sector(1, 2, '*')
        .set_block_sector(2, 2, '*')
        .set_block_sector(2, 3, '*')
        .set_block_sector(0, 4, '*')
        .set_block_sector(1, 4, '*')
        .set_block_sector(2, 4, '*');
    block
}

#[test]
fn should_get_row_at() {
    let block = BlockGridBuilder::with_default(' ')
        .block_size(2)
        .blocks_in_x(3)
        .blocks_in_y(3)
        .set_block_sector(0, 0, '*')
        .set_block_sector(2, 0, '^')
        .set_block_sector(0, 1, 'x')
        .build();

    let row = block.get_row_at(0).expect("No zeroth row for given block in test");
    let third_row = block.get_row_at(2).expect("No zeroth row for given block in test");

    assert_eq!(row, &['*', '*', ' ', ' ', '^', '^']);
    assert_eq!(third_row, &['x', 'x', ' ', ' ', ' ', ' ']);
}

#[test]
fn should_traverse_from_top_left_to_bottom_right() {
    let one = build_1(" ", "*").build();
    let double_point = build_double_point(" ", "x").build();
    let four = build_4(" ", "*").build();

    let actual: Vec<String> = GridBlock::iter_top_left_bottom_right(&vec![one, double_point, four], 5)
        .into_iter()
        .map(|line| {
            line.into_iter()
                .map(|symbol| symbol.to_string())
                .collect::<Vec<String>>()
                .join("")
        })
        .collect();

    assert_eq!(
        actual,
        vec!["  *   * *", "  * x * *", "  *   ***", "  * x   *", "  *     *"]
    );
}

#[test]
fn should_set_sectors() {
    let block = BlockGridBuilder::with_default(' ')
        .blocks_in_y(3)
        .blocks_in_x(4)
        .block_size(2)
        .set_block_sector(0, 0, '*')
        .set_block_sector(1, 0, '*')
        .set_block_sector(2, 0, '*')
        .set_block_sector(2, 1, '*')
        .set_block_sector(2, 2, '*')
        .set_block_sector(3, 0, '*')
        .set_block_sector(0, 1, '*')
        .build();

    assert_eq!(
        rows_of(&block),
        vec!["********", "********", "**  **  ", "**  **  ", "    **  ", "    **  "]
    );
}

#[test]
fn doc_test() {
    let block_grid = BlockGridBuilder::with_default(' ')
        .block_size(2)
        .blocks_in_x(3)
        .blocks_in_y(3)
        .set_block_sector(0, 0, '*')
        .set_block_sector(2, 2, '*')
        .build();

    let mut rows: Vec<Vec<char>> = Vec::new();
    for row in block_grid.iter() {
        let mut to_push: Vec<char> = Vec::new();
        for &column in row {
            to_push.push(column);
        }
        rows.push(to_push);
    }

    assert_eq!(
        rows,
        vec![
            ['*', '*', ' ', ' ', ' ', ' '],
            ['*', '*', ' ', ' ', ' ', ' '],
            [' ', ' ', ' ', ' ', ' ', ' '],
            [' ', ' ', ' ', ' ', ' ', ' '],
            [' ', ' ', ' ', ' ', '*', '*'],
            [' ', ' ', ' ', ' ', '*', '*'],
        ]
    )
}

#[test]
fn should_should_produce_nine() {
    let block = create_base_nine().build();
    assert_eq!(rows_of(&block), vec!["***", "* *", "***", "  *", "***"]);
}

#[test]
fn should_should_produce_nine_x3() {
    let block = create_base_nine().block_size(3).build();
    assert_eq!(
        rows_of(&block),
        vec![
            "*********",
            "*********",
            "*********",
            "***   ***",
            "***   ***",
            "***   ***",
            "*********",
            "*********",
            "*********",
            "      ***",
            "      ***",
            "      ***",
            "*********",
            "*********",
            "*********",
        ]
    );
}

#[test]
fn build_size_is_block_size_times_blocks() {
    let grid = BlockGridBuilder::with_default(0u8)
        .block_size(3)
        .blocks_in_x(4)
        .blocks_in_y(2)
        .build();
    assert_eq!(grid.width(), 12);
    assert_eq!(grid.height(), 6);
}

#[test]
fn default_builder_is_single_cell() {
    let grid = BlockGridBuilder::with_default('d').build();
    assert_eq!(grid.width(), 1);
    assert_eq!(grid.height(), 1);
    assert_eq!(grid.get(0, 0), Some(&'d'));
}

#[test]
fn uncovered_cells_keep_default() {
    let grid = BlockGridBuilder::with_default('.')
        .block_size(2)
        .blocks_in_x(3)
        .blocks_in_y(2)
        .set_block_sector(1, 1, '#')
        .build();
    for y in 0..4 {
        for x in 0..6 {
            let covered = (2..4).contains(&x) && (2..4).contains(&y);
            let want = if covered { '#' } else { '.' };
            assert_eq!(grid.get(x, y), Some(&want));
        }
    }
}

#[test]
fn last_write_wins() {
    let grid = BlockGridBuilder::with_default('.')
        .block_size(2)
        .blocks_in_x(2)
        .blocks_in_y(2)
        .set_block_sector(1, 0, 'a')
        .set_block_sector(1, 0, 'b')
        .build();
    assert_eq!(rows_of(&grid), vec!["..bb", "..bb", "....", "...."]);
}

#[test]
fn bulk_sectors_equal_single_sectors() {
    let bulk = BlockGridBuilder::with_default('.')
        .blocks_in_x(3)
        .blocks_in_y(2)
        .set_bulk_sectors('#', &[(0, 0), (2, 1)])
        .build();
    let single = BlockGridBuilder::with_default('.')
        .blocks_in_x(3)
        .blocks_in_y(2)
        .set_block_sector(0, 0, '#')
        .set_block_sector(2, 1, '#')
        .build();
    assert_eq!(rows_of(&bulk), rows_of(&single));
    assert_eq!(rows_of(&bulk), vec!["#..", "..#"]);
}

#[test]
fn reset_sectors_gives_default_grid() {
    let mut builder = BlockGridBuilder::with_default('.');
    builder
        .block_size(2)
        .blocks_in_x(2)
        .blocks_in_y(1)
        .set_block_sector(0, 0, '#')
        .set_block_sector(1, 0, '#');
    let reset = builder.reset_sectors().build();
    let fresh = BlockGridBuilder::with_default('.')
        .block_size(2)
        .blocks_in_x(2)
        .blocks_in_y(1)
        .build();
    assert_eq!(rows_of(&reset), rows_of(&fresh));
    assert_eq!(rows_of(&reset), vec!["....", "...."]);
}

#[test]
fn one_axis_without_blocks_gives_empty_grid() {
    let grid = BlockGridBuilder::with_default('.').blocks_in_y(0).blocks_in_x(2).build();
    assert_eq!(grid.width(), 2);
    assert_eq!(grid.height(), 0);
    assert_eq!(grid.get(0, 0), None);
    assert!(grid.iter().is_empty());
}

#[test]
fn reads_out_of_bounds_are_absent() {
    let grid = BlockGridBuilder::with_default('.').blocks_in_x(2).blocks_in_y(3).build();
    assert_eq!(grid.get(2, 0), None);
    assert_eq!(grid.get(0, 3), None);
    assert_eq!(grid.get(1, 2), Some(&'.'));
    assert!(grid.get_row_at(3).is_none());
    assert_eq!(grid.get_row_at(2), Some(&['.', '.'][..]));
}

#[test]
fn row_stitching_concatenates_rows() {
    let g1 = BlockGridBuilder::with_default('.')
        .blocks_in_x(1)
        .blocks_in_y(2)
        .set_block_sector(0, 0, 'a')
        .build();
    let g2 = BlockGridBuilder::with_default('.')
        .blocks_in_x(2)
        .blocks_in_y(2)
        .set_block_sector(0, 0, 'b')
        .set_block_sector(1, 0, 'c')
        .build();
    let grids = vec![g1, g2];
    let row: Vec<char> = GridBlock::iter_along_x_axis(&grids, 0).into_iter().copied().collect();
    assert_eq!(row, vec!['a', 'b', 'c']);
    let below: Vec<char> = GridBlock::iter_along_x_axis(&grids, 1).into_iter().copied().collect();
    assert_eq!(below, vec!['.', '.', '.']);
    assert!(GridBlock::iter_along_x_axis(&grids, 2).is_empty());
}

#[test]
fn ragged_heights_add_nothing_below() {
    let a = BlockGridBuilder::with_default('a').blocks_in_x(1).blocks_in_y(3).build();
    let b = BlockGridBuilder::with_default('b').blocks_in_x(1).blocks_in_y(1).build();
    let grids = vec![a, b];
    assert_eq!(GridBlock::max_height(&grids), 3);
    let rows: Vec<Vec<char>> = GridBlock::iter_top_left_bottom_right(&grids, 3)
        .into_iter()
        .map(|row| row.into_iter().copied().collect())
        .collect();
    assert_eq!(rows, vec![vec!['a', 'b'], vec!['a'], vec!['a']]);
}

#[test]
fn max_height_of_no_grids_is_zero() {
    let grids: Vec<GridBlock<char>> = Vec::new();
    assert_eq!(GridBlock::max_height(&grids), 0);
    assert!(GridBlock::iter_top_left_bottom_right(&grids, 2).iter().all(|row| row.is_empty()));
}

#[test]
fn default_builder_uses_default_value() {
    let grid = BlockGridBuilder::<u8>::default().build();
    assert_eq!(grid.width(), 1);
    assert_eq!(grid.height(), 1);
    assert_eq!(grid.get(0, 0), Some(&0));
}
