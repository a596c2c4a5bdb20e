use block_builder::ascii_art_lib::{
    build_0, build_1, build_2, build_3, build_4, build_5, build_6, build_7, build_8, build_9,
    build_digit, build_double_point, build_space, build_thin_number_base,
};
use block_builder::grid_block::GridBlock;

fn rows_of(grid: &GridBlock<char>) -> Vec<String> {
    grid.iter().into_iter().map(|row| row.iter().collect()).collect()
}

#[test]
fn should_build_1() {
    let one = build_1(' ', '*').build();
    assert_eq!(rows_of(&one), vec!["  *", "  *", "  *", "  *", "  *"]);
}

#[test]
fn should_build_2() {
    let two = build_2(' ', '*').build();
    assert_eq!(rows_of(&two), vec!["***", "  *", "***", "*  ", "***"]);
}

#[test]
fn should_build_3() {
    let two = build_3(' ', '*').build();
    assert_eq!(rows_of(&two), vec!["***", "  *", "***", "  *", "***"]);
}

#[test]
fn should_build_4() {
    let four = build_4(' ', '*').build();
    assert_eq!(rows_of(&four), vec!["* *", "* *", "***", "  *", "  *"]);
}

#[test]
fn should_build_5() {
    let five = build_5(' ', '*').build();
    assert_eq!(rows_of(&five), vec!["***", "*  ", "***", "  *", "***"]);
}

#[test]
fn should_build_6() {
    let six = build_6(' ', '*').build();
    assert_eq!(rows_of(&six), vec!["***", "*  ", "***", "* *", "***"]);
}

#[test]
fn should_build_7() {
    let seven = build_7(' ', '*').build();
    assert_eq!(rows_of(&seven), vec!["***", "  *", "  *", "  *", "  *"]);
}

#[test]
fn should_build_8() {
    let eight = build_8(' ', '*').build();
    assert_eq!(rows_of(&eight), vec!["***", "* *", "***", "* *", "***"]);
}

#[test]
fn should_build_9() {
    let nine = build_9(' ', '*').build();
    assert_eq!(rows_of(&nine), vec!["***", "* *", "***", "  *", "***"]);
}

#[test]
fn should_build_0() {
    let zero = build_0(' ', '*').build();
    assert_eq!(rows_of(&zero), vec!["***", "* *", "* *", "* *", "***"]);
}

#[test]
fn should_build_double_point() {
    let double_point = build_double_point(' ', '*').build();
    assert_eq!(rows_of(&double_point), vec!["   ", " * ", "   ", " * ", "   "]);
}

#[test]
fn should_space() {
    let space = build_space(' ').build();
    assert_eq!(rows_of(&space), vec![" ", " ", " "]);
    assert_eq!(space.width(), 1);
    assert_eq!(space.height(), 3);
}

#[test]
fn digit_one_glyph_is_right_column() {
    let one = build_1(' ', '*').build();
    assert_eq!(one.width(), 3);
    assert_eq!(one.height(), 5);
    for y in 0..5 {
        assert_eq!(one.get(0, y), Some(&' '));
        assert_eq!(one.get(1, y), Some(&' '));
        assert_eq!(one.get(2, y), Some(&'*'));
    }
}

#[test]
fn thin_number_base_is_blank() {
    let base = build_thin_number_base('.').build();
    assert_eq!(rows_of(&base), vec!["...", "...", "...", "...", "..."]);
}

#[test]
fn build_digit_matches_each_digit_function() {
    let by_function = [
        build_0('.', '#').build(),
        build_1('.', '#').build(),
        build_2('.', '#').build(),
        build_3('.', '#').build(),
        build_4('.', '#').build(),
        build_5('.', '#').build(),
        build_6('.', '#').build(),
        build_7('.', '#').build(),
        build_8('.', '#').build(),
        build_9('.', '#').build(),
    ];
    for d in 0..10u8 {
        let grid = build_digit(d, '.', '#').build();
        assert_eq!(rows_of(&grid), rows_of(&by_function[d as usize]));
    }
}

#[test]
fn glyph_scales_with_block_size() {
    let seven = build_7(' ', '*').block_size(2).build();
    assert_eq!(
        rows_of(&seven),
        vec!["******", "******", "    **", "    **", "    **", "    **", "    **", "    **", "    **", "    **"]
    );
}
