use block_builder::line_block::LineBlockBuilder;

fn lines_of(rows: Vec<Vec<char>>) -> Vec<String> {
    rows.into_iter().map(|row| row.into_iter().collect()).collect()
}

#[test]
fn number_207_has_one_space_between_digits() {
    let mut line = LineBlockBuilder::new(1, '*', ' ');
    line.number(207);
    assert_eq!(
        lines_of(line.build_line()),
        vec!["*** *** ***", "  * * *   *", "*** * *   *", "*  * *  *", "******  *"]
    );
}

#[test]
fn single_digit_number_has_no_space() {
    let mut line = LineBlockBuilder::new(1, '#', '.');
    line.number(0);
    assert_eq!(lines_of(line.build_line()), vec!["###", "#.#", "#.#", "#.#", "###"]);
}

#[test]
fn digit_methods_and_separator_follow_each_other() {
    let mut line = LineBlockBuilder::new(1, '#', '.');
    line.one().seperator().two();
    assert_eq!(
        lines_of(line.build_line()),
        vec!["..#...###", "..#.#...#", "..#...###", "..#.#.#..", "..#...###"]
    );
}

#[test]
fn line_is_drawn_at_its_block_size() {
    let mut line = LineBlockBuilder::new(2, '#', '.');
    line.seven().space();
    assert_eq!(
        lines_of(line.build_line()),
        vec![
            "######..", "######..", "....##..", "....##..", "....##..", "....##..", "....##",
            "....##", "....##", "....##",
        ]
    );
}

#[test]
fn empty_line_has_no_rows() {
    let line: LineBlockBuilder<char> = LineBlockBuilder::new(1, '#', '.');
    assert!(line.build_line().is_empty());
}

#[test]
fn every_digit_method_draws_its_digit() {
    let mut line = LineBlockBuilder::new(1, '#', '.');
    line.three().four().five().six().eight().nine();
    let rows = lines_of(line.build_line());
    assert_eq!(rows[0], "####.#############");
    assert_eq!(rows[4], "###..#############");
}

#[test]
fn largest_number_has_ten_digits() {
    let mut line = LineBlockBuilder::new(1, '#', '.');
    line.number(u32::MAX);
    let rows = lines_of(line.build_line());
    assert_eq!(rows.len(), 5);
    assert_eq!(rows[0].len(), 10 * 3 + 9);
    assert_eq!(rows[4].len(), 10 * 3);
}
