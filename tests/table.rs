use csv_editor::text::{join_strings, padded, quoted, split_line};
use csv_editor::{delete_row, display_data, modify_row, paginate_data, CSVData, EditError};

fn lines(ls: &[&str]) -> Vec<String> {
    ls.iter().map(|s| s.to_string()).collect()
}

fn strings(ls: &[&str]) -> Vec<String> {
    lines(ls)
}

fn sample() -> CSVData {
    CSVData::from_lines(&lines(&["a,b,c", "1,2,3"]))
}

#[test]
fn load_splits_and_trims() {
    let t = CSVData::from_lines(&lines(&[" a , b,c ", "1,2"]));
    assert_eq!(t.rows()[0], strings(&["a", "b", "c"]));
    assert_eq!(t.rows()[1], strings(&["1", "2"]));
    assert_eq!(t.row_count(), 2);
    assert_eq!(t.col_count(), 3);
}

#[test]
fn load_empty_input() {
    let t = CSVData::from_lines(&Vec::new());
    assert_eq!(t.row_count(), 0);
    assert_eq!(t.col_count(), 0);
    assert!(t.to_lines().is_empty());
}

#[test]
fn round_trip_plain_lines_unchanged() {
    let input = lines(&["a,b,c", "1,2,3", "x,,y", ""]);
    let t = CSVData::from_lines(&input);
    assert_eq!(t.to_lines(), input);
}

#[test]
fn round_trip_only_trims() {
    let t = CSVData::from_lines(&lines(&["  a ,\tb,c  ", " 1 , 2 , 3"]));
    assert_eq!(t.to_lines(), lines(&["a,b,c", "1,2,3"]));
}

#[test]
fn trim_removes_unicode_white_space() {
    assert_eq!(split_line("\u{3000}x\u{a0}, y\n"), strings(&["x", "y"]));
}

#[test]
fn split_line_keeps_empty_pieces() {
    assert_eq!(split_line(""), strings(&[""]));
    assert_eq!(split_line(",a,"), strings(&["", "a", ""]));
}

#[test]
fn join_and_quote_and_pad() {
    assert_eq!(join_strings(&strings(&["a", "b", "c"]), "| "), "a| b| c");
    assert_eq!(join_strings(&[], ","), "");
    assert_eq!(quoted("yolo"), "\"yolo\"");
    assert_eq!(padded("ab", 5), "ab   ");
    assert_eq!(padded("ab", 2), "ab");
}

#[test]
fn modify_cell_then_delete_first_row() {
    let mut t = sample();
    assert_eq!(t.modify(2, Some(2), strings(&["X"])), Ok(()));
    assert_eq!(t.rows()[1], strings(&["1", "\"X\"", "3"]));
    assert_eq!(t.to_lines(), lines(&["a,b,c", "1,\"X\",3"]));
    assert_eq!(t.delete(1), Ok(()));
    assert_eq!(t.row_count(), 1);
    assert_eq!(t.to_lines(), lines(&["1,\"X\",3"]));
}

#[test]
fn modify_whole_row_quotes_every_value() {
    let mut t = sample();
    assert_eq!(modify_row(&mut t, 1, None, strings(&["x", "y", "z"])), Ok(()));
    assert_eq!(t.to_lines(), lines(&["\"x\",\"y\",\"z\"", "1,2,3"]));
}

#[test]
fn modify_row_out_of_bound() {
    let mut t = sample();
    assert_eq!(t.modify(0, Some(1), strings(&["v"])), Err(EditError::RowIndexOutOfBound));
    assert_eq!(t.modify(3, None, strings(&["v", "w", "x"])), Err(EditError::RowIndexOutOfBound));
    assert_eq!(t.to_lines(), lines(&["a,b,c", "1,2,3"]));
}

#[test]
fn modify_column_out_of_bound() {
    let mut t = sample();
    assert_eq!(t.modify(1, Some(0), strings(&["v"])), Err(EditError::ColumnIndexOutOfBound));
    assert_eq!(t.modify(1, Some(4), strings(&["v"])), Err(EditError::ColumnIndexOutOfBound));
    assert_eq!(t.to_lines(), lines(&["a,b,c", "1,2,3"]));
}

#[test]
fn modify_cell_with_two_values() {
    let mut t = sample();
    assert_eq!(t.modify(1, Some(1), strings(&["v", "w"])), Err(EditError::ValueLengthMismatch));
    assert_eq!(t.modify(1, Some(9), strings(&[])), Err(EditError::ValueLengthMismatch));
    assert_eq!(t.to_lines(), lines(&["a,b,c", "1,2,3"]));
}

#[test]
fn modify_row_with_wrong_count() {
    let mut t = sample();
    assert_eq!(t.modify(2, None, strings(&["v", "w"])), Err(EditError::ReplacementLengthMismatch));
    assert_eq!(t.to_lines(), lines(&["a,b,c", "1,2,3"]));
}

#[test]
fn modify_row_uses_its_own_length() {
    let mut t = CSVData::from_lines(&lines(&["a,b,c", "1"]));
    assert_eq!(t.modify(2, None, strings(&["z"])), Ok(()));
    assert_eq!(t.to_lines(), lines(&["a,b,c", "\"z\""]));
}

#[test]
fn delete_middle_row_keeps_order() {
    let mut t = CSVData::from_lines(&lines(&["a", "b", "c"]));
    assert_eq!(delete_row(&mut t, 2), Ok(()));
    assert_eq!(t.row_count(), 2);
    assert_eq!(t.to_lines(), lines(&["a", "c"]));
}

#[test]
fn delete_out_of_bound() {
    let mut t = sample();
    assert_eq!(t.delete(0), Err(EditError::RowIndexOutOfBound));
    assert_eq!(t.delete(3), Err(EditError::RowIndexOutOfBound));
    assert_eq!(t.row_count(), 2);
    assert_eq!(t.to_lines(), lines(&["a,b,c", "1,2,3"]));
}

#[test]
fn display_pads_to_column_widths() {
    let t = CSVData::from_lines(&lines(&["name,age", "bob,7"]));
    assert_eq!(t.calculate_max_col_width(), vec![4, 3]);
    assert_eq!(display_data(&t), Some(lines(&["name| age", "bob | 7  "])));
}

#[test]
fn format_row_pads_each_cell() {
    let t = sample();
    assert_eq!(t.format_row(&strings(&["a", "bb"]), &[3, 2]), "a  | bb");
}

#[test]
fn paginate_first_row_uses_all_widths() {
    let t = CSVData::from_lines(&lines(&["a,b", "ccc,dd"]));
    assert_eq!(paginate_data(&t, 1, 1), Some(lines(&["a  | b "])));
}

#[test]
fn paginate_clamps_end() {
    let t = CSVData::from_lines(&lines(&["a", "b", "c"]));
    assert_eq!(t.paginate(2, 10), Some(lines(&["b", "c"])));
    assert_eq!(t.paginate(2, usize::MAX), Some(lines(&["b", "c"])));
}

#[test]
fn paginate_empty_ranges() {
    let t = CSVData::from_lines(&lines(&["a", "b", "c"]));
    assert_eq!(t.paginate(0, 2), Some(Vec::new()));
    assert_eq!(t.paginate(4, 5), Some(Vec::new()));
    assert_eq!(t.paginate(3, 2), Some(Vec::new()));
}

#[test]
fn display_refuses_rows_longer_than_first() {
    let t = CSVData::from_lines(&lines(&["a", "b,c"]));
    assert_eq!(t.display(), None);
    assert_eq!(t.paginate(1, 1), None);
}

#[test]
fn display_accepts_shorter_rows() {
    let t = CSVData::from_lines(&lines(&["aa,b", "c"]));
    assert_eq!(t.display(), Some(lines(&["aa| b", "c "])));
}

#[test]
fn error_messages_name_the_kind() {
    assert_eq!(EditError::RowIndexOutOfBound.message(), "Row index out of bound");
    assert_eq!(EditError::ColumnIndexOutOfBound.message(), "Column index out of bound");
    assert_eq!(EditError::ValueLengthMismatch.message(), "Provided values length mismatch");
    assert_eq!(EditError::ReplacementLengthMismatch.message(), "Replacement values length mismatch");
}
