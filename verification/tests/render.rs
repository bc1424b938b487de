//! The fixed-width cells used to display the stack.

use cattywampus::render::make_entry;

#[test]
fn a_cell_is_space_text_padding_bar() {
    let mut row = String::new();
    make_entry(&mut row, "Int32", 6);
    assert_eq!(row, " Int32 |");
}

#[test]
fn a_cell_with_no_padding() {
    let mut row = String::new();
    make_entry(&mut row, "3", 1);
    assert_eq!(row, " 3|");
}

#[test]
fn cells_accumulate_into_a_row() {
    let mut types = String::new();
    let mut values = String::new();
    // The column is as wide as the longer of the two entries, plus one.
    make_entry(&mut types, "Int32", 6);
    make_entry(&mut values, "3", 6);
    make_entry(&mut types, "Float64", 8);
    make_entry(&mut values, "2.5", 8);
    assert_eq!(types, " Int32 | Float64 |");
    assert_eq!(values, " 3     | 2.5     |");
}
