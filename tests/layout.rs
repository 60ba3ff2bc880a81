use kith::layout::{ColumnLayout, Columns, DecodeError, Lines, COLUMN_COUNT};

const SEPARATOR: &str = "---- ----------- -------- ------------- --- ------------- -------------- ------ -------";

#[test]
fn separator_with_double_spaces_gives_three_widths() {
    let layout = ColumnLayout::build_for("----  -------  ----", 3).unwrap();
    assert_eq!(layout.len(), 3);
    assert_eq!(layout.bounds(0), Ok((0, 4)));
    assert_eq!(layout.bounds(1), Ok((5, 12)));
    assert_eq!(layout.bounds(2), Ok((13, 17)));
}

#[test]
fn three_column_example_slices_by_layout_offsets() {
    // Widths 4, 7, 4 put the columns at bytes [0, 4), [5, 12) and [13, 17),
    // counting one space after each column; the row's words do not fit them.
    let layout = ColumnLayout::build_for("----  -------  ----", 3).unwrap();
    let row = "name1 descrip protoX";
    assert_eq!(layout.field(row, 0), Ok("name".to_string()));
    assert_eq!(layout.field(row, 1), Ok("descri".to_string()));
    assert_eq!(layout.field(row, 2), Ok("pro".to_string()));
}

#[test]
fn three_column_example_with_fitting_values() {
    let layout = ColumnLayout::build_for("-----  -------  ------", 3).unwrap();
    let row = "name1 descrip protoX";
    assert_eq!(layout.field(row, 0), Ok("name1".to_string()));
    assert_eq!(layout.field(row, 1), Ok("descrip".to_string()));
    assert_eq!(layout.field(row, 2), Ok("protoX".to_string()));
}

#[test]
fn offsets_increase_and_spans_do_not_overlap() {
    let layout = ColumnLayout::build(SEPARATOR).unwrap();
    assert_eq!(layout.len(), COLUMN_COUNT);
    let mut previous_end: Option<usize> = None;
    for i in 0..COLUMN_COUNT {
        let (start, end) = layout.bounds(i).unwrap();
        assert!(start < end);
        if let Some(e) = previous_end {
            assert_eq!(start, e + 1);
        }
        previous_end = Some(end);
    }
    assert_eq!(layout.bounds(8), Ok((80, 87)));
}

#[test]
fn start_offset_counts_one_space_per_earlier_column() {
    let layout = ColumnLayout::build_for("- -- ---", 3).unwrap();
    assert_eq!(layout.bounds(0), Ok((0, 1)));
    assert_eq!(layout.bounds(1), Ok((2, 4)));
    assert_eq!(layout.bounds(2), Ok((5, 8)));
}

#[test]
fn wrong_run_count_is_malformed_separator() {
    assert_eq!(ColumnLayout::build("---- ----").err(), Some(DecodeError::MalformedSeparator));
    assert_eq!(ColumnLayout::build("").err(), Some(DecodeError::MalformedSeparator));
    assert_eq!(ColumnLayout::build_for("-- --", 3).err(), Some(DecodeError::MalformedSeparator));
}

#[test]
fn leading_and_trailing_spaces_are_not_runs() {
    let layout = ColumnLayout::build_for("  --- --  ", 2).unwrap();
    assert_eq!(layout.bounds(0), Ok((0, 3)));
    assert_eq!(layout.bounds(1), Ok((4, 6)));
}

#[test]
fn unknown_column_index() {
    let layout = ColumnLayout::build_for("--- --", 2).unwrap();
    assert_eq!(layout.bounds(2), Err(DecodeError::UnknownColumn));
    assert_eq!(layout.field("abc de", 7), Err(DecodeError::UnknownColumn));
}

#[test]
fn short_row_is_row_too_short() {
    let layout = ColumnLayout::build_for("--- -----", 2).unwrap();
    assert_eq!(layout.field("abc de", 1), Err(DecodeError::RowTooShort));
    assert_eq!(layout.field("abc de", 0), Ok("abc".to_string()));
    assert_eq!(layout.field("abc defgh", 1), Ok("defgh".to_string()));
}

#[test]
fn span_inside_a_character_is_split_character() {
    // "é" takes two bytes, so a one-byte column ends inside it.
    let layout = ColumnLayout::build_for("- --", 2).unwrap();
    assert_eq!(layout.field("éa b", 0), Err(DecodeError::SplitCharacter));
    let wide = ColumnLayout::build_for("-- --", 2).unwrap();
    assert_eq!(wide.field("é ab", 0), Ok("é".to_string()));
}

#[test]
fn fields_are_trimmed() {
    let layout = ColumnLayout::build_for("------ ---", 2).unwrap();
    assert_eq!(layout.field("  ab   x  ", 0), Ok("ab".to_string()));
    assert_eq!(layout.field("  ab   x  ", 1), Ok("x".to_string()));
    assert_eq!(layout.field("       \t  ", 1), Ok("".to_string()));
}

#[test]
fn column_order_and_titles() {
    assert_eq!(Columns::Name.to_usize(), 0);
    assert_eq!(Columns::AllowedUsers.to_usize(), 5);
    assert_eq!(Columns::Labels.to_usize(), 7);
    assert_eq!(Columns::Connect.to_usize(), 8);
    assert_eq!(Columns::DatabaseType.to_string(), "Database Type");
    assert_eq!(Columns::Uri.to_string(), "URI");
    assert_eq!(Lines::Separators.to_usize(), 1);
    assert_eq!(Lines::FirstEntry.to_usize(), 2);
}
