use mongo_odbc::columnar::{BufferError, ColumnBuffer, ColumnarBuffer, TextColumn, TextRowSet};
use mongo_odbc::transfer::Indicator;

#[test]
fn text_row_set_from_lengths() {
    let mut set = TextRowSet::from_max_str_lens(3, &vec![4, 2]).unwrap();
    assert_eq!(0, set.num_rows());
    assert_eq!(2, set.num_cols());
    assert_eq!(3, set.row_array_size());
    assert_eq!(4, set.max_len(0));
    assert_eq!(2, set.max_len(1));
    set.set_value(0, 0, Some(b"abcd"));
    set.set_value(1, 0, Some(b"x"));
    set.set_value(0, 1, None);
    set.set_value(1, 1, Some(&[0xff, 0xfe]));
    set.set_num_rows(2);
    assert_eq!(2, set.num_rows());
    assert_eq!(Some(&b"abcd"[..]), set.at(0, 0));
    assert_eq!(Some("x"), set.at_as_str(1, 0).unwrap());
    assert_eq!(None, set.at(0, 1));
    assert_eq!(Ok(None), set.at_as_str(0, 1));
    assert!(set.at_as_str(1, 1).is_err());
    assert_eq!(Indicator::Length(4), set.indicator_at(0, 0));
    assert_eq!(Indicator::Null, set.indicator_at(0, 1));
    let view = set.column(1);
    assert_eq!(vec![Some(b"x".to_vec()), Some(vec![0xff, 0xfe])], view.rows);
}

#[test]
fn text_row_set_for_cursor_bounds_lengths() {
    let set = TextRowSet::for_cursor(10, &vec![100, 3, 4096], Some(50)).unwrap();
    assert_eq!(50, set.max_len(0));
    assert_eq!(3, set.max_len(1));
    assert_eq!(50, set.max_len(2));
    let set = TextRowSet::for_cursor(10, &vec![100], None).unwrap();
    assert_eq!(100, set.max_len(0));
}

#[test]
fn too_large_column_is_reported() {
    let r = TextRowSet::for_cursor(4, &vec![1, 1 << 62], None);
    match r {
        Err(BufferError::TooLargeColumnBufferSize { buffer_index, num_elements, .. }) => {
            assert_eq!(1, buffer_index);
            assert_eq!(4, num_elements);
        }
        Ok(_) => panic!("expected an error"),
    }
}

#[test]
fn columnar_buffer_takes_least_capacity() {
    let a = TextColumn::try_new(5, 2).unwrap();
    let b = TextColumn::try_new(3, 2).unwrap();
    assert_eq!(5, a.capacity());
    let mut set: ColumnarBuffer<TextColumn> = ColumnarBuffer::new(vec![(1, a), (2, b)]);
    assert_eq!(3, set.row_array_size());
    set.set_num_rows(3);
    assert_eq!(Indicator::Length(0), set.indicator_at(1, 2));
    assert_eq!(Some(&b""[..]), set.at(1, 2));
}

#[test]
fn fill_default_nulls_rows() {
    let mut c = TextColumn::try_new(4, 3).unwrap();
    c.set_value(0, Some(b"abc"));
    c.fill_default(1, 3);
    assert_eq!(Some(&b"abc"[..]), c.value_at(0));
    assert_eq!(None, c.value_at(1));
    assert_eq!(None, c.value_at(2));
    assert_eq!(Some(&b""[..]), c.value_at(3));
    assert_eq!(Indicator::Null, c.indicator_at(2));
}
