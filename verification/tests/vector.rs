use silo::value::SqlValue;
use silo::vector::{FromRowType, RowRecord, ToRows, VecEntity};

fn text(s: &str) -> SqlValue {
    SqlValue::Text(s.to_string())
}

fn sample() -> VecEntity {
    VecEntity {
        key: SqlValue::Integer(31),
        scalars: vec![text("kept once per row")],
        vectors: vec![
            vec![text("hello"), text("world"), text("test")],
            vec![SqlValue::Integer(42)],
        ],
    }
}

#[test]
fn rows_follow_the_longest_vector() {
    let rows: Vec<RowRecord> = sample().to_rows();
    assert_eq!(rows.len(), 3);
    assert_eq!(rows[0].remaining, vec![3, 1]);
    assert_eq!(rows[1].remaining, vec![2, 0]);
    assert_eq!(rows[2].remaining, vec![1, 0]);
    assert!(rows[0].elements[1] == Some(SqlValue::Integer(42)));
    assert!(rows[1].elements[1].is_none());
    assert!(rows[2].elements[0] == Some(text("test")));
    assert!(rows[2].key == SqlValue::Integer(31));
    assert!(rows[2].scalars[0] == text("kept once per row"));
}

#[test]
fn vectors_of_differing_lengths_round_trip() {
    let rows: Vec<RowRecord> = sample().to_rows();
    let back = VecEntity::from_row_type(rows);
    assert_eq!(back.len(), 1);
    let want = sample();
    assert!(back[0].key == want.key);
    assert!(back[0].scalars == want.scalars);
    assert!(back[0].vectors == want.vectors);
}

#[test]
fn all_empty_vectors_give_no_rows() {
    let e = VecEntity { key: SqlValue::Integer(1), scalars: vec![], vectors: vec![vec![], vec![]] };
    let rows: Vec<RowRecord> = e.to_rows();
    assert!(rows.is_empty());
    assert!(VecEntity::from_row_type(rows).is_empty());
}

#[test]
fn one_empty_vector_still_gives_rows() {
    let e = VecEntity {
        key: SqlValue::Integer(1),
        scalars: vec![],
        vectors: vec![vec![], vec![text("a"), text("b")]],
    };
    let rows: Vec<RowRecord> = e.to_rows();
    assert_eq!(rows.len(), 2);
    assert!(rows[0].elements[0].is_none());
    assert!(rows[1].elements[0].is_none());
    let back = VecEntity::from_row_type(rows);
    assert_eq!(back.len(), 1);
    assert!(back[0].vectors[0].is_empty());
    assert!(back[0].vectors[1] == vec![text("a"), text("b")]);
}

#[test]
fn a_change_of_key_opens_a_new_group() {
    let mut rows: Vec<RowRecord> = sample().to_rows();
    let other = VecEntity {
        key: SqlValue::Integer(32),
        scalars: vec![text("second")],
        vectors: vec![vec![text("x")], vec![SqlValue::Integer(1), SqlValue::Integer(2)]],
    };
    let more: Vec<RowRecord> = other.to_rows();
    rows.extend(more);
    let back = VecEntity::from_row_type(rows);
    assert_eq!(back.len(), 2);
    assert!(back[0].key == SqlValue::Integer(31));
    assert!(back[1].key == SqlValue::Integer(32));
    assert!(back[1].vectors[1] == vec![SqlValue::Integer(1), SqlValue::Integer(2)]);
    assert!(back[1].scalars[0] == text("second"));
}

#[test]
fn rows_are_grouped_by_key_wherever_they_stand() {
    let first: Vec<RowRecord> = sample().to_rows();
    let other = VecEntity {
        key: SqlValue::Integer(32),
        scalars: vec![text("second")],
        vectors: vec![vec![text("x"), text("y")], vec![]],
    };
    let second: Vec<RowRecord> = other.to_rows();
    let mut mixed = Vec::new();
    let mut a = first.into_iter();
    let mut b = second.into_iter();
    mixed.push(a.next().unwrap());
    mixed.push(b.next().unwrap());
    mixed.push(a.next().unwrap());
    mixed.push(b.next().unwrap());
    mixed.push(a.next().unwrap());
    let back = silo::vector::group_by_key(&mixed);
    assert_eq!(back.len(), 2);
    assert!(back[0].key == SqlValue::Integer(31));
    assert!(back[0].vectors == sample().vectors);
    assert!(back[1].key == SqlValue::Integer(32));
    assert!(back[1].vectors == vec![vec![text("x"), text("y")], vec![]]);
    assert!(silo::vector::group_by_key(&Vec::new()).is_empty());
}

#[test]
fn a_row_record_stands_in_a_table_row() {
    let rows: Vec<RowRecord> = sample().to_rows();
    let values = rows[1].as_params().unwrap();
    assert!(
        values
            == vec![
                SqlValue::Integer(31),
                text("kept once per row"),
                text("world"),
                SqlValue::Null,
                SqlValue::Integer(2),
                SqlValue::Integer(0)
            ]
    );
    let back = RowRecord::try_from_row(&values, 1, 2).unwrap();
    assert!(back.key == rows[1].key);
    assert!(back.scalars == rows[1].scalars);
    assert!(back.elements == rows[1].elements);
    assert_eq!(back.remaining, rows[1].remaining);
    assert!(RowRecord::try_from_row(&values, 2, 2).is_none());
    assert!(RowRecord::try_from_row(&values, 1, 1).is_none());
    let mut bad = values.clone();
    bad[5] = SqlValue::Integer(-1);
    assert!(RowRecord::try_from_row(&bad, 1, 2).is_none());
    bad[5] = SqlValue::Null;
    assert!(RowRecord::try_from_row(&bad, 1, 2).is_none());
    let huge = RowRecord { key: SqlValue::Null, scalars: vec![], elements: vec![None], remaining: vec![usize::MAX] };
    assert!(huge.as_params().is_none());
}

#[test]
fn longest_and_records_follow_the_vectors() {
    let e = sample();
    assert_eq!(e.longest_len(), 3);
    let third = e.record(2);
    assert!(third.elements == vec![Some(text("test")), None]);
    assert_eq!(third.remaining, vec![1, 0]);
    let beyond = e.record(3);
    assert!(beyond.elements == vec![None, None]);
    assert_eq!(beyond.remaining, vec![0, 0]);
    let opened = third.open();
    assert!(opened.vectors == vec![vec![text("test")], vec![]]);
    let extended = opened.extend(&e.record(0));
    assert!(extended.vectors == vec![vec![text("test"), text("hello")], vec![SqlValue::Integer(42)]]);
}

#[test]
fn an_entity_round_trips_through_table_rows() {
    let rows = sample().to_table_rows().unwrap();
    assert_eq!(rows.len(), 3);
    assert!(
        rows[0]
            == vec![
                SqlValue::Integer(31),
                text("kept once per row"),
                text("hello"),
                SqlValue::Integer(42),
                SqlValue::Integer(3),
                SqlValue::Integer(1)
            ]
    );
    let back = VecEntity::from_table_rows(&rows, 1, 2).unwrap();
    assert_eq!(back.len(), 1);
    assert!(back[0].key == sample().key);
    assert!(back[0].scalars == sample().scalars);
    assert!(back[0].vectors == sample().vectors);
    assert!(VecEntity::from_table_rows(&rows, 2, 2).is_none());
    let records = silo::vector::read_records(&rows, 1, 2).unwrap();
    assert_eq!(records.len(), 3);
    assert_eq!(records[2].remaining, vec![1, 0]);
    assert!(silo::vector::read_records(&vec![vec![SqlValue::Null]], 1, 2).is_none());
}

#[test]
fn the_counter_says_whether_a_row_carries_an_element() {
    let with_null = vec![
        SqlValue::Integer(1),
        SqlValue::Null,
        SqlValue::Integer(9),
        SqlValue::Integer(2),
        SqlValue::Integer(0),
    ];
    let record = RowRecord::try_from_row(&with_null, 0, 2).unwrap();
    assert!(record.elements == vec![Some(SqlValue::Null), None]);
    assert_eq!(record.remaining, vec![2, 0]);
    let e = VecEntity {
        key: SqlValue::Integer(1),
        scalars: vec![],
        vectors: vec![vec![SqlValue::Null, text("x"), SqlValue::Null], vec![SqlValue::Null]],
    };
    let rows = e.to_table_rows().unwrap();
    let back = VecEntity::from_table_rows(&rows, 0, 2).unwrap();
    assert_eq!(back.len(), 1);
    assert!(back[0].vectors == vec![vec![SqlValue::Null, text("x"), SqlValue::Null], vec![SqlValue::Null]]);
}
