use twitter_clone::decode::{decode_tweet_row, decode_tweet_rows, Cell, DecodeError, Row};
use twitter_clone::time::stored_time;

fn good_row() -> Row {
    Row {
        columns: vec![
            Some(Cell::Uuid(5)),
            Some(Cell::Uuid(6)),
            Some(Cell::Text("hello".to_string())),
            Some(Cell::Timestamp(1_700_000_000_123)),
        ],
    }
}

#[test]
fn decodes_a_well_typed_row() {
    let t = decode_tweet_row(&good_row()).unwrap();
    assert_eq!(t.tweet_id, 5);
    assert_eq!(t.user_id, 6);
    assert_eq!(t.content, "hello");
    assert_eq!(t.created_at, 1_700_000_000_123);
}

#[test]
fn names_the_first_bad_column() {
    for k in 0..4usize {
        let mut row = good_row();
        row.columns[k] = Some(Cell::Other);
        assert_eq!(decode_tweet_row(&row), Err(DecodeError { column: k }));
    }
    let mut row = good_row();
    row.columns[2] = None;
    row.columns[3] = None;
    assert_eq!(decode_tweet_row(&row), Err(DecodeError { column: 2 }));
    let short = Row { columns: vec![Some(Cell::Uuid(1)), Some(Cell::Uuid(2))] };
    assert_eq!(decode_tweet_row(&short), Err(DecodeError { column: 2 }));
    assert_eq!(decode_tweet_row(&Row { columns: vec![] }), Err(DecodeError { column: 0 }));
}

#[test]
fn decoding_rows_fails_on_first_bad_row() {
    let mut bad = good_row();
    bad.columns[1] = Some(Cell::Timestamp(3));
    assert_eq!(decode_tweet_rows(&vec![good_row(), bad, good_row()]), Err(DecodeError { column: 1 }));
    assert_eq!(decode_tweet_rows(&vec![good_row(), good_row()]).unwrap().len(), 2);
    assert_eq!(decode_tweet_rows(&vec![]).unwrap().len(), 0);
}

#[test]
fn stored_time_reads_back() {
    assert_eq!(stored_time(0), 0);
    assert_eq!(stored_time(1_500), 1_500);
    assert_eq!(stored_time(1_700_000_000_999), 1_700_000_000_999);
    assert_eq!(stored_time(-2_000), -2_000);
    assert_eq!(stored_time(-1_500), 0);
    assert_eq!(stored_time(-1), 0);
    assert_eq!(stored_time(i64::MAX), 0);
}
