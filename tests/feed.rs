use twitter_clone::decode::{Cell, Row};
use twitter_clone::feed::{assemble_feed, feed_ids, hydrate, keep_newest, FEED_LIMIT};
use twitter_clone::models::{StoreError, Tweet};

fn tweet_row(id: u128, owner: u128, text: &str, at: i64) -> Row {
    Row {
        columns: vec![
            Some(Cell::Uuid(id)),
            Some(Cell::Uuid(owner)),
            Some(Cell::Text(text.to_string())),
            Some(Cell::Timestamp(at)),
        ],
    }
}

fn tweet(id: u128, at: i64) -> Tweet {
    Tweet { tweet_id: id, user_id: 7, content: format!("post {}", id), created_at: at }
}

#[test]
fn feed_ids_skip_rows_without_identifier() {
    let rows = vec![
        Row { columns: vec![Some(Cell::Uuid(1))] },
        Row { columns: vec![None] },
        Row { columns: vec![Some(Cell::Text("x".to_string()))] },
        Row { columns: vec![] },
        Row { columns: vec![Some(Cell::Uuid(2))] },
    ];
    assert_eq!(feed_ids(&rows, 20), vec![1, 2]);
}

#[test]
fn feed_ids_stop_at_limit() {
    let rows: Vec<Row> = (0..30u128).map(|i| Row { columns: vec![Some(Cell::Uuid(i))] }).collect();
    let ids = feed_ids(&rows, FEED_LIMIT);
    assert_eq!(ids.len(), 20);
    assert_eq!(ids, (0..20u128).collect::<Vec<u128>>());
    assert_eq!(feed_ids(&rows, 0), Vec::<u128>::new());
}

#[test]
fn hydrate_skips_failed_lookups_and_bad_rows() {
    let lookups = vec![
        Ok(vec![tweet_row(1, 7, "a", 1000)]),
        Err(StoreError::ReadFailed),
        Ok(vec![]),
        Ok(vec![Row { columns: vec![Some(Cell::Uuid(3))] }]),
        Ok(vec![tweet_row(4, 7, "d", 4000)]),
    ];
    let posts = hydrate(&lookups);
    assert_eq!(posts.len(), 2);
    assert_eq!(posts[0].tweet_id, 1);
    assert_eq!(posts[0].content, "a");
    assert_eq!(posts[1].tweet_id, 4);
    assert_eq!(posts[1].created_at, 4000);
}

#[test]
fn feed_is_newest_first_and_capped_at_twenty() {
    let lookups: Vec<Result<Vec<Row>, StoreError>> =
        (0..25u128).map(|i| Ok(vec![tweet_row(i, 7, "p", ((i * 37) % 25) as i64 * 1000)])).collect();
    let feed = assemble_feed(&lookups, FEED_LIMIT);
    assert_eq!(feed.len(), 20);
    for w in feed.windows(2) {
        assert!(w[0].created_at >= w[1].created_at);
    }
    assert_eq!(feed[0].created_at, 24_000);
    assert_eq!(feed[19].created_at, 5_000);
}

#[test]
fn written_post_shows_up_in_feed() {
    let lookups = vec![
        Ok(vec![tweet_row(10, 7, "older", 1_000)]),
        Ok(vec![tweet_row(11, 7, "newer", 2_000)]),
    ];
    let feed = assemble_feed(&lookups, FEED_LIMIT);
    let ids: Vec<u128> = feed.iter().map(|t| t.tweet_id).collect();
    assert_eq!(ids, vec![11, 10]);
}

#[test]
fn keep_newest_orders_and_truncates() {
    let posts = vec![tweet(1, 5), tweet(2, 9), tweet(3, 1), tweet(4, 9)];
    let kept = keep_newest(posts, 3);
    let at: Vec<i64> = kept.iter().map(|t| t.created_at).collect();
    assert_eq!(at, vec![9, 9, 5]);
    assert!(keep_newest(vec![], 3).is_empty());
    assert_eq!(keep_newest(vec![tweet(1, 5)], 3).len(), 1);
}
