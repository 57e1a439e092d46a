use std::collections::HashSet;
use twitter_clone::bulk::{
    chunk_ranges, chunk_users, collect_chunks, max_in_flight, post_owners, seed_post, seed_user, units_done,
    ChunkFailure, SEED_PASSWORD,
};
use twitter_clone::fanout::Write;
use twitter_clone::models::StoreError;

#[test]
fn chunk_ranges_cover_the_load() {
    assert_eq!(chunk_ranges(3, 2), vec![(0, 2), (2, 3)]);
    assert_eq!(chunk_ranges(4, 2), vec![(0, 2), (2, 4)]);
    assert_eq!(chunk_ranges(0, 5), Vec::<(usize, usize)>::new());
    assert_eq!(chunk_ranges(25_000, 10_000), vec![(0, 10_000), (10_000, 20_000), (20_000, 25_000)]);
    assert_eq!(chunk_ranges(usize::MAX, usize::MAX), vec![(0, usize::MAX)]);
}

#[test]
fn seed_three_users_in_chunks_of_two() {
    let ranges = chunk_ranges(3, 2);
    let sizes: Vec<usize> = ranges.iter().map(|(a, b)| b - a).collect();
    assert_eq!(sizes, vec![2, 1]);
    let results: Vec<Result<Vec<u128>, StoreError>> = vec![Ok(vec![11, 12]), Ok(vec![13])];
    let users = collect_chunks(results).unwrap();
    assert_eq!(users, vec![11, 12, 13]);
    let distinct: HashSet<u128> = users.iter().copied().collect();
    assert_eq!(distinct.len(), 3);
}

#[test]
fn failed_chunk_is_named() {
    let results: Vec<Result<Vec<u128>, StoreError>> = vec![Ok(vec![11, 12]), Err(StoreError::WriteFailed)];
    assert_eq!(collect_chunks(results), Err(ChunkFailure { chunk: 1, error: StoreError::WriteFailed }));
    let results: Vec<Result<Vec<u128>, StoreError>> =
        vec![Err(StoreError::ConnectError), Err(StoreError::WriteFailed)];
    assert_eq!(collect_chunks(results), Err(ChunkFailure { chunk: 0, error: StoreError::ConnectError }));
    assert_eq!(collect_chunks::<u128>(vec![]), Ok(vec![]));
}

#[test]
fn users_are_grouped_in_order() {
    let users: Vec<u128> = (1..=25).collect();
    let groups = chunk_users(&users, 10);
    assert_eq!(groups.len(), 3);
    assert_eq!(groups[0], (1..=10).collect::<Vec<u128>>());
    assert_eq!(groups[2], (21..=25).collect::<Vec<u128>>());
    assert_eq!(groups.concat(), users);
}

#[test]
fn progress_and_concurrency_bounds() {
    assert_eq!(units_done(0, 25, 10), 0);
    assert_eq!(units_done(2, 25, 10), 20);
    assert_eq!(units_done(3, 25, 10), 25);
    assert_eq!(units_done(usize::MAX, 25, 10), 25);
    assert_eq!(max_in_flight(30, 100), 30);
    assert_eq!(max_in_flight(30, 2), 2);
    assert_eq!(max_in_flight(0, 2), 0);
}

#[test]
fn generated_records_have_their_shape() {
    let u = seed_user(5).unwrap();
    assert_eq!(u.password_hash.len(), 60);
    assert_eq!((u.created_at, u.updated_at), (5, 5));
    assert!(!u.username.is_empty());
    assert!(bcrypt::verify(SEED_PASSWORD, &u.password_hash).unwrap());
    assert!(!bcrypt::verify("password124", &u.password_hash).unwrap());
    let p = seed_post(u.user_id, 9);
    assert_eq!(p.tweet.user_id, u.user_id);
    assert_eq!(p.tweet.created_at, 9);
    assert!(matches!(p.batch[1], Write::Timeline(_)));
}

#[test]
fn post_owners_repeat_each_user_in_order() {
    assert_eq!(post_owners(&vec![7, 8], 3), vec![7, 7, 7, 8, 8, 8]);
    assert_eq!(post_owners(&vec![7, 8], 0), Vec::<u128>::new());
    assert_eq!(post_owners(&vec![], 5), Vec::<u128>::new());
}
