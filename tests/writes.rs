use twitter_clone::fanout::{finish_post, post_batch, prepare_like, prepare_post, prepare_user, user_write, Write};
use twitter_clone::ids::parse_id;
use twitter_clone::models::{CreateTweetRequest, CreateUserRequest, Like, StoreError, TimelineEntry, Tweet};

const OWNER: &str = "67e55044-10b1-426f-9247-bb680e5fe0c8";
const OWNER_VALUE: u128 = 0x67e55044_10b1_426f_9247_bb680e5fe0c8;

#[test]
fn parses_identifiers() {
    assert_eq!(parse_id(OWNER), Ok(OWNER_VALUE));
    assert_eq!(parse_id("67e5504410b1426f9247bb680e5fe0c8"), Ok(OWNER_VALUE));
    assert_eq!(parse_id("not-a-uuid"), Err(StoreError::ValidationError));
    assert_eq!(parse_id(""), Err(StoreError::ValidationError));
}

#[test]
fn post_is_rejected_for_malformed_owner() {
    let req = CreateTweetRequest { content: "hi".to_string() };
    assert!(matches!(prepare_post("123", &req), Err(StoreError::ValidationError)));
}

#[test]
fn post_batch_holds_row_and_projection() {
    let req = CreateTweetRequest { content: "hello world".to_string() };
    let p = prepare_post(OWNER, &req).unwrap();
    assert_eq!(p.tweet.user_id, OWNER_VALUE);
    assert_eq!(p.tweet.content, "hello world");
    assert_eq!(p.batch.len(), 2);
    assert_eq!(p.batch[0], Write::Tweet(p.tweet.clone()));
    assert_eq!(
        p.batch[1],
        Write::Timeline(TimelineEntry {
            user_id: OWNER_VALUE,
            tweet_id: p.tweet.tweet_id,
            created_at: p.tweet.created_at
        })
    );
    let other = prepare_post(OWNER, &req).unwrap();
    assert_ne!(other.tweet.tweet_id, p.tweet.tweet_id);
}

#[test]
fn post_outcome_is_two_valued() {
    let t = Tweet { tweet_id: 1, user_id: 2, content: "c".to_string(), created_at: 3 };
    assert_eq!(finish_post(t.clone(), Ok(())), Ok(t.clone()));
    assert_eq!(finish_post(t.clone(), Err(StoreError::ReadFailed)), Err(StoreError::WriteFailed));
    assert_eq!(post_batch(&t).len(), 2);
}

#[test]
fn like_statement_and_double_like() {
    let w = prepare_like(OWNER, OWNER, 42).unwrap();
    assert_eq!(w, Write::Like(Like { tweet_id: OWNER_VALUE, user_id: OWNER_VALUE, created_at: 42 }));
    assert_eq!(prepare_like(OWNER, OWNER, 42).unwrap(), w);
    assert_eq!(prepare_like("x", OWNER, 42), Err(StoreError::ValidationError));
    assert_eq!(prepare_like(OWNER, "y", 42), Err(StoreError::ValidationError));
}

#[test]
fn user_gets_a_digest_not_the_password() {
    let req = CreateUserRequest {
        username: "ann".to_string(),
        email: "ann@example.com".to_string(),
        password: "secret".to_string(),
    };
    let u = prepare_user(&req, 77).unwrap();
    assert_eq!(u.username, "ann");
    assert_eq!(u.email, "ann@example.com");
    assert_eq!(u.password_hash.len(), 60);
    assert!(u.password_hash.starts_with("$2b$12$"));
    assert_ne!(u.password_hash, "secret");
    assert!(bcrypt::verify("secret", &u.password_hash).unwrap());
    assert!(!bcrypt::verify("ann", &u.password_hash).unwrap());
    let again = prepare_user(&req, 77).unwrap();
    assert_ne!(again.password_hash, u.password_hash);
    assert_eq!((u.created_at, u.updated_at), (77, 77));
    match user_write(&u) {
        Write::User(v) => assert_eq!(v, u),
        _ => panic!("not a user insert"),
    }
    assert!(StoreError::ValidationError.is_client_error());
    assert!(!StoreError::WriteFailed.is_client_error());
}
