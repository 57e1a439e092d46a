//! The write paths: a post and its timeline projection go to the store as
//! one batch, a like or a user as a single statement.
//!
//! The store applies an insert as an upsert on the row's primary key. A
//! batch is logged, not atomic across partitions: on success both rows are
//! durably queued; on failure the caller must treat the post as not created.

use crate::ids::{fresh_uuid, parse_id, uuid_parsed};
use crate::models::{CreateTweetRequest, CreateUserRequest, Like, StoreError, TimelineEntry, Tweet, User};
use crate::time::now_millis;
use vstd::prelude::*;

verus! {

/// One insert statement, as the store executes it.
#[derive(Debug, Clone, PartialEq, Eq)]
pub enum Write {
    User(User),
    Tweet(Tweet),
    Timeline(TimelineEntry),
    Like(Like),
}

/// The store's tables as maps from primary key to row.
pub struct StoreModel {
    pub users: Map<u128, User>,
    pub tweets: Map<u128, Tweet>,
    /// Keyed by `(user_id, tweet_id, created_at)`: every column is key.
    pub timeline: Set<TimelineEntry>,
    /// Keyed by `(tweet_id, user_id)`.
    pub likes: Map<(u128, u128), Like>,
}

/// The store after one insert: an upsert on the row's primary key.
pub open spec fn apply_write(s: StoreModel, w: Write) -> StoreModel {
    match w {
        Write::User(u) => StoreModel { users: s.users.insert(u.user_id, u), ..s },
        Write::Tweet(t) => StoreModel { tweets: s.tweets.insert(t.tweet_id, t), ..s },
        Write::Timeline(e) => StoreModel { timeline: s.timeline.insert(e), ..s },
        Write::Like(l) => StoreModel { likes: s.likes.insert((l.tweet_id, l.user_id), l), ..s },
    }
}

/// The store after the writes of a batch, all of them applied in order.
pub open spec fn apply_batch(s: StoreModel, ws: Seq<Write>) -> StoreModel
    decreases ws.len(),
{
    if ws.len() == 0 {
        s
    } else {
        apply_write(apply_batch(s, ws.drop_last()), ws.last())
    }
}

/// The timeline projection of a post.
pub open spec fn projection(t: Tweet) -> TimelineEntry {
    TimelineEntry { user_id: t.user_id, tweet_id: t.tweet_id, created_at: t.created_at }
}

/// The batch that writes a post: its row, then its timeline entry.
pub open spec fn is_post_batch(ws: Seq<Write>, t: Tweet) -> bool {
    &&& ws.len() == 2
    &&& ws[0] is Tweet
    &&& ws[0]->Tweet_0.tweet_id == t.tweet_id
    &&& ws[0]->Tweet_0.user_id == t.user_id
    &&& ws[0]->Tweet_0.content@ == t.content@
    &&& ws[0]->Tweet_0.created_at == t.created_at
    &&& ws[1] == Write::Timeline(projection(t))
}

/// The batch of statements that creates post `t`.
pub fn post_batch(t: &Tweet) -> (r: Vec<Write>)
    ensures
        is_post_batch(r@, *t),
{
    let row = Tweet {
        tweet_id: t.tweet_id,
        user_id: t.user_id,
        content: t.content.clone(),
        created_at: t.created_at,
    };
    let entry = TimelineEntry { user_id: t.user_id, tweet_id: t.tweet_id, created_at: t.created_at };
    let mut ws: Vec<Write> = Vec::new();
    ws.push(Write::Tweet(row));
    ws.push(Write::Timeline(entry));
    ws
}

#[verifier::external_type_specification]
#[verifier::external_body]
pub struct ExBcryptError(bcrypt::BcryptError);

#[verifier::external_type_specification]
#[verifier::external_body]
pub struct ExRandomError(getrandom::Error);

/// The bcrypt digest at `bcrypt::DEFAULT_COST`, version `2b`, of a password
/// under a 16-byte salt.
pub uninterp spec fn bcrypt_digest(password: Seq<char>, salt: Seq<u8>) -> Seq<char>;

/// `digest` is the bcrypt digest of `password` under some 16-byte salt.
pub open spec fn digest_of(digest: Seq<char>, password: Seq<char>) -> bool {
    exists|salt: Seq<u8>| salt.len() == 16 && #[trigger] bcrypt_digest(password, salt) == digest
}

/// Relies on `getrandom::getrandom`: 16 bytes from the system's randomness,
/// the source `bcrypt::hash` itself draws its salt from. Nothing is
/// promised of the bytes; it fails only where that source does.
#[verifier::external_body]
fn random_salt() -> (r: Result<[u8; 16], getrandom::Error>) {
    let mut salt = [0u8; 16];
    getrandom::getrandom(&mut salt).map(|_| salt)
}

/// Relies on `bcrypt::hash_with_salt` at `bcrypt::DEFAULT_COST`, formatted
/// with `format_for_version(Version::TwoB)` as `bcrypt::hash` does: the
/// digest depends on the password and the salt alone, and reads `$2b$12$`
/// then 22 salt and 31 hash characters. It fails only for a cost out of
/// range, which the default cost is not.
#[verifier::external_body]
fn bcrypt_with_salt(password: &str, salt: [u8; 16]) -> (r: Result<String, bcrypt::BcryptError>)
    ensures
        r is Ok,
        r is Ok ==> r->Ok_0@ == bcrypt_digest(password@, salt@),
        r is Ok ==> r->Ok_0@.len() == 60,
{
    bcrypt::hash_with_salt(password, bcrypt::DEFAULT_COST, salt).map(
        |p| p.format_for_version(bcrypt::Version::TwoB),
    )
}

/// A new user for a sign-up request: a fresh identifier, the digest of the
/// password under a fresh random salt in place of the password, created and
/// updated at `now`. It fails only where the system's randomness does.
pub fn prepare_user(req: &CreateUserRequest, now: i64) -> (r: Result<User, StoreError>)
    ensures
        r is Err ==> r->Err_0 == StoreError::HashFailed,
        r is Ok ==> {
            let u = r->Ok_0;
            &&& u.username@ == req.username@
            &&& u.email@ == req.email@
            &&& digest_of(u.password_hash@, req.password@)
            &&& u.password_hash@.len() == 60
            &&& u.created_at == now
            &&& u.updated_at == now
        },
{
    let salt = match random_salt() {
        Ok(s) => s,
        Err(_) => return Err(StoreError::HashFailed),
    };
    let password_hash = match bcrypt_with_salt(req.password.as_str(), salt) {
        Ok(h) => h,
        Err(_) => return Err(StoreError::HashFailed),
    };
    assert(salt@.len() == 16);
    assert(digest_of(password_hash@, req.password@));
    Ok(User {
        user_id: fresh_uuid(),
        username: req.username.clone(),
        email: req.email.clone(),
        password_hash,
        created_at: now,
        updated_at: now,
    })
}

/// The statement that inserts user `u`.
pub fn user_write(u: &User) -> (r: Write)
    ensures
        r is User,
        r->User_0.user_id == u.user_id,
        r->User_0.username@ == u.username@,
        r->User_0.email@ == u.email@,
        r->User_0.password_hash@ == u.password_hash@,
        r->User_0.created_at == u.created_at,
        r->User_0.updated_at == u.updated_at,
{
    Write::User(
        User {
            user_id: u.user_id,
            username: u.username.clone(),
            email: u.email.clone(),
            password_hash: u.password_hash.clone(),
            created_at: u.created_at,
            updated_at: u.updated_at,
        },
    )
}

/// A post that is ready to be written, with the batch that writes it.
pub struct PreparedPost {
    pub tweet: Tweet,
    pub batch: Vec<Write>,
}

/// Prepares a post by the user named in `user_id`: a fresh identifier, the
/// current time, and the batch. A malformed user identifier is rejected
/// before anything reaches the store.
pub fn prepare_post(user_id: &str, req: &CreateTweetRequest) -> (r: Result<PreparedPost, StoreError>)
    ensures
        r is Err <==> uuid_parsed(user_id@) is None,
        r is Err ==> r->Err_0 == StoreError::ValidationError,
        r is Ok ==> {
            let p = r->Ok_0;
            &&& uuid_parsed(user_id@) == Option::Some(p.tweet.user_id)
            &&& p.tweet.content@ == req.content@
            &&& is_post_batch(p.batch@, p.tweet)
        },
{
    let owner = match parse_id(user_id) {
        Ok(v) => v,
        Err(e) => return Err(e),
    };
    let tweet = Tweet {
        tweet_id: fresh_uuid(),
        user_id: owner,
        content: req.content.clone(),
        created_at: now_millis(),
    };
    let batch = post_batch(&tweet);
    Ok(PreparedPost { tweet, batch })
}

/// The outcome of a post once its batch has been submitted: the post, or
/// `WriteFailed` whatever the store said; no partial success is reported.
pub fn finish_post(tweet: Tweet, submitted: Result<(), StoreError>) -> (r: Result<Tweet, StoreError>)
    ensures
        submitted is Ok ==> r == Ok::<Tweet, StoreError>(tweet),
        submitted is Err ==> r == Err::<Tweet, StoreError>(StoreError::WriteFailed),
{
    match submitted {
        Ok(()) => Ok(tweet),
        Err(_) => Err(StoreError::WriteFailed),
    }
}

/// The single statement of a like of post `tweet_id` by `user_id`, both
/// given as text; a malformed identifier is rejected.
pub fn prepare_like(tweet_id: &str, user_id: &str, now: i64) -> (r: Result<Write, StoreError>)
    ensures
        r is Ok <==> uuid_parsed(tweet_id@) is Some && uuid_parsed(user_id@) is Some,
        r is Err ==> r->Err_0 == StoreError::ValidationError,
        r is Ok ==> r->Ok_0 == Write::Like(
            Like {
                tweet_id: uuid_parsed(tweet_id@)->0,
                user_id: uuid_parsed(user_id@)->0,
                created_at: now,
            },
        ),
{
    let post = match parse_id(tweet_id) {
        Ok(v) => v,
        Err(e) => return Err(e),
    };
    let liker = match parse_id(user_id) {
        Ok(v) => v,
        Err(e) => return Err(e),
    };
    Ok(Write::Like(Like { tweet_id: post, user_id: liker, created_at: now }))
}

/// Once the batch of a post has been applied, the post is in the `tweets`
/// table under its identifier and its projection is in the owner's
/// timeline: both reads that the feed makes can find it.
pub proof fn post_batch_reaches_both_tables(s: StoreModel, ws: Seq<Write>, t: Tweet)
    requires
        is_post_batch(ws, t),
    ensures
        apply_batch(s, ws).timeline.contains(projection(t)),
        apply_batch(s, ws).tweets.contains_key(t.tweet_id),
        apply_batch(s, ws).tweets[t.tweet_id].user_id == t.user_id,
        apply_batch(s, ws).tweets[t.tweet_id].content@ == t.content@,
        apply_batch(s, ws).tweets[t.tweet_id].created_at == t.created_at,
{
    let first = ws.drop_last();
    assert(first.drop_last() =~= Seq::<Write>::empty());
    assert(first.last() == ws[0]);
    assert(apply_batch(s, first.drop_last()) == s);
    let s1 = apply_batch(s, first);
    assert(s1 == apply_write(s, ws[0]));
    assert(s1.tweets.contains_key(t.tweet_id));
    assert(apply_batch(s, ws) == apply_write(s1, ws[1]));
}

/// Writes only ever add or overwrite rows: every key present before a
/// batch is present after it, whatever the batch holds. A load that fails
/// part-way thus leaves what earlier writes put in the store.
pub proof fn writes_never_remove_rows(s: StoreModel, ws: Seq<Write>)
    ensures
        s.users.dom().subset_of(apply_batch(s, ws).users.dom()),
        s.tweets.dom().subset_of(apply_batch(s, ws).tweets.dom()),
        s.timeline.subset_of(apply_batch(s, ws).timeline),
        s.likes.dom().subset_of(apply_batch(s, ws).likes.dom()),
    decreases ws.len(),
{
    if ws.len() > 0 {
        writes_never_remove_rows(s, ws.drop_last());
    }
}

/// Inserting the same like twice leaves the store as inserting it once:
/// the second insert hits the same primary key and adds no row.
pub proof fn like_twice_is_like_once(s: StoreModel, l: Like)
    ensures
        apply_write(apply_write(s, Write::Like(l)), Write::Like(l)) == apply_write(s, Write::Like(l)),
        apply_write(apply_write(s, Write::Like(l)), Write::Like(l)).likes.dom() == s.likes.dom().insert(
            (l.tweet_id, l.user_id),
        ),
{
    let once = apply_write(s, Write::Like(l));
    assert(once.likes.insert((l.tweet_id, l.user_id), l) =~= once.likes);
    assert(once.likes.dom() =~= s.likes.dom().insert((l.tweet_id, l.user_id)));
}

} // verus!
