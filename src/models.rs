//! Records of the four tables and the request bodies of the write paths.
//!
//! Identifiers are 128-bit UUIDs held as `u128`; timestamps are
//! milliseconds since the Unix epoch.

use vstd::prelude::*;

verus! {

/// A row of the `users` table.
#[derive(Debug, Clone, PartialEq, Eq)]
pub struct User {
    pub user_id: u128,
    pub username: String,
    pub email: String,
    pub password_hash: String,
    pub created_at: i64,
    pub updated_at: i64,
}

/// A row of the `tweets` table: a post, immutable once written.
#[derive(Debug, Clone, PartialEq, Eq)]
pub struct Tweet {
    pub tweet_id: u128,
    pub user_id: u128,
    pub content: String,
    pub created_at: i64,
}

/// A row of the `user_timeline` table: the projection of a post into its
/// owner's feed.
#[derive(Debug, Clone, Copy, PartialEq, Eq)]
pub struct TimelineEntry {
    pub user_id: u128,
    pub tweet_id: u128,
    pub created_at: i64,
}

/// A row of the `likes` table; `(tweet_id, user_id)` is its primary key.
#[derive(Debug, Clone, Copy, PartialEq, Eq)]
pub struct Like {
    pub tweet_id: u128,
    pub user_id: u128,
    pub created_at: i64,
}

/// Body of a sign-up request.
#[derive(Debug, Clone, PartialEq, Eq)]
pub struct CreateUserRequest {
    pub username: String,
    pub email: String,
    pub password: String,
}

/// Body of a post request.
#[derive(Debug, Clone, PartialEq, Eq)]
pub struct CreateTweetRequest {
    pub content: String,
}

/// The `user_id` query parameter, still unparsed.
#[derive(Debug, Clone, PartialEq, Eq)]
pub struct UserIdQuery {
    pub user_id: String,
}

/// Failures that the data-access layer reports to its callers.
#[derive(Debug, Clone, Copy, PartialEq, Eq, Structural)]
pub enum StoreError {
    /// A store node could not be reached or the handshake failed.
    ConnectError,
    /// No session became available in time.
    PoolExhausted,
    /// The store rejected a write or a fan-out batch.
    WriteFailed,
    /// The store rejected a query.
    ReadFailed,
    /// An identifier or input was malformed.
    ValidationError,
    /// The password could not be hashed.
    HashFailed,
}

impl StoreError {
    /// Whether the error is the caller's fault (a client error at the HTTP
    /// boundary) rather than the store's or the pool's.
    pub fn is_client_error(&self) -> (r: bool)
        ensures
            r == (*self == StoreError::ValidationError),
    {
        match self {
            StoreError::ValidationError => true,
            _ => false,
        }
    }
}

} // verus!
