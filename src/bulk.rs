//! Bulk loading: the unit count is cut into fixed-size chunks, each chunk
//! runs as one task, and the chunks' results are gathered in submission
//! order. One failed chunk fails the whole load and is named; what earlier
//! chunks already wrote stays in the store, as nothing is rolled back.

use crate::fanout::{digest_of, is_post_batch, post_batch, prepare_user, PreparedPost};
use crate::ids::fresh_uuid;
use crate::models::{CreateUserRequest, StoreError, Tweet, User};
use vstd::prelude::*;

verus! {

/// How many chunks of `c` units cover `n` units.
pub open spec fn chunk_count(n: int, c: int) -> int {
    (n + c - 1) / c
}

/// The first unit after chunk `k`.
pub open spec fn chunk_end(k: int, n: int, c: int) -> int {
    if (k + 1) * c <= n {
        (k + 1) * c
    } else {
        n
    }
}

/// The units of chunk `k`: from `k * c` up to, not including, its end.
pub open spec fn chunk_range(k: int, n: int, c: int) -> (int, int) {
    (k * c, chunk_end(k, n, c))
}

/// The password that every generated user gets.
pub const SEED_PASSWORD: &'static str = "password123";

/// Relies on `fake::faker::internet::en::Username`: a random user name.
#[verifier::external_body]
fn fake_username() -> (r: String) {
    fake::Fake::fake::<String>(&fake::faker::internet::en::Username())
}

/// Relies on `fake::faker::internet::en::SafeEmail`: a random address.
#[verifier::external_body]
fn fake_email() -> (r: String) {
    fake::Fake::fake::<String>(&fake::faker::internet::en::SafeEmail())
}

/// Relies on `fake::faker::lorem::en::Sentence` over 3 to 9 words: a random
/// sentence.
#[verifier::external_body]
fn fake_sentence() -> (r: String) {
    fake::Fake::fake::<String>(&fake::faker::lorem::en::Sentence(3..10))
}

/// One generated user, created at `now`, with the shared seed password.
pub fn seed_user(now: i64) -> (r: Result<User, StoreError>)
    ensures
        r is Err ==> r->Err_0 == StoreError::HashFailed,
        r is Ok ==> r->Ok_0.created_at == now && r->Ok_0.updated_at == now
            && r->Ok_0.password_hash@.len() == 60 && digest_of(
            r->Ok_0.password_hash@,
            SEED_PASSWORD@,
        ),
{
    let req = CreateUserRequest {
        username: fake_username(),
        email: fake_email(),
        password: String::from_str(SEED_PASSWORD),
    };
    prepare_user(&req, now)
}

/// One generated post by `user_id`, created at `now`, with its batch.
pub fn seed_post(user_id: u128, now: i64) -> (r: PreparedPost)
    ensures
        r.tweet.user_id == user_id,
        r.tweet.created_at == now,
        is_post_batch(r.batch@, r.tweet),
{
    let tweet = Tweet { tweet_id: fresh_uuid(), user_id, content: fake_sentence(), created_at: now };
    let batch = post_batch(&tweet);
    PreparedPost { tweet, batch }
}

/// The owner of each post that a post-writing task writes for `group`,
/// in writing order: `per_user` posts for each user, user after user, so
/// that each owner's posts are written one after another.
pub fn post_owners(group: &Vec<u128>, per_user: usize) -> (r: Vec<u128>)
    requires
        group@.len() * per_user <= usize::MAX,
    ensures
        r@.len() == group@.len() * per_user,
        forall|i: int| 0 <= i < r@.len() ==> #[trigger] r@[i] == group@[i / per_user as int],
{
    let mut r: Vec<u128> = Vec::new();
    let mut u: usize = 0;
    while u < group.len()
        invariant
            u <= group@.len(),
            group@.len() * per_user <= usize::MAX,
            r@.len() == u * per_user,
            forall|i: int| 0 <= i < r@.len() ==> #[trigger] r@[i] == group@[i / per_user as int],
        decreases group@.len() - u,
    {
        let mut j: usize = 0;
        assert(u * per_user + per_user <= group@.len() * per_user) by (nonlinear_arith)
            requires
                u < group@.len(),
        ;
        while j < per_user
            invariant
                u < group@.len(),
                j <= per_user,
                u * per_user + per_user <= group@.len() * per_user,
                group@.len() * per_user <= usize::MAX,
                r@.len() == u * per_user + j,
                forall|i: int| 0 <= i < r@.len() ==> #[trigger] r@[i] == group@[i / per_user as int],
            decreases per_user - j,
        {
            proof {
                vstd::arithmetic::div_mod::lemma_fundamental_div_mod_converse(
                    (u * per_user + j) as int,
                    per_user as int,
                    u as int,
                    j as int,
                );
            }
            r.push(group[u]);
            j += 1;
        }
        assert((u + 1) * per_user == u * per_user + per_user) by (nonlinear_arith);
        u += 1;
    }
    r
}

/// Units done once the first `done` chunks of a load of `count` units in
/// chunks of `chunk_size` have finished; progress is told per chunk.
pub fn units_done(done: usize, count: usize, chunk_size: usize) -> (r: usize)
    ensures
        r == if done * chunk_size <= count { done * chunk_size } else { count as int },
{
    if chunk_size == 0 || done <= count / chunk_size {
        proof {
            if chunk_size > 0 {
                assert(done * chunk_size <= count) by (nonlinear_arith)
                    requires
                        chunk_size > 0,
                        done <= count / chunk_size,
                ;
            } else {
                assert(done * chunk_size == 0) by (nonlinear_arith)
                    requires
                        chunk_size == 0,
                ;
            }
        }
        done * chunk_size
    } else {
        assert(done * chunk_size > count) by (nonlinear_arith)
            requires
                chunk_size > 0,
                done > count / chunk_size,
        ;
        count
    }
}

/// How many chunk tasks may run at once: no more than the pool has
/// sessions for, no more than there are chunks, and at least one where
/// there is work and a session.
pub fn max_in_flight(pool_size: usize, chunks: usize) -> (r: usize)
    ensures
        r <= pool_size,
        r <= chunks,
        pool_size > 0 && chunks > 0 ==> r >= 1,
        r == pool_size || r == chunks,
{
    if pool_size < chunks {
        pool_size
    } else {
        chunks
    }
}

/// A load run failed at chunk `chunk` with `error`.
#[derive(Debug, Clone, Copy, PartialEq, Eq, Structural)]
pub struct ChunkFailure {
    pub chunk: usize,
    pub error: StoreError,
}

proof fn lemma_chunk_count(n: int, c: int, len: int)
    requires
        c > 0,
        n >= 0,
        len >= 0,
        len * c >= n,
        len == 0 || (len - 1) * c < n,
    ensures
        len == chunk_count(n, c),
{
    if len == 0 {
        assert(n == 0);
        assert((c - 1) / c == 0) by (nonlinear_arith)
            requires
                c > 0,
        ;
    } else {
        assert((n + c - 1) / c == len) by (nonlinear_arith)
            requires
                c > 0,
                len * c >= n,
                (len - 1) * c < n,
        ;
    }
}

/// The chunks of a load of `count` units, `chunk_size` units each but the
/// last, as `(start, end)` unit ranges in submission order.
pub fn chunk_ranges(count: usize, chunk_size: usize) -> (r: Vec<(usize, usize)>)
    requires
        chunk_size > 0,
    ensures
        r@.len() == chunk_count(count as int, chunk_size as int),
        forall|k: int|
            0 <= k < r@.len() ==> (#[trigger] r@[k]).0 as int == chunk_range(k, count as int, chunk_size as int).0
                && r@[k].1 as int == chunk_range(k, count as int, chunk_size as int).1,
{
    let mut r: Vec<(usize, usize)> = Vec::new();
    let mut start: usize = 0;
    assert(r@.len() * chunk_size == 0) by (nonlinear_arith)
        requires
            r@.len() == 0,
    ;
    while start < count
        invariant
            chunk_size > 0,
            start <= count,
            start < count ==> start as int == r@.len() * chunk_size,
            start == count ==> r@.len() * chunk_size >= count,
            r@.len() == 0 || (r@.len() - 1) * chunk_size < count,
            forall|k: int|
                0 <= k < r@.len() ==> (#[trigger] r@[k]).0 as int == chunk_range(k, count as int, chunk_size as int).0
                    && r@[k].1 as int == chunk_range(k, count as int, chunk_size as int).1,
        decreases count - start,
    {
        let end: usize = if count - start > chunk_size {
            start + chunk_size
        } else {
            count
        };
        let ghost k = r@.len() as int;
        assert((k + 1) * chunk_size == k * chunk_size + chunk_size) by (nonlinear_arith);
        r.push((start, end));
        start = end;
    }
    proof {
        if count == 0 {
            assert(r@.len() == 0);
        }
        lemma_chunk_count(count as int, chunk_size as int, r@.len() as int);
    }
    r
}

/// The users of a load, cut into groups of `chunk_size` in order (the last
/// group may be shorter); one post-writing task takes one group.
pub fn chunk_users(users: &Vec<u128>, chunk_size: usize) -> (r: Vec<Vec<u128>>)
    requires
        chunk_size > 0,
    ensures
        r@.len() == chunk_count(users@.len() as int, chunk_size as int),
        forall|k: int|
            0 <= k < r@.len() ==> (#[trigger] r@[k])@ == users@.subrange(
                chunk_range(k, users@.len() as int, chunk_size as int).0,
                chunk_range(k, users@.len() as int, chunk_size as int).1,
            ),
{
    let ranges = chunk_ranges(users.len(), chunk_size);
    let mut out: Vec<Vec<u128>> = Vec::new();
    let mut k: usize = 0;
    while k < ranges.len()
        invariant
            chunk_size > 0,
            k <= ranges@.len(),
            out@.len() == k,
            ranges@.len() == chunk_count(users@.len() as int, chunk_size as int),
            forall|j: int|
                0 <= j < ranges@.len() ==> (#[trigger] ranges@[j]).0 as int == chunk_range(j, users@.len() as int, chunk_size as int).0
                    && ranges@[j].1 as int == chunk_range(j, users@.len() as int, chunk_size as int).1,
            forall|j: int|
                0 <= j < k ==> (#[trigger] out@[j])@ == users@.subrange(
                    chunk_range(j, users@.len() as int, chunk_size as int).0,
                    chunk_range(j, users@.len() as int, chunk_size as int).1,
                ),
        decreases ranges@.len() - k,
    {
        let (a, b) = ranges[k];
        proof {
            let n = users@.len() as int;
            let c = chunk_size as int;
            let kk = k as int;
            assert(kk * c <= chunk_end(kk, n, c)) by (nonlinear_arith)
                requires
                    c > 0,
                    kk >= 0,
                    kk < (n + c - 1) / c,
                    chunk_end(kk, n, c) == if (kk + 1) * c <= n { (kk + 1) * c } else { n },
            ;
        }
        let mut group: Vec<u128> = Vec::new();
        let mut i: usize = a;
        while i < b
            invariant
                a <= i <= b,
                b <= users@.len(),
                group@ == users@.subrange(a as int, i as int),
            decreases b - i,
        {
            group.push(users[i]);
            i += 1;
            assert(group@ =~= users@.subrange(a as int, i as int));
        }
        out.push(group);
        k += 1;
    }
    out
}

/// Every chunk succeeded.
pub open spec fn all_chunks_ok<T>(rs: Seq<Result<Vec<T>, StoreError>>) -> bool {
    forall|k: int| 0 <= k < rs.len() ==> (#[trigger] rs[k]) is Ok
}

/// The results of the chunks that succeeded, chunk after chunk.
pub open spec fn gathered<T>(rs: Seq<Result<Vec<T>, StoreError>>) -> Seq<T>
    decreases rs.len(),
{
    if rs.len() == 0 {
        Seq::empty()
    } else {
        gathered(rs.drop_last()) + match rs.last() {
            Ok(v) => v@,
            Err(_) => Seq::empty(),
        }
    }
}

/// Gathers the outcome of each chunk task, in submission order: all the
/// results, chunk after chunk, or the first chunk that failed and its error.
pub fn collect_chunks<T>(results: Vec<Result<Vec<T>, StoreError>>) -> (r: Result<Vec<T>, ChunkFailure>)
    ensures
        r is Ok <==> all_chunks_ok(results@),
        r is Ok ==> r->Ok_0@ == gathered(results@),
        r is Err ==> {
            let k = r->Err_0.chunk as int;
            &&& 0 <= k < results@.len()
            &&& results@[k] == Err::<Vec<T>, StoreError>(r->Err_0.error)
            &&& forall|j: int| 0 <= j < k ==> (#[trigger] results@[j]) is Ok
        },
{
    let ghost orig = results@;
    let n: usize = results.len();
    let mut pending = results;
    let mut out: Vec<T> = Vec::new();
    let mut k: usize = 0;
    while pending.len() > 0
        invariant
            k + pending@.len() == orig.len(),
            n == orig.len(),
            orig == results@,
            pending@ == orig.subrange(k as int, orig.len() as int),
            out@ == gathered(orig.take(k as int)),
            forall|j: int| 0 <= j < k ==> (#[trigger] orig[j]) is Ok,
        decreases pending@.len(),
    {
        let next = pending.remove(0);
        assert(next == orig[k as int]);
        assert(orig.take(k + 1).drop_last() =~= orig.take(k as int));
        match next {
            Ok(mut v) => {
                out.append(&mut v);
            },
            Err(e) => {
                assert(!all_chunks_ok(orig));
                return Err(ChunkFailure { chunk: k, error: e });
            },
        }
        assert(pending@ =~= orig.subrange(k + 1, orig.len() as int));
        k += 1;
    }
    assert(orig.take(k as int) =~= orig);
    Ok(out)
}

proof fn lemma_chunk_bounds(n: int, c: int, j: int)
    requires
        c > 0,
        n >= 0,
        0 <= j <= chunk_count(n, c),
    ensures
        j < chunk_count(n, c) ==> j * c < n,
        j == chunk_count(n, c) ==> j * c >= n,
        (j + 1) * c == j * c + c,
{
    assert((j + 1) * c == j * c + c) by (nonlinear_arith);
    if j < chunk_count(n, c) {
        assert(j * c < n) by (nonlinear_arith)
            requires
                c > 0,
                0 <= j,
                j < (n + c - 1) / c,
        ;
    } else {
        assert(j * c >= n) by (nonlinear_arith)
            requires
                c > 0,
                j == (n + c - 1) / c,
        ;
    }
}

/// Each chunk that yielded exactly its own units.
pub open spec fn chunks_complete<T>(n: int, c: int, rs: Seq<Result<Vec<T>, StoreError>>) -> bool {
    forall|k: int|
        0 <= k < rs.len() ==> (#[trigger] rs[k]) is Ok && rs[k]->Ok_0@.len() == chunk_end(k, n, c)
            - k * c
}

proof fn lemma_gathered_prefix<T>(n: int, c: int, rs: Seq<Result<Vec<T>, StoreError>>, j: int)
    requires
        c > 0,
        n >= 0,
        rs.len() == chunk_count(n, c),
        chunks_complete(n, c, rs),
        0 <= j <= rs.len(),
    ensures
        gathered(rs.take(j)).len() == if j * c <= n { j * c } else { n },
        forall|k: int|
            0 <= k < j ==> gathered(rs.take(j)).subrange(k * c, chunk_end(k, n, c)) == (
            #[trigger] rs[k])->Ok_0@,
    decreases j,
{
    lemma_chunk_bounds(n, c, j);
    if j == 0 {
        assert(rs.take(0) =~= Seq::<Result<Vec<T>, StoreError>>::empty());
        assert(0 * c == 0) by (nonlinear_arith);
    } else {
        lemma_gathered_prefix(n, c, rs, j - 1);
        lemma_chunk_bounds(n, c, j - 1);
        assert(rs.take(j).drop_last() =~= rs.take(j - 1));
        let prev = gathered(rs.take(j - 1));
        let seg = rs[j - 1]->Ok_0@;
        assert(gathered(rs.take(j)) == prev + seg);
        assert forall|k: int| 0 <= k < j implies gathered(rs.take(j)).subrange(
            k * c,
            chunk_end(k, n, c),
        ) == (#[trigger] rs[k])->Ok_0@ by {
            if k < j - 1 {
                lemma_chunk_bounds(n, c, k);
                assert(chunk_end(k, n, c) <= (j - 1) * c) by (nonlinear_arith)
                    requires
                        c > 0,
                        k < j - 1,
                        chunk_end(k, n, c) <= (k + 1) * c,
                ;
                assert((prev + seg).subrange(k * c, chunk_end(k, n, c)) =~= prev.subrange(
                    k * c,
                    chunk_end(k, n, c),
                ));
            } else {
                assert((prev + seg).subrange(k * c, chunk_end(k, n, c)) =~= seg);
            }
        }
    }
}

/// A load of `n` units in chunks of `c` whose every chunk succeeded with
/// exactly its own units yields `n` results, and chunk `k`'s results stand
/// at its own place, in chunk submission order.
pub proof fn full_load_yields_every_unit<T>(n: int, c: int, rs: Seq<Result<Vec<T>, StoreError>>)
    requires
        c > 0,
        n >= 0,
        rs.len() == chunk_count(n, c),
        chunks_complete(n, c, rs),
    ensures
        all_chunks_ok(rs),
        gathered(rs).len() == n,
        forall|k: int|
            0 <= k < rs.len() ==> gathered(rs).subrange(k * c, chunk_end(k, n, c)) == (
            #[trigger] rs[k])->Ok_0@,
{
    lemma_gathered_prefix(n, c, rs, rs.len() as int);
    lemma_chunk_bounds(n, c, rs.len() as int);
    assert(rs.take(rs.len() as int) =~= rs);
    if rs.len() > 0 {
        lemma_chunk_bounds(n, c, rs.len() - 1);
    } else {
        assert(rs.len() * c == 0) by (nonlinear_arith)
            requires
                rs.len() == 0,
        ;
    }
}

} // verus!
