//! Feed assembly: pick a user's most recent timeline entries, hydrate each
//! into its post, and hand the posts back newest first.
//!
//! A hydration lookup that fails, or a row that does not decode, is
//! skipped: a missing post degrades the feed rather than breaking it.

use crate::decode::{decode_tweet_row, tweet_of_row, tweet_row_ok, uuid_at, Row};
use crate::models::{StoreError, Tweet};
use vstd::prelude::*;

verus! {

/// How many entries the home feed shows.
pub const FEED_LIMIT: usize = 20;

/// The post identifiers of timeline rows (`tweet_id` first), in row order;
/// rows whose first column is no identifier are passed over.
pub open spec fn timeline_ids(rows: Seq<Row>) -> Seq<u128>
    decreases rows.len(),
{
    if rows.len() == 0 {
        Seq::empty()
    } else {
        let rest = timeline_ids(rows.drop_last());
        match uuid_at(rows.last(), 0) {
            Option::Some(u) => rest.push(u),
            Option::None => rest,
        }
    }
}

/// At most the first `limit` elements of `s`.
pub open spec fn first_n<T>(s: Seq<T>, limit: int) -> Seq<T> {
    if s.len() <= limit {
        s
    } else {
        s.take(limit)
    }
}

/// The rows of `rows` that decode as posts, in order.
pub open spec fn decodable(rows: Seq<Row>) -> Seq<Row>
    decreases rows.len(),
{
    if rows.len() == 0 {
        Seq::empty()
    } else {
        let rest = decodable(rows.drop_last());
        if tweet_row_ok(rows.last()) {
            rest.push(rows.last())
        } else {
            rest
        }
    }
}

/// The rows that hydration yields: the decodable rows of each lookup that
/// succeeded, lookup after lookup.
pub open spec fn hydrated_rows(lookups: Seq<Result<Vec<Row>, StoreError>>) -> Seq<Row>
    decreases lookups.len(),
{
    if lookups.len() == 0 {
        Seq::empty()
    } else {
        hydrated_rows(lookups.drop_last()) + match lookups.last() {
            Ok(rows) => decodable(rows@),
            Err(_) => Seq::empty(),
        }
    }
}

/// Posts ordered by creation time, newest first.
pub open spec fn newest_first(s: Seq<Tweet>) -> bool {
    forall|i: int, j: int| 0 <= i < j < s.len() ==> s[i].created_at >= s[j].created_at
}

proof fn lemma_timeline_ids_prefix(rows: Seq<Row>, i: int)
    requires
        0 <= i <= rows.len(),
    ensures
        timeline_ids(rows.take(i)).len() <= timeline_ids(rows).len(),
        timeline_ids(rows).take(timeline_ids(rows.take(i)).len() as int) == timeline_ids(
            rows.take(i),
        ),
    decreases rows.len(),
{
    if i == rows.len() {
        assert(rows.take(i) =~= rows);
        assert(timeline_ids(rows).take(timeline_ids(rows).len() as int) =~= timeline_ids(rows));
    } else {
        let front = rows.drop_last();
        assert(rows.take(i) =~= front.take(i));
        lemma_timeline_ids_prefix(front, i);
        let n = timeline_ids(rows.take(i)).len() as int;
        assert(timeline_ids(rows).take(n) =~= timeline_ids(front).take(n));
    }
}

/// The identifiers of the posts to show: those of the timeline rows, in
/// the store's order, at most `limit` of them.
pub fn feed_ids(rows: &Vec<Row>, limit: usize) -> (r: Vec<u128>)
    ensures
        r@ == first_n(timeline_ids(rows@), limit as int),
        r@.len() <= limit,
{
    let mut ids: Vec<u128> = Vec::new();
    let mut i: usize = 0;
    while i < rows.len() && ids.len() < limit
        invariant
            i <= rows@.len(),
            ids@ == timeline_ids(rows@.take(i as int)),
            ids@.len() <= limit,
        decreases rows@.len() - i,
    {
        assert(rows@.take(i + 1).drop_last() =~= rows@.take(i as int));
        if rows[i].columns.len() > 0 {
            match &rows[i].columns[0] {
                Some(crate::decode::Cell::Uuid(u)) => ids.push(*u),
                _ => {},
            }
        }
        i += 1;
    }
    proof {
        lemma_timeline_ids_prefix(rows@, i as int);
        if i == rows@.len() {
            assert(rows@.take(i as int) =~= rows@);
        } else {
            let all = timeline_ids(rows@);
            assert(all.take(all.len() as int) =~= all);
        }
    }
    ids
}

/// Hydrates the outcome of one lookup per feed entry into posts: every
/// decodable row of every lookup that succeeded, in order.
pub fn hydrate(lookups: &Vec<Result<Vec<Row>, StoreError>>) -> (r: Vec<Tweet>)
    ensures
        r@.len() == hydrated_rows(lookups@).len(),
        forall|k: int| 0 <= k < r@.len() ==> tweet_of_row(#[trigger] r@[k], hydrated_rows(lookups@)[k]),
{
    let mut out: Vec<Tweet> = Vec::new();
    let mut i: usize = 0;
    while i < lookups.len()
        invariant
            i <= lookups@.len(),
            out@.len() == hydrated_rows(lookups@.take(i as int)).len(),
            forall|k: int| 0 <= k < out@.len() ==> tweet_of_row(#[trigger] out@[k], hydrated_rows(lookups@.take(i as int))[k]),
        decreases lookups@.len() - i,
    {
        assert(lookups@.take(i + 1).drop_last() =~= lookups@.take(i as int));
        match &lookups[i] {
            Ok(rows) => {
                let ghost base = hydrated_rows(lookups@.take(i as int));
                let mut j: usize = 0;
                while j < rows.len()
                    invariant
                        j <= rows@.len(),
                        out@.len() == base.len() + decodable(rows@.take(j as int)).len(),
                        forall|k: int| 0 <= k < out@.len() ==> tweet_of_row(#[trigger] out@[k], (base + decodable(rows@.take(j as int)))[k]),
                    decreases rows@.len() - j,
                {
                    assert(rows@.take(j + 1).drop_last() =~= rows@.take(j as int));
                    let ghost before = base + decodable(rows@.take(j as int));
                    match decode_tweet_row(&rows[j]) {
                        Ok(t) => {
                            out.push(t);
                            assert(base + decodable(rows@.take(j + 1)) =~= before.push(rows@[j as int]));
                        },
                        Err(_) => {
                            assert(base + decodable(rows@.take(j + 1)) =~= before);
                        },
                    }
                    j += 1;
                }
                assert(rows@.take(j as int) =~= rows@);
            },
            Err(_) => {
                assert(hydrated_rows(lookups@.take(i + 1)) =~= hydrated_rows(lookups@.take(i as int)));
            },
        }
        i += 1;
    }
    assert(lookups@.take(i as int) =~= lookups@);
    out
}

/// `r` is what the feed shows of hydrated rows `rows`: the posts they decode
/// to, one per row, ordered newest first, and the front of that order.
pub open spec fn feed_of(r: Seq<Tweet>, rows: Seq<Row>) -> bool {
    exists|posts: Seq<Tweet>, all: Seq<Tweet>|
        #![trigger posts.to_multiset(), all.to_multiset()]
        {
            &&& posts.len() == rows.len()
            &&& forall|k: int| 0 <= k < rows.len() ==> tweet_of_row(#[trigger] posts[k], rows[k])
            &&& all.to_multiset() == posts.to_multiset()
            &&& newest_first(all)
            &&& r == all.take(r.len() as int)
        }
}

proof fn lemma_insert_to_multiset(s: Seq<Tweet>, pos: int, t: Tweet)
    requires
        0 <= pos <= s.len(),
    ensures
        s.insert(pos, t).to_multiset() =~= s.to_multiset().insert(t),
{
    let u = s.insert(pos, t);
    s.insert_ensures(pos, t);
    u.to_multiset_ensures();
    assert(u.remove(pos) =~= s);
    assert(u.contains(t));
}

/// Orders posts newest first and keeps the `limit` newest: the result is
/// the front of a newest-first ordering of all of them.
pub fn keep_newest(tweets: Vec<Tweet>, limit: usize) -> (r: Vec<Tweet>)
    ensures
        r@.len() == if tweets@.len() <= limit { tweets@.len() } else { limit as nat },
        newest_first(r@),
        exists|all: Seq<Tweet>|
            #![trigger all.to_multiset()]
            all.to_multiset() == tweets@.to_multiset() && newest_first(all) && r@ == all.take(
                r@.len() as int,
            ),
{
    let ghost orig = tweets@;
    let mut rest = tweets;
    let mut out: Vec<Tweet> = Vec::new();
    broadcast use vstd::seq_lib::group_to_multiset_ensures;
    while rest.len() > 0
        invariant
            out@.to_multiset().add(rest@.to_multiset()) == orig.to_multiset(),
            newest_first(out@),
        decreases rest@.len(),
    {
        let ghost before = rest@;
        let t = rest.pop().unwrap();
        assert(before =~= rest@.push(t));
        let mut pos: usize = 0;
        while pos < out.len() && out[pos].created_at > t.created_at
            invariant
                pos <= out@.len(),
                forall|k: int| 0 <= k < pos ==> out@[k].created_at > t.created_at,
            decreases out@.len() - pos,
        {
            pos += 1;
        }
        let ghost prev = out@;
        proof {
            lemma_insert_to_multiset(prev, pos as int, t);
            prev.insert_ensures(pos as int, t);
        }
        out.insert(pos, t);
        proof {
            rest@.to_multiset_ensures();
            assert(before.to_multiset() =~= rest@.to_multiset().insert(t));
            assert(out@.to_multiset().add(rest@.to_multiset()) =~= prev.to_multiset().add(
                before.to_multiset(),
            ));
        }
        assert forall|i: int, j: int| 0 <= i < j < out@.len() implies out@[i].created_at
            >= out@[j].created_at by {
            if j < pos {
            } else if j == pos {
            } else if i < pos {
                assert(out@[j] == prev[j - 1]);
            } else if i == pos {
                assert(out@[j] == prev[j - 1]);
                assert(prev[pos as int].created_at <= t.created_at);
            } else {
                assert(out@[j] == prev[j - 1]);
                assert(out@[i] == prev[i - 1]);
            }
        }
    }
    assert(rest@ =~= Seq::<Tweet>::empty());
    assert(out@.to_multiset() =~= orig.to_multiset());
    proof {
        out@.to_multiset_ensures();
        orig.to_multiset_ensures();
    }
    let ghost all = out@;
    out.truncate(limit);
    assert(out@ =~= all.take(out@.len() as int));
    out
}

/// Assembles a feed from the outcome of one hydration lookup per entry:
/// the hydrated posts, newest first, at most `limit` of them.
pub fn assemble_feed(lookups: &Vec<Result<Vec<Row>, StoreError>>, limit: usize) -> (r: Vec<Tweet>)
    ensures
        r@.len() <= limit,
        r@.len() == if hydrated_rows(lookups@).len() <= limit {
            hydrated_rows(lookups@).len()
        } else {
            limit as nat
        },
        newest_first(r@),
        feed_of(r@, hydrated_rows(lookups@)),
{
    let posts = hydrate(lookups);
    let ghost hp = posts@;
    let r = keep_newest(posts, limit);
    proof {
        let all = choose|all: Seq<Tweet>|
            #![trigger all.to_multiset()]
            all.to_multiset() == hp.to_multiset() && newest_first(all) && r@ == all.take(
                r@.len() as int,
            );
        assert(hp.to_multiset() == all.to_multiset());
    }
    r
}

/// A post whose row is among the hydrated rows of a feed that was not cut
/// short by its limit shows up in that feed.
pub proof fn hydrated_post_is_in_feed(r: Seq<Tweet>, rows: Seq<Row>, m: int)
    requires
        feed_of(r, rows),
        r.len() == rows.len(),
        0 <= m < rows.len(),
    ensures
        exists|k: int| 0 <= k < r.len() && r[k].tweet_id == uuid_at(rows[m], 0)->0,
{
    let (posts, all) = choose|posts: Seq<Tweet>, all: Seq<Tweet>|
        #![trigger posts.to_multiset(), all.to_multiset()]
        {
            &&& posts.len() == rows.len()
            &&& forall|k: int| 0 <= k < rows.len() ==> tweet_of_row(#[trigger] posts[k], rows[k])
            &&& all.to_multiset() == posts.to_multiset()
            &&& newest_first(all)
            &&& r == all.take(r.len() as int)
        };
    posts.to_multiset_ensures();
    all.to_multiset_ensures();
    assert(tweet_of_row(posts[m], rows[m]));
    assert(posts.contains(posts[m]));
    assert(posts.to_multiset().count(posts[m]) > 0);
    assert(all.to_multiset().count(posts[m]) > 0);
    assert(all.contains(posts[m]));
    assert(all.len() == posts.len());
    assert(r =~= all);
    let k = choose|k: int| 0 <= k < all.len() && all[k] == posts[m];
    assert(r[k].tweet_id == uuid_at(rows[m], 0)->0);
}

} // verus!
