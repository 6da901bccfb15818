//! The rank aggregation transaction: comment create and upsert, each
//! reading the aggregate row and the pair's comment row first — in that
//! fixed order, the serialization points of concurrent callers — then
//! applying the comment change and the aggregate delta together, so the
//! aggregate invariant holds again at every exit.

use vstd::prelude::*;

use crate::dao::comment;
use crate::dao::comment::{pair_match, updated_comment};
use crate::dao::rank_aggregation;
use crate::errors::Error;
use crate::hydrate;
use crate::model::{
    Comment, CommentInsert, CommentUpdate, CommentV, RankAggregation, RankAggregationUpdate,
    RankAggregationV,
};
use crate::store::{count_at, sum_ranks, Store};

verus! {

/// The caller-supplied part of a new comment: its text and its rank.
pub struct Create {
    pub content: String,
    pub rank: i32,
}

/// The pagination of a per-location comment listing.
pub struct CommentsOfLocation {
    pub limit: i64,
    pub offset: i64,
}

/// How one rank transaction leaves the aggregate table: every row of the
/// location carries the new running values and a fresh update instant,
/// every other row is untouched.
pub open spec fn aggs_after(
    old_aggs: Seq<RankAggregationV>, new_aggs: Seq<RankAggregationV>, loc: int, total: int,
    count: int, now: int,
) -> bool {
    &&& new_aggs.len() == old_aggs.len()
    &&& forall|k: int| 0 <= k < old_aggs.len() ==> new_aggs[k] == if (
        #[trigger] old_aggs[k]).location_id == loc {
        RankAggregationV {
            id: old_aggs[k].id,
            total: total,
            count: count,
            location_id: old_aggs[k].location_id,
            create_on: old_aggs[k].create_on,
            update_on: now,
        }
    } else {
        old_aggs[k]
    }
}

/// What an aggregate row read under the invariant must say.
proof fn lemma_agg_read(s: &Store, loc: int, a: RankAggregationV)
    requires
        s.wf(),
        hydrate::first_keyed::<RankAggregation>(s.rank_aggregations_v(), loc) == Some(a),
    ensures
        a.location_id == loc,
        a.total == sum_ranks(s.comments_v(), loc),
        a.count == count_at(s.comments_v(), loc),
{
    crate::hydrate::lemma_first_keyed_member::<RankAggregation>(
        s.rank_aggregations_v(), loc,
    );
    hydrate::lemma_first_keyed_key::<RankAggregation>(s.rank_aggregations_v(), loc);
    let j = choose|j: int| 0 <= j < s.rank_aggregations_v().len()
        && #[trigger] s.rank_aggregations_v()[j] == a;
}

/// The running values the invariant puts in an aggregate row fit `i64`
/// with room for one more rank on either side.
proof fn lemma_agg_headroom(s: &Store, loc: int)
    requires
        s.wf(),
    ensures
        -0x4000_0000_0000_0000 <= sum_ranks(s.comments_v(), loc) <= 0x4000_0000_0000_0000,
        0 <= count_at(s.comments_v(), loc) <= 0x8000_0000,
{
    crate::store::lemma_store_rank_bounds(s);
    crate::store::lemma_sum_bounds(s.comments_v(), loc);
    assert(s.comments_v().len() <= 0x8000_0000);
}

/// The plain create: inserts the pair's comment and applies the delta
/// `(+rank, +1)` to the location's aggregate in the same transaction.
/// `Conflict` exactly when the pair already has a comment — the
/// caller-visible uniqueness violation; `NotFound` exactly when the
/// location has no aggregate row or no location row; `StorageError`
/// exactly when the id space is spent; otherwise the fresh comment id
/// is owed. Nothing changes on failure.
pub fn create(store: &mut Store, uid: i32, loc: i32, body: Create, now: i64) -> (r: Result<
    i32,
    Error,
>)
    requires
        old(store).wf(),
    ensures
        final(store).wf(),
        match r {
            Ok(id) => {
                &&& id as int == old(store).next_id as int
                &&& final(store).comments_v() == old(store).comments_v().push(
                    CommentV {
                        id: id as int,
                        rank: body.rank as int,
                        content: body.content@,
                        user: uid as int,
                        location: loc as int,
                        create_on: now as int,
                        update_on: now as int,
                    },
                )
                &&& aggs_after(
                    old(store).rank_aggregations_v(), final(store).rank_aggregations_v(),
                    loc as int, sum_ranks(final(store).comments_v(), loc as int),
                    count_at(final(store).comments_v(), loc as int), now as int,
                )
                &&& final(store).next_id as int == old(store).next_id as int + 1
                &&& final(store).users == old(store).users
                &&& final(store).locations == old(store).locations
                &&& final(store).uploads == old(store).uploads
                &&& final(store).equipments == old(store).equipments
                &&& final(store).memories == old(store).memories
                &&& final(store).playings == old(store).playings
                &&& final(store).eatings == old(store).eatings
                &&& final(store).location_upload_rels == old(store).location_upload_rels
            },
            Err(e) => {
                &&& *final(store) == *old(store)
                &&& (e == Error::Conflict || e == Error::NotFound || e == Error::StorageError)
            },
        },
        (r == Err::<i32, Error>(Error::Conflict)) <==> (
            hydrate::first_keyed::<RankAggregation>(
                old(store).rank_aggregations_v(), loc as int,
            ) is Some && exists|j: int| 0 <= j < old(store).comments_v().len() && pair_match(
                #[trigger] old(store).comments_v()[j], uid as int, loc as int,
            )),
        (r == Err::<i32, Error>(Error::NotFound)) <==> (
            hydrate::first_keyed::<RankAggregation>(
                old(store).rank_aggregations_v(), loc as int,
            ) is None || (!(exists|j: int| 0 <= j < old(store).comments_v().len() && pair_match(
                #[trigger] old(store).comments_v()[j], uid as int, loc as int,
            )) && hydrate::first_keyed::<crate::model::Location>(
                old(store).locations_v(), loc as int,
            ) is None)),
        (r == Err::<i32, Error>(Error::StorageError)) <==> (
            hydrate::first_keyed::<RankAggregation>(
                old(store).rank_aggregations_v(), loc as int,
            ) is Some && !(exists|j: int| 0 <= j < old(store).comments_v().len() && pair_match(
                #[trigger] old(store).comments_v()[j], uid as int, loc as int,
            )) && hydrate::first_keyed::<crate::model::Location>(
                old(store).locations_v(), loc as int,
            ) is Some && old(store).next_id as int == 0x7fff_ffff),
{
    let agg = match rank_aggregation::get_for_update(store, loc) {
        Ok(a) => a,
        Err(e) => {
            return Err(e);
        },
    };
    proof {
        lemma_agg_read(store, loc as int, agg@);
        lemma_agg_headroom(store, loc as int);
    }
    let ghost cv = store.comments_v();
    let id = match comment::insert(
        store,
        CommentInsert { rank: body.rank, content: body.content, user: uid, location: loc },
        now,
    ) {
        Ok(id) => id,
        Err(e) => {
            return Err(e);
        },
    };
    let ghost newc = store.comments_v();
    proof {
        crate::store::lemma_sum_push(
            cv,
            CommentV {
                id: id as int,
                rank: body.rank as int,
                content: newc.last().content,
                user: uid as int,
                location: loc as int,
                create_on: now as int,
                update_on: now as int,
            },
            loc as int,
        );
        assert(newc.drop_last() =~= cv);
        assert(sum_ranks(newc, loc as int) == sum_ranks(cv, loc as int) + body.rank as int);
        assert(count_at(newc, loc as int) == count_at(cv, loc as int) + 1);
    }
    let new_total: i64 = agg.total + body.rank as i64;
    let new_count: i64 = agg.count + 1;
    proof {
        assert(new_total as int == sum_ranks(store.comments_v(), loc as int));
        assert(new_count as int == count_at(store.comments_v(), loc as int));
        assert forall|k: int| 0 <= k < store.rank_aggregations_v().len()
            && (#[trigger] store.rank_aggregations_v()[k]).location_id != loc as int
            implies store.rank_aggregations_v()[k].total == sum_ranks(
                store.comments_v(), store.rank_aggregations_v()[k].location_id,
            ) && store.rank_aggregations_v()[k].count == count_at(
                store.comments_v(), store.rank_aggregations_v()[k].location_id,
            ) by {
            let loc2 = store.rank_aggregations_v()[k].location_id;
            assert(old(store).rank_aggregations_v()[k] == store.rank_aggregations_v()[k]);
            crate::store::lemma_sum_push(cv, newc.last(), loc2);
        }
    }
    match rank_aggregation::update(
        store, loc, RankAggregationUpdate { total: new_total, count: new_count }, now,
    ) {
        Ok(_) => {},
        Err(_) => {
            proof {
                assert(false);
            }
        },
    }
    Ok(id)
}


/// When an upsert owes success: the location has an aggregate row, the
/// target row exists for at least one of the two transitions, and the id
/// space is not spent.
pub open spec fn upsert_succeeds(s: Store, uid: int, loc: int) -> bool {
    &&& hydrate::first_keyed::<RankAggregation>(s.rank_aggregations_v(), loc) is Some
    &&& (hydrate::first_keyed::<crate::model::Location>(s.locations_v(), loc) is Some
        || exists|j: int| 0 <= j < s.comments_v().len()
            && pair_match(#[trigger] s.comments_v()[j], uid, loc))
    &&& s.next_id < 0x7fff_ffff
}

/// The comment upsert: a locked read of the aggregate row, then of the
/// pair's comment row, decides between the two transitions — no existing
/// comment inserts with delta `(+rank, +1)`, an existing one is
/// rewritten in place with delta `(rank - old rank, 0)`, the old rank
/// read fresh inside the transaction — and the aggregate is rewritten in
/// the same transaction, so its invariant holds again at exit. Returns
/// the count of rewritten rows: one for the update branch, zero for the
/// insert branch. `NotFound` when the location has no aggregate row or
/// no location row; `StorageError` when the id space is spent; nothing
/// changes on failure.
pub fn upsert(store: &mut Store, uid: i32, loc: i32, body: CommentUpdate, now: i64) -> (r: Result<
    usize,
    Error,
>)
    requires
        old(store).wf(),
    ensures
        final(store).wf(),
        match r {
            Ok(n) => {
                &&& (n == 1 <==> exists|j: int| 0 <= j < old(store).comments_v().len()
                    && pair_match(#[trigger] old(store).comments_v()[j], uid as int, loc as int))
                &&& (n == 1 ==> exists|i: int| {
                    &&& 0 <= i < old(store).comments_v().len()
                    &&& pair_match(#[trigger] old(store).comments_v()[i], uid as int, loc as int)
                    &&& final(store).comments_v() == old(store).comments_v().update(
                        i, updated_comment(old(store).comments_v()[i], body, now as int),
                    )
                })
                &&& (n == 1 ==> final(store).next_id == old(store).next_id)
                &&& (n == 0 ==> final(store).comments_v() == old(store).comments_v().push(
                    CommentV {
                        id: old(store).next_id as int,
                        rank: body.rank as int,
                        content: body.content@,
                        user: uid as int,
                        location: loc as int,
                        create_on: now as int,
                        update_on: now as int,
                    },
                ) && final(store).next_id as int == old(store).next_id as int + 1)
                &&& (n == 0 || n == 1)
                &&& aggs_after(
                    old(store).rank_aggregations_v(), final(store).rank_aggregations_v(),
                    loc as int, sum_ranks(final(store).comments_v(), loc as int),
                    count_at(final(store).comments_v(), loc as int), now as int,
                )
                &&& final(store).users == old(store).users
                &&& final(store).locations == old(store).locations
                &&& final(store).uploads == old(store).uploads
                &&& final(store).equipments == old(store).equipments
                &&& final(store).memories == old(store).memories
                &&& final(store).playings == old(store).playings
                &&& final(store).eatings == old(store).eatings
                &&& final(store).location_upload_rels == old(store).location_upload_rels
            },
            Err(e) => {
                &&& *final(store) == *old(store)
                &&& (e == Error::NotFound || e == Error::StorageError)
                &&& (e == Error::StorageError ==> old(store).next_id as int == 0x7fff_ffff)
            },
        },
        upsert_succeeds(*old(store), uid as int, loc as int) ==> r is Ok,
{
    let agg = match rank_aggregation::get_for_update(store, loc) {
        Ok(a) => a,
        Err(e) => {
            return Err(e);
        },
    };
    proof {
        lemma_agg_read(store, loc as int, agg@);
        lemma_agg_headroom(store, loc as int);
    }
    let ghost cv = store.comments_v();
    let new_rank: i32 = body.rank;
    let existing = match comment::may_get_for_update(store, uid, loc) {
        Ok(e) => e,
        Err(_) => {
            proof {
                assert(false);
            }
            return Err(Error::StorageError);
        },
    };
    match existing {
        Some(cmt) => {
            let ori_rank = cmt.rank;
            let res = match comment::update(store, uid, loc, body, now) {
                Ok(n) => n,
                Err(_) => {
                    proof {
                        assert(false);
                    }
                    return Err(Error::StorageError);
                },
            };
            proof {
                assert(res != 0) by {
                    let j = choose|j: int| 0 <= j < cv.len() && #[trigger] cv[j] == cmt@;
                    assert(pair_match(cv[j], uid as int, loc as int));
                }
            }
            let ghost i = choose|i: int| {
                &&& 0 <= i < cv.len()
                &&& pair_match(#[trigger] cv[i], uid as int, loc as int)
                &&& store.comments_v() == cv.update(
                    i, updated_comment(cv[i], crate::model::CommentUpdate {
                        rank: body.rank,
                        content: body.content,
                    }, now as int),
                )
            };
            proof {
                // the locked read and the write hit the same row: the pair
                // is unique in a well-formed store.
                let j = choose|j: int| 0 <= j < cv.len() && #[trigger] cv[j] == cmt@;
                if i != j {
                    assert(old(store).comments_v()[i] == cv[i]);
                    assert(old(store).comments_v()[j] == cv[j]);
                    assert(false);
                }
                assert(cv[i].rank == ori_rank as int);
                crate::store::lemma_sum_update(
                    cv, i, updated_comment(cv[i], crate::model::CommentUpdate {
                        rank: body.rank,
                        content: body.content,
                    }, now as int), loc as int,
                );
                assert(cv[i].location == loc as int);
                assert(sum_ranks(store.comments_v(), loc as int)
                    == sum_ranks(cv, loc as int) - ori_rank as int + body.rank as int);
                assert(count_at(store.comments_v(), loc as int) == count_at(cv, loc as int));
            }
            let new_total: i64 = agg.total + new_rank as i64 - ori_rank as i64;
            let new_count: i64 = agg.count;
            proof {
                assert(new_total as int == sum_ranks(store.comments_v(), loc as int));
                assert(new_count as int == count_at(store.comments_v(), loc as int));
                assert forall|k: int| 0 <= k < store.rank_aggregations_v().len()
                    && (#[trigger] store.rank_aggregations_v()[k]).location_id != loc as int
                    implies store.rank_aggregations_v()[k].total == sum_ranks(
                        store.comments_v(), store.rank_aggregations_v()[k].location_id,
                    ) && store.rank_aggregations_v()[k].count == count_at(
                        store.comments_v(), store.rank_aggregations_v()[k].location_id,
                    ) by {
                    let loc2 = store.rank_aggregations_v()[k].location_id;
                    assert(old(store).rank_aggregations_v()[k]
                        == store.rank_aggregations_v()[k]);
                    crate::store::lemma_sum_update(
                        cv, i, updated_comment(cv[i], crate::model::CommentUpdate {
                            rank: body.rank,
                            content: body.content,
                        }, now as int), loc2,
                    );
                }
            }
            match rank_aggregation::update(
                store, loc, RankAggregationUpdate { total: new_total, count: new_count }, now,
            ) {
                Ok(_) => {},
                Err(_) => {
                    proof {
                        assert(false);
                    }
                },
            }
            Ok(res)
        },
        None => {
            let id = match comment::insert(
                store,
                CommentInsert {
                    rank: body.rank,
                    content: body.content,
                    user: uid,
                    location: loc,
                },
                now,
            ) {
                Ok(id) => id,
                Err(e) => {
                    proof {
                        assert(e != Error::Conflict);
                    }
                    return Err(e);
                },
            };
            let ghost newc = store.comments_v();
            proof {
                assert(newc.drop_last() =~= cv);
                crate::store::lemma_sum_push(cv, newc.last(), loc as int);
                assert(sum_ranks(newc, loc as int)
                    == sum_ranks(cv, loc as int) + body.rank as int);
                assert(count_at(newc, loc as int) == count_at(cv, loc as int) + 1);
            }
            let new_total: i64 = agg.total + new_rank as i64;
            let new_count: i64 = agg.count + 1;
            proof {
                assert(new_total as int == sum_ranks(store.comments_v(), loc as int));
                assert(new_count as int == count_at(store.comments_v(), loc as int));
                assert forall|k: int| 0 <= k < store.rank_aggregations_v().len()
                    && (#[trigger] store.rank_aggregations_v()[k]).location_id != loc as int
                    implies store.rank_aggregations_v()[k].total == sum_ranks(
                        store.comments_v(), store.rank_aggregations_v()[k].location_id,
                    ) && store.rank_aggregations_v()[k].count == count_at(
                        store.comments_v(), store.rank_aggregations_v()[k].location_id,
                    ) by {
                    let loc2 = store.rank_aggregations_v()[k].location_id;
                    assert(old(store).rank_aggregations_v()[k]
                        == store.rank_aggregations_v()[k]);
                    crate::store::lemma_sum_push(cv, newc.last(), loc2);
                }
            }
            match rank_aggregation::update(
                store, loc, RankAggregationUpdate { total: new_total, count: new_count }, now,
            ) {
                Ok(_) => {},
                Err(_) => {
                    proof {
                        assert(false);
                    }
                },
            }
            Ok(0)
        },
    }
}

/// The comment listing of one location, newest update first.
pub fn comments_of_location(store: &Store, loc: i32, params: CommentsOfLocation) -> (r: Result<
    (Vec<Comment>, i64),
    Error,
>)
    requires
        store.wf(),
    ensures
        match r {
            Ok(p) => {
                &&& crate::engine::views_of(p.0@) == crate::engine::page_spec::<Comment>(
                    comment::rank_filtered(store.comments_v(), None, None),
                    comment::filter_of(comment::Query {
                        rank_gt: None,
                        rank_lt: None,
                        location: Some(loc),
                        limit: params.limit,
                        offset: params.offset,
                    }), crate::engine::OrderBy::UpdateOnDesc, params.limit as int,
                    params.offset as int,
                )
                &&& p.1 as int == crate::engine::total_spec::<Comment>(
                    comment::rank_filtered(store.comments_v(), None, None),
                    comment::filter_of(comment::Query {
                        rank_gt: None,
                        rank_lt: None,
                        location: Some(loc),
                        limit: params.limit,
                        offset: params.offset,
                    }),
                )
            },
            Err(_) => false,
        },
{
    comment::query(
        store,
        comment::Query {
            rank_gt: None,
            rank_lt: None,
            location: Some(loc),
            limit: params.limit,
            offset: params.offset,
        },
    )
}

/// The pair's comment, if any, for the caller's own lookup.
pub fn may_get(store: &Store, uid: i32, loc: i32) -> (r: Result<Option<Comment>, Error>)
    ensures
        match r {
            Ok(Some(c)) => {
                &&& exists|i: int| 0 <= i < store.comments_v().len()
                    && #[trigger] store.comments_v()[i] == c@
                &&& pair_match(c@, uid as int, loc as int)
            },
            Ok(None) => forall|j: int| 0 <= j < store.comments_v().len()
                ==> !pair_match(#[trigger] store.comments_v()[j], uid as int, loc as int),
            Err(_) => false,
        },
{
    comment::may_get(store, uid, loc)
}

// ----------------------------------------------------------------- laws

/// When every comment of a location carries one and the same rank, the
/// aggregate invariant forces its running total to be that rank times
/// its running count — so any number of serialized upserts by distinct
/// users with one shared rank leaves `total == rank * count`, whatever
/// order the row locks were granted in.
pub proof fn lemma_uniform_ranks(s: Seq<CommentV>, loc: int, r: int)
    requires
        forall|k: int| 0 <= k < s.len() ==> ((#[trigger] s[k]).location == loc
            ==> s[k].rank == r),
    ensures
        sum_ranks(s, loc) == r * count_at(s, loc),
    decreases s.len(),
{
    if s.len() > 0 {
        assert(s.last() == s[s.len() - 1]);
        assert(forall|k: int| 0 <= k < s.drop_last().len()
            ==> ((#[trigger] s.drop_last()[k]).location == loc
                ==> s.drop_last()[k].rank == r));
        lemma_uniform_ranks(s.drop_last(), loc, r);
        if s.last().location == loc {
            assert(r * (count_at(s.drop_last(), loc) + 1)
                == r * count_at(s.drop_last(), loc) + r) by (nonlinear_arith);
        }
    }
}

/// A re-upsert nets only the latest rank: inserting a comment with one
/// rank and then rewriting it in place with another moves the location's
/// sum by exactly the second rank, and its count by exactly one — the
/// first rank leaves no trace.
pub proof fn lemma_reupsert_counts_last(
    s: Seq<CommentV>, x: CommentV, y: CommentV, loc: int,
)
    requires
        x.location == loc,
        y.location == loc,
    ensures
        sum_ranks(s.push(x).update(s.len() as int, y), loc) == sum_ranks(s, loc) + y.rank,
        count_at(s.push(x).update(s.len() as int, y), loc) == count_at(s, loc) + 1,
{
    crate::store::lemma_sum_push(s, x, loc);
    crate::store::lemma_sum_update(s.push(x), s.len() as int, y, loc);
    assert(s.push(x)[s.len() as int] == x);
}

/// `first_keyed` over the aggregate table only looks at each row's
/// location, so a rewrite that keeps every row's location keeps the
/// lookup's success.
proof fn lemma_first_agg_some_preserved(
    old_aggs: Seq<RankAggregationV>, new_aggs: Seq<RankAggregationV>, loc: int,
)
    requires
        new_aggs.len() == old_aggs.len(),
        forall|k: int| 0 <= k < old_aggs.len()
            ==> (#[trigger] new_aggs[k]).location_id == (#[trigger] old_aggs[k]).location_id,
        hydrate::first_keyed::<RankAggregation>(old_aggs, loc) is Some,
    ensures
        hydrate::first_keyed::<RankAggregation>(new_aggs, loc) is Some,
    decreases old_aggs.len(),
{
    if old_aggs.len() > 0 {
        if old_aggs[0].location_id == loc {
        } else {
            assert(forall|k: int| 0 <= k < old_aggs.drop_first().len()
                ==> (#[trigger] new_aggs.drop_first()[k]).location_id
                    == (#[trigger] old_aggs.drop_first()[k]).location_id);
            lemma_first_agg_some_preserved(old_aggs.drop_first(), new_aggs.drop_first(), loc);
        }
    }
}

/// The serialized witness of any number of concurrent upserts by
/// distinct users against one location, all with the same rank: whatever
/// order the transactions were granted the row locks in — the order of
/// `users` is arbitrary — after all complete, the location's aggregate
/// reads `total == rank * C` above its old values and `count == C` new
/// comments, with C the number of users.
pub fn upsert_many(
    store: &mut Store, users: &Vec<i32>, loc: i32, rank: i32, content: &str, now: i64,
) -> (r: Result<(), Error>)
    requires
        old(store).wf(),
        hydrate::first_keyed::<RankAggregation>(
            old(store).rank_aggregations_v(), loc as int,
        ) is Some,
        hydrate::first_keyed::<crate::model::Location>(
            old(store).locations_v(), loc as int,
        ) is Some,
        forall|q: int| 0 <= q < users@.len()
            ==> forall|j: int| 0 <= j < old(store).comments_v().len()
                ==> !pair_match(
                    #[trigger] old(store).comments_v()[j], #[trigger] users@[q] as int,
                    loc as int,
                ),
        forall|i: int, j: int| 0 <= i < j < users@.len() ==> users@[i] != users@[j],
        old(store).next_id as int + users@.len() <= 0x7fff_ffff,
    ensures
        final(store).wf(),
        r is Ok,
        count_at(final(store).comments_v(), loc as int)
            == count_at(old(store).comments_v(), loc as int) + users@.len(),
        sum_ranks(final(store).comments_v(), loc as int)
            == sum_ranks(old(store).comments_v(), loc as int) + rank as int * users@.len(),
        final(store).users == old(store).users,
        final(store).locations == old(store).locations,
        final(store).rank_aggregations_v().len() == old(store).rank_aggregations_v().len(),
{
    let mut j: usize = 0;
    while j < users.len()
        invariant
            store.wf(),
            j <= users@.len(),
            hydrate::first_keyed::<RankAggregation>(
                store.rank_aggregations_v(), loc as int,
            ) is Some,
            hydrate::first_keyed::<crate::model::Location>(
                store.locations_v(), loc as int,
            ) is Some,
            store.users == old(store).users,
            store.locations == old(store).locations,
            store.rank_aggregations_v().len() == old(store).rank_aggregations_v().len(),
            store.next_id as int + (users@.len() - j) <= 0x7fff_ffff,
            count_at(store.comments_v(), loc as int)
                == count_at(old(store).comments_v(), loc as int) + j,
            sum_ranks(store.comments_v(), loc as int)
                == sum_ranks(old(store).comments_v(), loc as int) + rank as int * j,
            forall|q: int| j <= q < users@.len()
                ==> forall|k: int| 0 <= k < store.comments_v().len()
                    ==> !pair_match(
                        #[trigger] store.comments_v()[k], #[trigger] users@[q] as int,
                        loc as int,
                    ),
            forall|i2: int, j2: int| 0 <= i2 < j2 < users@.len() ==> users@[i2] != users@[j2],
        decreases users@.len() - j,
    {
        let ghost cv = store.comments_v();
        let ghost aggs0 = store.rank_aggregations_v();
        let body = CommentUpdate { rank, content: content.to_owned() };
        let res = match upsert(store, users[j], loc, body, now) {
            Ok(n) => n,
            Err(e) => {
                proof {
                    crate::hydrate::lemma_first_keyed_member::<crate::model::Location>(
                        store.locations_v(), loc as int,
                    );
                    assert(false);
                }
                return Err(e);
            },
        };
        proof {
            assert(res == 0);
            let newc = store.comments_v();
            assert(newc.drop_last() =~= cv);
            crate::store::lemma_sum_push(cv, newc.last(), loc as int);
            assert(rank as int * (j + 1) == rank as int * j + rank as int) by (nonlinear_arith);
            assert forall|k: int| 0 <= k < aggs0.len()
                implies (#[trigger] store.rank_aggregations_v()[k]).location_id
                    == (#[trigger] aggs0[k]).location_id by {
            }
            lemma_first_agg_some_preserved(aggs0, store.rank_aggregations_v(), loc as int);
            assert forall|q: int| j + 1 <= q < users@.len()
                implies forall|k: int| 0 <= k < store.comments_v().len()
                    ==> !pair_match(
                        #[trigger] store.comments_v()[k], #[trigger] users@[q] as int,
                        loc as int,
                    ) by {
                assert forall|k: int| 0 <= k < store.comments_v().len()
                    implies !pair_match(
                        #[trigger] store.comments_v()[k], users@[q] as int, loc as int,
                    ) by {
                    if k < cv.len() {
                        assert(store.comments_v()[k] == cv[k]);
                    } else {
                        assert(store.comments_v()[k] == newc.last());
                        assert(newc.last().user == users@[j as int] as int);
                        assert(users@[j as int] != users@[q]);
                    }
                }
            }
        }
        j = j + 1;
    }
    proof {
        assert(rank as int * users@.len() == rank as int * (users@.len() as int));
    }
    Ok(())
}

} // verus!
