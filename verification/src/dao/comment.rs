//! Comment reads and writes. A comment is keyed by its (user, location)
//! pair, of which the store holds at most one; the writes here are the
//! raw halves of the rank transaction and keep every clause of the base
//! invariant, while the aggregate clause is restored by the transaction
//! that composes them.

use vstd::prelude::*;

use crate::engine;
use crate::engine::{views_of, Filter, FilterV, OrderBy};
use crate::errors::Error;
use crate::geo::Point;
use crate::hydrate;
use crate::model::{Comment, CommentInsert, CommentUpdate, CommentV, Location};
use crate::store::Store;

verus! {

/// Whether a comment belongs to this (user, location) pair.
pub open spec fn pair_match(c: CommentV, user: int, loc: int) -> bool {
    c.user == user && c.location == loc
}

/// Scans for the first comment of a (user, location) pair.
pub fn find_pair(comments: &Vec<Comment>, user: i32, loc: i32) -> (r: Option<usize>)
    ensures
        match r {
            Some(i) => {
                &&& i < comments@.len()
                &&& pair_match(views_of(comments@)[i as int], user as int, loc as int)
                &&& forall|j: int| 0 <= j < i
                    ==> !pair_match(#[trigger] views_of(comments@)[j], user as int, loc as int)
            },
            None => forall|j: int| 0 <= j < comments@.len()
                ==> !pair_match(#[trigger] views_of(comments@)[j], user as int, loc as int),
        },
{
    let mut i: usize = 0;
    while i < comments.len()
        invariant
            i <= comments@.len(),
            forall|j: int| 0 <= j < i
                ==> !pair_match(#[trigger] views_of(comments@)[j], user as int, loc as int),
        decreases comments@.len() - i,
    {
        proof {
            assert(views_of(comments@)[i as int] == comments@[i as int]@);
        }
        if comments[i].user == user && comments[i].location == loc {
            return Some(i);
        }
        i = i + 1;
    }
    None
}

/// The comment of one (user, location) pair, if any.
pub fn may_get(store: &Store, user: i32, loc: i32) -> (r: Result<Option<Comment>, Error>)
    ensures
        match r {
            Ok(Some(c)) => {
                &&& exists|i: int| 0 <= i < store.comments_v().len()
                    && #[trigger] store.comments_v()[i] == c@
                &&& pair_match(c@, user as int, loc as int)
            },
            Ok(None) => forall|j: int| 0 <= j < store.comments_v().len()
                ==> !pair_match(#[trigger] store.comments_v()[j], user as int, loc as int),
            Err(_) => false,
        },
{
    match find_pair(&store.comments, user, loc) {
        Some(i) => {
            let c = store.comments[i].dup();
            proof {
                assert(store.comments_v()[i as int] == store.comments@[i as int]@);
            }
            Ok(Some(c))
        },
        None => Ok(None),
    }
}

/// The locked read of the rank transaction: the same lookup, taken
/// before the transaction writes either row.
pub fn may_get_for_update(store: &Store, user: i32, loc: i32) -> (r: Result<
    Option<Comment>,
    Error,
>)
    ensures
        match r {
            Ok(Some(c)) => {
                &&& exists|i: int| 0 <= i < store.comments_v().len()
                    && #[trigger] store.comments_v()[i] == c@
                &&& pair_match(c@, user as int, loc as int)
            },
            Ok(None) => forall|j: int| 0 <= j < store.comments_v().len()
                ==> !pair_match(#[trigger] store.comments_v()[j], user as int, loc as int),
            Err(_) => false,
        },
{
    may_get(store, user, loc)
}

/// The filter and pagination of one comment listing.
pub struct Query {
    pub rank_gt: Option<i32>,
    pub rank_lt: Option<i32>,
    pub location: Option<i32>,
    pub limit: i64,
    pub offset: i64,
}

/// The rank band of the listing filter.
pub open spec fn rank_ok(c: CommentV, gt: Option<int>, lt: Option<int>) -> bool {
    &&& match gt {
        Some(g) => c.rank > g,
        None => true,
    }
    &&& match lt {
        Some(l) => c.rank < l,
        None => true,
    }
}

/// The comments within the rank band, in stored order.
pub open spec fn rank_filtered(s: Seq<CommentV>, gt: Option<int>, lt: Option<int>) -> Seq<
    CommentV,
>
    decreases s.len(),
{
    if s.len() == 0 {
        Seq::<CommentV>::empty()
    } else {
        let rest = rank_filtered(s.drop_last(), gt, lt);
        if rank_ok(s.last(), gt, lt) {
            rest.push(s.last())
        } else {
            rest
        }
    }
}

pub open spec fn gt_of(q: Query) -> Option<int> {
    match q.rank_gt {
        Some(g) => Some(g as int),
        None => None,
    }
}

pub open spec fn lt_of(q: Query) -> Option<int> {
    match q.rank_lt {
        Some(l) => Some(l as int),
        None => None,
    }
}

/// The engine filter of a comment listing: the location, where given,
/// stands as the owner key; the point filter admits everything.
pub open spec fn filter_of(q: Query) -> FilterV {
    FilterV {
        name: None,
        category: None,
        owner: match q.location {
            Some(l) => Some(l as int),
            None => None,
        },
        create_after: None,
        create_before: None,
        clat: 0,
        clon: 0,
        radius: 0,
    }
}

/// The comment listing: the rank band and the location filter feed both
/// the page and the total, and the page is a contiguous slice of the
/// result ordered by update time, newest first. In-memory execution
/// cannot fail, so the result is always `Ok`.
pub fn query(store: &Store, q: Query) -> (r: Result<(Vec<Comment>, i64), Error>)
    requires
        store.wf(),
    ensures
        match r {
            Ok(p) => {
                &&& views_of(p.0@) == engine::page_spec::<Comment>(
                    rank_filtered(store.comments_v(), gt_of(q), lt_of(q)), filter_of(q),
                    OrderBy::UpdateOnDesc, q.limit as int, q.offset as int,
                )
                &&& p.1 as int == engine::total_spec::<Comment>(
                    rank_filtered(store.comments_v(), gt_of(q), lt_of(q)), filter_of(q),
                )
            },
            Err(_) => false,
        },
{
    let mut banded: Vec<Comment> = Vec::new();
    let mut i: usize = 0;
    proof {
        assert(views_of(store.comments@.subrange(0, 0)) =~= Seq::<CommentV>::empty());
        assert(views_of(banded@) =~= Seq::<CommentV>::empty());
    }
    while i < store.comments.len()
        invariant
            i <= store.comments@.len(),
            views_of(banded@) == rank_filtered(
                views_of(store.comments@.subrange(0, i as int)), gt_of(q), lt_of(q),
            ),
        decreases store.comments@.len() - i,
    {
        let ghost pre = store.comments@.subrange(0, i as int);
        proof {
            assert(views_of(store.comments@)[i as int] == store.comments@[i as int]@);
            assert(store.comments@.subrange(0, i as int + 1) =~= pre.push(store.comments@[i as int]));
            assert(views_of(pre.push(store.comments@[i as int]))
                =~= views_of(pre).push(store.comments@[i as int]@));
            assert(views_of(pre.push(store.comments@[i as int])).drop_last() =~= views_of(pre));
        }
        let c = &store.comments[i];
        let gt_pass = match q.rank_gt {
            Some(g) => c.rank > g,
            None => true,
        };
        let lt_pass = match q.rank_lt {
            Some(l) => c.rank < l,
            None => true,
        };
        if gt_pass && lt_pass {
            let ghost old_out = banded@;
            banded.push(c.dup());
            proof {
                assert(views_of(banded@) =~= views_of(old_out).push(store.comments@[i as int]@));
            }
        }
        i = i + 1;
    }
    proof {
        assert(store.comments@.subrange(0, store.comments@.len() as int) =~= store.comments@);
    }
    let f = Filter {
        name: None,
        category: None,
        owner: q.location,
        create_after: None,
        create_before: None,
        center: Point { lat: 0, lon: 0 },
        radius: 0,
    };
    proof {
        assert(f@ == filter_of(q));
        assert(engine::rows_in_range::<Comment>(views_of(banded@)));
        lemma_rank_filtered_len(store.comments_v(), gt_of(q), lt_of(q));
    }
    let (page, _dists, total) = engine::run_query(
        &banded, &f, OrderBy::UpdateOnDesc, q.limit, q.offset,
    );
    Ok((page, total))
}

/// The rank band keeps at most as many comments as there are.
pub proof fn lemma_rank_filtered_len(s: Seq<CommentV>, gt: Option<int>, lt: Option<int>)
    ensures
        rank_filtered(s, gt, lt).len() <= s.len(),
    decreases s.len(),
{
    if s.len() > 0 {
        lemma_rank_filtered_len(s.drop_last(), gt, lt);
    }
}

/// Inserts a comment. `Conflict` exactly when the pair already has one —
/// the caller-visible uniqueness violation; `NotFound` when the location
/// does not exist; `StorageError` when the id space is spent. Nothing
/// changes on failure, and the aggregate table is never touched here:
/// restoring the aggregate clause is the surrounding transaction's work.
pub fn insert(store: &mut Store, ins: CommentInsert, now: i64) -> (r: Result<i32, Error>)
    requires
        old(store).wf_base(),
    ensures
        final(store).wf_base(),
        final(store).rank_aggregations == old(store).rank_aggregations,
        match r {
            Ok(id) => {
                &&& hydrate::first_keyed::<Location>(
                    old(store).locations_v(), ins.location as int,
                ) is Some
                &&& !(exists|j: int| 0 <= j < old(store).comments_v().len() && pair_match(
                    #[trigger] old(store).comments_v()[j], ins.user as int, ins.location as int,
                ))
                &&& id as int == old(store).next_id as int
                &&& final(store).comments_v() == old(store).comments_v().push(
                    CommentV {
                        id: id as int,
                        rank: ins.rank as int,
                        content: ins.content@,
                        user: ins.user as int,
                        location: ins.location as int,
                        create_on: now as int,
                        update_on: now as int,
                    },
                )
                &&& final(store).next_id as int == old(store).next_id as int + 1
                &&& final(store).users == old(store).users
                &&& final(store).locations == old(store).locations
                &&& final(store).uploads == old(store).uploads
                &&& final(store).equipments == old(store).equipments
                &&& final(store).memories == old(store).memories
                &&& final(store).playings == old(store).playings
                &&& final(store).eatings == old(store).eatings
                &&& final(store).location_upload_rels == old(store).location_upload_rels
            },
            Err(e) => {
                &&& *final(store) == *old(store)
                &&& (e == Error::Conflict || e == Error::NotFound || e == Error::StorageError)
                &&& (e == Error::Conflict <==> exists|j: int| 0 <= j < old(store).comments_v().len()
                    && pair_match(
                        #[trigger] old(store).comments_v()[j], ins.user as int, ins.location as int,
                    ))
                &&& (e == Error::NotFound <==> !(exists|j: int|
                    0 <= j < old(store).comments_v().len() && pair_match(
                        #[trigger] old(store).comments_v()[j], ins.user as int,
                        ins.location as int,
                    )) && hydrate::first_keyed::<Location>(
                    old(store).locations_v(), ins.location as int,
                ) is None)
                &&& (e == Error::StorageError ==> old(store).next_id as int == 0x7fff_ffff
                    && hydrate::first_keyed::<Location>(
                        old(store).locations_v(), ins.location as int,
                    ) is Some)
            },
        },
{
    match find_pair(&store.comments, ins.user, ins.location) {
        Some(_) => {
            return Err(Error::Conflict);
        },
        None => {},
    }
    match hydrate::find_keyed::<Location>(&store.locations, ins.location) {
        Some(l) => {
            proof {
                crate::hydrate::lemma_first_keyed_member::<Location>(
                    store.locations_v(), ins.location as int,
                );
                hydrate::lemma_first_keyed_key::<Location>(
                    store.locations_v(), ins.location as int,
                );
            }
        },
        None => {
            return Err(Error::NotFound);
        },
    }
    let id = match store.alloc_id() {
        Ok(id) => id,
        Err(e) => {
            return Err(e);
        },
    };
    let ghost old_cv = store.comments_v();
    let row = Comment {
        id,
        rank: ins.rank,
        content: ins.content,
        user: ins.user,
        location: ins.location,
        create_on: now,
        update_on: now,
    };
    let ghost rowv = row@;
    store.comments.push(row);
    proof {
        assert(store.comments_v() =~= old_cv.push(rowv));
        assert(store.users_v() == old(store).users_v());
        assert(store.locations_v() == old(store).locations_v());
        assert(store.uploads_v() == old(store).uploads_v());
        assert(store.location_upload_rels_v() == old(store).location_upload_rels_v());
        assert(store.equipments_v() == old(store).equipments_v());
        assert(store.rank_aggregations_v() == old(store).rank_aggregations_v());
        assert(store.memories_v() == old(store).memories_v());
        assert(store.memory_upload_rels_v() == old(store).memory_upload_rels_v());
        assert(store.playings_v() == old(store).playings_v());
        assert(store.eatings_v() == old(store).eatings_v());
        assert(store.playings_uploads_v() == old(store).playings_uploads_v());
        assert(store.eatings_uploads_v() == old(store).eatings_uploads_v());
        assert forall|i2: int, j2: int| 0 <= i2 < j2 < store.comments_v().len()
            implies !((#[trigger] store.comments_v()[i2]).user
                == (#[trigger] store.comments_v()[j2]).user
                && store.comments_v()[i2].location == store.comments_v()[j2].location) by {
            if j2 < old_cv.len() {
                assert(store.comments_v()[i2] == old_cv[i2]);
                assert(store.comments_v()[j2] == old_cv[j2]);
                assert(old(store).comments_v()[i2] == old_cv[i2]);
            } else {
                assert(store.comments_v()[j2] == rowv);
                assert(store.comments_v()[i2] == old_cv[i2]);
                assert(!pair_match(old_cv[i2], ins.user as int, ins.location as int));
            }
        }
        assert forall|k: int| 0 <= k < store.comments_v().len()
            implies (#[trigger] store.comments_v()[k]).location < store.next_id as int by {
            if k < old_cv.len() {
                assert(store.comments_v()[k] == old_cv[k]);
                assert(old(store).comments_v()[k] == old_cv[k]);
            } else {
                assert(store.comments_v()[k] == rowv);
            }
        }
        assert(store.next_ok());
        assert(store.comments_unique());
        assert(store.phones_unique());
        assert(store.coords_ok());
        assert(store.refs_ok());
    }
    Ok(id)
}

/// The stored comment after an in-place upsert write: rank and content
/// replaced, identity, pair and creation instant kept.
pub open spec fn updated_comment(prev: CommentV, upd: CommentUpdate, now: int) -> CommentV {
    CommentV {
        id: prev.id,
        rank: upd.rank as int,
        content: upd.content@,
        user: prev.user,
        location: prev.location,
        create_on: prev.create_on,
        update_on: now,
    }
}

/// Rewrites the rank and content of the pair's comment in place; the
/// count of written rows is returned — zero exactly when the pair has no
/// comment, and the store is then unchanged. The aggregate table is
/// never touched here.
pub fn update(store: &mut Store, user: i32, loc: i32, upd: CommentUpdate, now: i64) -> (r: Result<
    usize,
    Error,
>)
    requires
        old(store).wf_base(),
    ensures
        final(store).wf_base(),
        final(store).rank_aggregations == old(store).rank_aggregations,
        final(store).users == old(store).users,
        final(store).locations == old(store).locations,
        final(store).uploads == old(store).uploads,
        final(store).equipments == old(store).equipments,
        final(store).memories == old(store).memories,
        final(store).playings == old(store).playings,
        final(store).eatings == old(store).eatings,
        final(store).location_upload_rels == old(store).location_upload_rels,
        final(store).next_id == old(store).next_id,
        match r {
            Ok(n) => {
                if n == 0 {
                    &&& *final(store) == *old(store)
                    &&& forall|j: int| 0 <= j < old(store).comments_v().len()
                        ==> !pair_match(
                            #[trigger] old(store).comments_v()[j], user as int, loc as int,
                        )
                } else {
                    &&& n == 1
                    &&& exists|i: int| {
                        &&& 0 <= i < old(store).comments_v().len()
                        &&& pair_match(#[trigger] old(store).comments_v()[i], user as int, loc as int)
                        &&& final(store).comments_v() == old(store).comments_v().update(
                            i, updated_comment(old(store).comments_v()[i], upd, now as int),
                        )
                    }
                }
            },
            Err(_) => false,
        },
{
    let target = match find_pair(&store.comments, user, loc) {
        Some(i) => i,
        None => {
            return Ok(0);
        },
    };
    let ghost cv = store.comments_v();
    let mut out: Vec<Comment> = Vec::new();
    let mut i: usize = 0;
    while i < store.comments.len()
        invariant
            i <= store.comments@.len(),
            cv == views_of(store.comments@),
            (target as int) < cv.len(),
            pair_match(cv[target as int], user as int, loc as int),
            out@.len() == i,
            forall|q: int| 0 <= q < i ==> views_of(out@)[q] == if q == target as int {
                updated_comment(cv[q], upd, now as int)
            } else {
                cv[q]
            },
        decreases store.comments@.len() - i,
    {
        let ghost old_out = out@;
        let row = &store.comments[i];
        proof {
            assert(cv[i as int] == store.comments@[i as int]@);
        }
        if i == target {
            let replaced = Comment {
                id: row.id,
                rank: upd.rank,
                content: upd.content.clone(),
                user: row.user,
                location: row.location,
                create_on: row.create_on,
                update_on: now,
            };
            out.push(replaced);
        } else {
            out.push(row.dup());
        }
        proof {
            assert(views_of(out@) =~= views_of(old_out).push(out@[i as int]@));
            assert(forall|q: int| 0 <= q < i ==> views_of(out@)[q] == views_of(old_out)[q]);
        }
        i = i + 1;
    }
    store.comments = out;
    proof {
        assert(store.comments_v() =~= cv.update(
            target as int, updated_comment(cv[target as int], upd, now as int),
        ));
        assert(store.users_v() == old(store).users_v());
        assert(store.locations_v() == old(store).locations_v());
        assert(store.uploads_v() == old(store).uploads_v());
        assert(store.location_upload_rels_v() == old(store).location_upload_rels_v());
        assert(store.equipments_v() == old(store).equipments_v());
        assert(store.rank_aggregations_v() == old(store).rank_aggregations_v());
        assert(store.memories_v() == old(store).memories_v());
        assert(store.memory_upload_rels_v() == old(store).memory_upload_rels_v());
        assert(store.playings_v() == old(store).playings_v());
        assert(store.eatings_v() == old(store).eatings_v());
        assert(store.playings_uploads_v() == old(store).playings_uploads_v());
        assert(store.eatings_uploads_v() == old(store).eatings_uploads_v());
        assert forall|i2: int, j2: int| 0 <= i2 < j2 < store.comments_v().len()
            implies !((#[trigger] store.comments_v()[i2]).user
                == (#[trigger] store.comments_v()[j2]).user
                && store.comments_v()[i2].location == store.comments_v()[j2].location) by {
            assert(old(store).comments_v()[i2] == cv[i2]);
            assert(old(store).comments_v()[j2] == cv[j2]);
            assert(store.comments_v()[i2] == if i2 == target as int {
                updated_comment(cv[i2], upd, now as int)
            } else {
                cv[i2]
            });
            assert(store.comments_v()[j2] == if j2 == target as int {
                updated_comment(cv[j2], upd, now as int)
            } else {
                cv[j2]
            });
        }
        assert forall|k: int| 0 <= k < store.comments_v().len()
            implies (#[trigger] store.comments_v()[k]).location < store.next_id as int by {
            assert(old(store).comments_v()[k] == cv[k]);
            assert(store.comments_v()[k] == if k == target as int {
                updated_comment(cv[k], upd, now as int)
            } else {
                cv[k]
            });
        }
        assert(store.next_ok());
        assert(store.comments_unique());
        assert(store.phones_unique());
        assert(store.coords_ok());
        assert(store.refs_ok());
    }
    Ok(1)
}

} // verus!
