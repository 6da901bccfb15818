//! Rank aggregate reads and writes. The writes carry the aggregate
//! invariant in their contracts: a row may only ever be written with the
//! sum and count of its location's comments, so the running values and
//! the comment set can never drift apart.

use vstd::prelude::*;

use crate::engine::views_of;
use crate::errors::Error;
use crate::hydrate;
use crate::model::{
    Location, RankAggregation, RankAggregationInsert, RankAggregationUpdate, RankAggregationV,
};
use crate::store::{count_at, sum_ranks, Store};

verus! {

/// Inserts the aggregate row of a location. The caller must hand in the
/// true sum and count of the location's comments — for a location that
/// no comment references yet, zero and zero — and the location must be
/// one the counter has already seen. `StorageError` exactly when the id
/// space is spent; nothing changes on failure.
pub fn insert(store: &mut Store, ra: RankAggregationInsert, now: i64) -> (r: Result<i32, Error>)
    requires
        old(store).wf(),
        ra.total as int == sum_ranks(old(store).comments_v(), ra.location_id as int),
        ra.count as int == count_at(old(store).comments_v(), ra.location_id as int),
        (ra.location_id as int) < old(store).next_id as int,
    ensures
        final(store).wf(),
        match r {
            Ok(id) => {
                &&& id as int == old(store).next_id as int
                &&& final(store).rank_aggregations_v()
                    == old(store).rank_aggregations_v().push(
                    RankAggregationV {
                        id: id as int,
                        total: ra.total as int,
                        count: ra.count as int,
                        location_id: ra.location_id as int,
                        create_on: now as int,
                        update_on: now as int,
                    },
                )
                &&& final(store).next_id as int == old(store).next_id as int + 1
                &&& final(store).users == old(store).users
                &&& final(store).locations == old(store).locations
                &&& final(store).uploads == old(store).uploads
                &&& final(store).equipments == old(store).equipments
                &&& final(store).comments == old(store).comments
                &&& final(store).memories == old(store).memories
                &&& final(store).playings == old(store).playings
                &&& final(store).eatings == old(store).eatings
                &&& final(store).location_upload_rels == old(store).location_upload_rels
            },
            Err(e) => {
                &&& *final(store) == *old(store)
                &&& e == Error::StorageError
                &&& old(store).next_id as int == 0x7fff_ffff
            },
        },
{
    let id = match store.alloc_id() {
        Ok(id) => id,
        Err(e) => {
            return Err(e);
        },
    };
    let ghost old_aggs = store.rank_aggregations_v();
    let row = RankAggregation {
        id,
        total: ra.total,
        count: ra.count,
        location_id: ra.location_id,
        create_on: now,
        update_on: now,
    };
    let ghost rowv = row@;
    store.rank_aggregations.push(row);
    proof {
        assert(store.rank_aggregations_v() =~= old_aggs.push(rowv));
        assert(store.users_v() == old(store).users_v());
        assert(store.locations_v() == old(store).locations_v());
        assert(store.uploads_v() == old(store).uploads_v());
        assert(store.location_upload_rels_v() == old(store).location_upload_rels_v());
        assert(store.equipments_v() == old(store).equipments_v());
        assert(store.comments_v() == old(store).comments_v());
        assert(store.memories_v() == old(store).memories_v());
        assert(store.memory_upload_rels_v() == old(store).memory_upload_rels_v());
        assert(store.playings_v() == old(store).playings_v());
        assert(store.eatings_v() == old(store).eatings_v());
        assert(store.playings_uploads_v() == old(store).playings_uploads_v());
        assert(store.eatings_uploads_v() == old(store).eatings_uploads_v());
        assert forall|k: int| 0 <= k < store.rank_aggregations_v().len()
            implies (#[trigger] store.rank_aggregations_v()[k]).total == sum_ranks(
                store.comments_v(), store.rank_aggregations_v()[k].location_id,
            ) && store.rank_aggregations_v()[k].count == count_at(
                store.comments_v(), store.rank_aggregations_v()[k].location_id,
            ) && store.rank_aggregations_v()[k].location_id < store.next_id as int by {
            if k < old_aggs.len() {
                assert(store.rank_aggregations_v()[k] == old_aggs[k]);
                assert(old(store).rank_aggregations_v()[k] == old_aggs[k]);
            } else {
                assert(store.rank_aggregations_v()[k] == rowv);
            }
        }
        assert(store.next_ok());
        assert(store.comments_unique());
        assert(store.phones_unique());
        assert(store.coords_ok());
        assert(store.refs_ok());
        assert(store.aggs_ok());
    }
    Ok(id)
}

/// The new stored values of one aggregate row after a rank transaction.
pub open spec fn updated_agg(prev: RankAggregationV, ra: RankAggregationUpdate, now: int)
    -> RankAggregationV {
    RankAggregationV {
        id: prev.id,
        total: ra.total as int,
        count: ra.count as int,
        location_id: prev.location_id,
        create_on: prev.create_on,
        update_on: now,
    }
}

/// Writes the new running values of a location's aggregate row, inside
/// the rank transaction. The caller must hand in the true sum and count
/// of the location's comments as they now stand; every aggregate row of
/// the location takes the new values, and the count of written rows is
/// returned.
pub fn update(store: &mut Store, loc: i32, ra: RankAggregationUpdate, now: i64) -> (r: Result<
    usize,
    Error,
>)
    requires
        old(store).wf_base(),
        ra.total as int == sum_ranks(old(store).comments_v(), loc as int),
        ra.count as int == count_at(old(store).comments_v(), loc as int),
        forall|k: int| 0 <= k < old(store).rank_aggregations_v().len()
            && (#[trigger] old(store).rank_aggregations_v()[k]).location_id != loc as int
            ==> old(store).rank_aggregations_v()[k].total == sum_ranks(
                old(store).comments_v(), old(store).rank_aggregations_v()[k].location_id,
            ) && old(store).rank_aggregations_v()[k].count == count_at(
                old(store).comments_v(), old(store).rank_aggregations_v()[k].location_id,
            ),
    ensures
        final(store).wf(),
        match r {
            Ok(n) => {
                &&& n as int == hydrate::count_keyed::<RankAggregation>(
                    old(store).rank_aggregations_v(), loc as int,
                )
                &&& final(store).rank_aggregations_v().len()
                    == old(store).rank_aggregations_v().len()
                &&& forall|k: int| 0 <= k < old(store).rank_aggregations_v().len()
                    ==> final(store).rank_aggregations_v()[k] == if (
                        #[trigger] old(store).rank_aggregations_v()[k]).location_id
                        == loc as int {
                        updated_agg(old(store).rank_aggregations_v()[k], ra, now as int)
                    } else {
                        old(store).rank_aggregations_v()[k]
                    }
                &&& final(store).users == old(store).users
                &&& final(store).locations == old(store).locations
                &&& final(store).uploads == old(store).uploads
                &&& final(store).equipments == old(store).equipments
                &&& final(store).comments == old(store).comments
                &&& final(store).memories == old(store).memories
                &&& final(store).playings == old(store).playings
                &&& final(store).eatings == old(store).eatings
                &&& final(store).location_upload_rels == old(store).location_upload_rels
                &&& final(store).next_id == old(store).next_id
            },
            Err(_) => false,
        },
{
    let mut out: Vec<RankAggregation> = Vec::new();
    let mut n: usize = 0;
    let mut i: usize = 0;
    let ghost av = store.rank_aggregations_v();
    proof {
        assert(views_of(store.rank_aggregations@.subrange(0, 0))
            =~= Seq::<RankAggregationV>::empty());
    }
    while i < store.rank_aggregations.len()
        invariant
            i <= store.rank_aggregations@.len(),
            av == views_of(store.rank_aggregations@),
            out@.len() == i,
            n <= i,
            n as int == hydrate::count_keyed::<RankAggregation>(
                views_of(store.rank_aggregations@.subrange(0, i as int)), loc as int,
            ),
            forall|q: int| 0 <= q < i ==> views_of(out@)[q] == if (
                #[trigger] av[q]).location_id == loc as int {
                updated_agg(av[q], ra, now as int)
            } else {
                av[q]
            },
        decreases store.rank_aggregations@.len() - i,
    {
        let ghost pre = store.rank_aggregations@.subrange(0, i as int);
        proof {
            assert(views_of(store.rank_aggregations@)[i as int]
                == store.rank_aggregations@[i as int]@);
            assert(store.rank_aggregations@.subrange(0, i as int + 1)
                =~= pre.push(store.rank_aggregations@[i as int]));
            assert(views_of(pre.push(store.rank_aggregations@[i as int]))
                =~= views_of(pre).push(store.rank_aggregations@[i as int]@));
            assert(views_of(pre.push(store.rank_aggregations@[i as int])).drop_last()
                =~= views_of(pre));
        }
        let ghost old_out = out@;
        let row = &store.rank_aggregations[i];
        if row.location_id == loc {
            let replaced = RankAggregation {
                id: row.id,
                total: ra.total,
                count: ra.count,
                location_id: row.location_id,
                create_on: row.create_on,
                update_on: now,
            };
            out.push(replaced);
            n = n + 1;
        } else {
            out.push(row.dup());
        }
        proof {
            assert(views_of(out@) =~= views_of(old_out).push(out@[i as int]@));
            assert(forall|q: int| 0 <= q < i ==> views_of(out@)[q] == views_of(old_out)[q]);
        }
        i = i + 1;
    }
    proof {
        assert(store.rank_aggregations@.subrange(0, store.rank_aggregations@.len() as int)
            =~= store.rank_aggregations@);
    }
    store.rank_aggregations = out;
    proof {
        assert(store.users_v() == old(store).users_v());
        assert(store.locations_v() == old(store).locations_v());
        assert(store.uploads_v() == old(store).uploads_v());
        assert(store.location_upload_rels_v() == old(store).location_upload_rels_v());
        assert(store.equipments_v() == old(store).equipments_v());
        assert(store.comments_v() == old(store).comments_v());
        assert(store.memories_v() == old(store).memories_v());
        assert(store.memory_upload_rels_v() == old(store).memory_upload_rels_v());
        assert(store.playings_v() == old(store).playings_v());
        assert(store.eatings_v() == old(store).eatings_v());
        assert(store.playings_uploads_v() == old(store).playings_uploads_v());
        assert(store.eatings_uploads_v() == old(store).eatings_uploads_v());
        assert forall|k: int| 0 <= k < store.rank_aggregations_v().len()
            implies (#[trigger] store.rank_aggregations_v()[k]).total == sum_ranks(
                store.comments_v(), store.rank_aggregations_v()[k].location_id,
            ) && store.rank_aggregations_v()[k].count == count_at(
                store.comments_v(), store.rank_aggregations_v()[k].location_id,
            ) && store.rank_aggregations_v()[k].location_id < store.next_id as int by {
            assert(old(store).rank_aggregations_v()[k] == av[k]);
            assert(store.rank_aggregations_v()[k] == if av[k].location_id == loc as int {
                updated_agg(av[k], ra, now as int)
            } else {
                av[k]
            });
        }
        assert(store.next_ok());
        assert(store.comments_unique());
        assert(store.phones_unique());
        assert(store.coords_ok());
        assert(store.refs_ok());
        assert(store.aggs_ok());
    }
    Ok(n)
}

/// The aggregate row of one location, first in stored order, read inside
/// the transaction before the delta is applied. `NotFound` exactly when
/// the location has no aggregate row.
pub fn get_for_update(store: &Store, loc: i32) -> (r: Result<RankAggregation, Error>)
    ensures
        match r {
            Ok(a) => hydrate::first_keyed::<RankAggregation>(
                store.rank_aggregations_v(), loc as int,
            ) == Some(a@),
            Err(e) => e == Error::NotFound && hydrate::first_keyed::<RankAggregation>(
                store.rank_aggregations_v(), loc as int,
            ) is None,
        },
{
    match hydrate::find_keyed::<RankAggregation>(&store.rank_aggregations, loc) {
        Some(a) => Ok(a),
        None => Err(Error::NotFound),
    }
}

/// One aggregate row per page row, aligned index for index with the
/// given locations; `NotFound` exactly when some location has none.
pub fn rank_aggs_of_location(store: &Store, locs: &Vec<Location>) -> (r: Result<
    Vec<RankAggregation>,
    Error,
>)
    ensures
        match r {
            Ok(out) => {
                &&& out@.len() == locs@.len()
                &&& forall|k: int| 0 <= k < locs@.len()
                    ==> hydrate::first_keyed::<RankAggregation>(
                        store.rank_aggregations_v(), (#[trigger] views_of(locs@)[k]).id,
                    ) == Some(views_of(out@)[k])
            },
            Err(e) => e == Error::NotFound && exists|k: int| 0 <= k < locs@.len()
                && hydrate::first_keyed::<RankAggregation>(
                    store.rank_aggregations_v(), (#[trigger] views_of(locs@)[k]).id,
                ) is None,
        },
{
    let mut out: Vec<RankAggregation> = Vec::new();
    let mut i: usize = 0;
    while i < locs.len()
        invariant
            i <= locs@.len(),
            out@.len() == i,
            forall|k: int| 0 <= k < i ==> hydrate::first_keyed::<RankAggregation>(
                store.rank_aggregations_v(), (#[trigger] views_of(locs@)[k]).id,
            ) == Some(views_of(out@)[k]),
        decreases locs@.len() - i,
    {
        proof {
            assert(views_of(locs@)[i as int] == locs@[i as int]@);
        }
        match hydrate::find_keyed::<RankAggregation>(&store.rank_aggregations, locs[i].id) {
            Some(a) => {
                let ghost avv = a@;
                let ghost old_out = out@;
                out.push(a);
                proof {
                    assert(views_of(out@) =~= views_of(old_out).push(avv));
                    assert(forall|k: int| 0 <= k < old_out.len()
                        ==> views_of(out@)[k] == views_of(old_out)[k]);
                }
            },
            None => {
                return Err(Error::NotFound);
            },
        }
        i = i + 1;
    }
    Ok(out)
}

} // verus!
