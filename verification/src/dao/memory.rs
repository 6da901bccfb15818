//! Memory reads and writes: the listing joined with its locations and
//! ordered around the caller's point, creation, the full-field update,
//! and the memory photo set.

use vstd::prelude::*;

use crate::engine;
use crate::engine::{views_of, Filter, FilterV, OrderBy};
use crate::errors::Error;
use crate::geo;
use crate::geo::Point;
use crate::hydrate;
use crate::hydrate::Keyed;
use crate::model::{
    Location, Memory, MemoryCommand, MemoryOrderBy, MemoryQuery, MemoryUploadRel, MemoryV, Upload,
};
use crate::rows::{MemoryPlace, MemoryPlaceV};
use crate::store::Store;

verus! {

/// Each memory joined with its location, in stored order; a memory whose
/// location is missing contributes nothing.
pub open spec fn joined_spec(mems: Seq<MemoryV>, locs: Seq<crate::model::LocationV>) -> Seq<
    MemoryPlaceV,
>
    decreases mems.len(),
{
    if mems.len() == 0 {
        Seq::<MemoryPlaceV>::empty()
    } else {
        let rest = joined_spec(mems.drop_last(), locs);
        match hydrate::first_keyed::<Location>(locs, mems.last().location) {
            Some(l) => rest.push(MemoryPlaceV { memory: mems.last(), place: l }),
            None => rest,
        }
    }
}

/// The engine ordering a memory ordering key stands for.
pub open spec fn order_of(mo: MemoryOrderBy) -> OrderBy {
    match mo {
        MemoryOrderBy::Distance => OrderBy::DistanceAsc,
        MemoryOrderBy::DistanceDesc => OrderBy::DistanceDesc,
        MemoryOrderBy::CreateOn => OrderBy::CreateOnAsc,
        MemoryOrderBy::CreateOnDesc => OrderBy::CreateOnDesc,
        MemoryOrderBy::UpdateOn => OrderBy::UpdateOnAsc,
        MemoryOrderBy::UpdateOnDesc => OrderBy::UpdateOnDesc,
        MemoryOrderBy::Title => OrderBy::NameAsc,
        MemoryOrderBy::TitleDesc => OrderBy::NameDesc,
    }
}

fn map_order(mo: MemoryOrderBy) -> (r: OrderBy)
    ensures
        r == order_of(mo),
{
    match mo {
        MemoryOrderBy::Distance => OrderBy::DistanceAsc,
        MemoryOrderBy::DistanceDesc => OrderBy::DistanceDesc,
        MemoryOrderBy::CreateOn => OrderBy::CreateOnAsc,
        MemoryOrderBy::CreateOnDesc => OrderBy::CreateOnDesc,
        MemoryOrderBy::UpdateOn => OrderBy::UpdateOnAsc,
        MemoryOrderBy::UpdateOnDesc => OrderBy::UpdateOnDesc,
        MemoryOrderBy::Title => OrderBy::NameAsc,
        MemoryOrderBy::TitleDesc => OrderBy::NameDesc,
    }
}

/// The engine filter a memory query stands for: the title is the name
/// key, the location sits in the category slot, and the point filter
/// admits every row.
pub open spec fn filter_of(q: MemoryQuery) -> FilterV {
    FilterV {
        name: match q.title {
            Some(t) => Some(t@),
            None => None,
        },
        category: match q.location {
            Some(l) => Some(l as int),
            None => None,
        },
        owner: match q.owner {
            Some(o) => Some(o as int),
            None => None,
        },
        create_after: match q.create_after {
            Some(t) => Some(t as int),
            None => None,
        },
        create_before: match q.create_before {
            Some(t) => Some(t as int),
            None => None,
        },
        clat: q.latitude as int,
        clon: q.longitude as int,
        radius: 0xffff_ffff_ffff_ffff,
    }
}

/// The memory listing: each memory joined with its location, run through
/// the engine's one filter and ordering around the caller's point, and
/// handed back as aligned memories, locations, distances and the total.
pub fn find(store: &Store, q: MemoryQuery) -> (r: Result<
    (Vec<Memory>, Vec<Location>, Vec<u64>, i64),
    Error,
>)
    requires
        store.wf(),
        geo::point_in_range(q.latitude as int, q.longitude as int),
    ensures
        match r {
            Ok(p) => {
                let pg = engine::page_spec::<MemoryPlace>(
                    joined_spec(store.memories_v(), store.locations_v()), filter_of(q),
                    order_of(q.order_by), q.limit as int, q.offset as int,
                );
                &&& views_of(p.0@).len() == pg.len()
                &&& views_of(p.1@).len() == pg.len()
                &&& p.2@.len() == pg.len()
                &&& forall|k: int| 0 <= k < pg.len()
                    ==> views_of(p.0@)[k] == (#[trigger] pg[k]).memory
                        && views_of(p.1@)[k] == pg[k].place
                        && p.2@[k] as int == geo::dist_sq(
                        pg[k].place.latitude, pg[k].place.longitude, q.latitude as int,
                        q.longitude as int,
                    )
                &&& p.3 as int == engine::total_spec::<MemoryPlace>(
                    joined_spec(store.memories_v(), store.locations_v()), filter_of(q),
                )
            },
            Err(_) => false,
        },
{
    let mut joined: Vec<MemoryPlace> = Vec::new();
    let mut i: usize = 0;
    proof {
        assert(views_of(store.memories@.subrange(0, 0)) =~= Seq::<MemoryV>::empty());
        assert(views_of(joined@) =~= Seq::<MemoryPlaceV>::empty());
    }
    while i < store.memories.len()
        invariant
            store.wf(),
            i <= store.memories@.len(),
            views_of(joined@) == joined_spec(
                views_of(store.memories@.subrange(0, i as int)), store.locations_v(),
            ),
            engine::rows_in_range::<MemoryPlace>(views_of(joined@)),
        decreases store.memories@.len() - i,
    {
        let ghost pre = store.memories@.subrange(0, i as int);
        proof {
            assert(views_of(store.memories@)[i as int] == store.memories@[i as int]@);
            assert(store.memories@.subrange(0, i as int + 1) =~= pre.push(store.memories@[i as int]));
            assert(views_of(pre.push(store.memories@[i as int]))
                =~= views_of(pre).push(store.memories@[i as int]@));
            assert(views_of(pre.push(store.memories@[i as int])).drop_last() =~= views_of(pre));
        }
        match hydrate::find_keyed::<Location>(&store.locations, store.memories[i].location) {
            Some(place) => {
                proof {
                    crate::hydrate::lemma_first_keyed_member::<Location>(
                        store.locations_v(), store.memories@[i as int]@.location,
                    );
                }
                let mp = MemoryPlace { memory: store.memories[i].dup(), place };
                let ghost mpv = mp@;
                let ghost old_out = joined@;
                joined.push(mp);
                proof {
                    assert(views_of(joined@) =~= views_of(old_out).push(mpv));
                    assert(forall|k: int| 0 <= k < old_out.len()
                        ==> views_of(joined@)[k] == views_of(old_out)[k]);
                }
            },
            None => {},
        }
        i = i + 1;
    }
    proof {
        assert(store.memories@.subrange(0, store.memories@.len() as int) =~= store.memories@);
        lemma_joined_len(store.memories_v(), store.locations_v());
    }
    let f = Filter {
        name: match &q.title {
            Some(t) => Some(t.clone()),
            None => None,
        },
        category: q.location,
        owner: q.owner,
        create_after: q.create_after,
        create_before: q.create_before,
        center: Point { lat: q.latitude, lon: q.longitude },
        radius: u64::MAX,
    };
    proof {
        assert(f@ == filter_of(q));
    }
    let ord = map_order(q.order_by);
    let (page, dists, total) = engine::run_query(&joined, &f, ord, q.limit, q.offset);
    let mut mems: Vec<Memory> = Vec::new();
    let mut locs: Vec<Location> = Vec::new();
    let mut k: usize = 0;
    while k < page.len()
        invariant
            k <= page@.len(),
            mems@.len() == k,
            locs@.len() == k,
            forall|j: int| 0 <= j < k
                ==> views_of(mems@)[j] == (#[trigger] views_of(page@)[j]).memory
                    && views_of(locs@)[j] == views_of(page@)[j].place,
        decreases page@.len() - k,
    {
        proof {
            assert(views_of(page@)[k as int] == page@[k as int]@);
        }
        let ghost old_m = mems@;
        let ghost old_l = locs@;
        mems.push(page[k].memory.dup());
        locs.push(page[k].place.dup());
        proof {
            assert(views_of(mems@) =~= views_of(old_m).push(page@[k as int]@.memory));
            assert(views_of(locs@) =~= views_of(old_l).push(page@[k as int]@.place));
            assert(forall|j: int| 0 <= j < k ==> views_of(mems@)[j] == views_of(old_m)[j]);
            assert(forall|j: int| 0 <= j < k ==> views_of(locs@)[j] == views_of(old_l)[j]);
        }
        k = k + 1;
    }
    Ok((mems, locs, dists, total))
}

/// The join never yields more rows than there are memories.
pub proof fn lemma_joined_len(mems: Seq<MemoryV>, locs: Seq<crate::model::LocationV>)
    ensures
        joined_spec(mems, locs).len() <= mems.len(),
    decreases mems.len(),
{
    if mems.len() > 0 {
        lemma_joined_len(mems.drop_last(), locs);
    }
}

/// Inserts a memory; the fresh id is returned. `NotFound` exactly when
/// the location does not exist; `StorageError` when the id space is
/// spent; nothing changes on failure.
pub fn insert(store: &mut Store, ins: MemoryCommand, now: i64) -> (r: Result<i32, Error>)
    requires
        old(store).wf(),
    ensures
        final(store).wf(),
        match r {
            Ok(id) => {
                &&& id as int == old(store).next_id as int
                &&& final(store).memories_v() == old(store).memories_v().push(
                    MemoryV {
                        id: id as int,
                        title: ins.title@,
                        content: ins.content@,
                        owner: ins.owner as int,
                        location: ins.location as int,
                        create_on: now as int,
                        update_on: now as int,
                    },
                )
                &&& final(store).next_id as int == old(store).next_id as int + 1
                &&& final(store).users == old(store).users
                &&& final(store).locations == old(store).locations
                &&& final(store).uploads == old(store).uploads
                &&& final(store).comments == old(store).comments
                &&& final(store).rank_aggregations == old(store).rank_aggregations
                &&& final(store).playings == old(store).playings
                &&& final(store).eatings == old(store).eatings
                &&& final(store).memory_upload_rels == old(store).memory_upload_rels
            },
            Err(e) => {
                &&& *final(store) == *old(store)
                &&& (e == Error::NotFound || e == Error::StorageError)
                &&& (e == Error::NotFound ==> hydrate::first_keyed::<Location>(
                    old(store).locations_v(), ins.location as int,
                ) is None)
                &&& (e == Error::StorageError ==> old(store).next_id as int == 0x7fff_ffff)
            },
        },
{
    match hydrate::find_keyed::<Location>(&store.locations, ins.location) {
        Some(_) => {},
        None => {
            return Err(Error::NotFound);
        },
    }
    let id = match store.alloc_id() {
        Ok(id) => id,
        Err(e) => {
            return Err(e);
        },
    };
    let ghost old_m = store.memories_v();
    let row = Memory {
        id,
        title: ins.title,
        content: ins.content,
        owner: ins.owner,
        location: ins.location,
        create_on: now,
        update_on: now,
    };
    let ghost rowv = row@;
    store.memories.push(row);
    proof {
        assert(store.memories_v() =~= old_m.push(rowv));
        assert(store.users_v() == old(store).users_v());
        assert(store.locations_v() == old(store).locations_v());
        assert(store.uploads_v() == old(store).uploads_v());
        assert(store.location_upload_rels_v() == old(store).location_upload_rels_v());
        assert(store.equipments_v() == old(store).equipments_v());
        assert(store.comments_v() == old(store).comments_v());
        assert(store.rank_aggregations_v() == old(store).rank_aggregations_v());
        assert(store.memory_upload_rels_v() == old(store).memory_upload_rels_v());
        assert(store.playings_v() == old(store).playings_v());
        assert(store.eatings_v() == old(store).eatings_v());
        assert(store.playings_uploads_v() == old(store).playings_uploads_v());
        assert(store.eatings_uploads_v() == old(store).eatings_uploads_v());
        assert(store.next_ok());
        assert(store.comments_unique());
        assert(store.phones_unique());
        assert(store.coords_ok());
        assert(store.refs_ok());
        assert(store.aggs_ok());
    }
    Ok(id)
}

/// The stored memory after a full-field update.
pub open spec fn updated_view(prev: MemoryV, upd: MemoryCommand, now: int) -> MemoryV {
    MemoryV {
        id: prev.id,
        title: upd.title@,
        content: upd.content@,
        owner: upd.owner as int,
        location: upd.location as int,
        create_on: prev.create_on,
        update_on: now,
    }
}

/// The full-field update: every memory carrying the id is replaced; the
/// count of replaced rows is returned.
pub fn update(store: &mut Store, id: i32, upd: MemoryCommand, now: i64) -> (r: Result<
    usize,
    Error,
>)
    requires
        old(store).wf(),
    ensures
        final(store).wf(),
        match r {
            Ok(n) => {
                &&& n as int == hydrate::count_keyed::<Memory>(old(store).memories_v(), id as int)
                &&& final(store).memories_v().len() == old(store).memories_v().len()
                &&& forall|k: int| 0 <= k < old(store).memories_v().len()
                    ==> final(store).memories_v()[k] == if (
                        #[trigger] old(store).memories_v()[k]).id == id as int {
                        updated_view(old(store).memories_v()[k], upd, now as int)
                    } else {
                        old(store).memories_v()[k]
                    }
                &&& final(store).users == old(store).users
                &&& final(store).locations == old(store).locations
                &&& final(store).uploads == old(store).uploads
                &&& final(store).comments == old(store).comments
                &&& final(store).rank_aggregations == old(store).rank_aggregations
                &&& final(store).playings == old(store).playings
                &&& final(store).eatings == old(store).eatings
                &&& final(store).memory_upload_rels == old(store).memory_upload_rels
                &&& final(store).next_id == old(store).next_id
            },
            Err(_) => false,
        },
{
    let mut out: Vec<Memory> = Vec::new();
    let mut n: usize = 0;
    let mut i: usize = 0;
    let ghost mv = store.memories_v();
    proof {
        assert(views_of(store.memories@.subrange(0, 0)) =~= Seq::<MemoryV>::empty());
    }
    while i < store.memories.len()
        invariant
            i <= store.memories@.len(),
            mv == views_of(store.memories@),
            out@.len() == i,
            n <= i,
            n as int == hydrate::count_keyed::<Memory>(
                views_of(store.memories@.subrange(0, i as int)), id as int,
            ),
            forall|q: int| 0 <= q < i ==> views_of(out@)[q] == if (
                #[trigger] mv[q]).id == id as int {
                updated_view(mv[q], upd, now as int)
            } else {
                mv[q]
            },
        decreases store.memories@.len() - i,
    {
        let ghost pre = store.memories@.subrange(0, i as int);
        proof {
            assert(views_of(store.memories@)[i as int] == store.memories@[i as int]@);
            assert(store.memories@.subrange(0, i as int + 1) =~= pre.push(store.memories@[i as int]));
            assert(views_of(pre.push(store.memories@[i as int]))
                =~= views_of(pre).push(store.memories@[i as int]@));
            assert(views_of(pre.push(store.memories@[i as int])).drop_last() =~= views_of(pre));
        }
        let ghost old_out = out@;
        let row = &store.memories[i];
        if row.id == id {
            let replaced = Memory {
                id: row.id,
                title: upd.title.clone(),
                content: upd.content.clone(),
                owner: upd.owner,
                location: upd.location,
                create_on: row.create_on,
                update_on: now,
            };
            out.push(replaced);
            n = n + 1;
        } else {
            out.push(row.dup());
        }
        proof {
            assert(views_of(out@) =~= views_of(old_out).push(out@[i as int]@));
            assert(forall|q: int| 0 <= q < i ==> views_of(out@)[q] == views_of(old_out)[q]);
        }
        i = i + 1;
    }
    proof {
        assert(store.memories@.subrange(0, store.memories@.len() as int) =~= store.memories@);
    }
    store.memories = out;
    proof {
        assert(store.users_v() == old(store).users_v());
        assert(store.locations_v() == old(store).locations_v());
        assert(store.uploads_v() == old(store).uploads_v());
        assert(store.location_upload_rels_v() == old(store).location_upload_rels_v());
        assert(store.equipments_v() == old(store).equipments_v());
        assert(store.comments_v() == old(store).comments_v());
        assert(store.rank_aggregations_v() == old(store).rank_aggregations_v());
        assert(store.memory_upload_rels_v() == old(store).memory_upload_rels_v());
        assert(store.playings_v() == old(store).playings_v());
        assert(store.eatings_v() == old(store).eatings_v());
        assert(store.playings_uploads_v() == old(store).playings_uploads_v());
        assert(store.eatings_uploads_v() == old(store).eatings_uploads_v());
        assert(store.next_ok());
        assert(store.comments_unique());
        assert(store.phones_unique());
        assert(store.coords_ok());
        assert(store.refs_ok());
        assert(store.aggs_ok());
    }
    Ok(n)
}

/// Clears the photo set of one memory.
pub fn clear_images(store: &mut Store, id: i32) -> (r: Result<usize, Error>)
    requires
        old(store).wf(),
    ensures
        final(store).wf(),
        match r {
            Ok(n) => {
                &&& n as int == hydrate::count_keyed::<MemoryUploadRel>(
                    old(store).memory_upload_rels_v(), id as int,
                )
                &&& final(store).memory_upload_rels_v() == hydrate::without_key::<
                    MemoryUploadRel,
                >(old(store).memory_upload_rels_v(), id as int)
                &&& final(store).users == old(store).users
                &&& final(store).locations == old(store).locations
                &&& final(store).uploads == old(store).uploads
                &&& final(store).comments == old(store).comments
                &&& final(store).rank_aggregations == old(store).rank_aggregations
                &&& final(store).memories == old(store).memories
                &&& final(store).playings == old(store).playings
                &&& final(store).eatings == old(store).eatings
                &&& final(store).location_upload_rels == old(store).location_upload_rels
                &&& final(store).next_id == old(store).next_id
            },
            Err(_) => false,
        },
{
    let n = hydrate::count_matching::<MemoryUploadRel>(&store.memory_upload_rels, id);
    let out = hydrate::remove_keyed::<MemoryUploadRel>(&store.memory_upload_rels, id);
    let ghost old_rels = store.memory_upload_rels_v();
    store.memory_upload_rels = out;
    proof {
        assert(store.users_v() == old(store).users_v());
        assert(store.locations_v() == old(store).locations_v());
        assert(store.uploads_v() == old(store).uploads_v());
        assert(store.location_upload_rels_v() == old(store).location_upload_rels_v());
        assert(store.equipments_v() == old(store).equipments_v());
        assert(store.comments_v() == old(store).comments_v());
        assert(store.rank_aggregations_v() == old(store).rank_aggregations_v());
        assert(store.memories_v() == old(store).memories_v());
        assert(store.playings_v() == old(store).playings_v());
        assert(store.eatings_v() == old(store).eatings_v());
        assert(store.playings_uploads_v() == old(store).playings_uploads_v());
        assert(store.eatings_uploads_v() == old(store).eatings_uploads_v());
        crate::hydrate::lemma_without_key_len::<MemoryUploadRel>(old_rels, id as int);
        hydrate::lemma_without_key_membership::<MemoryUploadRel>(old_rels, id as int);
        assert forall|k: int| 0 <= k < store.memory_upload_rels_v().len()
            implies crate::store::has_upload_id(
                store.uploads_v(), (#[trigger] store.memory_upload_rels_v()[k]).upload,
            ) by {
            let j = choose|j: int| 0 <= j < old_rels.len()
                && #[trigger] store.memory_upload_rels_v()[k] == old_rels[j];
            assert(old(store).memory_upload_rels_v()[j] == old_rels[j]);
        }
        assert(store.next_ok());
        assert(store.comments_unique());
        assert(store.phones_unique());
        assert(store.coords_ok());
        assert(store.refs_ok());
        assert(store.aggs_ok());
    }
    Ok(n)
}

/// Attaches a photo set to a memory: one relation row per upload id, in
/// the caller's order with consecutive fresh ids. `NotFound` exactly
/// when some upload id does not exist; `StorageError` when the id space
/// cannot seat them all; nothing changes on failure.
pub fn add_images(store: &mut Store, id: i32, images: &Vec<i32>) -> (r: Result<usize, Error>)
    requires
        old(store).wf(),
    ensures
        final(store).wf(),
        match r {
            Ok(n) => {
                &&& n == images@.len()
                &&& final(store).memory_upload_rels_v()
                    == old(store).memory_upload_rels_v() + Seq::new(
                    images@.len(),
                    |j: int| crate::model::MemoryUploadRelV {
                        id: old(store).next_id as int + j,
                        memory: id as int,
                        upload: images@[j] as int,
                    },
                )
                &&& final(store).next_id as int
                    == old(store).next_id as int + images@.len()
                &&& final(store).users == old(store).users
                &&& final(store).locations == old(store).locations
                &&& final(store).uploads == old(store).uploads
                &&& final(store).comments == old(store).comments
                &&& final(store).rank_aggregations == old(store).rank_aggregations
                &&& final(store).memories == old(store).memories
                &&& final(store).playings == old(store).playings
                &&& final(store).eatings == old(store).eatings
                &&& final(store).location_upload_rels == old(store).location_upload_rels
            },
            Err(e) => {
                &&& *final(store) == *old(store)
                &&& (e == Error::NotFound || e == Error::StorageError)
                &&& (e == Error::NotFound ==> exists|j: int| 0 <= j < images@.len()
                    && !crate::store::has_upload_id(
                        old(store).uploads_v(), #[trigger] images@[j] as int,
                    ))
                &&& (e == Error::StorageError
                    ==> old(store).next_id as int + images@.len() > 0x7fff_ffff)
            },
        },
{
    let mut i: usize = 0;
    let mut missing = false;
    while !missing && i < images.len()
        invariant
            i <= images@.len(),
            forall|j: int| 0 <= j < i ==> crate::store::has_upload_id(
                store.uploads_v(), #[trigger] images@[j] as int,
            ),
            missing ==> i < images@.len() && !crate::store::has_upload_id(
                store.uploads_v(), images@[i as int] as int,
            ),
        decreases images@.len() - i + (if missing { 0int } else { 1int }),
    {
        match hydrate::find_keyed::<Upload>(&store.uploads, images[i]) {
            Some(_) => {
                proof {
                    crate::store::lemma_first_upload_is_member(
                        store.uploads_v(), images@[i as int] as int,
                    );
                }
                i = i + 1;
            },
            None => {
                proof {
                    crate::store::lemma_no_first_upload_no_member(
                        store.uploads_v(), images@[i as int] as int,
                    );
                }
                missing = true;
            },
        }
    }
    if missing {
        return Err(Error::NotFound);
    }
    if images.len() > (i32::MAX - store.next_id) as usize {
        return Err(Error::StorageError);
    }
    let base = store.next_id;
    proof {
        assert(1 <= base as int);
        assert(base as int + images@.len() <= 0x7fff_ffff);
    }
    let mut out: Vec<MemoryUploadRel> = Vec::new();
    let mut k: usize = 0;
    while k < store.memory_upload_rels.len()
        invariant
            k <= store.memory_upload_rels@.len(),
            out@.len() == k,
            forall|q: int| 0 <= q < k
                ==> views_of(out@)[q] == store.memory_upload_rels_v()[q],
        decreases store.memory_upload_rels@.len() - k,
    {
        let ghost old_out = out@;
        out.push(store.memory_upload_rels[k].dup());
        proof {
            assert(views_of(out@) =~= views_of(old_out).push(out@[k as int]@));
            assert(forall|q: int| 0 <= q < k ==> views_of(out@)[q] == views_of(old_out)[q]);
            assert(store.memory_upload_rels@[k as int]@
                == store.memory_upload_rels_v()[k as int]);
        }
        k = k + 1;
    }
    let mut j: usize = 0;
    while j < images.len()
        invariant
            j <= images@.len(),
            1 <= base as int,
            base as int + images@.len() <= 0x7fff_ffff,
            out@.len() == store.memory_upload_rels@.len() + j,
            forall|q: int| 0 <= q < store.memory_upload_rels@.len()
                ==> views_of(out@)[q] == store.memory_upload_rels_v()[q],
            forall|q: int| 0 <= q < j
                ==> views_of(out@)[store.memory_upload_rels@.len() + q]
                    == (crate::model::MemoryUploadRelV {
                    id: base as int + q,
                    memory: id as int,
                    upload: images@[q] as int,
                }),
        decreases images@.len() - j,
    {
        let rel = MemoryUploadRel { id: base + j as i32, memory: id, upload: images[j] };
        let ghost old_out = out@;
        out.push(rel);
        proof {
            assert(views_of(out@) =~= views_of(old_out).push(rel@));
            assert(forall|q: int| 0 <= q < old_out.len()
                ==> views_of(out@)[q] == views_of(old_out)[q]);
            assert(views_of(out@)[old_out.len() as int] == rel@);
        }
        j = j + 1;
    }
    store.memory_upload_rels = out;
    store.next_id = base + images.len() as i32;
    proof {
        assert(store.memory_upload_rels_v() =~= old(store).memory_upload_rels_v()
            + Seq::new(
            images@.len(),
            |q: int| crate::model::MemoryUploadRelV {
                id: old(store).next_id as int + q,
                memory: id as int,
                upload: images@[q] as int,
            },
        ));
        assert(store.users_v() == old(store).users_v());
        assert(store.locations_v() == old(store).locations_v());
        assert(store.uploads_v() == old(store).uploads_v());
        assert(store.location_upload_rels_v() == old(store).location_upload_rels_v());
        assert(store.equipments_v() == old(store).equipments_v());
        assert(store.comments_v() == old(store).comments_v());
        assert(store.rank_aggregations_v() == old(store).rank_aggregations_v());
        assert(store.memories_v() == old(store).memories_v());
        assert(store.playings_v() == old(store).playings_v());
        assert(store.eatings_v() == old(store).eatings_v());
        assert(store.playings_uploads_v() == old(store).playings_uploads_v());
        assert(store.eatings_uploads_v() == old(store).eatings_uploads_v());
        assert forall|k2: int| 0 <= k2 < store.memory_upload_rels_v().len()
            implies crate::store::has_upload_id(
                store.uploads_v(), (#[trigger] store.memory_upload_rels_v()[k2]).upload,
            ) by {
            if k2 < old(store).memory_upload_rels_v().len() {
                assert(store.memory_upload_rels_v()[k2]
                    == old(store).memory_upload_rels_v()[k2]);
            } else {
                let q = k2 - old(store).memory_upload_rels_v().len();
                assert(store.memory_upload_rels_v()[k2].upload == images@[q] as int);
            }
        }
        assert(store.next_ok());
        assert(store.comments_unique());
        assert(store.phones_unique());
        assert(store.coords_ok());
        assert(store.refs_ok());
        assert(store.aggs_ok());
    }
    Ok(images.len())
}

/// The photo sets of a page of memories, aligned index for index.
pub fn query_images(store: &Store, memories: &Vec<Memory>) -> (r: Result<Vec<Vec<Upload>>, Error>)
    ensures
        match r {
            Ok(out) => {
                &&& out@.len() == memories@.len()
                &&& forall|k: int| 0 <= k < memories@.len()
                    ==> views_of(#[trigger] out@[k]@) == hydrate::linked_of::<MemoryUploadRel>(
                        store.memory_upload_rels_v(), store.uploads_v(),
                        views_of(memories@)[k].id,
                    )
            },
            Err(_) => false,
        },
{
    let mut ids: Vec<i32> = Vec::new();
    let mut i: usize = 0;
    while i < memories.len()
        invariant
            i <= memories@.len(),
            ids@.len() == i,
            forall|k: int| 0 <= k < i
                ==> #[trigger] ids@[k] as int == views_of(memories@)[k].id,
        decreases memories@.len() - i,
    {
        proof {
            assert(views_of(memories@)[i as int] == memories@[i as int]@);
        }
        ids.push(memories[i].id);
        i = i + 1;
    }
    let groups = hydrate::group_linked::<MemoryUploadRel>(
        &ids, &store.memory_upload_rels, &store.uploads,
    );
    Ok(groups)
}

} // verus!
