//! Memory flows: transactional creation with the photo set, the
//! per-location listing with hydrated photo sets, the caller's own
//! listing, and the plain nearby listing.

use vstd::prelude::*;

use crate::dao::memory;
use crate::engine;
use crate::engine::views_of;
use crate::errors::Error;
use crate::geo;
use crate::hydrate;
use crate::model::{
    Location, Memory, MemoryCommand, MemoryOrderBy, MemoryQuery, MemoryV, Upload,
};
use crate::rows::MemoryPlace;
use crate::store::Store;

verus! {

/// The caller-supplied fields of a new memory.
pub struct CreateBody {
    pub title: String,
    pub content: String,
    pub images: Vec<i32>,
}

/// Creates a memory on a location together with its photo set, all or
/// nothing. `NotFound` exactly when the location or some photo does not
/// exist; `StorageError` exactly when the id space cannot seat the
/// memory and its relation rows; otherwise the fresh memory id is owed.
/// Nothing changes on failure.
pub fn create(store: &mut Store, uid: i32, location: i32, body: CreateBody, now: i64) -> (r:
    Result<i32, Error>)
    requires
        old(store).wf(),
    ensures
        final(store).wf(),
        match r {
            Ok(id) => {
                &&& id as int == old(store).next_id as int
                &&& final(store).memories_v() == old(store).memories_v().push(
                    MemoryV {
                        id: id as int,
                        title: body.title@,
                        content: body.content@,
                        owner: uid as int,
                        location: location as int,
                        create_on: now as int,
                        update_on: now as int,
                    },
                )
                &&& final(store).memory_upload_rels_v()
                    == old(store).memory_upload_rels_v() + Seq::new(
                    body.images@.len(),
                    |q: int| crate::model::MemoryUploadRelV {
                        id: old(store).next_id as int + 1 + q,
                        memory: id as int,
                        upload: body.images@[q] as int,
                    },
                )
                &&& final(store).next_id as int
                    == old(store).next_id as int + 1 + body.images@.len()
                &&& final(store).users == old(store).users
                &&& final(store).locations == old(store).locations
                &&& final(store).uploads == old(store).uploads
                &&& final(store).comments == old(store).comments
                &&& final(store).rank_aggregations == old(store).rank_aggregations
                &&& final(store).playings == old(store).playings
                &&& final(store).eatings == old(store).eatings
            },
            Err(e) => {
                &&& *final(store) == *old(store)
                &&& (e == Error::NotFound || e == Error::StorageError)
            },
        },
        (r == Err::<i32, Error>(Error::NotFound)) <==> (
            hydrate::first_keyed::<Location>(old(store).locations_v(), location as int) is None
            || !crate::domain::playing::images_exist(*old(store), body.images@)),
        (r == Err::<i32, Error>(Error::StorageError)) <==> (
            hydrate::first_keyed::<Location>(old(store).locations_v(), location as int) is Some
            && crate::domain::playing::images_exist(*old(store), body.images@)
            && old(store).next_id as int + 1 + body.images@.len() > 0x7fff_ffff),
{
    match hydrate::find_keyed::<Location>(&store.locations, location) {
        Some(_) => {},
        None => {
            return Err(Error::NotFound);
        },
    }
    let mut i: usize = 0;
    let mut missing = false;
    while !missing && i < body.images.len()
        invariant
            i <= body.images@.len(),
            forall|j: int| 0 <= j < i ==> crate::store::has_upload_id(
                store.uploads_v(), #[trigger] body.images@[j] as int,
            ),
            missing ==> i < body.images@.len() && !crate::store::has_upload_id(
                store.uploads_v(), body.images@[i as int] as int,
            ),
        decreases body.images@.len() - i + (if missing { 0int } else { 1int }),
    {
        match hydrate::find_keyed::<Upload>(&store.uploads, body.images[i]) {
            Some(_) => {
                proof {
                    crate::store::lemma_first_upload_is_member(
                        store.uploads_v(), body.images@[i as int] as int,
                    );
                }
                i = i + 1;
            },
            None => {
                proof {
                    crate::store::lemma_no_first_upload_no_member(
                        store.uploads_v(), body.images@[i as int] as int,
                    );
                }
                missing = true;
            },
        }
    }
    if missing {
        return Err(Error::NotFound);
    }
    let headroom = (i32::MAX - store.next_id) as usize;
    if headroom < 1 || body.images.len() > headroom - 1 {
        return Err(Error::StorageError);
    }
    let id = match memory::insert(
        store,
        MemoryCommand { title: body.title, content: body.content, owner: uid, location },
        now,
    ) {
        Ok(id) => id,
        Err(_) => {
            proof {
                assert(false);
            }
            return Err(Error::StorageError);
        },
    };
    match memory::add_images(store, id, &body.images) {
        Ok(_) => {},
        Err(_) => {
            proof {
                assert(false);
            }
        },
    }
    Ok(id)
}

/// The pagination and ordering of a per-location memory listing.
pub struct ListParams {
    pub latitude: i64,
    pub longitude: i64,
    pub limit: i64,
    pub offset: i64,
    pub order_by: MemoryOrderBy,
}

/// The per-location memory listing, each row hydrated with its photo
/// set: memories, their location rows, photo sets, distances and the
/// total, all aligned index for index.
pub fn list(store: &Store, location: i32, params: ListParams) -> (r: Result<
    (Vec<(Memory, Location, Vec<Upload>, u64)>, i64),
    Error,
>)
    requires
        store.wf(),
        geo::point_in_range(params.latitude as int, params.longitude as int),
    ensures
        match r {
            Ok(p) => {
                let q = MemoryQuery {
                    latitude: params.latitude,
                    longitude: params.longitude,
                    title: None,
                    owner: None,
                    location: Some(location),
                    create_before: None,
                    create_after: None,
                    limit: params.limit,
                    offset: params.offset,
                    order_by: params.order_by,
                };
                let pg = engine::page_spec::<MemoryPlace>(
                    memory::joined_spec(store.memories_v(), store.locations_v()),
                    memory::filter_of(q), memory::order_of(params.order_by),
                    params.limit as int, params.offset as int,
                );
                &&& p.0@.len() == pg.len()
                &&& forall|k: int| 0 <= k < pg.len() ==> {
                    &&& (#[trigger] p.0@[k]).0@ == pg[k].memory
                    &&& p.0@[k].1@ == pg[k].place
                    &&& views_of(p.0@[k].2@) == hydrate::linked_of::<
                        crate::model::MemoryUploadRel,
                    >(store.memory_upload_rels_v(), store.uploads_v(), pg[k].memory.id)
                    &&& p.0@[k].3 as int == geo::dist_sq(
                        pg[k].place.latitude, pg[k].place.longitude, params.latitude as int,
                        params.longitude as int,
                    )
                }
                &&& p.1 as int == engine::total_spec::<MemoryPlace>(
                    memory::joined_spec(store.memories_v(), store.locations_v()),
                    memory::filter_of(q),
                )
            },
            Err(_) => false,
        },
{
    let q = MemoryQuery {
        latitude: params.latitude,
        longitude: params.longitude,
        title: None,
        owner: None,
        location: Some(location),
        create_before: None,
        create_after: None,
        limit: params.limit,
        offset: params.offset,
        order_by: params.order_by,
    };
    let (mut mems, mut locs, mut dists, total) = match memory::find(store, q) {
        Ok(p) => p,
        Err(_) => {
            proof {
                assert(false);
            }
            return Err(Error::StorageError);
        },
    };
    let mut imgs = match memory::query_images(store, &mems) {
        Ok(g) => g,
        Err(_) => {
            proof {
                assert(false);
            }
            return Err(Error::StorageError);
        },
    };
    let ghost pg = engine::page_spec::<MemoryPlace>(
        memory::joined_spec(store.memories_v(), store.locations_v()), memory::filter_of(q),
        memory::order_of(params.order_by), params.limit as int, params.offset as int,
    );
    let ghost mems0 = views_of(mems@);
    let ghost locs0 = views_of(locs@);
    let ghost imgs0 = imgs@;
    let ghost dists0 = dists@;
    let mut out: Vec<(Memory, Location, Vec<Upload>, u64)> = Vec::new();
    let mut k: usize = 0;
    let n = mems.len();
    while k < n
        invariant
            store.wf(),
            n == pg.len(),
            k <= n,
            mems@.len() == n - k,
            locs@.len() == n - k,
            imgs@.len() == n - k,
            dists@.len() == n - k,
            forall|j: int| 0 <= j < n - k ==> (#[trigger] mems@[j])@ == mems0[k + j],
            forall|j: int| 0 <= j < n - k ==> (#[trigger] locs@[j])@ == locs0[k + j],
            forall|j: int| 0 <= j < n - k ==> #[trigger] imgs@[j]@ == imgs0[k + j]@,
            forall|j: int| 0 <= j < n - k ==> #[trigger] dists@[j] == dists0[k + j],
            out@.len() == k,
            forall|j: int| 0 <= j < n ==> #[trigger] mems0[j] == pg[j].memory,
            forall|j: int| 0 <= j < n ==> #[trigger] locs0[j] == pg[j].place,
            forall|j: int| 0 <= j < n ==> views_of(#[trigger] imgs0[j]@)
                == hydrate::linked_of::<crate::model::MemoryUploadRel>(
                store.memory_upload_rels_v(), store.uploads_v(), mems0[j].id,
            ),
            forall|j: int| 0 <= j < n ==> #[trigger] dists0[j] as int == geo::dist_sq(
                pg[j].place.latitude, pg[j].place.longitude, params.latitude as int,
                params.longitude as int,
            ),
            forall|j: int| 0 <= j < k ==> {
                &&& (#[trigger] out@[j]).0@ == pg[j].memory
                &&& out@[j].1@ == pg[j].place
                &&& views_of(out@[j].2@) == hydrate::linked_of::<
                    crate::model::MemoryUploadRel,
                >(store.memory_upload_rels_v(), store.uploads_v(), pg[j].memory.id)
                &&& out@[j].3 as int == geo::dist_sq(
                    pg[j].place.latitude, pg[j].place.longitude, params.latitude as int,
                    params.longitude as int,
                )
            },
        decreases n - k,
    {
        let m = mems.remove(0);
        let l = locs.remove(0);
        let im = imgs.remove(0);
        let d = dists.remove(0);
        let ghost old_out = out@;
        out.push((m, l, im, d));
        proof {
            assert(forall|j: int| 0 <= j < old_out.len() ==> out@[j] == old_out[j]);
            assert(out@[k as int].0@ == pg[k as int].memory);
        }
        k = k + 1;
    }
    Ok((out, total))
}

/// The caller's own listing: filter, pagination and ordering.
pub struct My {
    pub limit: i64,
    pub offset: i64,
    pub title: Option<String>,
    pub latitude: i64,
    pub longitude: i64,
    pub order_by: MemoryOrderBy,
}

/// The caller's own memory listing: memories the caller owns, with their
/// locations and distances.
pub fn my(store: &Store, uid: i32, q: My) -> (r: Result<
    (Vec<Memory>, Vec<Location>, Vec<u64>, i64),
    Error,
>)
    requires
        store.wf(),
        geo::point_in_range(q.latitude as int, q.longitude as int),
    ensures
        match r {
            Ok(p) => {
                let mq = MemoryQuery {
                    latitude: q.latitude,
                    longitude: q.longitude,
                    title: q.title,
                    owner: Some(uid),
                    location: None,
                    create_before: None,
                    create_after: None,
                    limit: q.limit,
                    offset: q.offset,
                    order_by: q.order_by,
                };
                let pg = engine::page_spec::<MemoryPlace>(
                    memory::joined_spec(store.memories_v(), store.locations_v()),
                    memory::filter_of(mq), memory::order_of(q.order_by), q.limit as int,
                    q.offset as int,
                );
                &&& views_of(p.0@).len() == pg.len()
                &&& forall|k: int| 0 <= k < pg.len()
                    ==> views_of(p.0@)[k] == (#[trigger] pg[k]).memory
                        && views_of(p.1@)[k] == pg[k].place
                &&& p.3 as int == engine::total_spec::<MemoryPlace>(
                    memory::joined_spec(store.memories_v(), store.locations_v()),
                    memory::filter_of(mq),
                )
            },
            Err(_) => false,
        },
{
    memory::find(
        store,
        MemoryQuery {
            latitude: q.latitude,
            longitude: q.longitude,
            title: q.title,
            owner: Some(uid),
            location: None,
            create_before: None,
            create_after: None,
            limit: q.limit,
            offset: q.offset,
            order_by: q.order_by,
        },
    )
}

/// The caller's point and pagination for the nearby memory listing.
pub struct NearMemories {
    pub latitude: i64,
    pub longitude: i64,
    pub limit: i64,
    pub offset: i64,
}

/// The nearby memory listing: every memory, nearest location first, with
/// its location row and distance.
pub fn near_memories(store: &Store, params: NearMemories) -> (r: Result<
    (Vec<Memory>, Vec<Location>, Vec<u64>, i64),
    Error,
>)
    requires
        store.wf(),
        geo::point_in_range(params.latitude as int, params.longitude as int),
    ensures
        match r {
            Ok(p) => {
                let mq = MemoryQuery {
                    latitude: params.latitude,
                    longitude: params.longitude,
                    title: None,
                    owner: None,
                    location: None,
                    create_before: None,
                    create_after: None,
                    limit: params.limit,
                    offset: params.offset,
                    order_by: MemoryOrderBy::Distance,
                };
                let pg = engine::page_spec::<MemoryPlace>(
                    memory::joined_spec(store.memories_v(), store.locations_v()),
                    memory::filter_of(mq), engine::OrderBy::DistanceAsc, params.limit as int,
                    params.offset as int,
                );
                &&& views_of(p.0@).len() == pg.len()
                &&& forall|k: int| 0 <= k < pg.len()
                    ==> views_of(p.0@)[k] == (#[trigger] pg[k]).memory
                        && views_of(p.1@)[k] == pg[k].place
                &&& p.3 as int == engine::total_spec::<MemoryPlace>(
                    memory::joined_spec(store.memories_v(), store.locations_v()),
                    memory::filter_of(mq),
                )
            },
            Err(_) => false,
        },
{
    memory::find(
        store,
        MemoryQuery {
            latitude: params.latitude,
            longitude: params.longitude,
            title: None,
            owner: None,
            location: None,
            create_before: None,
            create_after: None,
            limit: params.limit,
            offset: params.offset,
            order_by: MemoryOrderBy::Distance,
        },
    )
}

} // verus!
