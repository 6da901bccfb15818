//! Location reads and writes: the nearby listing, point lookups, the
//! full-field update, and the destructive replacement of the photo set.

use vstd::prelude::*;

use crate::engine;
use crate::engine::{views_of, Filter, FilterV, OrderBy};
use crate::errors::Error;
use crate::geo;
use crate::geo::Point;
use crate::hydrate;
use crate::hydrate::Keyed;
use crate::model::{Location, LocationInsertion, LocationUpdating, LocationUploadRel, LocationV};
use crate::store::Store;

verus! {

/// The filter and pagination of one location listing.
pub struct Query {
    pub name: Option<String>,
    pub latitude: i64,
    pub longitude: i64,
    pub radius: u64,
    pub category: Option<i32>,
    pub owner: Option<i32>,
    pub limit: i64,
    pub offset: i64,
    pub order_by: OrderBy,
}

/// The engine filter a location query stands for.
pub open spec fn filter_of(q: Query) -> FilterV {
    FilterV {
        name: match q.name {
            Some(s) => Some(s@),
            None => None,
        },
        category: match q.category {
            Some(c) => Some(c as int),
            None => None,
        },
        owner: match q.owner {
            Some(o) => Some(o as int),
            None => None,
        },
        create_after: None,
        create_before: None,
        clat: q.latitude as int,
        clon: q.longitude as int,
        radius: q.radius as int,
    }
}

/// The locations table presented as engine rows.
pub proof fn lemma_locations_in_range(s: &Store)
    requires
        s.coords_ok(),
    ensures
        engine::rows_in_range::<Location>(views_of(s.locations@)),
{
    assert forall|k: int| 0 <= k < views_of(s.locations@).len()
        implies geo::point_in_range(
            <Location as engine::GeoRow>::vlat(#[trigger] views_of(s.locations@)[k]),
            <Location as engine::GeoRow>::vlon(views_of(s.locations@)[k]),
        ) by {
        assert(s.locations_v()[k] == views_of(s.locations@)[k]);
    }
}

/// The nearby location listing: one call returns the requested page of
/// the filtered, distance-or-key-ordered result, the distance of each
/// returned location, and the total, which is counted against the very
/// same predicate as the page. In-memory execution cannot fail, so the
/// result is always `Ok`.
pub fn query(store: &Store, q: Query) -> (r: Result<((Vec<Location>, Vec<u64>), i64), Error>)
    requires
        store.wf(),
        geo::point_in_range(q.latitude as int, q.longitude as int),
    ensures
        match r {
            Ok(p) => {
                &&& views_of((p.0).0@) == engine::page_spec::<Location>(
                    store.locations_v(), filter_of(q), q.order_by, q.limit as int,
                    q.offset as int,
                )
                &&& p.1 as int == engine::total_spec::<Location>(store.locations_v(), filter_of(q))
                &&& (p.0).1@.len() == (p.0).0@.len()
                &&& forall|k: int| 0 <= k < (p.0).0@.len() ==> (p.0).1@[k] as int == geo::dist_sq(
                    (#[trigger] views_of((p.0).0@)[k]).latitude, views_of((p.0).0@)[k].longitude,
                    q.latitude as int, q.longitude as int,
                )
            },
            Err(_) => false,
        },
{
    let f = Filter {
        name: match &q.name {
            Some(s) => Some(s.clone()),
            None => None,
        },
        category: q.category,
        owner: q.owner,
        create_after: None,
        create_before: None,
        center: Point { lat: q.latitude, lon: q.longitude },
        radius: q.radius,
    };
    proof {
        assert(f@ == filter_of(q));
        lemma_locations_in_range(store);
    }
    let (page, dists, total) = engine::run_query(&store.locations, &f, q.order_by, q.limit, q.offset);
    Ok(((page, dists), total))
}

/// Whether any location matches the filter; the count path of `query`
/// shares this predicate.
pub fn exists_matching(store: &Store, q: Query) -> (r: Result<bool, Error>)
    requires
        store.wf(),
        geo::point_in_range(q.latitude as int, q.longitude as int),
    ensures
        match r {
            Ok(b) => b == exists|k: int| 0 <= k < store.locations_v().len()
                && engine::row_ok::<Location>(filter_of(q), #[trigger] store.locations_v()[k]),
            Err(_) => false,
        },
{
    let f = Filter {
        name: match &q.name {
            Some(s) => Some(s.clone()),
            None => None,
        },
        category: q.category,
        owner: q.owner,
        create_after: None,
        create_before: None,
        center: Point { lat: q.latitude, lon: q.longitude },
        radius: q.radius,
    };
    proof {
        assert(f@ == filter_of(q));
    }
    let mut i: usize = 0;
    while i < store.locations.len()
        invariant
            store.wf(),
            i <= store.locations@.len(),
            f@ == filter_of(q),
            geo::point_in_range(f@.clat, f@.clon),
            forall|k: int| 0 <= k < i
                ==> !engine::row_ok::<Location>(filter_of(q), #[trigger] store.locations_v()[k]),
        decreases store.locations@.len() - i,
    {
        proof {
            assert(store.locations_v()[i as int] == store.locations@[i as int]@);
        }
        if engine::row_matches(&store.locations[i], &f) {
            return Ok(true);
        }
        i = i + 1;
    }
    Ok(false)
}

/// The location with this id, first in stored order, and its distance
/// from the caller's point; `NotFound` exactly when no row has the id.
pub fn get(store: &Store, id: i32, latitude: i64, longitude: i64) -> (r: Result<
    (Location, u64),
    Error,
>)
    requires
        store.wf(),
        geo::point_in_range(latitude as int, longitude as int),
    ensures
        match r {
            Ok(p) => {
                &&& hydrate::first_keyed::<Location>(store.locations_v(), id as int)
                    == Some(p.0@)
                &&& p.1 as int == geo::dist_sq(
                    p.0@.latitude, p.0@.longitude, latitude as int, longitude as int,
                )
            },
            Err(e) => e == Error::NotFound
                && hydrate::first_keyed::<Location>(store.locations_v(), id as int) is None,
        },
{
    match hydrate::find_keyed(&store.locations, id) {
        Some(loc) => {
            proof {
                lemma_first_keyed_coords(store, id as int);
            }
            let p = Point { lat: loc.latitude, lon: loc.longitude };
            let c = Point { lat: latitude, lon: longitude };
            let d = geo::distance(&p, &c);
            Ok((loc, d))
        },
        None => Err(Error::NotFound),
    }
}

/// A row found in the locations table keeps the table's coordinate bound.
pub proof fn lemma_first_keyed_coords(store: &Store, id: int)
    requires
        store.coords_ok(),
        hydrate::first_keyed::<Location>(store.locations_v(), id) is Some,
    ensures
        geo::point_in_range(
            hydrate::first_keyed::<Location>(store.locations_v(), id)->Some_0.latitude,
            hydrate::first_keyed::<Location>(store.locations_v(), id)->Some_0.longitude,
        ),
{
    hydrate::lemma_first_keyed_member::<Location>(store.locations_v(), id);
}

/// Inserts a location; the fresh id is returned. Fails with `NotFound`
/// when the discoverer does not exist, and with `StorageError` when the
/// id space is spent; on failure nothing changes.
pub fn insert(store: &mut Store, loc: LocationInsertion, now: i64) -> (r: Result<i32, Error>)
    requires
        old(store).wf(),
        geo::point_in_range(loc.latitude as int, loc.longitude as int),
    ensures
        final(store).wf(),
        match r {
            Ok(id) => {
                &&& id as int == old(store).next_id as int
                &&& final(store).locations_v() == old(store).locations_v().push(
                    LocationV {
                        id: id as int,
                        name: loc.name@,
                        latitude: loc.latitude as int,
                        longitude: loc.longitude as int,
                        category: loc.category as int,
                        description: loc.description@,
                        discoverer: loc.discoverer as int,
                        create_on: now as int,
                        update_on: now as int,
                        geo_index: loc.geo_index as int,
                    },
                )
                &&& final(store).next_id as int == old(store).next_id as int + 1
                &&& final(store).users == old(store).users
                &&& final(store).uploads == old(store).uploads
                &&& final(store).location_upload_rels == old(store).location_upload_rels
                &&& final(store).equipments == old(store).equipments
                &&& final(store).comments == old(store).comments
                &&& final(store).rank_aggregations == old(store).rank_aggregations
                &&& final(store).memories == old(store).memories
                &&& final(store).playings == old(store).playings
                &&& final(store).eatings == old(store).eatings
            },
            Err(e) => {
                &&& *final(store) == *old(store)
                &&& (e == Error::NotFound || e == Error::StorageError)
                &&& (e == Error::NotFound
                    <==> !crate::store::has_user_id(old(store).users_v(), loc.discoverer as int))
                &&& (e == Error::StorageError ==> old(store).next_id as int == 0x7fff_ffff)
            },
        },
{
    match hydrate::find_keyed::<crate::model::User>(&store.users, loc.discoverer) {
        Some(_) => {
            proof {
                crate::store::lemma_first_user_is_member(store.users_v(), loc.discoverer as int);
            }
        },
        None => {
            proof {
                crate::store::lemma_no_first_no_member(store.users_v(), loc.discoverer as int);
            }
            return Err(Error::NotFound);
        },
    }
    let id = match store.alloc_id() {
        Ok(id) => id,
        Err(e) => {
            return Err(e);
        },
    };
    let ghost old_loc_v = store.locations_v();
    let row = Location {
        id,
        name: loc.name,
        latitude: loc.latitude,
        longitude: loc.longitude,
        category: loc.category,
        description: loc.description,
        discoverer: loc.discoverer,
        create_on: now,
        update_on: now,
        geo_index: loc.geo_index,
    };
    let ghost rowv = row@;
    store.locations.push(row);
    proof {
        assert(store.locations_v() =~= old_loc_v.push(rowv));
        assert forall|k: int| 0 <= k < store.locations_v().len() implies geo::point_in_range(
            (#[trigger] store.locations_v()[k]).latitude, store.locations_v()[k].longitude,
        ) && crate::store::has_user_id(
            store.users_v(), store.locations_v()[k].discoverer,
        ) && store.locations_v()[k].id < store.next_id as int by {
            if k < old_loc_v.len() {
                assert(store.locations_v()[k] == old_loc_v[k]);
                assert(old(store).locations_v()[k] == old_loc_v[k]);
            } else {
                assert(store.locations_v()[k] == rowv);
            }
        }
        assert forall|i2: int, j2: int| 0 <= i2 < j2 < store.locations_v().len()
            implies (#[trigger] store.locations_v()[i2]).id
                != (#[trigger] store.locations_v()[j2]).id by {
            assert(store.locations_v()[i2] == old_loc_v[i2]);
            assert(old(store).locations_v()[i2] == old_loc_v[i2]);
            if j2 < old_loc_v.len() {
                assert(store.locations_v()[j2] == old_loc_v[j2]);
                assert(old(store).locations_v()[j2] == old_loc_v[j2]);
            } else {
                assert(store.locations_v()[j2] == rowv);
            }
        }
        assert(store.users_v() == old(store).users_v());
        assert(store.uploads_v() == old(store).uploads_v());
        assert(store.location_upload_rels_v() == old(store).location_upload_rels_v());
        assert(store.equipments_v() == old(store).equipments_v());
        assert(store.comments_v() == old(store).comments_v());
        assert(store.rank_aggregations_v() == old(store).rank_aggregations_v());
        assert(store.memories_v() == old(store).memories_v());
        assert(store.memory_upload_rels_v() == old(store).memory_upload_rels_v());
        assert(store.playings_v() == old(store).playings_v());
        assert(store.eatings_v() == old(store).eatings_v());
        assert(store.playings_uploads_v() == old(store).playings_uploads_v());
        assert(store.eatings_uploads_v() == old(store).eatings_uploads_v());
        assert(store.next_ok());
        assert(store.comments_unique());
        assert(store.phones_unique());
        assert(store.coords_ok());
        assert(store.refs_ok());
        assert(store.aggs_ok());
    }
    Ok(id)
}

/// The stored row after a full-field update: every caller-supplied field
/// replaced at once, identity and creation instant kept.
pub open spec fn updated_view(prev: LocationV, loc: LocationUpdating, now: int) -> LocationV {
    LocationV {
        id: prev.id,
        name: loc.name@,
        latitude: loc.latitude as int,
        longitude: loc.longitude as int,
        category: loc.category as int,
        description: loc.description@,
        discoverer: loc.discoverer as int,
        create_on: prev.create_on,
        update_on: now,
        geo_index: loc.geo_index as int,
    }
}

/// The full-field update: every row carrying the id is replaced; the
/// count of replaced rows is returned. `NotFound` exactly when the new
/// discoverer does not exist; nothing changes on failure.
pub fn update(store: &mut Store, id: i32, loc: LocationUpdating, now: i64) -> (r: Result<
    usize,
    Error,
>)
    requires
        old(store).wf(),
        geo::point_in_range(loc.latitude as int, loc.longitude as int),
    ensures
        final(store).wf(),
        match r {
            Ok(n) => {
                &&& n as int == hydrate::count_keyed::<Location>(
                    old(store).locations_v(), id as int,
                )
                &&& final(store).locations_v().len() == old(store).locations_v().len()
                &&& forall|k: int| 0 <= k < old(store).locations_v().len()
                    ==> final(store).locations_v()[k] == if (
                        #[trigger] old(store).locations_v()[k]).id == id as int {
                        updated_view(old(store).locations_v()[k], loc, now as int)
                    } else {
                        old(store).locations_v()[k]
                    }
                &&& final(store).users == old(store).users
                &&& final(store).uploads == old(store).uploads
                &&& final(store).location_upload_rels == old(store).location_upload_rels
                &&& final(store).equipments == old(store).equipments
                &&& final(store).comments == old(store).comments
                &&& final(store).rank_aggregations == old(store).rank_aggregations
                &&& final(store).memories == old(store).memories
                &&& final(store).playings == old(store).playings
                &&& final(store).eatings == old(store).eatings
                &&& final(store).next_id == old(store).next_id
            },
            Err(e) => {
                &&& *final(store) == *old(store)
                &&& e == Error::NotFound
                &&& !crate::store::has_user_id(old(store).users_v(), loc.discoverer as int)
            },
        },
{
    match hydrate::find_keyed::<crate::model::User>(&store.users, loc.discoverer) {
        Some(_) => {
            proof {
                crate::store::lemma_first_user_is_member(store.users_v(), loc.discoverer as int);
            }
        },
        None => {
            proof {
                crate::store::lemma_no_first_no_member(store.users_v(), loc.discoverer as int);
            }
            return Err(Error::NotFound);
        },
    }
    let mut out: Vec<Location> = Vec::new();
    let mut n: usize = 0;
    let mut i: usize = 0;
    let ghost lv = store.locations_v();
    proof {
        assert(views_of(store.locations@.subrange(0, 0)) =~= Seq::<LocationV>::empty());
    }
    while i < store.locations.len()
        invariant
            i <= store.locations@.len(),
            lv == views_of(store.locations@),
            out@.len() == i,
            n <= i,
            n as int == hydrate::count_keyed::<Location>(
                views_of(store.locations@.subrange(0, i as int)), id as int,
            ),
            forall|q: int| 0 <= q < i ==> views_of(out@)[q] == if (
                #[trigger] lv[q]).id == id as int {
                updated_view(lv[q], loc, now as int)
            } else {
                lv[q]
            },
        decreases store.locations@.len() - i,
    {
        let ghost pre = store.locations@.subrange(0, i as int);
        proof {
            assert(views_of(store.locations@)[i as int] == store.locations@[i as int]@);
            assert(store.locations@.subrange(0, i as int + 1) =~= pre.push(store.locations@[i as int]));
            assert(views_of(pre.push(store.locations@[i as int]))
                =~= views_of(pre).push(store.locations@[i as int]@));
            assert(views_of(pre.push(store.locations@[i as int])).drop_last() =~= views_of(pre));
        }
        let ghost old_out = out@;
        let row = &store.locations[i];
        if row.id == id {
            let replaced = Location {
                id: row.id,
                name: loc.name.clone(),
                latitude: loc.latitude,
                longitude: loc.longitude,
                category: loc.category,
                description: loc.description.clone(),
                discoverer: loc.discoverer,
                create_on: row.create_on,
                update_on: now,
                geo_index: loc.geo_index,
            };
            out.push(replaced);
            n = n + 1;
        } else {
            out.push(row.dup());
        }
        proof {
            assert(views_of(out@) =~= views_of(old_out).push(out@[i as int]@));
            assert(forall|q: int| 0 <= q < i ==> views_of(out@)[q] == views_of(old_out)[q]);
        }
        i = i + 1;
    }
    proof {
        assert(store.locations@.subrange(0, store.locations@.len() as int)
            =~= store.locations@);
    }
    store.locations = out;
    proof {
        assert(store.users_v() == old(store).users_v());
        assert(store.uploads_v() == old(store).uploads_v());
        assert(store.location_upload_rels_v() == old(store).location_upload_rels_v());
        assert(store.equipments_v() == old(store).equipments_v());
        assert(store.comments_v() == old(store).comments_v());
        assert(store.rank_aggregations_v() == old(store).rank_aggregations_v());
        assert(store.memories_v() == old(store).memories_v());
        assert(store.memory_upload_rels_v() == old(store).memory_upload_rels_v());
        assert(store.playings_v() == old(store).playings_v());
        assert(store.eatings_v() == old(store).eatings_v());
        assert(store.playings_uploads_v() == old(store).playings_uploads_v());
        assert(store.eatings_uploads_v() == old(store).eatings_uploads_v());
        assert forall|k: int| 0 <= k < store.locations_v().len() implies geo::point_in_range(
            (#[trigger] store.locations_v()[k]).latitude, store.locations_v()[k].longitude,
        ) && crate::store::has_user_id(
            store.users_v(), store.locations_v()[k].discoverer,
        ) && store.locations_v()[k].id < store.next_id as int by {
            assert(store.locations_v()[k] == if lv[k].id == id as int {
                updated_view(lv[k], loc, now as int)
            } else {
                lv[k]
            });
            assert(old(store).locations_v()[k] == lv[k]);
        }
        assert forall|i2: int, j2: int| 0 <= i2 < j2 < store.locations_v().len()
            implies (#[trigger] store.locations_v()[i2]).id
                != (#[trigger] store.locations_v()[j2]).id by {
            assert(store.locations_v()[i2].id == lv[i2].id);
            assert(store.locations_v()[j2].id == lv[j2].id);
            assert(old(store).locations_v()[i2] == lv[i2]);
            assert(old(store).locations_v()[j2] == lv[j2]);
        }
        assert(store.next_ok());
        assert(store.comments_unique());
        assert(store.phones_unique());
        assert(store.coords_ok());
        assert(store.refs_ok());
        assert(store.aggs_ok());
    }
    Ok(n)
}

/// Clears the photo set of one location: every relation row keyed by the
/// location is removed, and their number returned.
pub fn clear_images(store: &mut Store, id: i32) -> (r: Result<usize, Error>)
    requires
        old(store).wf(),
    ensures
        final(store).wf(),
        match r {
            Ok(n) => {
                &&& n as int == hydrate::count_keyed::<LocationUploadRel>(
                    old(store).location_upload_rels_v(), id as int,
                )
                &&& final(store).location_upload_rels_v() == hydrate::without_key::<
                    LocationUploadRel,
                >(old(store).location_upload_rels_v(), id as int)
                &&& final(store).users == old(store).users
                &&& final(store).locations == old(store).locations
                &&& final(store).uploads == old(store).uploads
                &&& final(store).equipments == old(store).equipments
                &&& final(store).comments == old(store).comments
                &&& final(store).rank_aggregations == old(store).rank_aggregations
                &&& final(store).memories == old(store).memories
                &&& final(store).playings == old(store).playings
                &&& final(store).eatings == old(store).eatings
                &&& final(store).next_id == old(store).next_id
            },
            Err(_) => false,
        },
{
    let n = hydrate::count_matching::<LocationUploadRel>(&store.location_upload_rels, id);
    let out = hydrate::remove_keyed::<LocationUploadRel>(&store.location_upload_rels, id);
    let ghost old_rels = store.location_upload_rels_v();
    store.location_upload_rels = out;
    proof {
        assert(store.users_v() == old(store).users_v());
        assert(store.locations_v() == old(store).locations_v());
        assert(store.uploads_v() == old(store).uploads_v());
        assert(store.equipments_v() == old(store).equipments_v());
        assert(store.comments_v() == old(store).comments_v());
        assert(store.rank_aggregations_v() == old(store).rank_aggregations_v());
        assert(store.memories_v() == old(store).memories_v());
        assert(store.memory_upload_rels_v() == old(store).memory_upload_rels_v());
        assert(store.playings_v() == old(store).playings_v());
        assert(store.eatings_v() == old(store).eatings_v());
        assert(store.playings_uploads_v() == old(store).playings_uploads_v());
        assert(store.eatings_uploads_v() == old(store).eatings_uploads_v());
        hydrate::lemma_without_key_len::<LocationUploadRel>(old_rels, id as int);
        hydrate::lemma_without_key_membership::<LocationUploadRel>(old_rels, id as int);
        assert forall|k: int| 0 <= k < store.location_upload_rels_v().len()
            implies crate::store::has_upload_id(
                store.uploads_v(), (#[trigger] store.location_upload_rels_v()[k]).upload_id,
            ) by {
            let j = choose|j: int| 0 <= j < old_rels.len()
                && #[trigger] store.location_upload_rels_v()[k] == old_rels[j];
            assert(old(store).location_upload_rels_v()[j] == old_rels[j]);
        }
        assert(store.next_ok());
        assert(store.comments_unique());
        assert(store.phones_unique());
        assert(store.coords_ok());
        assert(store.refs_ok());
        assert(store.aggs_ok());
    }
    Ok(n)
}

/// Attaches a photo set: one relation row per upload id, appended in the
/// caller's order with consecutive fresh ids. `NotFound` exactly when
/// some upload id does not exist; `StorageError` when the id space
/// cannot seat them all; nothing changes on failure.
pub fn add_images(store: &mut Store, id: i32, images: &Vec<i32>) -> (r: Result<usize, Error>)
    requires
        old(store).wf(),
    ensures
        final(store).wf(),
        match r {
            Ok(n) => {
                &&& n == images@.len()
                &&& final(store).location_upload_rels_v()
                    == old(store).location_upload_rels_v() + Seq::new(
                    images@.len(),
                    |j: int| crate::model::LocationUploadRelV {
                        id: old(store).next_id as int + j,
                        location_id: id as int,
                        upload_id: images@[j] as int,
                    },
                )
                &&& final(store).next_id as int
                    == old(store).next_id as int + images@.len()
                &&& final(store).users == old(store).users
                &&& final(store).locations == old(store).locations
                &&& final(store).uploads == old(store).uploads
                &&& final(store).equipments == old(store).equipments
                &&& final(store).comments == old(store).comments
                &&& final(store).rank_aggregations == old(store).rank_aggregations
                &&& final(store).memories == old(store).memories
                &&& final(store).playings == old(store).playings
                &&& final(store).eatings == old(store).eatings
            },
            Err(e) => {
                &&& *final(store) == *old(store)
                &&& (e == Error::NotFound || e == Error::StorageError)
                &&& (e == Error::NotFound ==> exists|j: int| 0 <= j < images@.len()
                    && !crate::store::has_upload_id(
                        old(store).uploads_v(), #[trigger] images@[j] as int,
                    ))
                &&& (e == Error::StorageError
                    ==> old(store).next_id as int + images@.len() > 0x7fff_ffff)
            },
        },
{
    let mut i: usize = 0;
    let mut missing = false;
    while !missing && i < images.len()
        invariant
            i <= images@.len(),
            forall|j: int| 0 <= j < i ==> crate::store::has_upload_id(
                store.uploads_v(), #[trigger] images@[j] as int,
            ),
            missing ==> i < images@.len() && !crate::store::has_upload_id(
                store.uploads_v(), images@[i as int] as int,
            ),
        decreases images@.len() - i + (if missing { 0int } else { 1int }),
    {
        match hydrate::find_keyed::<crate::model::Upload>(&store.uploads, images[i]) {
            Some(_) => {
                proof {
                    crate::store::lemma_first_upload_is_member(store.uploads_v(), images@[i as int] as int);
                }
                i = i + 1;
            },
            None => {
                proof {
                    crate::store::lemma_no_first_upload_no_member(store.uploads_v(), images@[i as int] as int);
                }
                missing = true;
            },
        }
    }
    if missing {
        return Err(Error::NotFound);
    }
    if images.len() > (i32::MAX - store.next_id) as usize {
        return Err(Error::StorageError);
    }
    let base = store.next_id;
    proof {
        assert(1 <= base as int);
        assert(base as int + images@.len() <= 0x7fff_ffff);
    }
    let mut out: Vec<LocationUploadRel> = Vec::new();
    let mut k: usize = 0;
    while k < store.location_upload_rels.len()
        invariant
            k <= store.location_upload_rels@.len(),
            out@.len() == k,
            forall|q: int| 0 <= q < k
                ==> views_of(out@)[q] == store.location_upload_rels_v()[q],
        decreases store.location_upload_rels@.len() - k,
    {
        let ghost old_out = out@;
        out.push(store.location_upload_rels[k].dup());
        proof {
            assert(views_of(out@) =~= views_of(old_out).push(out@[k as int]@));
            assert(forall|q: int| 0 <= q < k ==> views_of(out@)[q] == views_of(old_out)[q]);
            assert(store.location_upload_rels@[k as int]@
                == store.location_upload_rels_v()[k as int]);
        }
        k = k + 1;
    }
    let mut j: usize = 0;
    while j < images.len()
        invariant
            j <= images@.len(),
            1 <= base as int,
            base as int + images@.len() <= 0x7fff_ffff,
            out@.len() == store.location_upload_rels@.len() + j,
            forall|q: int| 0 <= q < store.location_upload_rels@.len()
                ==> views_of(out@)[q] == store.location_upload_rels_v()[q],
            forall|q: int| 0 <= q < j
                ==> views_of(out@)[store.location_upload_rels@.len() + q]
                    == (crate::model::LocationUploadRelV {
                    id: base as int + q,
                    location_id: id as int,
                    upload_id: images@[q] as int,
                }),
        decreases images@.len() - j,
    {
        let rel = LocationUploadRel {
            id: base + j as i32,
            location_id: id,
            upload_id: images[j],
        };
        let ghost old_out = out@;
        out.push(rel);
        proof {
            assert(views_of(out@) =~= views_of(old_out).push(rel@));
            assert(forall|q: int| 0 <= q < old_out.len()
                ==> views_of(out@)[q] == views_of(old_out)[q]);
            assert(views_of(out@)[old_out.len() as int] == rel@);
        }
        j = j + 1;
    }
    store.location_upload_rels = out;
    store.next_id = base + images.len() as i32;
    proof {
        assert(store.location_upload_rels_v() =~= old(store).location_upload_rels_v()
            + Seq::new(
            images@.len(),
            |q: int| crate::model::LocationUploadRelV {
                id: old(store).next_id as int + q,
                location_id: id as int,
                upload_id: images@[q] as int,
            },
        ));
        assert(store.users_v() == old(store).users_v());
        assert(store.locations_v() == old(store).locations_v());
        assert(store.uploads_v() == old(store).uploads_v());
        assert(store.equipments_v() == old(store).equipments_v());
        assert(store.comments_v() == old(store).comments_v());
        assert(store.rank_aggregations_v() == old(store).rank_aggregations_v());
        assert(store.memories_v() == old(store).memories_v());
        assert(store.memory_upload_rels_v() == old(store).memory_upload_rels_v());
        assert(store.playings_v() == old(store).playings_v());
        assert(store.eatings_v() == old(store).eatings_v());
        assert(store.playings_uploads_v() == old(store).playings_uploads_v());
        assert(store.eatings_uploads_v() == old(store).eatings_uploads_v());
        assert forall|k2: int| 0 <= k2 < store.location_upload_rels_v().len()
            implies crate::store::has_upload_id(
                store.uploads_v(), (#[trigger] store.location_upload_rels_v()[k2]).upload_id,
            ) by {
            if k2 < old(store).location_upload_rels_v().len() {
                assert(store.location_upload_rels_v()[k2]
                    == old(store).location_upload_rels_v()[k2]);
            } else {
                let q = k2 - old(store).location_upload_rels_v().len();
                assert(store.location_upload_rels_v()[k2].upload_id == images@[q] as int);
            }
        }
        assert(store.next_ok());
        assert(store.comments_unique());
        assert(store.phones_unique());
        assert(store.coords_ok());
        assert(store.refs_ok());
        assert(store.aggs_ok());
    }
    Ok(images.len())
}

} // verus!
