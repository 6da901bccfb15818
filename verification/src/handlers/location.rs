//! Location flows: the fully hydrated nearby listing, transactional
//! creation with its photo set and a fresh zero aggregate, the detail
//! lookup, the owner-checked full update with its destructive photo-set
//! replacement, and the caller's own listing.

use vstd::prelude::*;

use crate::dao::location;
use crate::dao::rank_aggregation;
use crate::dao::upload;
use crate::dao::user;
use crate::dao::equipment;
use crate::engine;
use crate::engine::{views_of, OrderBy};
use crate::errors::Error;
use crate::geo;
use crate::hydrate;
use crate::model::{
    Equipment, Location, LocationInsertion, LocationUpdating, LocationUploadRelV, LocationV,
    RankAggregation, RankAggregationInsert, RankAggregationV, Upload, User,
};
use crate::store::Store;

verus! {

/// The inclusive squared radius of a nearby listing.
pub const NEARBY_RADIUS: u64 = 10_000_000_000;

/// The inclusive squared radius within which a second location counts as
/// a duplicate of an existing one.
pub const DUPLICATE_RADIUS: u64 = 250_000;

/// The caller's point and pagination for a nearby listing.
pub struct NearbyRequest {
    pub latitude: i64,
    pub longitude: i64,
    pub limit: i64,
    pub offset: i64,
}

/// The engine filter of a nearby listing: the fixed radius around the
/// caller's point, nothing else.
pub open spec fn nearby_filter(latitude: int, longitude: int) -> engine::FilterV {
    engine::FilterV {
        name: None,
        category: None,
        owner: None,
        create_after: None,
        create_before: None,
        clat: latitude,
        clon: longitude,
        radius: NEARBY_RADIUS as int,
    }
}

/// The duplicate probe: the same shape of filter with the duplicate
/// radius.
pub open spec fn duplicate_filter(latitude: int, longitude: int) -> engine::FilterV {
    engine::FilterV {
        name: None,
        category: None,
        owner: None,
        create_after: None,
        create_before: None,
        clat: latitude,
        clon: longitude,
        radius: DUPLICATE_RADIUS as int,
    }
}

/// The own-listing filter: the nearby radius restricted to one owner.
pub open spec fn my_filter(latitude: int, longitude: int, uid: int) -> engine::FilterV {
    engine::FilterV {
        name: None,
        category: None,
        owner: Some(uid),
        create_after: None,
        create_before: None,
        clat: latitude,
        clon: longitude,
        radius: NEARBY_RADIUS as int,
    }
}

/// One fully hydrated row of the nearby listing.
pub open spec fn hydrated_row_ok(
    s: Store, row: (Location, User, Vec<Equipment>, Vec<Upload>, u64, RankAggregation),
    v: LocationV, clat: int, clon: int,
) -> bool {
    &&& row.0@ == v
    &&& hydrate::first_keyed::<User>(s.users_v(), v.discoverer) == Some(row.1@)
    &&& views_of(row.2@) == hydrate::children_of::<Equipment>(s.equipments_v(), v.id)
    &&& views_of(row.3@) == hydrate::linked_of::<crate::model::LocationUploadRel>(
        s.location_upload_rels_v(), s.uploads_v(), v.id,
    )
    &&& row.4 as int == geo::dist_sq(v.latitude, v.longitude, clat, clon)
    &&& hydrate::first_keyed::<RankAggregation>(s.rank_aggregations_v(), v.id) == Some(row.5@)
}

/// The nearby listing: one page of locations ordered by distance from
/// the caller's point, each hydrated with its discoverer, equipment set,
/// photo set, distance and rank aggregate, plus the total counted
/// against the same radius predicate — so the total does not move with
/// limit, offset or ordering. Discoverers always resolve under the
/// invariant; `NotFound` exactly when some page row's location has no
/// aggregate row, and success is owed otherwise.
pub fn nearby_locations(store: &Store, params: NearbyRequest) -> (r: Result<
    (Vec<(Location, User, Vec<Equipment>, Vec<Upload>, u64, RankAggregation)>, i64),
    Error,
>)
    requires
        store.wf(),
        geo::point_in_range(params.latitude as int, params.longitude as int),
    ensures
        match r {
            Ok(p) => {
                let pg = engine::page_spec::<Location>(
                    store.locations_v(), nearby_filter(params.latitude as int, params.longitude as int),
                    OrderBy::DistanceAsc, params.limit as int, params.offset as int,
                );
                &&& p.0@.len() == pg.len()
                &&& forall|k: int| 0 <= k < pg.len() ==> hydrated_row_ok(
                    *store, #[trigger] p.0@[k], pg[k], params.latitude as int,
                    params.longitude as int,
                )
                &&& p.1 as int == engine::total_spec::<Location>(
                    store.locations_v(),
                    nearby_filter(params.latitude as int, params.longitude as int),
                )
            },
            Err(e) => e == Error::NotFound,
        },
        (r is Err) <==> (exists|k: int| 0 <= k < engine::page_spec::<Location>(
            store.locations_v(), nearby_filter(params.latitude as int, params.longitude as int),
            OrderBy::DistanceAsc, params.limit as int, params.offset as int,
        ).len() && hydrate::first_keyed::<RankAggregation>(
            store.rank_aggregations_v(),
            (#[trigger] engine::page_spec::<Location>(
                store.locations_v(),
                nearby_filter(params.latitude as int, params.longitude as int),
                OrderBy::DistanceAsc, params.limit as int, params.offset as int,
            )[k]).id,
        ) is None),
{
    let q = location::Query {
        name: None,
        latitude: params.latitude,
        longitude: params.longitude,
        radius: NEARBY_RADIUS,
        category: None,
        owner: None,
        limit: if params.limit > 40 { 40 } else { params.limit },
        offset: params.offset,
        order_by: OrderBy::DistanceAsc,
    };
    proof {
        assert(location::filter_of(q)
            == nearby_filter(params.latitude as int, params.longitude as int));
        assert(engine::page_spec::<Location>(
            store.locations_v(), location::filter_of(q), OrderBy::DistanceAsc,
            q.limit as int, q.offset as int,
        ) == engine::page_spec::<Location>(
            store.locations_v(), location::filter_of(q), OrderBy::DistanceAsc,
            params.limit as int, params.offset as int,
        ));
    }
    let ((mut locs, mut dists), total) = match location::query(store, q) {
        Ok(p) => p,
        Err(_) => {
            proof {
                assert(false);
            }
            return Err(Error::NotFound);
        },
    };
    let mut users = match user::discoverers_of_locations(store, &locs) {
        Ok(u) => u,
        Err(_) => {
            proof {
                engine::lemma_page_members::<Location>(
                    store.locations_v(),
                    nearby_filter(params.latitude as int, params.longitude as int),
                    OrderBy::DistanceAsc, params.limit as int, params.offset as int,
                );
                let k = choose|k: int| 0 <= k < views_of(locs@).len()
                    && hydrate::first_keyed::<User>(
                    store.users_v(), (#[trigger] views_of(locs@)[k]).discoverer,
                ) is None;
                let j = choose|j: int| 0 <= j < store.locations_v().len()
                    && #[trigger] store.locations_v()[j] == views_of(locs@)[k];
                crate::store::lemma_no_first_no_member(
                    store.users_v(), views_of(locs@)[k].discoverer,
                );
                assert(false);
            }
            return Err(Error::NotFound);
        },
    };
    let mut equips = match equipment::equipements_of_locations(store, &locs) {
        Ok(g) => g,
        Err(_) => {
            proof {
                assert(false);
            }
            return Err(Error::NotFound);
        },
    };
    let mut uploads = match upload::uploads_of_locations(store, &locs) {
        Ok(g) => g,
        Err(_) => {
            proof {
                assert(false);
            }
            return Err(Error::NotFound);
        },
    };
    let mut aggs = match rank_aggregation::rank_aggs_of_location(store, &locs) {
        Ok(a) => a,
        Err(e) => {
            return Err(e);
        },
    };
    let ghost pg = views_of(locs@);
    let ghost users0 = views_of(users@);
    let ghost equips0 = equips@;
    let ghost uploads0 = uploads@;
    let ghost aggs0 = views_of(aggs@);
    let ghost dists0 = dists@;
    let mut out: Vec<(Location, User, Vec<Equipment>, Vec<Upload>, u64, RankAggregation)> =
        Vec::new();
    let mut k: usize = 0;
    let n = locs.len();
    while k < n
        invariant
            store.wf(),
            n == pg.len(),
            k <= n,
            locs@.len() == n - k,
            users@.len() == n - k,
            equips@.len() == n - k,
            uploads@.len() == n - k,
            aggs@.len() == n - k,
            dists@.len() == n - k,
            forall|j: int| 0 <= j < n - k ==> (#[trigger] locs@[j])@ == pg[k + j],
            forall|j: int| 0 <= j < n - k ==> (#[trigger] users@[j])@ == users0[k + j],
            forall|j: int| 0 <= j < n - k ==> #[trigger] equips@[j]@ == equips0[k + j]@,
            forall|j: int| 0 <= j < n - k ==> #[trigger] uploads@[j]@ == uploads0[k + j]@,
            forall|j: int| 0 <= j < n - k ==> (#[trigger] aggs@[j])@ == aggs0[k + j],
            forall|j: int| 0 <= j < n - k ==> #[trigger] dists@[j] == dists0[k + j],
            out@.len() == k,
            forall|j: int| 0 <= j < k ==> hydrated_row_ok(
                *store, #[trigger] out@[j], pg[j], params.latitude as int,
                params.longitude as int,
            ),
            forall|j: int| 0 <= j < n ==> hydrate::first_keyed::<User>(
                store.users_v(), (#[trigger] pg[j]).discoverer,
            ) == Some(users0[j]),
            forall|j: int| 0 <= j < n ==> views_of(#[trigger] equips0[j]@)
                == hydrate::children_of::<Equipment>(store.equipments_v(), pg[j].id),
            forall|j: int| 0 <= j < n ==> views_of(#[trigger] uploads0[j]@)
                == hydrate::linked_of::<crate::model::LocationUploadRel>(
                store.location_upload_rels_v(), store.uploads_v(), pg[j].id,
            ),
            forall|j: int| 0 <= j < n ==> hydrate::first_keyed::<RankAggregation>(
                store.rank_aggregations_v(), (#[trigger] pg[j]).id,
            ) == Some(aggs0[j]),
            forall|j: int| 0 <= j < n ==> #[trigger] dists0[j] as int == geo::dist_sq(
                pg[j].latitude, pg[j].longitude, params.latitude as int,
                params.longitude as int,
            ),
        decreases n - k,
    {
        let loc = locs.remove(0);
        let u = users.remove(0);
        let eq = equips.remove(0);
        let up = uploads.remove(0);
        let agg = aggs.remove(0);
        let d = dists.remove(0);
        let ghost old_out = out@;
        out.push((loc, u, eq, up, d, agg));
        proof {
            assert(forall|j: int| 0 <= j < old_out.len() ==> out@[j] == old_out[j]);
            assert(out@[k as int].0@ == pg[k as int]);
            assert(hydrated_row_ok(
                *store, out@[k as int], pg[k as int], params.latitude as int,
                params.longitude as int,
            ));
        }
        k = k + 1;
    }
    Ok((out, total))
}

/// The caller-supplied fields of a new location; the geo cell index of
/// its point is computed by the caller and handed in.
pub struct CreateRequest {
    pub name: String,
    pub latitude: i64,
    pub longitude: i64,
    pub category: i32,
    pub description: String,
    pub images: Vec<i32>,
    pub geo_index: u64,
}

/// Creates a location with its photo set and a fresh zero aggregate, all
/// or nothing. `Conflict` exactly when another location already sits
/// within the duplicate radius of the point; `NotFound` exactly when
/// some photo or the caller does not exist; `StorageError` exactly when
/// the id space cannot seat the location, its relation rows and its
/// aggregate; otherwise the fresh location id is owed. Nothing changes
/// on failure.
pub fn create_location(store: &mut Store, uid: i32, body: CreateRequest, now: i64) -> (r: Result<
    i32,
    Error,
>)
    requires
        old(store).wf(),
        geo::point_in_range(body.latitude as int, body.longitude as int),
    ensures
        final(store).wf(),
        match r {
            Ok(id) => {
                &&& id as int == old(store).next_id as int
                &&& final(store).locations_v() == old(store).locations_v().push(
                    LocationV {
                        id: id as int,
                        name: body.name@,
                        latitude: body.latitude as int,
                        longitude: body.longitude as int,
                        category: body.category as int,
                        description: body.description@,
                        discoverer: uid as int,
                        create_on: now as int,
                        update_on: now as int,
                        geo_index: body.geo_index as int,
                    },
                )
                &&& final(store).location_upload_rels_v()
                    == old(store).location_upload_rels_v() + Seq::new(
                    body.images@.len(),
                    |j: int| LocationUploadRelV {
                        id: old(store).next_id as int + 1 + j,
                        location_id: id as int,
                        upload_id: body.images@[j] as int,
                    },
                )
                &&& final(store).rank_aggregations_v()
                    == old(store).rank_aggregations_v().push(
                    RankAggregationV {
                        id: old(store).next_id as int + 1 + body.images@.len(),
                        total: 0,
                        count: 0,
                        location_id: id as int,
                        create_on: now as int,
                        update_on: now as int,
                    },
                )
                &&& final(store).next_id as int
                    == old(store).next_id as int + 2 + body.images@.len()
                &&& final(store).users == old(store).users
                &&& final(store).uploads == old(store).uploads
                &&& final(store).equipments == old(store).equipments
                &&& final(store).comments == old(store).comments
                &&& final(store).memories == old(store).memories
                &&& final(store).playings == old(store).playings
                &&& final(store).eatings == old(store).eatings
            },
            Err(e) => {
                &&& *final(store) == *old(store)
                &&& (e == Error::Conflict || e == Error::NotFound || e == Error::StorageError)
            },
        },
        (r == Err::<i32, Error>(Error::Conflict)) <==> (exists|k: int|
            0 <= k < old(store).locations_v().len() && engine::row_ok::<Location>(
                duplicate_filter(body.latitude as int, body.longitude as int),
                #[trigger] old(store).locations_v()[k],
            )),
        (r == Err::<i32, Error>(Error::NotFound)) <==> (!(exists|k: int|
            0 <= k < old(store).locations_v().len() && engine::row_ok::<Location>(
                duplicate_filter(body.latitude as int, body.longitude as int),
                #[trigger] old(store).locations_v()[k],
            )) && (!crate::domain::playing::images_exist(*old(store), body.images@)
                || !crate::store::has_user_id(old(store).users_v(), uid as int))),
        (r == Err::<i32, Error>(Error::StorageError)) <==> (!(exists|k: int|
            0 <= k < old(store).locations_v().len() && engine::row_ok::<Location>(
                duplicate_filter(body.latitude as int, body.longitude as int),
                #[trigger] old(store).locations_v()[k],
            )) && crate::domain::playing::images_exist(*old(store), body.images@)
            && crate::store::has_user_id(old(store).users_v(), uid as int)
            && old(store).next_id as int + 2 + body.images@.len() > 0x7fff_ffff),
{
    let dupq = location::Query {
        name: None,
        latitude: body.latitude,
        longitude: body.longitude,
        radius: DUPLICATE_RADIUS,
        category: None,
        owner: None,
        limit: 0,
        offset: 0,
        order_by: OrderBy::DistanceAsc,
    };
    proof {
        assert(location::filter_of(dupq)
            == duplicate_filter(body.latitude as int, body.longitude as int));
    }
    let taken = match location::exists_matching(store, dupq) {
        Ok(b) => b,
        Err(_) => {
            proof {
                assert(false);
            }
            return Err(Error::StorageError);
        },
    };
    if taken {
        return Err(Error::Conflict);
    }
    let mut i: usize = 0;
    let mut missing = false;
    while !missing && i < body.images.len()
        invariant
            i <= body.images@.len(),
            forall|j: int| 0 <= j < i ==> crate::store::has_upload_id(
                store.uploads_v(), #[trigger] body.images@[j] as int,
            ),
            missing ==> i < body.images@.len() && !crate::store::has_upload_id(
                store.uploads_v(), body.images@[i as int] as int,
            ),
        decreases body.images@.len() - i + (if missing { 0int } else { 1int }),
    {
        match hydrate::find_keyed::<Upload>(&store.uploads, body.images[i]) {
            Some(_) => {
                proof {
                    crate::store::lemma_first_upload_is_member(
                        store.uploads_v(), body.images@[i as int] as int,
                    );
                }
                i = i + 1;
            },
            None => {
                proof {
                    crate::store::lemma_no_first_upload_no_member(
                        store.uploads_v(), body.images@[i as int] as int,
                    );
                }
                missing = true;
            },
        }
    }
    if missing {
        return Err(Error::NotFound);
    }
    match hydrate::find_keyed::<User>(&store.users, uid) {
        Some(_) => {
            proof {
                crate::store::lemma_first_user_is_member(store.users_v(), uid as int);
            }
        },
        None => {
            proof {
                crate::store::lemma_no_first_no_member(store.users_v(), uid as int);
            }
            return Err(Error::NotFound);
        },
    }
    let headroom = (i32::MAX - store.next_id) as usize;
    if headroom < 2 || body.images.len() > headroom - 2 {
        return Err(Error::StorageError);
    }
    let ghost base = store.next_id as int;
    let id = match location::insert(
        store,
        LocationInsertion {
            name: body.name,
            latitude: body.latitude,
            longitude: body.longitude,
            category: body.category,
            description: body.description,
            discoverer: uid,
            geo_index: body.geo_index,
        },
        now,
    ) {
        Ok(id) => id,
        Err(_) => {
            proof {
                assert(false);
            }
            return Err(Error::StorageError);
        },
    };
    let mut j: usize = 0;
    while j < body.images.len()
        invariant
            store.wf(),
            j <= body.images@.len(),
            id as int == base,
            store.next_id as int == base + 1 + j,
            base + 2 + body.images@.len() <= 0x7fff_ffff + 1,
            store.location_upload_rels_v() == old(store).location_upload_rels_v() + Seq::new(
                j as nat,
                |q: int| LocationUploadRelV {
                    id: base + 1 + q,
                    location_id: id as int,
                    upload_id: body.images@[q] as int,
                },
            ),
            store.users == old(store).users,
            store.uploads == old(store).uploads,
            store.locations_v() == old(store).locations_v().push(
                LocationV {
                    id: id as int,
                    name: body.name@,
                    latitude: body.latitude as int,
                    longitude: body.longitude as int,
                    category: body.category as int,
                    description: body.description@,
                    discoverer: uid as int,
                    create_on: now as int,
                    update_on: now as int,
                    geo_index: body.geo_index as int,
                },
            ),
            store.equipments == old(store).equipments,
            store.comments == old(store).comments,
            store.rank_aggregations == old(store).rank_aggregations,
            store.memories == old(store).memories,
            store.playings == old(store).playings,
            store.eatings == old(store).eatings,
            forall|q: int| 0 <= q < body.images@.len() ==> crate::store::has_upload_id(
                old(store).uploads_v(), #[trigger] body.images@[q] as int,
            ),
        decreases body.images@.len() - j,
    {
        let ghost rels0 = store.location_upload_rels_v();
        match upload::insert_location_upload_rel(
            store,
            upload::LocationUploadRelInsertion { location_id: id, upload_id: body.images[j] },
        ) {
            Ok(_) => {},
            Err(_) => {
                proof {
                    assert(false);
                }
            },
        }
        proof {
            assert(store.location_upload_rels_v() =~= old(store).location_upload_rels_v()
                + Seq::new(
                (j + 1) as nat,
                |q: int| LocationUploadRelV {
                    id: base + 1 + q,
                    location_id: id as int,
                    upload_id: body.images@[q] as int,
                },
            ));
        }
        j = j + 1;
    }
    proof {
        assert forall|k: int| 0 <= k < store.comments_v().len()
            implies (#[trigger] store.comments_v()[k]).location != id as int by {
            assert(store.comments_v()[k] == old(store).comments_v()[k]);
        }
        crate::store::lemma_sum_absent(store.comments_v(), id as int);
    }
    match rank_aggregation::insert(
        store, RankAggregationInsert { total: 0, count: 0, location_id: id }, now,
    ) {
        Ok(_) => {},
        Err(_) => {
            proof {
                assert(false);
            }
        },
    }
    Ok(id)
}

/// The detail of one location: the row, its discoverer, equipment set,
/// photo set and its distance from the caller's point. `NotFound`
/// exactly when no location carries the id.
pub fn detail(store: &Store, id: i32, latitude: i64, longitude: i64) -> (r: Result<
    (Location, User, Vec<Equipment>, Vec<Upload>, u64),
    Error,
>)
    requires
        store.wf(),
        geo::point_in_range(latitude as int, longitude as int),
    ensures
        match r {
            Ok(p) => {
                &&& hydrate::first_keyed::<Location>(store.locations_v(), id as int)
                    == Some(p.0@)
                &&& hydrate::first_keyed::<User>(store.users_v(), p.0@.discoverer)
                    == Some(p.1@)
                &&& views_of(p.2@) == hydrate::children_of::<Equipment>(
                    store.equipments_v(), p.0@.id,
                )
                &&& views_of(p.3@) == hydrate::linked_of::<crate::model::LocationUploadRel>(
                    store.location_upload_rels_v(), store.uploads_v(), p.0@.id,
                )
                &&& p.4 as int == geo::dist_sq(
                    p.0@.latitude, p.0@.longitude, latitude as int, longitude as int,
                )
            },
            Err(e) => e == Error::NotFound
                && hydrate::first_keyed::<Location>(store.locations_v(), id as int) is None,
        },
{
    let (loc, d) = match location::get(store, id, latitude, longitude) {
        Ok(p) => p,
        Err(e) => {
            return Err(e);
        },
    };
    proof {
        hydrate::lemma_first_keyed_member::<Location>(store.locations_v(), id as int);
    }
    let u = match user::discoverer_of_location(store, &loc) {
        Ok(u) => u,
        Err(_) => {
            proof {
                let j = choose|j: int| 0 <= j < store.locations_v().len()
                    && #[trigger] store.locations_v()[j] == loc@;
                crate::store::lemma_no_first_no_member(store.users_v(), loc@.discoverer);
                assert(false);
            }
            return Err(Error::NotFound);
        },
    };
    let ups = match upload::uploads_of_location(store, &loc) {
        Ok(u) => u,
        Err(_) => {
            proof {
                assert(false);
            }
            return Err(Error::NotFound);
        },
    };
    let eqs = match equipment::equipements_of_location(store, &loc) {
        Ok(e) => e,
        Err(_) => {
            proof {
                assert(false);
            }
            return Err(Error::NotFound);
        },
    };
    Ok((loc, u, eqs, ups, d))
}

/// The caller-supplied fields of a location update; the point and the
/// geo cell index keep their stored values.
pub struct UpdateBody {
    pub name: String,
    pub description: String,
    pub category: i32,
    pub images: Vec<i32>,
}

/// The owner-checked full update: every caller-supplied field of the
/// location is replaced at once, and the photo relation rows are wiped
/// and rewritten so that afterwards they match the supplied id set
/// exactly. `PermissionDenied` exactly when the location exists and the
/// caller is not its discoverer; `NotFound` exactly when the location or
/// some photo does not exist; `StorageError` exactly when the id space
/// cannot seat the new relation rows; otherwise the update is owed.
/// Nothing changes on failure.
pub fn update(store: &mut Store, uid: i32, id: i32, body: UpdateBody, now: i64) -> (r: Result<
    usize,
    Error,
>)
    requires
        old(store).wf(),
    ensures
        final(store).wf(),
        match r {
            Ok(n) => {
                &&& n == 1
                &&& exists|l: LocationV| {
                    &&& hydrate::first_keyed::<Location>(old(store).locations_v(), id as int)
                        == Some(l)
                    &&& l.discoverer == uid as int
                    &&& final(store).locations_v().len() == old(store).locations_v().len()
                    &&& forall|k: int| 0 <= k < old(store).locations_v().len()
                        ==> final(store).locations_v()[k] == if (
                            #[trigger] old(store).locations_v()[k]).id == id as int {
                            location::updated_view(
                                old(store).locations_v()[k], LocationUpdating {
                                    name: body.name,
                                    latitude: l.latitude as i64,
                                    longitude: l.longitude as i64,
                                    category: body.category,
                                    description: body.description,
                                    discoverer: l.discoverer as i32,
                                    geo_index: l.geo_index as u64,
                                }, now as int,
                            )
                        } else {
                            old(store).locations_v()[k]
                        }
                }
                &&& final(store).location_upload_rels_v() == hydrate::without_key::<
                    crate::model::LocationUploadRel,
                >(old(store).location_upload_rels_v(), id as int) + Seq::new(
                    body.images@.len(),
                    |q: int| LocationUploadRelV {
                        id: old(store).next_id as int + q,
                        location_id: id as int,
                        upload_id: body.images@[q] as int,
                    },
                )
                &&& final(store).users == old(store).users
                &&& final(store).uploads == old(store).uploads
                &&& final(store).equipments == old(store).equipments
                &&& final(store).comments == old(store).comments
                &&& final(store).rank_aggregations == old(store).rank_aggregations
                &&& final(store).memories == old(store).memories
                &&& final(store).playings == old(store).playings
                &&& final(store).eatings == old(store).eatings
            },
            Err(e) => {
                &&& *final(store) == *old(store)
                &&& (e == Error::NotFound || e == Error::PermissionDenied
                    || e == Error::StorageError)
            },
        },
        (r == Err::<usize, Error>(Error::PermissionDenied)) <==> (
            match hydrate::first_keyed::<Location>(old(store).locations_v(), id as int) {
                Some(l) => l.discoverer != uid as int,
                None => false,
            }),
        (r == Err::<usize, Error>(Error::NotFound)) <==> (
            hydrate::first_keyed::<Location>(old(store).locations_v(), id as int) is None
            || (match hydrate::first_keyed::<Location>(old(store).locations_v(), id as int) {
                Some(l) => l.discoverer == uid as int,
                None => false,
            } && !crate::domain::playing::images_exist(*old(store), body.images@))),
        (r == Err::<usize, Error>(Error::StorageError)) <==> (
            match hydrate::first_keyed::<Location>(old(store).locations_v(), id as int) {
                Some(l) => l.discoverer == uid as int,
                None => false,
            } && crate::domain::playing::images_exist(*old(store), body.images@)
            && old(store).next_id as int + body.images@.len() > 0x7fff_ffff),
{
    let (loc, owner, _images) = match get_without_coord(store, id) {
        Ok(p) => p,
        Err(e) => {
            return Err(e);
        },
    };
    proof {
        hydrate::lemma_first_keyed_key::<User>(store.users_v(), loc@.discoverer);
    }
    if owner.id != uid {
        return Err(Error::PermissionDenied);
    }
    let mut i: usize = 0;
    let mut missing = false;
    while !missing && i < body.images.len()
        invariant
            i <= body.images@.len(),
            forall|j: int| 0 <= j < i ==> crate::store::has_upload_id(
                store.uploads_v(), #[trigger] body.images@[j] as int,
            ),
            missing ==> i < body.images@.len() && !crate::store::has_upload_id(
                store.uploads_v(), body.images@[i as int] as int,
            ),
        decreases body.images@.len() - i + (if missing { 0int } else { 1int }),
    {
        match hydrate::find_keyed::<Upload>(&store.uploads, body.images[i]) {
            Some(_) => {
                proof {
                    crate::store::lemma_first_upload_is_member(
                        store.uploads_v(), body.images@[i as int] as int,
                    );
                }
                i = i + 1;
            },
            None => {
                proof {
                    crate::store::lemma_no_first_upload_no_member(
                        store.uploads_v(), body.images@[i as int] as int,
                    );
                }
                missing = true;
            },
        }
    }
    if missing {
        return Err(Error::NotFound);
    }
    if body.images.len() > (i32::MAX - store.next_id) as usize {
        return Err(Error::StorageError);
    }
    proof {
        hydrate::lemma_first_keyed_member::<Location>(store.locations_v(), id as int);
        hydrate::lemma_first_keyed_key::<User>(store.users_v(), loc@.discoverer);
        crate::store::lemma_first_user_is_member(store.users_v(), loc@.discoverer);
        let j = choose|j: int| 0 <= j < store.locations_v().len()
            && #[trigger] store.locations_v()[j] == loc@;
    }
    match location::update(
        store,
        id,
        LocationUpdating {
            name: body.name,
            latitude: loc.latitude,
            longitude: loc.longitude,
            category: body.category,
            description: body.description,
            discoverer: owner.id,
            geo_index: loc.geo_index,
        },
        now,
    ) {
        Ok(_) => {},
        Err(_) => {
            proof {
                assert(false);
            }
            return Err(Error::StorageError);
        },
    }
    match location::clear_images(store, id) {
        Ok(_) => {},
        Err(_) => {
            proof {
                assert(false);
            }
            return Err(Error::StorageError);
        },
    }
    match location::add_images(store, id, &body.images) {
        Ok(_) => {},
        Err(_) => {
            proof {
                assert(false);
            }
            return Err(Error::StorageError);
        },
    }
    Ok(1)
}

/// The location, its discoverer and its photo set, without a distance.
/// `NotFound` exactly when no location carries the id.
pub fn get_without_coord(store: &Store, id: i32) -> (r: Result<
    (Location, User, Vec<Upload>),
    Error,
>)
    requires
        store.wf(),
    ensures
        match r {
            Ok(p) => {
                &&& hydrate::first_keyed::<Location>(store.locations_v(), id as int)
                    == Some(p.0@)
                &&& hydrate::first_keyed::<User>(store.users_v(), p.0@.discoverer)
                    == Some(p.1@)
                &&& views_of(p.2@) == hydrate::linked_of::<crate::model::LocationUploadRel>(
                    store.location_upload_rels_v(), store.uploads_v(), p.0@.id,
                )
            },
            Err(e) => e == Error::NotFound
                && hydrate::first_keyed::<Location>(store.locations_v(), id as int) is None,
        },
{
    let loc = match hydrate::find_keyed::<Location>(&store.locations, id) {
        Some(l) => l,
        None => {
            return Err(Error::NotFound);
        },
    };
    proof {
        hydrate::lemma_first_keyed_member::<Location>(store.locations_v(), id as int);
    }
    let u = match user::discoverer_of_location(store, &loc) {
        Ok(u) => u,
        Err(_) => {
            proof {
                let j = choose|j: int| 0 <= j < store.locations_v().len()
                    && #[trigger] store.locations_v()[j] == loc@;
                crate::store::lemma_no_first_no_member(store.users_v(), loc@.discoverer);
                assert(false);
            }
            return Err(Error::NotFound);
        },
    };
    let ups = match upload::uploads_of_location(store, &loc) {
        Ok(u) => u,
        Err(_) => {
            proof {
                assert(false);
            }
            return Err(Error::NotFound);
        },
    };
    Ok((loc, u, ups))
}

/// The caller's point, pagination and ordering for the own-locations
/// listing.
pub struct MyLocations {
    pub latitude: i64,
    pub longitude: i64,
    pub limit: i64,
    pub offset: i64,
    pub order_by: OrderBy,
}

/// The caller's own listing: the nearby radius around the caller's
/// point, restricted to locations the caller discovered, in the chosen
/// ordering, each row with its distance.
pub fn my_locations(store: &Store, uid: i32, q: MyLocations) -> (r: Result<
    (Vec<(Location, u64)>, i64),
    Error,
>)
    requires
        store.wf(),
        geo::point_in_range(q.latitude as int, q.longitude as int),
    ensures
        match r {
            Ok(p) => {
                let f = my_filter(q.latitude as int, q.longitude as int, uid as int);
                let pg = engine::page_spec::<Location>(
                    store.locations_v(), f, q.order_by, q.limit as int, q.offset as int,
                );
                &&& p.0@.len() == pg.len()
                &&& forall|k: int| 0 <= k < pg.len() ==> (#[trigger] p.0@[k]).0@ == pg[k]
                    && p.0@[k].1 as int == geo::dist_sq(
                    pg[k].latitude, pg[k].longitude, q.latitude as int, q.longitude as int,
                )
                &&& p.1 as int == engine::total_spec::<Location>(store.locations_v(), f)
            },
            Err(_) => false,
        },
{
    let lq = location::Query {
        name: None,
        latitude: q.latitude,
        longitude: q.longitude,
        radius: NEARBY_RADIUS,
        category: None,
        owner: Some(uid),
        limit: q.limit,
        offset: q.offset,
        order_by: q.order_by,
    };
    proof {
        assert(location::filter_of(lq)
            == my_filter(q.latitude as int, q.longitude as int, uid as int));
    }
    let ((mut locs, mut dists), total) = match location::query(store, lq) {
        Ok(p) => p,
        Err(_) => {
            proof {
                assert(false);
            }
            return Err(Error::StorageError);
        },
    };
    let ghost pg = views_of(locs@);
    let ghost dists0 = dists@;
    let mut out: Vec<(Location, u64)> = Vec::new();
    let mut k: usize = 0;
    let n = locs.len();
    while k < n
        invariant
            k <= n,
            locs@.len() == n - k,
            dists@.len() == n - k,
            n == pg.len(),
            forall|j: int| 0 <= j < n - k ==> (#[trigger] locs@[j])@ == pg[k + j],
            forall|j: int| 0 <= j < n - k ==> #[trigger] dists@[j] == dists0[k + j],
            out@.len() == k,
            forall|j: int| 0 <= j < k ==> (#[trigger] out@[j]).0@ == pg[j]
                && out@[j].1 == dists0[j],
        decreases n - k,
    {
        let loc = locs.remove(0);
        let d = dists.remove(0);
        let ghost old_out = out@;
        out.push((loc, d));
        proof {
            assert(forall|j: int| 0 <= j < old_out.len() ==> out@[j] == old_out[j]);
        }
        k = k + 1;
    }
    let ghost f = my_filter(q.latitude as int, q.longitude as int, uid as int);
    proof {
        assert(forall|j: int| 0 <= j < pg.len() ==> #[trigger] dists0[j] as int == geo::dist_sq(
            pg[j].latitude, pg[j].longitude, q.latitude as int, q.longitude as int,
        ));
    }
    Ok((out, total))
}

} // verus!
