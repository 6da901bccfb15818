//! The eating variant of the nearby listing and its creation flow:
//! a radius query with limit and offset, hydration with discoverers and
//! photo sets, and creation together with the photo relation rows.

use vstd::prelude::*;

use crate::engine;
use crate::engine::{views_of, Filter, OrderBy};
use crate::errors::Error;
use crate::geo;
use crate::geo::Point;
use crate::hydrate;
use crate::model::{Eating, EatingsUpload, EatingV, Upload, User};
use crate::store::Store;

verus! {

/// A radius query with explicit limit and offset.
pub struct QueryByDistance {
    pub latitude: i64,
    pub longitude: i64,
    pub radius: u64,
    pub limit: i64,
    pub offset: i64,
}

/// A radius query with one-based page-and-size pagination.
pub struct NearbyQuery {
    pub latitude: i64,
    pub longitude: i64,
    pub radius: u64,
    pub page: i64,
    pub size: i64,
}

/// The caller-supplied fields of a new eating.
pub struct Insertion {
    pub name: String,
    pub latitude: i64,
    pub longitude: i64,
    pub discoverer: i32,
}

/// The engine filter of an eating listing: a radius around the caller's
/// point, nothing else.
pub open spec fn eating_filter(latitude: int, longitude: int, radius: int) -> engine::FilterV {
    engine::FilterV {
        name: None,
        category: None,
        owner: None,
        create_after: None,
        create_before: None,
        clat: latitude,
        clon: longitude,
        radius: radius,
    }
}

/// The eatings table presented as engine rows.
proof fn lemma_eatings_in_range(s: &Store)
    requires
        s.coords_ok(),
    ensures
        engine::rows_in_range::<Eating>(views_of(s.eatings@)),
{
    assert forall|k: int| 0 <= k < views_of(s.eatings@).len()
        implies geo::point_in_range(
            <Eating as engine::GeoRow>::vlat(#[trigger] views_of(s.eatings@)[k]),
            <Eating as engine::GeoRow>::vlon(views_of(s.eatings@)[k]),
        ) by {
        assert(s.eatings_v()[k] == views_of(s.eatings@)[k]);
    }
}

/// The radius-filtered, distance-ordered eating page with each row's
/// distance, and the radius-wide total.
pub fn query_eating_by_distance(store: &Store, query: QueryByDistance) -> (r: Result<
    (Vec<(Eating, u64)>, i64),
    Error,
>)
    requires
        store.wf(),
        geo::point_in_range(query.latitude as int, query.longitude as int),
    ensures
        match r {
            Ok(p) => {
                let pg = engine::page_spec::<Eating>(
                    store.eatings_v(),
                    eating_filter(query.latitude as int, query.longitude as int, query.radius as int),
                    OrderBy::DistanceAsc, query.limit as int, query.offset as int,
                );
                &&& p.0@.len() == pg.len()
                &&& forall|k: int| 0 <= k < pg.len() ==> (#[trigger] p.0@[k]).0@ == pg[k]
                    && p.0@[k].1 as int == geo::dist_sq(
                    pg[k].latitude, pg[k].longitude, query.latitude as int,
                    query.longitude as int,
                )
                &&& p.1 as int == engine::total_spec::<Eating>(
                    store.eatings_v(),
                    eating_filter(query.latitude as int, query.longitude as int, query.radius as int),
                )
            },
            Err(_) => false,
        },
{
    let f = Filter {
        name: None,
        category: None,
        owner: None,
        create_after: None,
        create_before: None,
        center: Point { lat: query.latitude, lon: query.longitude },
        radius: query.radius,
    };
    proof {
        assert(f@ == eating_filter(
            query.latitude as int, query.longitude as int, query.radius as int,
        ));
        lemma_eatings_in_range(store);
    }
    let (mut pagev, mut dists, total) = engine::run_query(
        &store.eatings, &f, OrderBy::DistanceAsc, query.limit, query.offset,
    );
    let ghost pg = views_of(pagev@);
    let ghost dists0 = dists@;
    let mut out: Vec<(Eating, u64)> = Vec::new();
    let mut k: usize = 0;
    let n = pagev.len();
    while k < n
        invariant
            k <= n,
            pagev@.len() == n - k,
            dists@.len() == n - k,
            n == pg.len(),
            forall|j: int| 0 <= j < n - k ==> (#[trigger] pagev@[j])@ == pg[k + j],
            forall|j: int| 0 <= j < n - k ==> #[trigger] dists@[j] == dists0[k + j],
            out@.len() == k,
            forall|j: int| 0 <= j < k ==> (#[trigger] out@[j]).0@ == pg[j]
                && out@[j].1 == dists0[j],
        decreases n - k,
    {
        let e = pagev.remove(0);
        let d = dists.remove(0);
        let ghost old_out = out@;
        out.push((e, d));
        proof {
            assert(forall|j: int| 0 <= j < old_out.len() ==> out@[j] == old_out[j]);
        }
        k = k + 1;
    }
    proof {
        assert(forall|j: int| 0 <= j < pg.len() ==> #[trigger] dists0[j] as int == geo::dist_sq(
            pg[j].latitude, pg[j].longitude, query.latitude as int, query.longitude as int,
        ));
    }
    Ok((out, total))
}

/// The nearby eating listing: one page of eatings ordered by distance,
/// each hydrated with its discoverer and photo set, plus the radius-wide
/// total. The page number is one-based. Every stored eating's
/// discoverer resolves under the invariant, so the listing always
/// answers.
pub fn nearby_eatings(store: &Store, query: NearbyQuery) -> (r: Result<
    (Vec<(Eating, User, Vec<Upload>)>, i64),
    Error,
>)
    requires
        store.wf(),
        geo::point_in_range(query.latitude as int, query.longitude as int),
        1 <= query.page,
        0 <= query.size,
        query.page as int * query.size as int <= 0x7fff_ffff_ffff_ffff,
    ensures
        match r {
            Ok(p) => {
                let pg = engine::page_spec::<Eating>(
                    store.eatings_v(),
                    eating_filter(query.latitude as int, query.longitude as int, query.radius as int),
                    OrderBy::DistanceAsc, query.size as int,
                    crate::domain::playing::page_offset(query.page as int, query.size as int),
                );
                &&& p.0@.len() == pg.len()
                &&& forall|k: int| 0 <= k < pg.len() ==> {
                    &&& (#[trigger] p.0@[k]).0@ == pg[k]
                    &&& hydrate::first_keyed::<User>(store.users_v(), pg[k].discoverer)
                        == Some(p.0@[k].1@)
                    &&& views_of(p.0@[k].2@) == hydrate::linked_of::<EatingsUpload>(
                        store.eatings_uploads_v(), store.uploads_v(), pg[k].id,
                    )
                }
                &&& p.1 as int == engine::total_spec::<Eating>(
                    store.eatings_v(),
                    eating_filter(query.latitude as int, query.longitude as int, query.radius as int),
                )
            },
            Err(_) => false,
        },
{
    let f = Filter {
        name: None,
        category: None,
        owner: None,
        create_after: None,
        create_before: None,
        center: Point { lat: query.latitude, lon: query.longitude },
        radius: query.radius,
    };
    proof {
        assert(f@ == eating_filter(
            query.latitude as int, query.longitude as int, query.radius as int,
        ));
        lemma_eatings_in_range(store);
        assert(0 <= (query.page as int - 1) * query.size as int
            && (query.page as int - 1) * query.size as int
                <= query.page as int * query.size as int)
            by (nonlinear_arith)
            requires 1 <= query.page as int && 0 <= query.size as int;
    }
    let offset: i64 = ((query.page as i128 - 1) * query.size as i128) as i64;
    let (mut pagev, _dists, total) = engine::run_query(
        &store.eatings, &f, OrderBy::DistanceAsc, query.size, offset,
    );
    let ghost pg = views_of(pagev@);
    let mut users: Vec<User> = Vec::new();
    let mut i: usize = 0;
    while i < pagev.len()
        invariant
            store.wf(),
            i <= pagev@.len(),
            pg == views_of(pagev@),
            pg == engine::page_spec::<Eating>(
                store.eatings_v(), f@, OrderBy::DistanceAsc, query.size as int,
                offset as int,
            ),
            users@.len() == i,
            forall|k: int| 0 <= k < i ==> hydrate::first_keyed::<User>(
                store.users_v(), (#[trigger] pg[k]).discoverer,
            ) == Some(views_of(users@)[k]),
        decreases pagev@.len() - i,
    {
        proof {
            assert(pg[i as int] == pagev@[i as int]@);
        }
        match hydrate::find_keyed::<User>(&store.users, pagev[i].discoverer) {
            Some(u) => {
                let ghost uv = u@;
                let ghost old_out = users@;
                users.push(u);
                proof {
                    assert(views_of(users@) =~= views_of(old_out).push(uv));
                    assert(forall|k: int| 0 <= k < old_out.len()
                        ==> views_of(users@)[k] == views_of(old_out)[k]);
                }
            },
            None => {
                proof {
                    engine::lemma_page_members::<Eating>(
                        store.eatings_v(), f@, OrderBy::DistanceAsc, query.size as int,
                        offset as int,
                    );
                    let j = choose|j: int| 0 <= j < store.eatings_v().len()
                        && #[trigger] store.eatings_v()[j] == pg[i as int];
                    crate::store::lemma_no_first_no_member(
                        store.users_v(), pg[i as int].discoverer,
                    );
                    assert(false);
                }
                return Err(Error::NotFound);
            },
        }
        i = i + 1;
    }
    let mut ids: Vec<i32> = Vec::new();
    let mut k2: usize = 0;
    while k2 < pagev.len()
        invariant
            k2 <= pagev@.len(),
            pg == views_of(pagev@),
            ids@.len() == k2,
            forall|k: int| 0 <= k < k2 ==> #[trigger] ids@[k] as int == pg[k].id,
        decreases pagev@.len() - k2,
    {
        proof {
            assert(pg[k2 as int] == pagev@[k2 as int]@);
        }
        ids.push(pagev[k2].id);
        k2 = k2 + 1;
    }
    let groups = hydrate::group_linked::<EatingsUpload>(&ids, &store.eatings_uploads, &store.uploads);
    let mut pagev = pagev;
    let mut users = users;
    let mut groups = groups;
    let ghost users0 = views_of(users@);
    let ghost groups0 = groups@;
    let mut out: Vec<(Eating, User, Vec<Upload>)> = Vec::new();
    let mut k: usize = 0;
    let n = pagev.len();
    while k < n
        invariant
            store.wf(),
            n == pg.len(),
            k <= n,
            pagev@.len() == n - k,
            users@.len() == n - k,
            groups@.len() == n - k,
            forall|j: int| 0 <= j < n - k ==> (#[trigger] pagev@[j])@ == pg[k + j],
            forall|j: int| 0 <= j < n - k ==> (#[trigger] users@[j])@ == users0[k + j],
            forall|j: int| 0 <= j < n - k ==> #[trigger] groups@[j]@ == groups0[k + j]@,
            out@.len() == k,
            forall|j: int| 0 <= j < n ==> hydrate::first_keyed::<User>(
                store.users_v(), (#[trigger] pg[j]).discoverer,
            ) == Some(users0[j]),
            forall|j: int| 0 <= j < n ==> views_of(#[trigger] groups0[j]@)
                == hydrate::linked_of::<EatingsUpload>(
                store.eatings_uploads_v(), store.uploads_v(), pg[j].id,
            ),
            forall|j: int| 0 <= j < k ==> {
                &&& (#[trigger] out@[j]).0@ == pg[j]
                &&& hydrate::first_keyed::<User>(store.users_v(), pg[j].discoverer)
                    == Some(out@[j].1@)
                &&& views_of(out@[j].2@) == hydrate::linked_of::<EatingsUpload>(
                    store.eatings_uploads_v(), store.uploads_v(), pg[j].id,
                )
            },
        decreases n - k,
    {
        let e = pagev.remove(0);
        let u = users.remove(0);
        let g = groups.remove(0);
        let ghost old_out = out@;
        out.push((e, u, g));
        proof {
            assert(forall|j: int| 0 <= j < old_out.len() ==> out@[j] == old_out[j]);
            assert(out@[k as int].0@ == pg[k as int]);
        }
        k = k + 1;
    }
    Ok((out, total))
}

/// Creates an eating with its photo set, all or nothing. `NotFound`
/// exactly when the discoverer or some photo does not exist;
/// `StorageError` exactly when the id space cannot seat the eating and
/// its relation rows; otherwise the fresh eating id is owed. Nothing
/// changes on failure.
pub fn create_eating(store: &mut Store, eating: Insertion, images: Vec<i32>, now: i64) -> (r:
    Result<i32, Error>)
    requires
        old(store).wf(),
        geo::point_in_range(eating.latitude as int, eating.longitude as int),
    ensures
        final(store).wf(),
        match r {
            Ok(id) => {
                &&& id as int == old(store).next_id as int
                &&& final(store).eatings_v() == old(store).eatings_v().push(
                    EatingV {
                        id: id as int,
                        name: eating.name@,
                        latitude: eating.latitude as int,
                        longitude: eating.longitude as int,
                        discoverer: eating.discoverer as int,
                        create_on: now as int,
                        update_on: now as int,
                    },
                )
                &&& final(store).eatings_uploads_v()
                    == old(store).eatings_uploads_v() + Seq::new(
                    images@.len(),
                    |q: int| crate::model::EatingsUploadV {
                        id: old(store).next_id as int + 1 + q,
                        eating_id: id as int,
                        upload_id: images@[q] as int,
                    },
                )
                &&& final(store).next_id as int
                    == old(store).next_id as int + 1 + images@.len()
                &&& final(store).users == old(store).users
                &&& final(store).locations == old(store).locations
                &&& final(store).uploads == old(store).uploads
                &&& final(store).comments == old(store).comments
                &&& final(store).rank_aggregations == old(store).rank_aggregations
                &&& final(store).playings == old(store).playings
            },
            Err(e) => {
                &&& *final(store) == *old(store)
                &&& (e == Error::NotFound || e == Error::StorageError)
            },
        },
        (r == Err::<i32, Error>(Error::NotFound)) <==> (
            !crate::store::has_user_id(old(store).users_v(), eating.discoverer as int)
            || !crate::domain::playing::images_exist(*old(store), images@)),
        (r == Err::<i32, Error>(Error::StorageError)) <==> (
            crate::store::has_user_id(old(store).users_v(), eating.discoverer as int)
            && crate::domain::playing::images_exist(*old(store), images@)
            && old(store).next_id as int + 1 + images@.len() > 0x7fff_ffff),
{
    match hydrate::find_keyed::<crate::model::User>(&store.users, eating.discoverer) {
        Some(_) => {
            proof {
                crate::store::lemma_first_user_is_member(
                    store.users_v(), eating.discoverer as int,
                );
            }
        },
        None => {
            proof {
                crate::store::lemma_no_first_no_member(
                    store.users_v(), eating.discoverer as int,
                );
            }
            return Err(Error::NotFound);
        },
    }
    let mut i: usize = 0;
    let mut missing = false;
    while !missing && i < images.len()
        invariant
            i <= images@.len(),
            forall|j: int| 0 <= j < i ==> crate::store::has_upload_id(
                store.uploads_v(), #[trigger] images@[j] as int,
            ),
            missing ==> i < images@.len() && !crate::store::has_upload_id(
                store.uploads_v(), images@[i as int] as int,
            ),
        decreases images@.len() - i + (if missing { 0int } else { 1int }),
    {
        match hydrate::find_keyed::<Upload>(&store.uploads, images[i]) {
            Some(_) => {
                proof {
                    crate::store::lemma_first_upload_is_member(
                        store.uploads_v(), images@[i as int] as int,
                    );
                }
                i = i + 1;
            },
            None => {
                proof {
                    crate::store::lemma_no_first_upload_no_member(
                        store.uploads_v(), images@[i as int] as int,
                    );
                }
                missing = true;
            },
        }
    }
    if missing {
        return Err(Error::NotFound);
    }
    let headroom = (i32::MAX - store.next_id) as usize;
    if headroom < 1 || images.len() > headroom - 1 {
        return Err(Error::StorageError);
    }
    let ghost base = store.next_id as int;
    let id = match store.alloc_id() {
        Ok(id) => id,
        Err(_) => {
            proof {
                assert(false);
            }
            return Err(Error::StorageError);
        },
    };
    let ghost old_e = store.eatings_v();
    let row = Eating {
        id,
        name: eating.name,
        latitude: eating.latitude,
        longitude: eating.longitude,
        discoverer: eating.discoverer,
        create_on: now,
        update_on: now,
    };
    let ghost rowv = row@;
    store.eatings.push(row);
    proof {
        assert(store.eatings_v() =~= old_e.push(rowv));
        assert(store.users_v() == old(store).users_v());
        assert(store.locations_v() == old(store).locations_v());
        assert(store.uploads_v() == old(store).uploads_v());
        assert(store.location_upload_rels_v() == old(store).location_upload_rels_v());
        assert(store.equipments_v() == old(store).equipments_v());
        assert(store.comments_v() == old(store).comments_v());
        assert(store.rank_aggregations_v() == old(store).rank_aggregations_v());
        assert(store.memories_v() == old(store).memories_v());
        assert(store.memory_upload_rels_v() == old(store).memory_upload_rels_v());
        assert(store.playings_v() == old(store).playings_v());
        assert(store.playings_uploads_v() == old(store).playings_uploads_v());
        assert(store.eatings_uploads_v() == old(store).eatings_uploads_v());
        assert forall|k: int| 0 <= k < store.eatings_v().len() implies geo::point_in_range(
            (#[trigger] store.eatings_v()[k]).latitude, store.eatings_v()[k].longitude,
        ) && crate::store::has_user_id(
            store.users_v(), store.eatings_v()[k].discoverer,
        ) by {
            if k < old_e.len() {
                assert(store.eatings_v()[k] == old_e[k]);
                assert(old(store).eatings_v()[k] == old_e[k]);
            } else {
                assert(store.eatings_v()[k] == rowv);
            }
        }
        assert(store.next_ok());
        assert(store.comments_unique());
        assert(store.phones_unique());
        assert(store.coords_ok());
        assert(store.refs_ok());
        assert(store.aggs_ok());
    }
    let mut j: usize = 0;
    while j < images.len()
        invariant
            old(store).wf(),
            store.wf(),
            j <= images@.len(),
            id as int == base,
            base == old(store).next_id as int,
            store.next_id as int == base + 1 + j,
            base + 1 + images@.len() <= 0x7fff_ffff,
            store.eatings_uploads_v() == old(store).eatings_uploads_v() + Seq::new(
                j as nat,
                |q: int| crate::model::EatingsUploadV {
                    id: base + 1 + q,
                    eating_id: id as int,
                    upload_id: images@[q] as int,
                },
            ),
            store.users == old(store).users,
            store.uploads == old(store).uploads,
            store.locations == old(store).locations,
            store.location_upload_rels == old(store).location_upload_rels,
            store.equipments == old(store).equipments,
            store.comments == old(store).comments,
            store.rank_aggregations == old(store).rank_aggregations,
            store.memories == old(store).memories,
            store.memory_upload_rels == old(store).memory_upload_rels,
            store.playings == old(store).playings,
            store.playings_uploads == old(store).playings_uploads,
            store.eatings_v() == old(store).eatings_v().push(
                EatingV {
                    id: id as int,
                    name: eating.name@,
                    latitude: eating.latitude as int,
                    longitude: eating.longitude as int,
                    discoverer: eating.discoverer as int,
                    create_on: now as int,
                    update_on: now as int,
                },
            ),
            forall|q: int| 0 <= q < images@.len() ==> crate::store::has_upload_id(
                old(store).uploads_v(), #[trigger] images@[q] as int,
            ),
        decreases images@.len() - j,
    {
        let rel_id = match store.alloc_id() {
            Ok(rid) => rid,
            Err(_) => {
                proof {
                    assert(false);
                }
                return Err(Error::StorageError);
            },
        };
        let ghost old_rels = store.eatings_uploads_v();
        let rel = EatingsUpload { id: rel_id, eating_id: id, upload_id: images[j] };
        let ghost relv = rel@;
        store.eatings_uploads.push(rel);
        proof {
            assert(store.eatings_uploads_v() =~= old_rels.push(relv));
            assert(store.eatings_uploads_v() =~= old(store).eatings_uploads_v() + Seq::new(
                (j + 1) as nat,
                |q: int| crate::model::EatingsUploadV {
                    id: base + 1 + q,
                    eating_id: id as int,
                    upload_id: images@[q] as int,
                },
            ));
            assert(store.users_v() == old(store).users_v());
            assert(store.locations_v() == old(store).locations_v());
            assert(store.uploads_v() == old(store).uploads_v());
            assert(store.location_upload_rels_v() == old(store).location_upload_rels_v());
            assert(store.equipments_v() == old(store).equipments_v());
            assert(store.comments_v() == old(store).comments_v());
            assert(store.rank_aggregations_v() == old(store).rank_aggregations_v());
            assert(store.memories_v() == old(store).memories_v());
            assert(store.memory_upload_rels_v() == old(store).memory_upload_rels_v());
            assert(store.playings_v() == old(store).playings_v());
            assert(store.playings_uploads_v() == old(store).playings_uploads_v());
            assert forall|k: int| 0 <= k < store.eatings_v().len() implies geo::point_in_range(
                (#[trigger] store.eatings_v()[k]).latitude, store.eatings_v()[k].longitude,
            ) by {
                if k < old(store).eatings_v().len() {
                    assert(store.eatings_v()[k] == old(store).eatings_v()[k]);
                } else {
                    assert(store.eatings_v()[k] == (EatingV {
                        id: id as int,
                        name: eating.name@,
                        latitude: eating.latitude as int,
                        longitude: eating.longitude as int,
                        discoverer: eating.discoverer as int,
                        create_on: now as int,
                        update_on: now as int,
                    }));
                }
            }
            assert forall|k: int| 0 <= k < store.eatings_uploads_v().len()
                implies crate::store::has_upload_id(
                    store.uploads_v(), (#[trigger] store.eatings_uploads_v()[k]).upload_id,
                ) by {
                if k < old_rels.len() {
                    assert(store.eatings_uploads_v()[k] == old_rels[k]);
                } else {
                    assert(store.eatings_uploads_v()[k] == relv);
                    assert(relv.upload_id == images@[j as int] as int);
                }
            }
            assert(1 <= store.next_id as int <= 0x7fff_ffff);
            assert(store.lens_ok());
            assert forall|k: int| 0 <= k < store.locations_v().len()
                implies (#[trigger] store.locations_v()[k]).id < store.next_id as int by {
                assert(store.locations_v()[k] == old(store).locations_v()[k]);
            }
            assert forall|k: int| 0 <= k < store.comments_v().len()
                implies (#[trigger] store.comments_v()[k]).location < store.next_id as int by {
                assert(store.comments_v()[k] == old(store).comments_v()[k]);
            }
            assert forall|k: int| 0 <= k < store.rank_aggregations_v().len()
                implies (#[trigger] store.rank_aggregations_v()[k]).location_id
                    < store.next_id as int by {
                assert(store.rank_aggregations_v()[k] == old(store).rank_aggregations_v()[k]);
            }
            assert(store.next_ok());
            assert(store.comments_unique());
            assert(store.phones_unique());
            assert(store.coords_ok());
            assert(store.refs_ok());
            assert(store.aggs_ok());
        }
        j = j + 1;
    }
    Ok(id)
}

/// Attaches a photo set to an eating after the fact: one relation row
/// per upload id, appended with consecutive fresh ids. `NotFound`
/// exactly when some upload id does not exist; `StorageError` when the
/// id space cannot seat them; nothing changes on failure.
pub fn insert_eating_uploads(store: &mut Store, eating_id: i32, upload_ids: &Vec<i32>) -> (r:
    Result<usize, Error>)
    requires
        old(store).wf(),
    ensures
        final(store).wf(),
        match r {
            Ok(n) => {
                &&& n == upload_ids@.len()
                &&& final(store).eatings_uploads_v()
                    == old(store).eatings_uploads_v() + Seq::new(
                    upload_ids@.len(),
                    |q: int| crate::model::EatingsUploadV {
                        id: old(store).next_id as int + q,
                        eating_id: eating_id as int,
                        upload_id: upload_ids@[q] as int,
                    },
                )
                &&& final(store).next_id as int
                    == old(store).next_id as int + upload_ids@.len()
                &&& final(store).eatings == old(store).eatings
                &&& final(store).uploads == old(store).uploads
                &&& final(store).comments == old(store).comments
                &&& final(store).rank_aggregations == old(store).rank_aggregations
            },
            Err(e) => {
                &&& *final(store) == *old(store)
                &&& (e == Error::NotFound || e == Error::StorageError)
            },
        },
{
    let mut i: usize = 0;
    let mut missing = false;
    while !missing && i < upload_ids.len()
        invariant
            i <= upload_ids@.len(),
            forall|j: int| 0 <= j < i ==> crate::store::has_upload_id(
                store.uploads_v(), #[trigger] upload_ids@[j] as int,
            ),
            missing ==> i < upload_ids@.len(),
        decreases upload_ids@.len() - i + (if missing { 0int } else { 1int }),
    {
        match hydrate::find_keyed::<Upload>(&store.uploads, upload_ids[i]) {
            Some(_) => {
                proof {
                    crate::store::lemma_first_upload_is_member(
                        store.uploads_v(), upload_ids@[i as int] as int,
                    );
                }
                i = i + 1;
            },
            None => {
                missing = true;
            },
        }
    }
    if missing {
        return Err(Error::NotFound);
    }
    if upload_ids.len() > (i32::MAX - store.next_id) as usize {
        return Err(Error::StorageError);
    }
    let ghost base = store.next_id as int;
    let mut j: usize = 0;
    while j < upload_ids.len()
        invariant
            old(store).wf(),
            store.wf(),
            j <= upload_ids@.len(),
            base == old(store).next_id as int,
            store.next_id as int == base + j,
            base + upload_ids@.len() <= 0x7fff_ffff,
            store.eatings_uploads_v() == old(store).eatings_uploads_v() + Seq::new(
                j as nat,
                |q: int| crate::model::EatingsUploadV {
                    id: base + q,
                    eating_id: eating_id as int,
                    upload_id: upload_ids@[q] as int,
                },
            ),
            store.users == old(store).users,
            store.uploads == old(store).uploads,
            store.locations == old(store).locations,
            store.location_upload_rels == old(store).location_upload_rels,
            store.equipments == old(store).equipments,
            store.comments == old(store).comments,
            store.rank_aggregations == old(store).rank_aggregations,
            store.memories == old(store).memories,
            store.memory_upload_rels == old(store).memory_upload_rels,
            store.playings == old(store).playings,
            store.playings_uploads == old(store).playings_uploads,
            store.eatings == old(store).eatings,
            forall|q: int| 0 <= q < upload_ids@.len() ==> crate::store::has_upload_id(
                old(store).uploads_v(), #[trigger] upload_ids@[q] as int,
            ),
        decreases upload_ids@.len() - j,
    {
        let rel_id = match store.alloc_id() {
            Ok(rid) => rid,
            Err(_) => {
                proof {
                    assert(false);
                }
                return Err(Error::StorageError);
            },
        };
        let ghost old_rels = store.eatings_uploads_v();
        let rel = EatingsUpload { id: rel_id, eating_id, upload_id: upload_ids[j] };
        let ghost relv = rel@;
        store.eatings_uploads.push(rel);
        proof {
            assert(store.eatings_uploads_v() =~= old_rels.push(relv));
            assert(store.eatings_uploads_v() =~= old(store).eatings_uploads_v() + Seq::new(
                (j + 1) as nat,
                |q: int| crate::model::EatingsUploadV {
                    id: base + q,
                    eating_id: eating_id as int,
                    upload_id: upload_ids@[q] as int,
                },
            ));
            assert(store.users_v() == old(store).users_v());
            assert(store.locations_v() == old(store).locations_v());
            assert(store.uploads_v() == old(store).uploads_v());
            assert(store.location_upload_rels_v() == old(store).location_upload_rels_v());
            assert(store.equipments_v() == old(store).equipments_v());
            assert(store.comments_v() == old(store).comments_v());
            assert(store.rank_aggregations_v() == old(store).rank_aggregations_v());
            assert(store.memories_v() == old(store).memories_v());
            assert(store.memory_upload_rels_v() == old(store).memory_upload_rels_v());
            assert(store.playings_v() == old(store).playings_v());
            assert(store.playings_uploads_v() == old(store).playings_uploads_v());
            assert(store.eatings_v() == old(store).eatings_v());
            assert forall|k: int| 0 <= k < store.eatings_uploads_v().len()
                implies crate::store::has_upload_id(
                    store.uploads_v(), (#[trigger] store.eatings_uploads_v()[k]).upload_id,
                ) by {
                if k < old_rels.len() {
                    assert(store.eatings_uploads_v()[k] == old_rels[k]);
                } else {
                    assert(store.eatings_uploads_v()[k] == relv);
                    assert(relv.upload_id == upload_ids@[j as int] as int);
                }
            }
            assert(1 <= store.next_id as int <= 0x7fff_ffff);
            assert(store.lens_ok());
            assert forall|k: int| 0 <= k < store.locations_v().len()
                implies (#[trigger] store.locations_v()[k]).id < store.next_id as int by {
                assert(store.locations_v()[k] == old(store).locations_v()[k]);
            }
            assert forall|k: int| 0 <= k < store.comments_v().len()
                implies (#[trigger] store.comments_v()[k]).location < store.next_id as int by {
                assert(store.comments_v()[k] == old(store).comments_v()[k]);
            }
            assert forall|k: int| 0 <= k < store.rank_aggregations_v().len()
                implies (#[trigger] store.rank_aggregations_v()[k]).location_id
                    < store.next_id as int by {
                assert(store.rank_aggregations_v()[k] == old(store).rank_aggregations_v()[k]);
            }
            assert(store.next_ok());
            assert(store.comments_unique());
            assert(store.phones_unique());
            assert(store.coords_ok());
            assert(store.refs_ok());
            assert(store.aggs_ok());
        }
        j = j + 1;
    }
    Ok(upload_ids.len())
}

} // verus!
