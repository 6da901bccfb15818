//! The playing variant of the nearby listing and its creation flow:
//! page-and-size pagination, hydration with discoverers and photo sets,
//! and an ownership check on every photo attached at creation.

use vstd::prelude::*;

use crate::engine;
use crate::engine::{views_of, Filter, OrderBy};
use crate::errors::Error;
use crate::geo;
use crate::geo::Point;
use crate::hydrate;
use crate::model::{Playing, PlayingsUpload, PlayingV, Upload, User};
use crate::store::Store;

verus! {

/// The caller-supplied fields of a new playing.
pub struct Creation {
    pub name: String,
    pub latitude: i64,
    pub longitude: i64,
    pub discoverer: i32,
    pub images: Vec<i32>,
}

/// The engine filter of a playing listing: a radius around the caller's
/// point, nothing else.
pub open spec fn playing_filter(latitude: int, longitude: int, radius: int) -> engine::FilterV {
    engine::FilterV {
        name: None,
        category: None,
        owner: None,
        create_after: None,
        create_before: None,
        clat: latitude,
        clon: longitude,
        radius: radius,
    }
}

/// The offset a one-based page number stands for: pages before the
/// first read as the first.
pub open spec fn page_offset(page: int, size: int) -> int {
    (page - 1) * size
}

/// The playings table presented as engine rows.
proof fn lemma_playings_in_range(s: &Store)
    requires
        s.coords_ok(),
    ensures
        engine::rows_in_range::<Playing>(views_of(s.playings@)),
{
    assert forall|k: int| 0 <= k < views_of(s.playings@).len()
        implies geo::point_in_range(
            <Playing as engine::GeoRow>::vlat(#[trigger] views_of(s.playings@)[k]),
            <Playing as engine::GeoRow>::vlon(views_of(s.playings@)[k]),
        ) by {
        assert(s.playings_v()[k] == views_of(s.playings@)[k]);
    }
}

/// The nearby playing listing: one page of playings ordered by distance,
/// each hydrated with its discoverer, photo set and distance, plus the
/// radius-wide total. The page number is one-based. Every stored
/// playing's discoverer resolves under the invariant, so the listing
/// always answers.
pub fn nearby_playings(
    store: &Store, latitude: i64, longitude: i64, distance: u64, page: i64, size: i64,
) -> (r: Result<(Vec<(Playing, User, Vec<Upload>, u64)>, i64), Error>)
    requires
        store.wf(),
        geo::point_in_range(latitude as int, longitude as int),
        1 <= page,
        0 <= size,
        page as int * size as int <= 0x7fff_ffff_ffff_ffff,
    ensures
        match r {
            Ok(p) => {
                let pg = engine::page_spec::<Playing>(
                    store.playings_v(),
                    playing_filter(latitude as int, longitude as int, distance as int),
                    OrderBy::DistanceAsc, size as int,
                    page_offset(page as int, size as int),
                );
                &&& p.0@.len() == pg.len()
                &&& forall|k: int| 0 <= k < pg.len() ==> {
                    &&& (#[trigger] p.0@[k]).0@ == pg[k]
                    &&& hydrate::first_keyed::<User>(store.users_v(), pg[k].discoverer)
                        == Some(p.0@[k].1@)
                    &&& views_of(p.0@[k].2@) == hydrate::linked_of::<PlayingsUpload>(
                        store.playings_uploads_v(), store.uploads_v(), pg[k].id,
                    )
                    &&& p.0@[k].3 as int == geo::dist_sq(
                        pg[k].latitude, pg[k].longitude, latitude as int, longitude as int,
                    )
                }
                &&& p.1 as int == engine::total_spec::<Playing>(
                    store.playings_v(),
                    playing_filter(latitude as int, longitude as int, distance as int),
                )
            },
            Err(_) => false,
        },
{
    let f = Filter {
        name: None,
        category: None,
        owner: None,
        create_after: None,
        create_before: None,
        center: Point { lat: latitude, lon: longitude },
        radius: distance,
    };
    proof {
        assert(f@ == playing_filter(latitude as int, longitude as int, distance as int));
        lemma_playings_in_range(store);
    }
    proof {
        assert(0 <= (page as int - 1) * size as int
            && (page as int - 1) * size as int <= page as int * size as int)
            by (nonlinear_arith)
            requires 1 <= page as int && 0 <= size as int;
    }
    let offset: i64 = ((page as i128 - 1) * size as i128) as i64;
    let (pagev, dists, total) = engine::run_query(&store.playings, &f, OrderBy::DistanceAsc, size, offset);
    let mut users: Vec<User> = Vec::new();
    let ghost pg = views_of(pagev@);
    let mut i: usize = 0;
    while i < pagev.len()
        invariant
            store.wf(),
            i <= pagev@.len(),
            pg == views_of(pagev@),
            pg == engine::page_spec::<Playing>(
                store.playings_v(), f@, OrderBy::DistanceAsc, size as int, offset as int,
            ),
            users@.len() == i,
            forall|k: int| 0 <= k < i ==> hydrate::first_keyed::<User>(
                store.users_v(), (#[trigger] pg[k]).discoverer,
            ) == Some(views_of(users@)[k]),
        decreases pagev@.len() - i,
    {
        proof {
            assert(pg[i as int] == pagev@[i as int]@);
        }
        match hydrate::find_keyed::<User>(&store.users, pagev[i].discoverer) {
            Some(u) => {
                let ghost uv = u@;
                let ghost old_out = users@;
                users.push(u);
                proof {
                    assert(views_of(users@) =~= views_of(old_out).push(uv));
                    assert(forall|k: int| 0 <= k < old_out.len()
                        ==> views_of(users@)[k] == views_of(old_out)[k]);
                }
            },
            None => {
                proof {
                    engine::lemma_page_members::<Playing>(
                        store.playings_v(), f@, OrderBy::DistanceAsc, size as int,
                        offset as int,
                    );
                    let j = choose|j: int| 0 <= j < store.playings_v().len()
                        && #[trigger] store.playings_v()[j] == pg[i as int];
                    crate::store::lemma_no_first_no_member(
                        store.users_v(), pg[i as int].discoverer,
                    );
                    assert(false);
                }
                return Err(Error::NotFound);
            },
        }
        i = i + 1;
    }
    let mut ids: Vec<i32> = Vec::new();
    let mut k2: usize = 0;
    while k2 < pagev.len()
        invariant
            k2 <= pagev@.len(),
            pg == views_of(pagev@),
            ids@.len() == k2,
            forall|k: int| 0 <= k < k2 ==> #[trigger] ids@[k] as int == pg[k].id,
        decreases pagev@.len() - k2,
    {
        proof {
            assert(pg[k2 as int] == pagev@[k2 as int]@);
        }
        ids.push(pagev[k2].id);
        k2 = k2 + 1;
    }
    let groups = hydrate::group_linked::<PlayingsUpload>(
        &ids, &store.playings_uploads, &store.uploads,
    );
    let mut pagev = pagev;
    let mut users = users;
    let mut groups = groups;
    let mut dists = dists;
    let ghost users0 = views_of(users@);
    let ghost groups0 = groups@;
    let ghost dists0 = dists@;
    let mut out: Vec<(Playing, User, Vec<Upload>, u64)> = Vec::new();
    let mut k: usize = 0;
    let n = pagev.len();
    while k < n
        invariant
            store.wf(),
            n == pg.len(),
            k <= n,
            pagev@.len() == n - k,
            users@.len() == n - k,
            groups@.len() == n - k,
            dists@.len() == n - k,
            forall|j: int| 0 <= j < n - k ==> (#[trigger] pagev@[j])@ == pg[k + j],
            forall|j: int| 0 <= j < n - k ==> (#[trigger] users@[j])@ == users0[k + j],
            forall|j: int| 0 <= j < n - k ==> #[trigger] groups@[j]@ == groups0[k + j]@,
            forall|j: int| 0 <= j < n - k ==> #[trigger] dists@[j] == dists0[k + j],
            out@.len() == k,
            forall|j: int| 0 <= j < n ==> hydrate::first_keyed::<User>(
                store.users_v(), (#[trigger] pg[j]).discoverer,
            ) == Some(users0[j]),
            forall|j: int| 0 <= j < n ==> views_of(#[trigger] groups0[j]@)
                == hydrate::linked_of::<PlayingsUpload>(
                store.playings_uploads_v(), store.uploads_v(), pg[j].id,
            ),
            forall|j: int| 0 <= j < n ==> #[trigger] dists0[j] as int == geo::dist_sq(
                pg[j].latitude, pg[j].longitude, latitude as int, longitude as int,
            ),
            forall|j: int| 0 <= j < k ==> {
                &&& (#[trigger] out@[j]).0@ == pg[j]
                &&& hydrate::first_keyed::<User>(store.users_v(), pg[j].discoverer)
                    == Some(out@[j].1@)
                &&& views_of(out@[j].2@) == hydrate::linked_of::<PlayingsUpload>(
                    store.playings_uploads_v(), store.uploads_v(), pg[j].id,
                )
                &&& out@[j].3 as int == geo::dist_sq(
                    pg[j].latitude, pg[j].longitude, latitude as int, longitude as int,
                )
            },
        decreases n - k,
    {
        let p = pagev.remove(0);
        let u = users.remove(0);
        let g = groups.remove(0);
        let d = dists.remove(0);
        let ghost old_out = out@;
        out.push((p, u, g, d));
        proof {
            assert(forall|j: int| 0 <= j < old_out.len() ==> out@[j] == old_out[j]);
            assert(out@[k as int].0@ == pg[k as int]);
        }
        k = k + 1;
    }
    Ok((out, total))
}

/// Whether every photo id resolves to a stored upload.
pub open spec fn images_exist(s: Store, images: Seq<i32>) -> bool {
    forall|j: int| 0 <= j < images.len()
        ==> crate::store::has_upload_id(s.uploads_v(), #[trigger] images[j] as int)
}

/// Whether every photo's stored row belongs to the given owner.
pub open spec fn images_owned(s: Store, images: Seq<i32>, owner: int) -> bool {
    forall|j: int| 0 <= j < images.len()
        ==> match hydrate::first_keyed::<Upload>(s.uploads_v(), #[trigger] images[j] as int) {
            Some(u) => u.owner == owner,
            None => true,
        }
}

/// Creates a playing with its photo set, all or nothing. `NotFound`
/// exactly when the discoverer or some photo does not exist;
/// `PermissionDenied` exactly when everything exists but some photo
/// belongs to someone else; `StorageError` exactly when the id space
/// cannot seat the playing and its relation rows; otherwise the fresh
/// playing id is owed. Nothing changes on failure.
pub fn create_playing(store: &mut Store, playing: Creation, now: i64) -> (r: Result<i32, Error>)
    requires
        old(store).wf(),
        geo::point_in_range(playing.latitude as int, playing.longitude as int),
    ensures
        final(store).wf(),
        match r {
            Ok(id) => {
                &&& id as int == old(store).next_id as int
                &&& final(store).playings_v() == old(store).playings_v().push(
                    PlayingV {
                        id: id as int,
                        name: playing.name@,
                        latitude: playing.latitude as int,
                        longitude: playing.longitude as int,
                        discoverer: playing.discoverer as int,
                        create_on: now as int,
                        update_on: now as int,
                    },
                )
                &&& final(store).playings_uploads_v()
                    == old(store).playings_uploads_v() + Seq::new(
                    playing.images@.len(),
                    |q: int| crate::model::PlayingsUploadV {
                        id: old(store).next_id as int + 1 + q,
                        playing_id: id as int,
                        upload_id: playing.images@[q] as int,
                    },
                )
                &&& final(store).next_id as int
                    == old(store).next_id as int + 1 + playing.images@.len()
                &&& final(store).users == old(store).users
                &&& final(store).locations == old(store).locations
                &&& final(store).uploads == old(store).uploads
                &&& final(store).comments == old(store).comments
                &&& final(store).rank_aggregations == old(store).rank_aggregations
                &&& final(store).eatings == old(store).eatings
            },
            Err(e) => {
                &&& *final(store) == *old(store)
                &&& (e == Error::NotFound || e == Error::PermissionDenied
                    || e == Error::StorageError)
            },
        },
        (r == Err::<i32, Error>(Error::NotFound)) <==> (
            !crate::store::has_user_id(old(store).users_v(), playing.discoverer as int)
            || !images_exist(*old(store), playing.images@)),
        (r == Err::<i32, Error>(Error::PermissionDenied)) <==> (
            crate::store::has_user_id(old(store).users_v(), playing.discoverer as int)
            && images_exist(*old(store), playing.images@)
            && !images_owned(*old(store), playing.images@, playing.discoverer as int)),
        (r == Err::<i32, Error>(Error::StorageError)) <==> (
            crate::store::has_user_id(old(store).users_v(), playing.discoverer as int)
            && images_exist(*old(store), playing.images@)
            && images_owned(*old(store), playing.images@, playing.discoverer as int)
            && old(store).next_id as int + 1 + playing.images@.len() > 0x7fff_ffff),
{
    match hydrate::find_keyed::<crate::model::User>(&store.users, playing.discoverer) {
        Some(_) => {
            proof {
                crate::store::lemma_first_user_is_member(
                    store.users_v(), playing.discoverer as int,
                );
            }
        },
        None => {
            proof {
                crate::store::lemma_no_first_no_member(
                    store.users_v(), playing.discoverer as int,
                );
            }
            return Err(Error::NotFound);
        },
    }
    let mut i: usize = 0;
    let mut missing = false;
    while !missing && i < playing.images.len()
        invariant
            i <= playing.images@.len(),
            forall|j: int| 0 <= j < i ==> crate::store::has_upload_id(
                store.uploads_v(), #[trigger] playing.images@[j] as int,
            ),
            missing ==> i < playing.images@.len() && !crate::store::has_upload_id(
                store.uploads_v(), playing.images@[i as int] as int,
            ),
        decreases playing.images@.len() - i + (if missing { 0int } else { 1int }),
    {
        match hydrate::find_keyed::<Upload>(&store.uploads, playing.images[i]) {
            Some(_) => {
                proof {
                    crate::store::lemma_first_upload_is_member(
                        store.uploads_v(), playing.images@[i as int] as int,
                    );
                }
                i = i + 1;
            },
            None => {
                proof {
                    crate::store::lemma_no_first_upload_no_member(
                        store.uploads_v(), playing.images@[i as int] as int,
                    );
                }
                missing = true;
            },
        }
    }
    if missing {
        return Err(Error::NotFound);
    }
    let mut k0: usize = 0;
    let mut foreign = false;
    while !foreign && k0 < playing.images.len()
        invariant
            k0 <= playing.images@.len(),
            images_exist(*store, playing.images@),
            forall|j: int| 0 <= j < k0 ==> match hydrate::first_keyed::<Upload>(
                store.uploads_v(), #[trigger] playing.images@[j] as int,
            ) {
                Some(u) => u.owner == playing.discoverer as int,
                None => true,
            },
            foreign ==> k0 < playing.images@.len() && match hydrate::first_keyed::<Upload>(
                store.uploads_v(), playing.images@[k0 as int] as int,
            ) {
                Some(u) => u.owner != playing.discoverer as int,
                None => false,
            },
        decreases playing.images@.len() - k0 + (if foreign { 0int } else { 1int }),
    {
        match hydrate::find_keyed::<Upload>(&store.uploads, playing.images[k0]) {
            Some(u) => {
                if u.owner != playing.discoverer {
                    foreign = true;
                } else {
                    k0 = k0 + 1;
                }
            },
            None => {
                proof {
                    crate::store::lemma_no_first_upload_no_member(
                        store.uploads_v(), playing.images@[k0 as int] as int,
                    );
                    assert(false);
                }
            },
        }
    }
    if foreign {
        return Err(Error::PermissionDenied);
    }
    let headroom = (i32::MAX - store.next_id) as usize;
    if headroom < 1 || playing.images.len() > headroom - 1 {
        return Err(Error::StorageError);
    }
    let ghost base = store.next_id as int;
    let id = match store.alloc_id() {
        Ok(id) => id,
        Err(_) => {
            proof {
                assert(false);
            }
            return Err(Error::StorageError);
        },
    };
    let ghost old_p = store.playings_v();
    let row = Playing {
        id,
        name: playing.name,
        latitude: playing.latitude,
        longitude: playing.longitude,
        discoverer: playing.discoverer,
        create_on: now,
        update_on: now,
    };
    let ghost rowv = row@;
    store.playings.push(row);
    proof {
        assert(store.playings_v() =~= old_p.push(rowv));
        assert(store.users_v() == old(store).users_v());
        assert(store.locations_v() == old(store).locations_v());
        assert(store.uploads_v() == old(store).uploads_v());
        assert(store.location_upload_rels_v() == old(store).location_upload_rels_v());
        assert(store.equipments_v() == old(store).equipments_v());
        assert(store.comments_v() == old(store).comments_v());
        assert(store.rank_aggregations_v() == old(store).rank_aggregations_v());
        assert(store.memories_v() == old(store).memories_v());
        assert(store.memory_upload_rels_v() == old(store).memory_upload_rels_v());
        assert(store.eatings_v() == old(store).eatings_v());
        assert(store.playings_uploads_v() == old(store).playings_uploads_v());
        assert(store.eatings_uploads_v() == old(store).eatings_uploads_v());
        assert forall|k: int| 0 <= k < store.playings_v().len() implies geo::point_in_range(
            (#[trigger] store.playings_v()[k]).latitude, store.playings_v()[k].longitude,
        ) && crate::store::has_user_id(
            store.users_v(), store.playings_v()[k].discoverer,
        ) by {
            if k < old_p.len() {
                assert(store.playings_v()[k] == old_p[k]);
                assert(old(store).playings_v()[k] == old_p[k]);
            } else {
                assert(store.playings_v()[k] == rowv);
            }
        }
        assert(store.next_ok());
        assert(store.comments_unique());
        assert(store.phones_unique());
        assert(store.coords_ok());
        assert(store.refs_ok());
        assert(store.aggs_ok());
    }
    let mut j: usize = 0;
    while j < playing.images.len()
        invariant
            old(store).wf(),
            store.wf(),
            j <= playing.images@.len(),
            id as int == base,
            base == old(store).next_id as int,
            store.next_id as int == base + 1 + j,
            base + 1 + playing.images@.len() <= 0x7fff_ffff,
            store.playings_uploads_v() == old(store).playings_uploads_v() + Seq::new(
                j as nat,
                |q: int| crate::model::PlayingsUploadV {
                    id: base + 1 + q,
                    playing_id: id as int,
                    upload_id: playing.images@[q] as int,
                },
            ),
            store.users == old(store).users,
            store.uploads == old(store).uploads,
            store.locations == old(store).locations,
            store.location_upload_rels == old(store).location_upload_rels,
            store.equipments == old(store).equipments,
            store.comments == old(store).comments,
            store.rank_aggregations == old(store).rank_aggregations,
            store.memories == old(store).memories,
            store.memory_upload_rels == old(store).memory_upload_rels,
            store.eatings == old(store).eatings,
            store.eatings_uploads == old(store).eatings_uploads,
            store.playings_v() == old(store).playings_v().push(
                PlayingV {
                    id: id as int,
                    name: playing.name@,
                    latitude: playing.latitude as int,
                    longitude: playing.longitude as int,
                    discoverer: playing.discoverer as int,
                    create_on: now as int,
                    update_on: now as int,
                },
            ),
            forall|q: int| 0 <= q < playing.images@.len() ==> crate::store::has_upload_id(
                old(store).uploads_v(), #[trigger] playing.images@[q] as int,
            ),
        decreases playing.images@.len() - j,
    {
        let rel_id = match store.alloc_id() {
            Ok(rid) => rid,
            Err(_) => {
                proof {
                    assert(false);
                }
                return Err(Error::StorageError);
            },
        };
        let ghost old_rels = store.playings_uploads_v();
        let rel = PlayingsUpload { id: rel_id, playing_id: id, upload_id: playing.images[j] };
        let ghost relv = rel@;
        store.playings_uploads.push(rel);
        proof {
            assert(store.playings_uploads_v() =~= old_rels.push(relv));
            assert(store.playings_uploads_v() =~= old(store).playings_uploads_v() + Seq::new(
                (j + 1) as nat,
                |q: int| crate::model::PlayingsUploadV {
                    id: base + 1 + q,
                    playing_id: id as int,
                    upload_id: playing.images@[q] as int,
                },
            ));
            assert(store.users_v() == old(store).users_v());
            assert(store.locations_v() == old(store).locations_v());
            assert(store.uploads_v() == old(store).uploads_v());
            assert(store.location_upload_rels_v() == old(store).location_upload_rels_v());
            assert(store.equipments_v() == old(store).equipments_v());
            assert(store.comments_v() == old(store).comments_v());
            assert(store.rank_aggregations_v() == old(store).rank_aggregations_v());
            assert(store.memories_v() == old(store).memories_v());
            assert(store.memory_upload_rels_v() == old(store).memory_upload_rels_v());
            assert(store.eatings_v() == old(store).eatings_v());
            assert(store.eatings_uploads_v() == old(store).eatings_uploads_v());
            assert(old(store).wf());
            assert forall|k: int| 0 <= k < store.playings_v().len() implies geo::point_in_range(
                (#[trigger] store.playings_v()[k]).latitude, store.playings_v()[k].longitude,
            ) by {
                if k < old(store).playings_v().len() {
                    assert(store.playings_v()[k] == old(store).playings_v()[k]);
                } else {
                    assert(store.playings_v()[k] == (PlayingV {
                        id: id as int,
                        name: playing.name@,
                        latitude: playing.latitude as int,
                        longitude: playing.longitude as int,
                        discoverer: playing.discoverer as int,
                        create_on: now as int,
                        update_on: now as int,
                    }));
                }
            }
            assert forall|k: int| 0 <= k < store.playings_uploads_v().len()
                implies crate::store::has_upload_id(
                    store.uploads_v(), (#[trigger] store.playings_uploads_v()[k]).upload_id,
                ) by {
                if k < old_rels.len() {
                    assert(store.playings_uploads_v()[k] == old_rels[k]);
                } else {
                    assert(store.playings_uploads_v()[k] == relv);
                    assert(relv.upload_id == playing.images@[j as int] as int);
                }
            }
            assert(1 <= store.next_id as int <= 0x7fff_ffff);
            assert(store.lens_ok());
            assert forall|k: int| 0 <= k < store.locations_v().len()
                implies (#[trigger] store.locations_v()[k]).id < store.next_id as int by {
                assert(store.locations_v()[k] == old(store).locations_v()[k]);
            }
            assert forall|k: int| 0 <= k < store.comments_v().len()
                implies (#[trigger] store.comments_v()[k]).location < store.next_id as int by {
                assert(store.comments_v()[k] == old(store).comments_v()[k]);
            }
            assert forall|k: int| 0 <= k < store.rank_aggregations_v().len()
                implies (#[trigger] store.rank_aggregations_v()[k]).location_id
                    < store.next_id as int by {
                assert(store.rank_aggregations_v()[k] == old(store).rank_aggregations_v()[k]);
            }
            assert(store.next_ok());
            assert(store.comments_unique());
            assert(store.phones_unique());
            assert(store.coords_ok());
            assert(store.refs_ok());
            assert(store.aggs_ok());
        }
        j = j + 1;
    }
    Ok(id)
}

} // verus!
