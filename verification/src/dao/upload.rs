//! Upload reads and writes: creation, listing through the location
//! relation, id-set resolution, and the relation rows that attach
//! uploads to playings and eatings.

use vstd::prelude::*;

use crate::engine;
use crate::engine::views_of;
use crate::errors::Error;
use crate::hydrate;
use crate::hydrate::Keyed;
use crate::model::{
    Eating, EatingsUpload, Location, LocationUploadRel, Upload, UploadV,
};
use crate::store::Store;

verus! {

/// The caller-supplied fields of one location-to-upload relation row.
pub struct LocationUploadRelInsertion {
    pub location_id: i32,
    pub upload_id: i32,
}

/// Inserts one relation row tying a location to an upload. `NotFound`
/// exactly when the upload does not exist; `StorageError` when the id
/// space is spent; nothing changes on failure.
pub fn insert_location_upload_rel(store: &mut Store, ins: LocationUploadRelInsertion) -> (r:
    Result<i32, Error>)
    requires
        old(store).wf(),
    ensures
        final(store).wf(),
        match r {
            Ok(id) => {
                &&& id as int == old(store).next_id as int
                &&& final(store).location_upload_rels_v()
                    == old(store).location_upload_rels_v().push(
                    crate::model::LocationUploadRelV {
                        id: id as int,
                        location_id: ins.location_id as int,
                        upload_id: ins.upload_id as int,
                    },
                )
                &&& final(store).next_id as int == old(store).next_id as int + 1
                &&& final(store).users == old(store).users
                &&& final(store).locations == old(store).locations
                &&& final(store).uploads == old(store).uploads
                &&& final(store).equipments == old(store).equipments
                &&& final(store).comments == old(store).comments
                &&& final(store).rank_aggregations == old(store).rank_aggregations
                &&& final(store).memories == old(store).memories
                &&& final(store).playings == old(store).playings
                &&& final(store).eatings == old(store).eatings
            },
            Err(e) => {
                &&& *final(store) == *old(store)
                &&& (e == Error::NotFound || e == Error::StorageError)
                &&& (e == Error::NotFound <==> !crate::store::has_upload_id(
                    old(store).uploads_v(), ins.upload_id as int,
                ))
                &&& (e == Error::StorageError ==> old(store).next_id as int == 0x7fff_ffff)
            },
        },
{
    match hydrate::find_keyed::<Upload>(&store.uploads, ins.upload_id) {
        Some(_) => {
            proof {
                crate::store::lemma_first_upload_is_member(
                    store.uploads_v(), ins.upload_id as int,
                );
            }
        },
        None => {
            proof {
                crate::store::lemma_no_first_upload_no_member(
                    store.uploads_v(), ins.upload_id as int,
                );
            }
            return Err(Error::NotFound);
        },
    }
    let id = match store.alloc_id() {
        Ok(id) => id,
        Err(e) => {
            return Err(e);
        },
    };
    let ghost old_rels = store.location_upload_rels_v();
    let row = LocationUploadRel { id, location_id: ins.location_id, upload_id: ins.upload_id };
    let ghost rowv = row@;
    store.location_upload_rels.push(row);
    proof {
        assert(store.location_upload_rels_v() =~= old_rels.push(rowv));
        assert(store.users_v() == old(store).users_v());
        assert(store.locations_v() == old(store).locations_v());
        assert(store.uploads_v() == old(store).uploads_v());
        assert(store.equipments_v() == old(store).equipments_v());
        assert(store.comments_v() == old(store).comments_v());
        assert(store.rank_aggregations_v() == old(store).rank_aggregations_v());
        assert(store.memories_v() == old(store).memories_v());
        assert(store.memory_upload_rels_v() == old(store).memory_upload_rels_v());
        assert(store.playings_v() == old(store).playings_v());
        assert(store.eatings_v() == old(store).eatings_v());
        assert(store.playings_uploads_v() == old(store).playings_uploads_v());
        assert(store.eatings_uploads_v() == old(store).eatings_uploads_v());
        assert forall|k: int| 0 <= k < store.location_upload_rels_v().len()
            implies crate::store::has_upload_id(
                store.uploads_v(), (#[trigger] store.location_upload_rels_v()[k]).upload_id,
            ) by {
            if k < old_rels.len() {
                assert(store.location_upload_rels_v()[k] == old_rels[k]);
                assert(old(store).location_upload_rels_v()[k] == old_rels[k]);
            } else {
                assert(store.location_upload_rels_v()[k] == rowv);
            }
        }
        assert(store.next_ok());
        assert(store.comments_unique());
        assert(store.phones_unique());
        assert(store.coords_ok());
        assert(store.refs_ok());
        assert(store.aggs_ok());
    }
    Ok(id)
}

/// The filter and pagination of one upload listing.
pub struct Query {
    pub location: Option<i32>,
    pub fetch_code: Option<String>,
    pub limit: i64,
    pub offset: i64,
}

/// Whether an upload passes the fetch-code filter.
pub open spec fn code_ok(u: UploadV, code: Option<Seq<char>>) -> bool {
    match code {
        Some(c) => u.fetch_code == c,
        None => true,
    }
}

/// The uploads the listing walks: one entry per relation row whose
/// location passes the filter and whose upload resolves and passes the
/// fetch-code filter, in relation order.
pub open spec fn found_spec(
    rels: Seq<crate::model::LocationUploadRelV>, uploads: Seq<UploadV>, loc: Option<int>,
    code: Option<Seq<char>>,
) -> Seq<UploadV>
    decreases rels.len(),
{
    if rels.len() == 0 {
        Seq::<UploadV>::empty()
    } else {
        let rest = found_spec(rels.drop_last(), uploads, loc, code);
        let pass = match loc {
            Some(l) => rels.last().location_id == l,
            None => true,
        };
        if pass {
            match hydrate::first_upload(uploads, rels.last().upload_id) {
                Some(u) => if code_ok(u, code) {
                    rest.push(u)
                } else {
                    rest
                },
                None => rest,
            }
        } else {
            rest
        }
    }
}

pub open spec fn loc_of(q: Query) -> Option<int> {
    match q.location {
        Some(l) => Some(l as int),
        None => None,
    }
}

pub open spec fn code_of(q: Query) -> Option<Seq<char>> {
    match q.fetch_code {
        Some(c) => Some(c@),
        None => None,
    }
}

/// The upload listing: uploads joined through the location relation,
/// filtered by location and fetch code, in relation order, with the
/// usual pagination window, and the total counted against the same
/// filter. `ValidationError` exactly when no filter at all is given.
pub fn find(store: &Store, q: Query) -> (r: Result<(Vec<Upload>, i64), Error>)
    requires
        store.wf(),
    ensures
        match r {
            Ok(p) => {
                &&& q.location is Some || q.fetch_code is Some
                &&& views_of(p.0@) == {
                    let fs = found_spec(
                        store.location_upload_rels_v(), store.uploads_v(), loc_of(q), code_of(q),
                    );
                    let w = engine::page_window(q.limit as int, q.offset as int, fs.len() as int);
                    fs.subrange(w.0, w.1)
                }
                &&& p.1 as int == found_spec(
                    store.location_upload_rels_v(), store.uploads_v(), loc_of(q), code_of(q),
                ).len()
            },
            Err(e) => e == Error::ValidationError && q.location is None && q.fetch_code is None,
        },
{
    if matches!(q.location, None) && matches!(q.fetch_code, None) {
        return Err(Error::ValidationError);
    }
    let ghost rels_v = store.location_upload_rels_v();
    let mut found: Vec<Upload> = Vec::new();
    let mut i: usize = 0;
    proof {
        assert(views_of(store.location_upload_rels@.subrange(0, 0))
            =~= Seq::<crate::model::LocationUploadRelV>::empty());
        assert(views_of(found@) =~= Seq::<UploadV>::empty());
    }
    while i < store.location_upload_rels.len()
        invariant
            i <= store.location_upload_rels@.len(),
            views_of(found@) == found_spec(
                views_of(store.location_upload_rels@.subrange(0, i as int)),
                store.uploads_v(), loc_of(q), code_of(q),
            ),
        decreases store.location_upload_rels@.len() - i,
    {
        let ghost pre = store.location_upload_rels@.subrange(0, i as int);
        proof {
            assert(views_of(store.location_upload_rels@)[i as int]
                == store.location_upload_rels@[i as int]@);
            assert(store.location_upload_rels@.subrange(0, i as int + 1)
                =~= pre.push(store.location_upload_rels@[i as int]));
            assert(views_of(pre.push(store.location_upload_rels@[i as int]))
                =~= views_of(pre).push(store.location_upload_rels@[i as int]@));
            assert(views_of(pre.push(store.location_upload_rels@[i as int])).drop_last()
                =~= views_of(pre));
        }
        let rel = &store.location_upload_rels[i];
        let pass = match q.location {
            Some(l) => rel.location_id == l,
            None => true,
        };
        if pass {
            match hydrate::find_upload(&store.uploads, rel.upload_id) {
                Some(u) => {
                    let code_pass = match &q.fetch_code {
                        Some(c) => crate::text::str_eq(u.fetch_code.as_str(), c.as_str()),
                        None => true,
                    };
                    if code_pass {
                        let ghost uv = u@;
                        let ghost old_out = found@;
                        found.push(u);
                        proof {
                            assert(views_of(found@) =~= views_of(old_out).push(uv));
                        }
                    }
                },
                None => {},
            }
        }
        i = i + 1;
    }
    proof {
        assert(store.location_upload_rels@.subrange(
            0, store.location_upload_rels@.len() as int,
        ) =~= store.location_upload_rels@);
        lemma_found_len(rels_v, store.uploads_v(), loc_of(q), code_of(q));
    }
    let total: i64 = found.len() as i64;
    let ghost fs = views_of(found@);
    let mut page: Vec<Upload> = Vec::new();
    let lim: i64 = if q.limit > engine::MAX_PAGE_SIZE {
        engine::MAX_PAGE_SIZE
    } else {
        q.limit
    };
    if lim <= 0 {
        proof {
            assert(engine::page_window(q.limit as int, q.offset as int, total as int)
                == (0int, 0int));
            assert(views_of(page@) =~= fs.subrange(0, 0));
        }
        return Ok((page, total));
    }
    let off: i64 = if q.offset < 0 { 0 } else { q.offset };
    let lo: i64 = if off > total { total } else { off };
    let hi: i64 = if (off as i128 + lim as i128) > total as i128 { total } else { off + lim };
    proof {
        assert(engine::page_window(q.limit as int, q.offset as int, total as int)
            == (lo as int, hi as int));
        assert(views_of(page@) =~= fs.subrange(lo as int, lo as int));
    }
    let mut k: usize = lo as usize;
    while k < hi as usize
        invariant
            0 <= lo as int <= k as int <= hi as int <= found@.len(),
            fs == views_of(found@),
            views_of(page@) == fs.subrange(lo as int, k as int),
        decreases hi as int - k as int,
    {
        let ghost old_page = page@;
        page.push(found[k].dup());
        proof {
            assert(views_of(page@) =~= views_of(old_page).push(found@[k as int]@));
            assert(views_of(page@) =~= fs.subrange(lo as int, k as int + 1));
        }
        k = k + 1;
    }
    Ok((page, total))
}

/// The join never yields more rows than there are relation rows.
pub proof fn lemma_found_len(
    rels: Seq<crate::model::LocationUploadRelV>, uploads: Seq<UploadV>, loc: Option<int>,
    code: Option<Seq<char>>,
)
    ensures
        found_spec(rels, uploads, loc, code).len() <= rels.len(),
    decreases rels.len(),
{
    if rels.len() > 0 {
        lemma_found_len(rels.drop_last(), uploads, loc, code);
    }
}

/// Inserts an upload row; the fresh id is returned. `StorageError`
/// exactly when the id space is spent; nothing changes on failure.
pub fn insert_upload(store: &mut Store, fetch_code: String, owner: i32, now: i64) -> (r: Result<
    i32,
    Error,
>)
    requires
        old(store).wf(),
    ensures
        final(store).wf(),
        match r {
            Ok(id) => {
                &&& id as int == old(store).next_id as int
                &&& final(store).uploads_v() == old(store).uploads_v().push(
                    UploadV {
                        id: id as int,
                        fetch_code: fetch_code@,
                        owner: owner as int,
                        create_on: now as int,
                        update_on: now as int,
                    },
                )
                &&& final(store).next_id as int == old(store).next_id as int + 1
                &&& final(store).users == old(store).users
                &&& final(store).locations == old(store).locations
                &&& final(store).comments == old(store).comments
                &&& final(store).rank_aggregations == old(store).rank_aggregations
                &&& final(store).memories == old(store).memories
                &&& final(store).playings == old(store).playings
                &&& final(store).eatings == old(store).eatings
                &&& final(store).location_upload_rels == old(store).location_upload_rels
            },
            Err(e) => {
                &&& *final(store) == *old(store)
                &&& e == Error::StorageError
            },
        },
{
    let id = match store.alloc_id() {
        Ok(id) => id,
        Err(e) => {
            return Err(e);
        },
    };
    let ghost old_ups = store.uploads_v();
    let row = Upload { id, fetch_code, owner, create_on: now, update_on: now };
    let ghost rowv = row@;
    store.uploads.push(row);
    proof {
        assert(store.uploads_v() =~= old_ups.push(rowv));
        assert(store.users_v() == old(store).users_v());
        assert(store.locations_v() == old(store).locations_v());
        assert(store.location_upload_rels_v() == old(store).location_upload_rels_v());
        assert(store.equipments_v() == old(store).equipments_v());
        assert(store.comments_v() == old(store).comments_v());
        assert(store.rank_aggregations_v() == old(store).rank_aggregations_v());
        assert(store.memories_v() == old(store).memories_v());
        assert(store.memory_upload_rels_v() == old(store).memory_upload_rels_v());
        assert(store.playings_v() == old(store).playings_v());
        assert(store.eatings_v() == old(store).eatings_v());
        assert(store.playings_uploads_v() == old(store).playings_uploads_v());
        assert(store.eatings_uploads_v() == old(store).eatings_uploads_v());
        assert forall|k: int| 0 <= k < store.location_upload_rels_v().len()
            implies crate::store::has_upload_id(
                store.uploads_v(), (#[trigger] store.location_upload_rels_v()[k]).upload_id,
            ) by {
            assert(crate::store::has_upload_id(
                old_ups, store.location_upload_rels_v()[k].upload_id,
            ));
            let j = choose|j: int| 0 <= j < old_ups.len()
                && (#[trigger] old_ups[j]).id == store.location_upload_rels_v()[k].upload_id;
            assert(store.uploads_v()[j] == old_ups[j]);
        }
        assert forall|k: int| 0 <= k < store.memory_upload_rels_v().len()
            implies crate::store::has_upload_id(
                store.uploads_v(), (#[trigger] store.memory_upload_rels_v()[k]).upload,
            ) by {
            assert(crate::store::has_upload_id(
                old_ups, store.memory_upload_rels_v()[k].upload,
            ));
            let j = choose|j: int| 0 <= j < old_ups.len()
                && (#[trigger] old_ups[j]).id == store.memory_upload_rels_v()[k].upload;
            assert(store.uploads_v()[j] == old_ups[j]);
        }
        assert forall|k: int| 0 <= k < store.playings_uploads_v().len()
            implies crate::store::has_upload_id(
                store.uploads_v(), (#[trigger] store.playings_uploads_v()[k]).upload_id,
            ) by {
            assert(crate::store::has_upload_id(
                old_ups, store.playings_uploads_v()[k].upload_id,
            ));
            let j = choose|j: int| 0 <= j < old_ups.len()
                && (#[trigger] old_ups[j]).id == store.playings_uploads_v()[k].upload_id;
            assert(store.uploads_v()[j] == old_ups[j]);
        }
        assert forall|k: int| 0 <= k < store.eatings_uploads_v().len()
            implies crate::store::has_upload_id(
                store.uploads_v(), (#[trigger] store.eatings_uploads_v()[k]).upload_id,
            ) by {
            assert(crate::store::has_upload_id(
                old_ups, store.eatings_uploads_v()[k].upload_id,
            ));
            let j = choose|j: int| 0 <= j < old_ups.len()
                && (#[trigger] old_ups[j]).id == store.eatings_uploads_v()[k].upload_id;
            assert(store.uploads_v()[j] == old_ups[j]);
        }
        assert(store.next_ok());
        assert(store.comments_unique());
        assert(store.phones_unique());
        assert(store.coords_ok());
        assert(store.refs_ok());
        assert(store.aggs_ok());
    }
    Ok(id)
}

/// The uploads carrying the given ids, in the ids' order; an id nothing
/// carries contributes nothing.
pub open spec fn resolved_spec(uploads: Seq<UploadV>, ids: Seq<i32>) -> Seq<UploadV>
    decreases ids.len(),
{
    if ids.len() == 0 {
        Seq::<UploadV>::empty()
    } else {
        let rest = resolved_spec(uploads, ids.drop_last());
        match hydrate::first_upload(uploads, ids.last() as int) {
            Some(u) => rest.push(u),
            None => rest,
        }
    }
}

/// Resolves a set of upload ids; missing ids are skipped, so a caller
/// can detect them by comparing lengths.
pub fn query_upload_by_ids(store: &Store, ids: &Vec<i32>) -> (r: Result<Vec<Upload>, Error>)
    ensures
        match r {
            Ok(out) => views_of(out@) == resolved_spec(store.uploads_v(), ids@),
            Err(_) => false,
        },
{
    let mut out: Vec<Upload> = Vec::new();
    let mut i: usize = 0;
    proof {
        assert(ids@.subrange(0, 0) =~= Seq::<i32>::empty());
        assert(views_of(out@) =~= Seq::<UploadV>::empty());
    }
    while i < ids.len()
        invariant
            i <= ids@.len(),
            views_of(out@) == resolved_spec(store.uploads_v(), ids@.subrange(0, i as int)),
        decreases ids@.len() - i,
    {
        let ghost pre = ids@.subrange(0, i as int);
        proof {
            assert(ids@.subrange(0, i as int + 1) =~= pre.push(ids@[i as int]));
            assert(pre.push(ids@[i as int]).drop_last() =~= pre);
        }
        match hydrate::find_upload(&store.uploads, ids[i]) {
            Some(u) => {
                let ghost uv = u@;
                let ghost old_out = out@;
                out.push(u);
                proof {
                    assert(views_of(out@) =~= views_of(old_out).push(uv));
                }
            },
            None => {},
        }
        i = i + 1;
    }
    proof {
        assert(ids@.subrange(0, ids@.len() as int) =~= ids@);
    }
    Ok(out)
}

/// The photo sets of a page of locations, resolved through the relation
/// table, aligned index for index with the page.
pub fn uploads_of_locations(store: &Store, locations: &Vec<Location>) -> (r: Result<
    Vec<Vec<Upload>>,
    Error,
>)
    ensures
        match r {
            Ok(out) => {
                &&& out@.len() == locations@.len()
                &&& forall|k: int| 0 <= k < locations@.len()
                    ==> views_of(#[trigger] out@[k]@) == hydrate::linked_of::<LocationUploadRel>(
                        store.location_upload_rels_v(), store.uploads_v(),
                        views_of(locations@)[k].id,
                    )
            },
            Err(_) => false,
        },
{
    let mut ids: Vec<i32> = Vec::new();
    let mut i: usize = 0;
    while i < locations.len()
        invariant
            i <= locations@.len(),
            ids@.len() == i,
            forall|k: int| 0 <= k < i
                ==> #[trigger] ids@[k] as int == views_of(locations@)[k].id,
        decreases locations@.len() - i,
    {
        proof {
            assert(views_of(locations@)[i as int] == locations@[i as int]@);
        }
        ids.push(locations[i].id);
        i = i + 1;
    }
    let groups = hydrate::group_linked::<LocationUploadRel>(
        &ids, &store.location_upload_rels, &store.uploads,
    );
    Ok(groups)
}

/// The photo set of one location.
pub fn uploads_of_location(store: &Store, location: &Location) -> (r: Result<Vec<Upload>, Error>)
    ensures
        match r {
            Ok(out) => views_of(out@) == hydrate::linked_of::<LocationUploadRel>(
                store.location_upload_rels_v(), store.uploads_v(), location@.id,
            ),
            Err(_) => false,
        },
{
    Ok(hydrate::linked_matching::<LocationUploadRel>(
        &store.location_upload_rels, &store.uploads, location.id,
    ))
}

/// The photo sets of a page of eatings, aligned index for index.
pub fn query_upload_by_eatings(store: &Store, eatings: &Vec<Eating>) -> (r: Result<
    Vec<Vec<Upload>>,
    Error,
>)
    ensures
        match r {
            Ok(out) => {
                &&& out@.len() == eatings@.len()
                &&& forall|k: int| 0 <= k < eatings@.len()
                    ==> views_of(#[trigger] out@[k]@) == hydrate::linked_of::<EatingsUpload>(
                        store.eatings_uploads_v(), store.uploads_v(), views_of(eatings@)[k].id,
                    )
            },
            Err(_) => false,
        },
{
    let mut ids: Vec<i32> = Vec::new();
    let mut i: usize = 0;
    while i < eatings.len()
        invariant
            i <= eatings@.len(),
            ids@.len() == i,
            forall|k: int| 0 <= k < i
                ==> #[trigger] ids@[k] as int == views_of(eatings@)[k].id,
        decreases eatings@.len() - i,
    {
        proof {
            assert(views_of(eatings@)[i as int] == eatings@[i as int]@);
        }
        ids.push(eatings[i].id);
        i = i + 1;
    }
    let groups = hydrate::group_linked::<EatingsUpload>(
        &ids, &store.eatings_uploads, &store.uploads,
    );
    Ok(groups)
}

} // verus!
