//! Equipment reads and writes: creation, and batch hydration of the
//! equipment sets of a page of locations.

use vstd::prelude::*;

use crate::engine::views_of;
use crate::errors::Error;
use crate::hydrate;
use crate::model::{Equipment, EquipmentCommand, EquipmentV, Location};
use crate::store::Store;

verus! {

/// Inserts an equipment row for a location; the fresh id is returned.
/// `StorageError` exactly when the id space is spent; nothing changes
/// on failure.
pub fn insert_equipment(store: &mut Store, equip: EquipmentCommand, now: i64) -> (r: Result<
    i32,
    Error,
>)
    requires
        old(store).wf(),
    ensures
        final(store).wf(),
        match r {
            Ok(id) => {
                &&& id as int == old(store).next_id as int
                &&& final(store).equipments_v() == old(store).equipments_v().push(
                    EquipmentV {
                        id: id as int,
                        name: equip.name@,
                        is_required: equip.is_required,
                        usage: equip.usage@,
                        location: equip.location as int,
                        create_on: now as int,
                        update_on: now as int,
                    },
                )
                &&& final(store).next_id as int == old(store).next_id as int + 1
                &&& final(store).users == old(store).users
                &&& final(store).locations == old(store).locations
                &&& final(store).uploads == old(store).uploads
                &&& final(store).comments == old(store).comments
                &&& final(store).rank_aggregations == old(store).rank_aggregations
                &&& final(store).memories == old(store).memories
                &&& final(store).playings == old(store).playings
                &&& final(store).eatings == old(store).eatings
            },
            Err(e) => {
                &&& *final(store) == *old(store)
                &&& e == Error::StorageError
            },
        },
{
    let id = match store.alloc_id() {
        Ok(id) => id,
        Err(e) => {
            return Err(e);
        },
    };
    let ghost old_eq = store.equipments_v();
    let row = Equipment {
        id,
        name: equip.name,
        is_required: equip.is_required,
        usage: equip.usage,
        location: equip.location,
        create_on: now,
        update_on: now,
    };
    let ghost rowv = row@;
    store.equipments.push(row);
    proof {
        assert(store.equipments_v() =~= old_eq.push(rowv));
        assert(store.users_v() == old(store).users_v());
        assert(store.locations_v() == old(store).locations_v());
        assert(store.uploads_v() == old(store).uploads_v());
        assert(store.location_upload_rels_v() == old(store).location_upload_rels_v());
        assert(store.comments_v() == old(store).comments_v());
        assert(store.rank_aggregations_v() == old(store).rank_aggregations_v());
        assert(store.memories_v() == old(store).memories_v());
        assert(store.memory_upload_rels_v() == old(store).memory_upload_rels_v());
        assert(store.playings_v() == old(store).playings_v());
        assert(store.eatings_v() == old(store).eatings_v());
        assert(store.playings_uploads_v() == old(store).playings_uploads_v());
        assert(store.eatings_uploads_v() == old(store).eatings_uploads_v());
        assert(store.next_ok());
        assert(store.comments_unique());
        assert(store.phones_unique());
        assert(store.coords_ok());
        assert(store.refs_ok());
        assert(store.aggs_ok());
    }
    Ok(id)
}

/// The equipment sets of a page of locations, aligned index for index:
/// the k-th vector holds exactly the equipment rows keyed by the k-th
/// location, in stored order, an empty vector where there are none.
pub fn equipements_of_locations(store: &Store, locations: &Vec<Location>) -> (r: Result<
    Vec<Vec<Equipment>>,
    Error,
>)
    ensures
        match r {
            Ok(out) => {
                &&& out@.len() == locations@.len()
                &&& forall|k: int| 0 <= k < locations@.len()
                    ==> views_of(#[trigger] out@[k]@) == hydrate::children_of::<Equipment>(
                        store.equipments_v(), views_of(locations@)[k].id,
                    )
            },
            Err(_) => false,
        },
{
    let mut ids: Vec<i32> = Vec::new();
    let mut i: usize = 0;
    while i < locations.len()
        invariant
            i <= locations@.len(),
            ids@.len() == i,
            forall|k: int| 0 <= k < i
                ==> #[trigger] ids@[k] as int == views_of(locations@)[k].id,
        decreases locations@.len() - i,
    {
        proof {
            assert(views_of(locations@)[i as int] == locations@[i as int]@);
        }
        ids.push(locations[i].id);
        i = i + 1;
    }
    let groups = hydrate::group_children::<Equipment>(&ids, &store.equipments);
    Ok(groups)
}

/// The equipment set of one location, in stored order.
pub fn equipements_of_location(store: &Store, location: &Location) -> (r: Result<
    Vec<Equipment>,
    Error,
>)
    ensures
        match r {
            Ok(out) => views_of(out@) == hydrate::children_of::<Equipment>(
                store.equipments_v(), location@.id,
            ),
            Err(_) => false,
        },
{
    Ok(hydrate::children_matching::<Equipment>(&store.equipments, location.id))
}

} // verus!
