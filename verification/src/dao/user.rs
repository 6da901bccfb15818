//! User reads and writes: discoverer hydration for pages of entities,
//! id-set resolution, and the partial profile update.

use vstd::prelude::*;

use crate::engine::views_of;
use crate::errors::Error;
use crate::hydrate;
use crate::model::{Location, User, UserCommand, UserV};
use crate::store::Store;

verus! {

/// One discoverer per page row: the i-th user is the first user row
/// carrying the i-th location's discoverer id. `NotFound` exactly when
/// some discoverer cannot be resolved, so a successful answer is always
/// aligned with the page.
pub fn discoverers_of_locations(store: &Store, locations: &Vec<Location>) -> (r: Result<
    Vec<User>,
    Error,
>)
    ensures
        match r {
            Ok(users) => {
                &&& users@.len() == locations@.len()
                &&& forall|k: int| 0 <= k < locations@.len()
                    ==> hydrate::first_keyed::<User>(
                        store.users_v(), (#[trigger] views_of(locations@)[k]).discoverer,
                    ) == Some(views_of(users@)[k])
            },
            Err(e) => e == Error::NotFound && exists|k: int| 0 <= k < locations@.len()
                && hydrate::first_keyed::<User>(
                    store.users_v(), (#[trigger] views_of(locations@)[k]).discoverer,
                ) is None,
        },
{
    let mut out: Vec<User> = Vec::new();
    let mut i: usize = 0;
    while i < locations.len()
        invariant
            i <= locations@.len(),
            out@.len() == i,
            forall|k: int| 0 <= k < i ==> hydrate::first_keyed::<User>(
                store.users_v(), (#[trigger] views_of(locations@)[k]).discoverer,
            ) == Some(views_of(out@)[k]),
        decreases locations@.len() - i,
    {
        proof {
            assert(views_of(locations@)[i as int] == locations@[i as int]@);
        }
        match hydrate::find_keyed::<User>(&store.users, locations[i].discoverer) {
            Some(u) => {
                let ghost uv = u@;
                let ghost old_out = out@;
                out.push(u);
                proof {
                    assert(views_of(out@) =~= views_of(old_out).push(uv));
                    assert(forall|k: int| 0 <= k < old_out.len()
                        ==> views_of(out@)[k] == views_of(old_out)[k]);
                }
            },
            None => {
                return Err(Error::NotFound);
            },
        }
        i = i + 1;
    }
    Ok(out)
}

/// The discoverer of one location.
pub fn discoverer_of_location(store: &Store, location: &Location) -> (r: Result<User, Error>)
    ensures
        match r {
            Ok(u) => hydrate::first_keyed::<User>(store.users_v(), location@.discoverer)
                == Some(u@),
            Err(e) => e == Error::NotFound
                && hydrate::first_keyed::<User>(store.users_v(), location@.discoverer) is None,
        },
{
    match hydrate::find_keyed::<User>(&store.users, location.discoverer) {
        Some(u) => Ok(u),
        None => Err(Error::NotFound),
    }
}

/// The users carrying the given ids, in the ids' order; `NotFound`
/// exactly when one of them cannot be resolved.
pub fn query_user_by_ids(store: &Store, ids: &Vec<i32>) -> (r: Result<Vec<User>, Error>)
    ensures
        match r {
            Ok(users) => {
                &&& users@.len() == ids@.len()
                &&& forall|k: int| 0 <= k < ids@.len()
                    ==> hydrate::first_keyed::<User>(
                        store.users_v(), #[trigger] ids@[k] as int,
                    ) == Some(views_of(users@)[k])
            },
            Err(e) => e == Error::NotFound && exists|k: int| 0 <= k < ids@.len()
                && hydrate::first_keyed::<User>(
                    store.users_v(), #[trigger] ids@[k] as int,
                ) is None,
        },
{
    let mut out: Vec<User> = Vec::new();
    let mut i: usize = 0;
    while i < ids.len()
        invariant
            i <= ids@.len(),
            out@.len() == i,
            forall|k: int| 0 <= k < i ==> hydrate::first_keyed::<User>(
                store.users_v(), #[trigger] ids@[k] as int,
            ) == Some(views_of(out@)[k]),
        decreases ids@.len() - i,
    {
        match hydrate::find_keyed::<User>(&store.users, ids[i]) {
            Some(u) => {
                let ghost uv = u@;
                let ghost old_out = out@;
                out.push(u);
                proof {
                    assert(views_of(out@) =~= views_of(old_out).push(uv));
                    assert(forall|k: int| 0 <= k < old_out.len()
                        ==> views_of(out@)[k] == views_of(old_out)[k]);
                }
            },
            None => {
                return Err(Error::NotFound);
            },
        }
        i = i + 1;
    }
    Ok(out)
}

/// The first user row whose phone matches, in stored order.
pub open spec fn first_by_phone(users: Seq<UserV>, phone: Seq<char>) -> Option<UserV>
    decreases users.len(),
{
    if users.len() == 0 {
        None
    } else if users[0].phone == phone {
        Some(users[0])
    } else {
        first_by_phone(users.drop_first(), phone)
    }
}

/// Scans for a user by phone.
pub fn get_user_by_phone(store: &Store, phone: &str) -> (r: Result<User, Error>)
    ensures
        match r {
            Ok(u) => first_by_phone(store.users_v(), phone@) == Some(u@),
            Err(e) => e == Error::NotFound
                && first_by_phone(store.users_v(), phone@) is None,
        },
{
    let ghost vs = store.users_v();
    let mut i: usize = 0;
    proof {
        assert(vs.skip(0) =~= vs);
    }
    while i < store.users.len()
        invariant
            i <= store.users@.len(),
            vs == store.users_v(),
            first_by_phone(vs, phone@) == first_by_phone(vs.skip(i as int), phone@),
        decreases store.users@.len() - i,
    {
        proof {
            assert(vs.skip(i as int)[0] == vs[i as int]);
            assert(vs[i as int] == store.users@[i as int]@);
            assert(vs.skip(i as int).drop_first() =~= vs.skip(i as int + 1));
        }
        if crate::text::str_eq(store.users[i].phone.as_str(), phone) {
            let u = store.users[i].dup();
            return Ok(u);
        }
        i = i + 1;
    }
    proof {
        assert(vs.skip(vs.len() as int).len() == 0);
    }
    Err(Error::NotFound)
}

/// Whether a user with this phone exists.
pub fn exists_user_by_phone(store: &Store, phone: &str) -> (r: bool)
    ensures
        r == !(first_by_phone(store.users_v(), phone@) is None),
{
    match get_user_by_phone(store, phone) {
        Ok(_) => true,
        Err(_) => false,
    }
}

/// A phone some user row carries.
pub open spec fn has_phone(users: Seq<UserV>, phone: Seq<char>) -> bool {
    exists|j: int| 0 <= j < users.len() && (#[trigger] users[j]).phone == phone
}

/// A present phone has a first carrier, and a missing one has none.
pub proof fn lemma_first_by_phone_member(users: Seq<UserV>, phone: Seq<char>)
    ensures
        first_by_phone(users, phone) is Some <==> has_phone(users, phone),
        match first_by_phone(users, phone) {
            Some(u) => u.phone == phone,
            None => true,
        },
    decreases users.len(),
{
    if users.len() > 0 {
        lemma_first_by_phone_member(users.drop_first(), phone);
        if users[0].phone == phone {
        } else {
            if has_phone(users.drop_first(), phone) {
                let j = choose|j: int| 0 <= j < users.drop_first().len()
                    && (#[trigger] users.drop_first()[j]).phone == phone;
                assert(users[j + 1].phone == phone);
            }
            assert forall|j: int| 0 <= j < users.len()
                && (#[trigger] users[j]).phone == phone
                implies has_phone(users.drop_first(), phone) by {
                assert(j > 0);
                assert(users.drop_first()[j - 1].phone == phone);
            }
        }
    }
}

/// Registers a user row; `Conflict` exactly when the phone is taken,
/// `StorageError` when the id space is spent; nothing changes on failure.
pub fn insert_user(
    store: &mut Store, name: String, phone: String, password: String, salt: String,
    avatar: Option<i32>, now: i64,
) -> (r: Result<i32, Error>)
    requires
        old(store).wf(),
    ensures
        final(store).wf(),
        match r {
            Ok(id) => {
                &&& id as int == old(store).next_id as int
                &&& final(store).users_v() == old(store).users_v().push(
                    UserV {
                        id: id as int,
                        name: name@,
                        phone: phone@,
                        password: password@,
                        salt: salt@,
                        create_on: now as int,
                        update_on: now as int,
                        avatar: match avatar {
                            Some(a) => Some(a as int),
                            None => None,
                        },
                    },
                )
                &&& final(store).next_id as int == old(store).next_id as int + 1
                &&& final(store).locations == old(store).locations
                &&& final(store).uploads == old(store).uploads
                &&& final(store).comments == old(store).comments
                &&& final(store).rank_aggregations == old(store).rank_aggregations
                &&& final(store).memories == old(store).memories
                &&& final(store).playings == old(store).playings
                &&& final(store).eatings == old(store).eatings
            },
            Err(e) => {
                &&& *final(store) == *old(store)
                &&& (e == Error::Conflict || e == Error::StorageError)
                &&& (e == Error::Conflict <==> has_phone(old(store).users_v(), phone@))
                &&& (e == Error::StorageError ==> old(store).next_id as int == 0x7fff_ffff)
            },
        },
{
    if exists_user_by_phone(store, phone.as_str()) {
        proof {
            lemma_first_by_phone_member(store.users_v(), phone@);
        }
        return Err(Error::Conflict);
    }
    proof {
        lemma_first_by_phone_member(store.users_v(), phone@);
    }
    let id = match store.alloc_id() {
        Ok(id) => id,
        Err(e) => {
            return Err(e);
        },
    };
    let ghost old_users = store.users_v();
    let row = User {
        id,
        name,
        phone,
        password,
        salt,
        create_on: now,
        update_on: now,
        avatar,
    };
    let ghost rowv = row@;
    store.users.push(row);
    proof {
        assert(store.users_v() =~= old_users.push(rowv));
        assert(store.locations_v() == old(store).locations_v());
        assert(store.uploads_v() == old(store).uploads_v());
        assert(store.location_upload_rels_v() == old(store).location_upload_rels_v());
        assert(store.equipments_v() == old(store).equipments_v());
        assert(store.comments_v() == old(store).comments_v());
        assert(store.rank_aggregations_v() == old(store).rank_aggregations_v());
        assert(store.memories_v() == old(store).memories_v());
        assert(store.memory_upload_rels_v() == old(store).memory_upload_rels_v());
        assert(store.playings_v() == old(store).playings_v());
        assert(store.eatings_v() == old(store).eatings_v());
        assert(store.playings_uploads_v() == old(store).playings_uploads_v());
        assert(store.eatings_uploads_v() == old(store).eatings_uploads_v());
        assert forall|i2: int, j2: int| 0 <= i2 < j2 < store.users_v().len()
            implies (#[trigger] store.users_v()[i2]).phone
                != (#[trigger] store.users_v()[j2]).phone by {
            if j2 < old_users.len() {
                assert(store.users_v()[i2] == old_users[i2]);
                assert(store.users_v()[j2] == old_users[j2]);
                assert(old(store).users_v()[i2] == old_users[i2]);
            } else {
                assert(store.users_v()[j2] == rowv);
                assert(store.users_v()[i2] == old_users[i2]);
                assert(!has_phone(old_users, phone@));
            }
        }
        assert forall|k: int| 0 <= k < store.locations_v().len()
            implies crate::store::has_user_id(
                store.users_v(), (#[trigger] store.locations_v()[k]).discoverer,
            ) by {
            assert(crate::store::has_user_id(old_users, store.locations_v()[k].discoverer));
            let j = choose|j: int| 0 <= j < old_users.len()
                && (#[trigger] old_users[j]).id == store.locations_v()[k].discoverer;
            assert(store.users_v()[j] == old_users[j]);
        }
        assert forall|k: int| 0 <= k < store.playings_v().len()
            implies crate::store::has_user_id(
                store.users_v(), (#[trigger] store.playings_v()[k]).discoverer,
            ) by {
            assert(crate::store::has_user_id(old_users, store.playings_v()[k].discoverer));
            let j = choose|j: int| 0 <= j < old_users.len()
                && (#[trigger] old_users[j]).id == store.playings_v()[k].discoverer;
            assert(store.users_v()[j] == old_users[j]);
        }
        assert forall|k: int| 0 <= k < store.eatings_v().len()
            implies crate::store::has_user_id(
                store.users_v(), (#[trigger] store.eatings_v()[k]).discoverer,
            ) by {
            assert(crate::store::has_user_id(old_users, store.eatings_v()[k].discoverer));
            let j = choose|j: int| 0 <= j < old_users.len()
                && (#[trigger] old_users[j]).id == store.eatings_v()[k].discoverer;
            assert(store.users_v()[j] == old_users[j]);
        }
        assert(store.next_ok());
        assert(store.comments_unique());
        assert(store.phones_unique());
        assert(store.coords_ok());
        assert(store.refs_ok());
        assert(store.aggs_ok());
    }
    Ok(id)
}

/// Whether a user row passes the listing filter: equality on the name
/// and on the phone, where given.
pub open spec fn user_ok(u: UserV, name: Option<Seq<char>>, phone: Option<Seq<char>>) -> bool {
    &&& match name {
        Some(n) => u.name == n,
        None => true,
    }
    &&& match phone {
        Some(p) => u.phone == p,
        None => true,
    }
}

/// The user rows that pass the listing filter, in stored order.
pub open spec fn users_filtered(
    s: Seq<UserV>, name: Option<Seq<char>>, phone: Option<Seq<char>>,
) -> Seq<UserV>
    decreases s.len(),
{
    if s.len() == 0 {
        Seq::<UserV>::empty()
    } else {
        let rest = users_filtered(s.drop_last(), name, phone);
        if user_ok(s.last(), name, phone) {
            rest.push(s.last())
        } else {
            rest
        }
    }
}

pub open spec fn name_of(q: crate::domain::user::Query) -> Option<Seq<char>> {
    match q.name {
        Some(n) => Some(n@),
        None => None,
    }
}

pub open spec fn phone_of(q: crate::domain::user::Query) -> Option<Seq<char>> {
    match q.phone {
        Some(p) => Some(p@),
        None => None,
    }
}

/// The user listing: everyone passing the name and phone equalities, in
/// stored order, with the count of the same filter. In-memory execution
/// cannot fail, so the result is always `Ok`.
pub fn query_user(store: &Store, q: crate::domain::user::Query) -> (r: Result<
    (Vec<User>, i64),
    Error,
>)
    requires
        store.wf(),
    ensures
        match r {
            Ok(p) => {
                &&& views_of(p.0@) == users_filtered(store.users_v(), name_of(q), phone_of(q))
                &&& p.1 as int == users_filtered(
                    store.users_v(), name_of(q), phone_of(q),
                ).len()
            },
            Err(_) => false,
        },
{
    let mut out: Vec<User> = Vec::new();
    let mut i: usize = 0;
    proof {
        assert(views_of(store.users@.subrange(0, 0)) =~= Seq::<UserV>::empty());
        assert(views_of(out@) =~= Seq::<UserV>::empty());
    }
    while i < store.users.len()
        invariant
            i <= store.users@.len(),
            views_of(out@) == users_filtered(
                views_of(store.users@.subrange(0, i as int)), name_of(q), phone_of(q),
            ),
        decreases store.users@.len() - i,
    {
        let ghost pre = store.users@.subrange(0, i as int);
        proof {
            assert(views_of(store.users@)[i as int] == store.users@[i as int]@);
            assert(store.users@.subrange(0, i as int + 1) =~= pre.push(store.users@[i as int]));
            assert(views_of(pre.push(store.users@[i as int]))
                =~= views_of(pre).push(store.users@[i as int]@));
            assert(views_of(pre.push(store.users@[i as int])).drop_last() =~= views_of(pre));
        }
        let row = &store.users[i];
        let name_pass = match &q.name {
            Some(n) => crate::text::str_eq(row.name.as_str(), n.as_str()),
            None => true,
        };
        let phone_pass = match &q.phone {
            Some(p) => crate::text::str_eq(row.phone.as_str(), p.as_str()),
            None => true,
        };
        if name_pass && phone_pass {
            let ghost old_out = out@;
            out.push(row.dup());
            proof {
                assert(views_of(out@) =~= views_of(old_out).push(store.users@[i as int]@));
            }
        }
        i = i + 1;
    }
    proof {
        assert(store.users@.subrange(0, store.users@.len() as int) =~= store.users@);
        lemma_users_filtered_len(store.users_v(), name_of(q), phone_of(q));
    }
    let total: i64 = out.len() as i64;
    Ok((out, total))
}

/// The filter keeps at most as many rows as there are.
pub proof fn lemma_users_filtered_len(
    s: Seq<UserV>, name: Option<Seq<char>>, phone: Option<Seq<char>>,
)
    ensures
        users_filtered(s, name, phone).len() <= s.len(),
    decreases s.len(),
{
    if s.len() > 0 {
        lemma_users_filtered_len(s.drop_last(), name, phone);
    }
}

/// The user carrying this id, first in stored order; `NotFound` exactly
/// when no row has the id.
pub fn get_user(store: &Store, id: i32) -> (r: Result<User, Error>)
    ensures
        match r {
            Ok(u) => hydrate::first_keyed::<User>(store.users_v(), id as int) == Some(u@),
            Err(e) => e == Error::NotFound
                && hydrate::first_keyed::<User>(store.users_v(), id as int) is None,
        },
{
    match hydrate::find_keyed::<User>(&store.users, id) {
        Some(u) => Ok(u),
        None => Err(Error::NotFound),
    }
}

/// The stored row after a partial update: each given field replaces the
/// stored one, each absent field keeps it; identity and creation instant
/// stay.
pub open spec fn merged_view(prev: UserV, cmd: UserCommand, now: int) -> UserV {
    UserV {
        id: prev.id,
        name: match cmd.name {
            Some(n) => n@,
            None => prev.name,
        },
        phone: match cmd.phone {
            Some(p) => p@,
            None => prev.phone,
        },
        password: match cmd.password {
            Some(p) => p@,
            None => prev.password,
        },
        salt: match cmd.salt {
            Some(sv) => sv@,
            None => prev.salt,
        },
        create_on: prev.create_on,
        update_on: now,
        avatar: match cmd.avatar {
            Some(a) => Some(a as int),
            None => prev.avatar,
        },
    }
}

/// The partial profile update: the first user row carrying the id takes
/// the given fields, and the count of written rows is returned — zero
/// exactly when no row has the id, and the store is then unchanged.
/// `Conflict` exactly when a new phone is given that another user
/// already carries; nothing changes on failure.
pub fn update(store: &mut Store, id: i32, user: UserCommand, now: i64) -> (r: Result<
    usize,
    Error,
>)
    requires
        old(store).wf(),
    ensures
        final(store).wf(),
        final(store).locations == old(store).locations,
        final(store).comments == old(store).comments,
        final(store).rank_aggregations == old(store).rank_aggregations,
        final(store).next_id == old(store).next_id,
        match r {
            Ok(n) => {
                if n == 0 {
                    &&& *final(store) == *old(store)
                    &&& hydrate::first_keyed::<User>(old(store).users_v(), id as int) is None
                } else {
                    &&& n == 1
                    &&& exists|i: int| {
                        &&& 0 <= i < old(store).users_v().len()
                        &&& (#[trigger] old(store).users_v()[i]).id == id as int
                        &&& forall|j: int| 0 <= j < i
                            ==> (#[trigger] old(store).users_v()[j]).id != id as int
                        &&& final(store).users_v() == old(store).users_v().update(
                            i, merged_view(old(store).users_v()[i], user, now as int),
                        )
                    }
                }
            },
            Err(e) => {
                &&& *final(store) == *old(store)
                &&& e == Error::Conflict
                &&& user.phone is Some
            },
        },
{
    let mut target: usize = 0;
    let mut found = false;
    while !found && target < store.users.len()
        invariant
            old(store).wf(),
            *store == *old(store),
            target <= store.users@.len(),
            forall|j: int| 0 <= j < target
                ==> (#[trigger] store.users_v()[j]).id != id as int,
            found ==> target < store.users@.len()
                && store.users_v()[target as int].id == id as int,
        decreases store.users@.len() - target + (if found { 0int } else { 1int }),
    {
        proof {
            assert(store.users_v()[target as int] == store.users@[target as int]@);
        }
        if store.users[target].id == id {
            found = true;
        } else {
            target = target + 1;
        }
    }
    if !found {
        proof {
            lemma_all_miss_no_first(store.users_v(), id as int);
        }
        return Ok(0);
    }
    match &user.phone {
        Some(p) => {
            let mut k: usize = 0;
            while k < store.users.len()
                invariant
                    old(store).wf(),
                    *store == *old(store),
                    user.phone is Some,
                    k <= store.users@.len(),
                    (target as int) < store.users_v().len(),
                    forall|j: int| 0 <= j < k && j != target as int
                        ==> (#[trigger] store.users_v()[j]).phone != p@,
                decreases store.users@.len() - k,
            {
                proof {
                    assert(store.users_v()[k as int] == store.users@[k as int]@);
                }
                if k != target && crate::text::str_eq(store.users[k].phone.as_str(), p.as_str()) {
                    return Err(Error::Conflict);
                }
                k = k + 1;
            }
        },
        None => {},
    }
    let ghost uv = store.users_v();
    let mut out: Vec<User> = Vec::new();
    let mut i: usize = 0;
    while i < store.users.len()
        invariant
            old(store).wf(),
            *store == *old(store),
            i <= store.users@.len(),
            uv == views_of(store.users@),
            (target as int) < uv.len(),
            uv[target as int].id == id as int,
            out@.len() == i,
            forall|q: int| 0 <= q < i ==> views_of(out@)[q] == if q == target as int {
                merged_view(uv[q], user, now as int)
            } else {
                uv[q]
            },
        decreases store.users@.len() - i,
    {
        let ghost old_out = out@;
        let row = &store.users[i];
        proof {
            assert(uv[i as int] == store.users@[i as int]@);
        }
        if i == target {
            let replaced = User {
                id: row.id,
                name: match &user.name {
                    Some(n) => n.clone(),
                    None => row.name.clone(),
                },
                phone: match &user.phone {
                    Some(p) => p.clone(),
                    None => row.phone.clone(),
                },
                password: match &user.password {
                    Some(p) => p.clone(),
                    None => row.password.clone(),
                },
                salt: match &user.salt {
                    Some(sv) => sv.clone(),
                    None => row.salt.clone(),
                },
                create_on: row.create_on,
                update_on: now,
                avatar: match user.avatar {
                    Some(a) => Some(a),
                    None => row.avatar,
                },
            };
            out.push(replaced);
        } else {
            out.push(row.dup());
        }
        proof {
            assert(views_of(out@) =~= views_of(old_out).push(out@[i as int]@));
            assert(forall|q: int| 0 <= q < i ==> views_of(out@)[q] == views_of(old_out)[q]);
        }
        i = i + 1;
    }
    let ghost phone_clear = match user.phone {
        Some(p) => forall|j: int| 0 <= j < uv.len() && j != target as int
            ==> (#[trigger] uv[j]).phone != p@,
        None => true,
    };
    store.users = out;
    proof {
        assert(store.users_v() =~= uv.update(
            target as int, merged_view(uv[target as int], user, now as int),
        ));
        assert(store.locations_v() == old(store).locations_v());
        assert(store.uploads_v() == old(store).uploads_v());
        assert(store.location_upload_rels_v() == old(store).location_upload_rels_v());
        assert(store.equipments_v() == old(store).equipments_v());
        assert(store.comments_v() == old(store).comments_v());
        assert(store.rank_aggregations_v() == old(store).rank_aggregations_v());
        assert(store.memories_v() == old(store).memories_v());
        assert(store.memory_upload_rels_v() == old(store).memory_upload_rels_v());
        assert(store.playings_v() == old(store).playings_v());
        assert(store.eatings_v() == old(store).eatings_v());
        assert(store.playings_uploads_v() == old(store).playings_uploads_v());
        assert(store.eatings_uploads_v() == old(store).eatings_uploads_v());
        assert forall|i2: int, j2: int| 0 <= i2 < j2 < store.users_v().len()
            implies (#[trigger] store.users_v()[i2]).phone
                != (#[trigger] store.users_v()[j2]).phone by {
            assert(old(store).users_v()[i2] == uv[i2]);
            assert(old(store).users_v()[j2] == uv[j2]);
            assert(store.users_v()[i2] == if i2 == target as int {
                merged_view(uv[i2], user, now as int)
            } else {
                uv[i2]
            });
            assert(store.users_v()[j2] == if j2 == target as int {
                merged_view(uv[j2], user, now as int)
            } else {
                uv[j2]
            });
        }
        assert forall|k: int| 0 <= k < store.locations_v().len()
            implies crate::store::has_user_id(
                store.users_v(), (#[trigger] store.locations_v()[k]).discoverer,
            ) by {
            assert(crate::store::has_user_id(uv, store.locations_v()[k].discoverer));
            let j = choose|j: int| 0 <= j < uv.len()
                && (#[trigger] uv[j]).id == store.locations_v()[k].discoverer;
            assert(store.users_v()[j].id == uv[j].id);
        }
        assert forall|k: int| 0 <= k < store.playings_v().len()
            implies crate::store::has_user_id(
                store.users_v(), (#[trigger] store.playings_v()[k]).discoverer,
            ) by {
            assert(crate::store::has_user_id(uv, store.playings_v()[k].discoverer));
            let j = choose|j: int| 0 <= j < uv.len()
                && (#[trigger] uv[j]).id == store.playings_v()[k].discoverer;
            assert(store.users_v()[j].id == uv[j].id);
        }
        assert forall|k: int| 0 <= k < store.eatings_v().len()
            implies crate::store::has_user_id(
                store.users_v(), (#[trigger] store.eatings_v()[k]).discoverer,
            ) by {
            assert(crate::store::has_user_id(uv, store.eatings_v()[k].discoverer));
            let j = choose|j: int| 0 <= j < uv.len()
                && (#[trigger] uv[j]).id == store.eatings_v()[k].discoverer;
            assert(store.users_v()[j].id == uv[j].id);
        }
        assert(store.next_ok());
        assert(store.comments_unique());
        assert(store.phones_unique());
        assert(store.coords_ok());
        assert(store.refs_ok());
        assert(store.aggs_ok());
    }
    Ok(1)
}

/// A key every row misses has no first carrier.
pub proof fn lemma_all_miss_no_first(s: Seq<UserV>, id: int)
    requires
        forall|j: int| 0 <= j < s.len() ==> (#[trigger] s[j]).id != id,
    ensures
        hydrate::first_keyed::<User>(s, id) is None,
    decreases s.len(),
{
    if s.len() > 0 {
        assert(forall|j: int| 0 <= j < s.drop_first().len()
            ==> (#[trigger] s.drop_first()[j]).id != id);
        lemma_all_miss_no_first(s.drop_first(), id);
    }
}

} // verus!
