//! The relational state the library operates on, with its well-formedness
//! invariant. The aggregate clause is the heart of the rank aggregation
//! design: every aggregate row's running total and count equal the sum
//! and number of the ranks of that location's comments, at all times.

use vstd::prelude::*;

use crate::engine::views_of;
use crate::geo;
use crate::model::{
    Comment, CommentV, Eating, EatingV, EatingsUpload, EatingsUploadV, Equipment, EquipmentV,
    Location, LocationUploadRel, LocationUploadRelV, LocationV, Memory, MemoryUploadRel,
    MemoryUploadRelV, MemoryV, Playing, PlayingV, PlayingsUpload, PlayingsUploadV,
    RankAggregation, RankAggregationV, Upload, UploadV, User, UserV,
};

verus! {

/// The sum of the ranks of the comments that sit on `loc`.
pub open spec fn sum_ranks(s: Seq<CommentV>, loc: int) -> int
    decreases s.len(),
{
    if s.len() == 0 {
        0
    } else {
        sum_ranks(s.drop_last(), loc) + (if s.last().location == loc {
            s.last().rank
        } else {
            0
        })
    }
}

/// How many comments sit on `loc`.
pub open spec fn count_at(s: Seq<CommentV>, loc: int) -> int
    decreases s.len(),
{
    if s.len() == 0 {
        0
    } else {
        count_at(s.drop_last(), loc) + (if s.last().location == loc {
            1int
        } else {
            0int
        })
    }
}

/// Appending a comment adds its contribution and nothing else.
pub proof fn lemma_sum_push(s: Seq<CommentV>, x: CommentV, loc: int)
    ensures
        sum_ranks(s.push(x), loc) == sum_ranks(s, loc) + (if x.location == loc {
            x.rank
        } else {
            0
        }),
        count_at(s.push(x), loc) == count_at(s, loc) + (if x.location == loc {
            1int
        } else {
            0int
        }),
{
    assert(s.push(x).drop_last() =~= s);
    assert(s.push(x).last() == x);
}

/// Replacing one comment shifts the sums by exactly the difference of the
/// old and new contributions; every other location is untouched.
pub proof fn lemma_sum_update(s: Seq<CommentV>, k: int, c: CommentV, loc: int)
    requires
        0 <= k < s.len(),
    ensures
        sum_ranks(s.update(k, c), loc) == sum_ranks(s, loc) - (if s[k].location == loc {
            s[k].rank
        } else {
            0
        }) + (if c.location == loc {
            c.rank
        } else {
            0
        }),
        count_at(s.update(k, c), loc) == count_at(s, loc) - (if s[k].location == loc {
            1int
        } else {
            0int
        }) + (if c.location == loc {
            1int
        } else {
            0int
        }),
    decreases s.len(),
{
    let t = s.update(k, c);
    if k == s.len() - 1 {
        assert(t.drop_last() =~= s.drop_last());
        assert(t.last() == c);
        assert(s.last() == s[k]);
    } else {
        assert(t.drop_last() =~= s.drop_last().update(k, c));
        assert(t.last() == s.last());
        lemma_sum_update(s.drop_last(), k, c, loc);
        assert(s.drop_last()[k] == s[k]);
    }
}

/// A location no comment references sums to zero.
pub proof fn lemma_sum_absent(s: Seq<CommentV>, loc: int)
    requires
        forall|k: int| 0 <= k < s.len() ==> (#[trigger] s[k]).location != loc,
    ensures
        sum_ranks(s, loc) == 0,
        count_at(s, loc) == 0,
    decreases s.len(),
{
    if s.len() > 0 {
        assert(s.last() == s[s.len() - 1]);
        assert(forall|k: int| 0 <= k < s.drop_last().len()
            ==> (#[trigger] s.drop_last()[k]).location != loc);
        lemma_sum_absent(s.drop_last(), loc);
    }
}

/// The running values stay within what an `i64` holds.
pub proof fn lemma_sum_bounds(s: Seq<CommentV>, loc: int)
    requires
        forall|k: int| 0 <= k < s.len()
            ==> -0x8000_0000 <= (#[trigger] s[k]).rank <= 0x7fff_ffff,
    ensures
        -0x8000_0000 * s.len() <= sum_ranks(s, loc) <= 0x7fff_ffff * s.len(),
        0 <= count_at(s, loc) <= s.len(),
    decreases s.len(),
{
    if s.len() > 0 {
        assert(s.last() == s[s.len() - 1]);
        assert(forall|k: int| 0 <= k < s.drop_last().len()
            ==> -0x8000_0000 <= (#[trigger] s.drop_last()[k]).rank <= 0x7fff_ffff);
        lemma_sum_bounds(s.drop_last(), loc);
    }
}

/// Whether some user row carries this id.
pub open spec fn has_user_id(users: Seq<UserV>, id: int) -> bool {
    exists|j: int| 0 <= j < users.len() && (#[trigger] users[j]).id == id
}

/// Whether some upload row carries this id.
pub open spec fn has_upload_id(uploads: Seq<UploadV>, id: int) -> bool {
    exists|j: int| 0 <= j < uploads.len() && (#[trigger] uploads[j]).id == id
}

/// All of the library's tables, plus the id counter every insert draws
/// from. One store stands for the transactional state one operation sees.
pub struct Store {
    pub users: Vec<User>,
    pub locations: Vec<Location>,
    pub uploads: Vec<Upload>,
    pub location_upload_rels: Vec<LocationUploadRel>,
    pub equipments: Vec<Equipment>,
    pub comments: Vec<Comment>,
    pub rank_aggregations: Vec<RankAggregation>,
    pub memories: Vec<Memory>,
    pub memory_upload_rels: Vec<MemoryUploadRel>,
    pub playings: Vec<Playing>,
    pub eatings: Vec<Eating>,
    pub playings_uploads: Vec<PlayingsUpload>,
    pub eatings_uploads: Vec<EatingsUpload>,
    pub next_id: i32,
}

impl Store {
    pub open spec fn users_v(self) -> Seq<UserV> {
        views_of(self.users@)
    }

    pub open spec fn locations_v(self) -> Seq<LocationV> {
        views_of(self.locations@)
    }

    pub open spec fn uploads_v(self) -> Seq<UploadV> {
        views_of(self.uploads@)
    }

    pub open spec fn location_upload_rels_v(self) -> Seq<LocationUploadRelV> {
        views_of(self.location_upload_rels@)
    }

    pub open spec fn equipments_v(self) -> Seq<EquipmentV> {
        views_of(self.equipments@)
    }

    pub open spec fn comments_v(self) -> Seq<CommentV> {
        views_of(self.comments@)
    }

    pub open spec fn rank_aggregations_v(self) -> Seq<RankAggregationV> {
        views_of(self.rank_aggregations@)
    }

    pub open spec fn memories_v(self) -> Seq<MemoryV> {
        views_of(self.memories@)
    }

    pub open spec fn memory_upload_rels_v(self) -> Seq<MemoryUploadRelV> {
        views_of(self.memory_upload_rels@)
    }

    pub open spec fn playings_v(self) -> Seq<PlayingV> {
        views_of(self.playings@)
    }

    pub open spec fn eatings_v(self) -> Seq<EatingV> {
        views_of(self.eatings@)
    }

    pub open spec fn playings_uploads_v(self) -> Seq<PlayingsUploadV> {
        views_of(self.playings_uploads@)
    }

    pub open spec fn eatings_uploads_v(self) -> Seq<EatingsUploadV> {
        views_of(self.eatings_uploads@)
    }

    /// Every insert draws one id, so no table outgrows the counter.
    pub open spec fn lens_ok(self) -> bool {
        &&& (self.users@.len() as int) < self.next_id as int
        &&& (self.locations@.len() as int) < self.next_id as int
        &&& (self.uploads@.len() as int) < self.next_id as int
        &&& (self.location_upload_rels@.len() as int) < self.next_id as int
        &&& (self.equipments@.len() as int) < self.next_id as int
        &&& (self.comments@.len() as int) < self.next_id as int
        &&& (self.rank_aggregations@.len() as int) < self.next_id as int
        &&& (self.memories@.len() as int) < self.next_id as int
        &&& (self.memory_upload_rels@.len() as int) < self.next_id as int
        &&& (self.playings@.len() as int) < self.next_id as int
        &&& (self.eatings@.len() as int) < self.next_id as int
        &&& (self.playings_uploads@.len() as int) < self.next_id as int
        &&& (self.eatings_uploads@.len() as int) < self.next_id as int
    }

    /// The id counter is in range and ahead of everything it has handed out.
    pub open spec fn next_ok(self) -> bool {
        &&& 1 <= self.next_id as int <= 0x7fff_ffff
        &&& self.lens_ok()
        &&& forall|k: int| 0 <= k < self.locations_v().len()
            ==> (#[trigger] self.locations_v()[k]).id < self.next_id as int
        &&& forall|i: int, j: int| 0 <= i < j < self.locations_v().len()
            ==> (#[trigger] self.locations_v()[i]).id != (#[trigger] self.locations_v()[j]).id
        &&& forall|k: int| 0 <= k < self.comments_v().len()
            ==> (#[trigger] self.comments_v()[k]).location < self.next_id as int
        &&& forall|k: int| 0 <= k < self.rank_aggregations_v().len()
            ==> (#[trigger] self.rank_aggregations_v()[k]).location_id < self.next_id as int
    }

    /// At most one comment per (user, location) pair.
    pub open spec fn comments_unique(self) -> bool {
        forall|i: int, j: int| 0 <= i < j < self.comments_v().len()
            ==> !((#[trigger] self.comments_v()[i]).user == (#[trigger] self.comments_v()[j]).user
                && self.comments_v()[i].location == self.comments_v()[j].location)
    }

    /// Phone numbers identify users.
    pub open spec fn phones_unique(self) -> bool {
        forall|i: int, j: int| 0 <= i < j < self.users_v().len()
            ==> (#[trigger] self.users_v()[i]).phone != (#[trigger] self.users_v()[j]).phone
    }

    /// Every geo-tagged row's point is representable.
    pub open spec fn coords_ok(self) -> bool {
        &&& forall|k: int| 0 <= k < self.locations_v().len() ==> geo::point_in_range(
            (#[trigger] self.locations_v()[k]).latitude, self.locations_v()[k].longitude,
        )
        &&& forall|k: int| 0 <= k < self.playings_v().len() ==> geo::point_in_range(
            (#[trigger] self.playings_v()[k]).latitude, self.playings_v()[k].longitude,
        )
        &&& forall|k: int| 0 <= k < self.eatings_v().len() ==> geo::point_in_range(
            (#[trigger] self.eatings_v()[k]).latitude, self.eatings_v()[k].longitude,
        )
    }

    /// Foreign keys the hydrator resolves do resolve.
    pub open spec fn refs_ok(self) -> bool {
        &&& forall|k: int| 0 <= k < self.locations_v().len()
            ==> has_user_id(self.users_v(), (#[trigger] self.locations_v()[k]).discoverer)
        &&& forall|k: int| 0 <= k < self.playings_v().len()
            ==> has_user_id(self.users_v(), (#[trigger] self.playings_v()[k]).discoverer)
        &&& forall|k: int| 0 <= k < self.eatings_v().len()
            ==> has_user_id(self.users_v(), (#[trigger] self.eatings_v()[k]).discoverer)
        &&& forall|k: int| 0 <= k < self.location_upload_rels_v().len()
            ==> has_upload_id(
                self.uploads_v(), (#[trigger] self.location_upload_rels_v()[k]).upload_id,
            )
        &&& forall|k: int| 0 <= k < self.memory_upload_rels_v().len()
            ==> has_upload_id(
                self.uploads_v(), (#[trigger] self.memory_upload_rels_v()[k]).upload,
            )
        &&& forall|k: int| 0 <= k < self.playings_uploads_v().len()
            ==> has_upload_id(
                self.uploads_v(), (#[trigger] self.playings_uploads_v()[k]).upload_id,
            )
        &&& forall|k: int| 0 <= k < self.eatings_uploads_v().len()
            ==> has_upload_id(
                self.uploads_v(), (#[trigger] self.eatings_uploads_v()[k]).upload_id,
            )
    }

    /// The rank aggregate invariant: every aggregate row's running total
    /// and count are exactly the sum and the number of the ranks of its
    /// location's comments — maintained incrementally by the upsert
    /// transaction, never recomputed by scan.
    pub open spec fn aggs_ok(self) -> bool {
        forall|k: int| 0 <= k < self.rank_aggregations_v().len()
            ==> (#[trigger] self.rank_aggregations_v()[k]).total == sum_ranks(
                self.comments_v(), self.rank_aggregations_v()[k].location_id,
            ) && self.rank_aggregations_v()[k].count == count_at(
                self.comments_v(), self.rank_aggregations_v()[k].location_id,
            )
    }

    /// Everything except the aggregate clause: what every table operation
    /// preserves, inside or outside a rank transaction.
    pub open spec fn wf_base(self) -> bool {
        &&& self.next_ok()
        &&& self.comments_unique()
        &&& self.phones_unique()
        &&& self.coords_ok()
        &&& self.refs_ok()
    }

    /// Full well-formedness: the state every public operation receives
    /// and hands back.
    pub open spec fn wf(self) -> bool {
        self.wf_base() && self.aggs_ok()
    }

    /// An empty store.
    pub fn new() -> (s: Store)
        ensures
            s.wf(),
            s.users@.len() == 0,
            s.locations@.len() == 0,
            s.uploads@.len() == 0,
            s.comments@.len() == 0,
            s.rank_aggregations@.len() == 0,
            s.memories@.len() == 0,
            s.next_id == 1,
            s.playings@.len() == 0,
            s.eatings@.len() == 0,
            s.equipments@.len() == 0,
    {
        Store {
            users: Vec::new(),
            locations: Vec::new(),
            uploads: Vec::new(),
            location_upload_rels: Vec::new(),
            equipments: Vec::new(),
            comments: Vec::new(),
            rank_aggregations: Vec::new(),
            memories: Vec::new(),
            memory_upload_rels: Vec::new(),
            playings: Vec::new(),
            eatings: Vec::new(),
            playings_uploads: Vec::new(),
            eatings_uploads: Vec::new(),
            next_id: 1,
        }
    }

    /// Draws the next fresh id, or fails when the id space is spent.
    pub fn alloc_id(&mut self) -> (r: Result<i32, crate::errors::Error>)
        requires
            1 <= old(self).next_id as int <= 0x7fff_ffff,
        ensures
            match r {
                Ok(id) => {
                    &&& id as int == old(self).next_id as int
                    &&& final(self).next_id as int == old(self).next_id as int + 1
                    &&& final(self).users == old(self).users
                    &&& final(self).locations == old(self).locations
                    &&& final(self).uploads == old(self).uploads
                    &&& final(self).location_upload_rels == old(self).location_upload_rels
                    &&& final(self).equipments == old(self).equipments
                    &&& final(self).comments == old(self).comments
                    &&& final(self).rank_aggregations == old(self).rank_aggregations
                    &&& final(self).memories == old(self).memories
                    &&& final(self).memory_upload_rels == old(self).memory_upload_rels
                    &&& final(self).playings == old(self).playings
                    &&& final(self).eatings == old(self).eatings
                    &&& final(self).playings_uploads == old(self).playings_uploads
                    &&& final(self).eatings_uploads == old(self).eatings_uploads
                },
                Err(e) => {
                    &&& e == crate::errors::Error::StorageError
                    &&& old(self).next_id as int == 0x7fff_ffff
                    &&& *final(self) == *old(self)
                },
            },
    {
        if self.next_id == i32::MAX {
            return Err(crate::errors::Error::StorageError);
        }
        let id = self.next_id;
        self.next_id = self.next_id + 1;
        Ok(id)
    }
}

/// The ranks the store holds are machine integers, so the sums stay
/// within what the running total's type can carry.
pub proof fn lemma_store_rank_bounds(s: &Store)
    ensures
        forall|k: int| 0 <= k < s.comments_v().len()
            ==> -0x8000_0000 <= (#[trigger] s.comments_v()[k]).rank <= 0x7fff_ffff,
{
    assert forall|k: int| 0 <= k < s.comments_v().len()
        implies -0x8000_0000 <= (#[trigger] s.comments_v()[k]).rank <= 0x7fff_ffff by {
        assert(s.comments_v()[k] == s.comments@[k]@);
    }
}

/// A user `find_keyed` locates is a member of the table.
pub proof fn lemma_first_user_is_member(s: Seq<UserV>, id: int)
    requires
        crate::hydrate::first_keyed::<User>(s, id) is Some,
    ensures
        has_user_id(s, id),
    decreases s.len(),
{
    if s.len() > 0 {
        if s[0].id == id {
        } else {
            lemma_first_user_is_member(s.drop_first(), id);
            let j = choose|j: int| 0 <= j < s.drop_first().len()
                && (#[trigger] s.drop_first()[j]).id == id;
            assert(s[j + 1].id == id);
        }
    }
}

/// When no user row carries the id, `find_keyed` finds none.
pub proof fn lemma_no_first_no_member(s: Seq<UserV>, id: int)
    requires
        crate::hydrate::first_keyed::<User>(s, id) is None,
    ensures
        !has_user_id(s, id),
    decreases s.len(),
{
    if s.len() > 0 {
        lemma_no_first_no_member(s.drop_first(), id);
        assert forall|j: int| 0 <= j < s.len() implies (#[trigger] s[j]).id != id by {
            if j > 0 {
                assert(s.drop_first()[j - 1] == s[j]);
            }
        }
    }
}

/// An upload `find_keyed` locates is a member of the table.
pub proof fn lemma_first_upload_is_member(s: Seq<UploadV>, id: int)
    requires
        crate::hydrate::first_keyed::<Upload>(s, id) is Some,
    ensures
        has_upload_id(s, id),
    decreases s.len(),
{
    if s.len() > 0 {
        if s[0].id == id {
        } else {
            lemma_first_upload_is_member(s.drop_first(), id);
            let j = choose|j: int| 0 <= j < s.drop_first().len()
                && (#[trigger] s.drop_first()[j]).id == id;
            assert(s[j + 1].id == id);
        }
    }
}

/// When no upload row carries the id, `find_keyed` finds none.
pub proof fn lemma_no_first_upload_no_member(s: Seq<UploadV>, id: int)
    requires
        crate::hydrate::first_keyed::<Upload>(s, id) is None,
    ensures
        !has_upload_id(s, id),
    decreases s.len(),
{
    if s.len() > 0 {
        lemma_no_first_upload_no_member(s.drop_first(), id);
        assert forall|j: int| 0 <= j < s.len() implies (#[trigger] s[j]).id != id by {
            if j > 0 {
                assert(s.drop_first()[j - 1] == s[j]);
            }
        }
    }
}

} // verus!
