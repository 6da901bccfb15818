//! The relation hydrator: given a page of parent entities, attach to each
//! parent its child rows, grouped by the parent key, aligned with the
//! page — the i-th output belongs to the i-th input, an entity without
//! children gets an empty vector, and nothing is reordered or dropped.

use vstd::prelude::*;

use crate::engine::views_of;

verus! {

/// A child row that belongs to a parent through one foreign key.
pub trait Keyed: View + Sized {
    spec fn vkey(v: Self::V) -> int;

    fn key_of(&self) -> (r: i32)
        ensures
            r as int == Self::vkey(self@),
    ;

    /// A field-for-field copy of the child row.
    fn dup(&self) -> (r: Self)
        ensures
            r@ == self@,
    ;
}

/// The children of one parent, in stored order.
pub open spec fn children_of<C: Keyed>(children: Seq<C::V>, parent: int) -> Seq<C::V>
    decreases children.len(),
{
    if children.len() == 0 {
        Seq::<C::V>::empty()
    } else {
        let rest = children_of::<C>(children.drop_last(), parent);
        if C::vkey(children.last()) == parent {
            rest.push(children.last())
        } else {
            rest
        }
    }
}

/// One batch pass groups every child under its parent: the output is
/// aligned index for index with `parents`, and the k-th vector holds
/// exactly the children keyed by the k-th parent, in stored order.
pub fn group_children<C: Keyed>(parents: &Vec<i32>, children: &Vec<C>) -> (out: Vec<Vec<C>>)
    ensures
        out@.len() == parents@.len(),
        forall|k: int| 0 <= k < parents@.len()
            ==> views_of(#[trigger] out@[k]@) == children_of::<C>(
                views_of(children@), parents@[k] as int,
            ),
{
    let mut out: Vec<Vec<C>> = Vec::new();
    let mut k: usize = 0;
    while k < parents.len()
        invariant
            k <= parents@.len(),
            out@.len() == k,
            forall|q: int| 0 <= q < k
                ==> views_of(#[trigger] out@[q]@) == children_of::<C>(
                    views_of(children@), parents@[q] as int,
                ),
        decreases parents@.len() - k,
    {
        let group = children_matching(children, parents[k]);
        out.push(group);
        k = k + 1;
    }
    out
}

/// Grouping a child sequence extended by one row.
proof fn lemma_children_push<C: Keyed>(s: Seq<C::V>, parent: int, x: C::V)
    ensures
        children_of::<C>(s.push(x), parent) == if C::vkey(x) == parent {
            children_of::<C>(s, parent).push(x)
        } else {
            children_of::<C>(s, parent)
        },
{
    assert(s.push(x).drop_last() =~= s);
    assert(s.push(x).last() == x);
}

/// The children keyed by one parent, in stored order.
pub fn children_matching<C: Keyed>(children: &Vec<C>, parent: i32) -> (out: Vec<C>)
    ensures
        views_of(out@) == children_of::<C>(views_of(children@), parent as int),
{
    let mut out: Vec<C> = Vec::new();
    let mut i: usize = 0;
    proof {
        assert(views_of(children@.subrange(0, 0)) =~= Seq::<C::V>::empty());
        assert(views_of(out@) =~= Seq::<C::V>::empty());
        assert(children_of::<C>(Seq::<C::V>::empty(), parent as int)
            =~= Seq::<C::V>::empty());
    }
    while i < children.len()
        invariant
            i <= children@.len(),
            views_of(out@) == children_of::<C>(
                views_of(children@.subrange(0, i as int)), parent as int,
            ),
        decreases children@.len() - i,
    {
        let ghost pre = children@.subrange(0, i as int);
        proof {
            assert(views_of(children@)[i as int] == children@[i as int]@);
            assert(children@.subrange(0, i as int + 1) =~= pre.push(children@[i as int]));
            assert(views_of(pre.push(children@[i as int]))
                =~= views_of(pre).push(children@[i as int]@));
            lemma_children_push::<C>(views_of(pre), parent as int, children@[i as int]@);
        }
        if children[i].key_of() == parent {
            let x = children[i].dup();
            let ghost old_out = out@;
            out.push(x);
            proof {
                assert(views_of(out@) =~= views_of(old_out).push(children@[i as int]@));
            }
        }
        i = i + 1;
    }
    proof {
        assert(children@.subrange(0, children@.len() as int) =~= children@);
    }
    out
}

// ------------------------------------------------- joins through uploads

use crate::model::{Upload, UploadV};

/// A relation row: keyed by a parent and pointing at one upload.
pub trait RefLink: Keyed {
    spec fn vref(v: Self::V) -> int;

    fn ref_of(&self) -> (r: i32)
        ensures
            r as int == Self::vref(self@),
    ;
}

/// The first upload carrying this id, in stored order.
pub open spec fn first_upload(uploads: Seq<UploadV>, id: int) -> Option<UploadV>
    decreases uploads.len(),
{
    if uploads.len() == 0 {
        None
    } else if uploads[0].id == id {
        Some(uploads[0])
    } else {
        first_upload(uploads.drop_first(), id)
    }
}

/// Scans for the first upload with the given id.
pub fn find_upload(uploads: &Vec<Upload>, id: i32) -> (r: Option<Upload>)
    ensures
        match r {
            Some(u) => first_upload(views_of(uploads@), id as int) == Some(u@),
            None => first_upload(views_of(uploads@), id as int) is None,
        },
{
    let ghost vs = views_of(uploads@);
    let mut i: usize = 0;
    proof {
        assert(vs.skip(0) =~= vs);
    }
    while i < uploads.len()
        invariant
            i <= uploads@.len(),
            vs == views_of(uploads@),
            first_upload(vs, id as int) == first_upload(vs.skip(i as int), id as int),
        decreases uploads@.len() - i,
    {
        proof {
            assert(vs.skip(i as int)[0] == vs[i as int]);
            assert(vs[i as int] == uploads@[i as int]@);
            assert(vs.skip(i as int).drop_first() =~= vs.skip(i as int + 1));
        }
        if uploads[i].id == id {
            let u = uploads[i].dup();
            return Some(u);
        }
        i = i + 1;
    }
    proof {
        assert(vs.skip(vs.len() as int).len() == 0);
    }
    None
}

/// The uploads attached to one parent through its relation rows, in the
/// relation rows' stored order; a relation row whose upload is missing
/// contributes nothing.
pub open spec fn linked_of<R: RefLink>(
    rels: Seq<R::V>, uploads: Seq<UploadV>, parent: int,
) -> Seq<UploadV>
    decreases rels.len(),
{
    if rels.len() == 0 {
        Seq::<UploadV>::empty()
    } else {
        let rest = linked_of::<R>(rels.drop_last(), uploads, parent);
        if R::vkey(rels.last()) == parent {
            match first_upload(uploads, R::vref(rels.last())) {
                Some(u) => rest.push(u),
                None => rest,
            }
        } else {
            rest
        }
    }
}

/// Resolves the uploads of one parent through its relation rows.
pub fn linked_matching<R: RefLink>(
    rels: &Vec<R>, uploads: &Vec<Upload>, parent: i32,
) -> (out: Vec<Upload>)
    ensures
        views_of(out@) == linked_of::<R>(
            views_of(rels@), views_of(uploads@), parent as int,
        ),
{
    let mut out: Vec<Upload> = Vec::new();
    let mut i: usize = 0;
    proof {
        assert(views_of(rels@.subrange(0, 0)) =~= Seq::<R::V>::empty());
        assert(views_of(out@) =~= Seq::<UploadV>::empty());
    }
    while i < rels.len()
        invariant
            i <= rels@.len(),
            views_of(out@) == linked_of::<R>(
                views_of(rels@.subrange(0, i as int)), views_of(uploads@), parent as int,
            ),
        decreases rels@.len() - i,
    {
        let ghost pre = rels@.subrange(0, i as int);
        proof {
            assert(views_of(rels@)[i as int] == rels@[i as int]@);
            assert(rels@.subrange(0, i as int + 1) =~= pre.push(rels@[i as int]));
            assert(views_of(pre.push(rels@[i as int])) =~= views_of(pre).push(rels@[i as int]@));
            assert(views_of(pre.push(rels@[i as int])).drop_last() =~= views_of(pre));
        }
        if rels[i].key_of() == parent {
            match find_upload(uploads, rels[i].ref_of()) {
                Some(u) => {
                    let ghost uv = u@;
                    let ghost old_out = out@;
                    out.push(u);
                    proof {
                        assert(views_of(out@) =~= views_of(old_out).push(uv));
                    }
                },
                None => {},
            }
        }
        i = i + 1;
    }
    proof {
        assert(rels@.subrange(0, rels@.len() as int) =~= rels@);
    }
    out
}

/// One batch pass resolves the uploads of a whole page of parents.
pub fn group_linked<R: RefLink>(
    parents: &Vec<i32>, rels: &Vec<R>, uploads: &Vec<Upload>,
) -> (out: Vec<Vec<Upload>>)
    ensures
        out@.len() == parents@.len(),
        forall|k: int| 0 <= k < parents@.len()
            ==> views_of(#[trigger] out@[k]@) == linked_of::<R>(
                views_of(rels@), views_of(uploads@), parents@[k] as int,
            ),
{
    let mut out: Vec<Vec<Upload>> = Vec::new();
    let mut k: usize = 0;
    while k < parents.len()
        invariant
            k <= parents@.len(),
            out@.len() == k,
            forall|q: int| 0 <= q < k
                ==> views_of(#[trigger] out@[q]@) == linked_of::<R>(
                    views_of(rels@), views_of(uploads@), parents@[q] as int,
                ),
        decreases parents@.len() - k,
    {
        let group = linked_matching(rels, uploads, parents[k]);
        out.push(group);
        k = k + 1;
    }
    out
}

// ------------------------------------------------ find, count and remove

/// The first child carrying this key, in stored order.
pub open spec fn first_keyed<C: Keyed>(s: Seq<C::V>, key: int) -> Option<C::V>
    decreases s.len(),
{
    if s.len() == 0 {
        None
    } else if C::vkey(s[0]) == key {
        Some(s[0])
    } else {
        first_keyed::<C>(s.drop_first(), key)
    }
}

/// How many rows carry this key.
pub open spec fn count_keyed<C: Keyed>(s: Seq<C::V>, key: int) -> int
    decreases s.len(),
{
    if s.len() == 0 {
        0
    } else {
        count_keyed::<C>(s.drop_last(), key) + (if C::vkey(s.last()) == key {
            1int
        } else {
            0int
        })
    }
}

/// The rows that do not carry this key, in stored order.
pub open spec fn without_key<C: Keyed>(s: Seq<C::V>, key: int) -> Seq<C::V>
    decreases s.len(),
{
    if s.len() == 0 {
        Seq::<C::V>::empty()
    } else {
        let rest = without_key::<C>(s.drop_last(), key);
        if C::vkey(s.last()) == key {
            rest
        } else {
            rest.push(s.last())
        }
    }
}

/// Every row that survives the removal stood in the input sequence.
pub proof fn lemma_without_key_membership<C: Keyed>(s: Seq<C::V>, key: int)
    ensures
        forall|i: int| 0 <= i < without_key::<C>(s, key).len()
            ==> exists|j: int| 0 <= j < s.len()
                && #[trigger] without_key::<C>(s, key)[i] == s[j],
    decreases s.len(),
{
    if s.len() > 0 {
        lemma_without_key_membership::<C>(s.drop_last(), key);
        assert forall|i: int| 0 <= i < without_key::<C>(s, key).len()
            implies exists|j: int| 0 <= j < s.len()
                && #[trigger] without_key::<C>(s, key)[i] == s[j] by {
            let prev = without_key::<C>(s.drop_last(), key);
            if i < prev.len() {
                assert(without_key::<C>(s, key)[i] == prev[i]);
                let j = choose|j: int| 0 <= j < s.drop_last().len() && prev[i] == s.drop_last()[j];
                assert(without_key::<C>(s, key)[i] == s[j]);
            } else {
                assert(without_key::<C>(s, key)[i] == s.last());
                assert(without_key::<C>(s, key)[i] == s[s.len() - 1]);
            }
        }
    }
}

/// Scans for the first row with the given key.
pub fn find_keyed<C: Keyed>(rows: &Vec<C>, key: i32) -> (r: Option<C>)
    ensures
        match r {
            Some(c) => first_keyed::<C>(views_of(rows@), key as int) == Some(c@),
            None => first_keyed::<C>(views_of(rows@), key as int) is None,
        },
{
    let ghost vs = views_of(rows@);
    let mut i: usize = 0;
    proof {
        assert(vs.skip(0) =~= vs);
    }
    while i < rows.len()
        invariant
            i <= rows@.len(),
            vs == views_of(rows@),
            first_keyed::<C>(vs, key as int) == first_keyed::<C>(vs.skip(i as int), key as int),
        decreases rows@.len() - i,
    {
        proof {
            assert(vs.skip(i as int)[0] == vs[i as int]);
            assert(vs[i as int] == rows@[i as int]@);
            assert(vs.skip(i as int).drop_first() =~= vs.skip(i as int + 1));
        }
        if rows[i].key_of() == key {
            let c = rows[i].dup();
            return Some(c);
        }
        i = i + 1;
    }
    proof {
        assert(vs.skip(vs.len() as int).len() == 0);
    }
    None
}

/// Counts the rows with the given key.
pub fn count_matching<C: Keyed>(rows: &Vec<C>, key: i32) -> (r: usize)
    ensures
        r as int == count_keyed::<C>(views_of(rows@), key as int),
{
    let mut n: usize = 0;
    let mut i: usize = 0;
    proof {
        assert(views_of(rows@.subrange(0, 0)) =~= Seq::<C::V>::empty());
    }
    while i < rows.len()
        invariant
            i <= rows@.len(),
            n <= i,
            n as int == count_keyed::<C>(views_of(rows@.subrange(0, i as int)), key as int),
        decreases rows@.len() - i,
    {
        let ghost pre = rows@.subrange(0, i as int);
        proof {
            assert(views_of(rows@)[i as int] == rows@[i as int]@);
            assert(rows@.subrange(0, i as int + 1) =~= pre.push(rows@[i as int]));
            assert(views_of(pre.push(rows@[i as int])) =~= views_of(pre).push(rows@[i as int]@));
            assert(views_of(pre.push(rows@[i as int])).drop_last() =~= views_of(pre));
        }
        if rows[i].key_of() == key {
            n = n + 1;
        }
        i = i + 1;
    }
    proof {
        assert(rows@.subrange(0, rows@.len() as int) =~= rows@);
    }
    n
}

/// Removes every row with the given key, keeping the others in order.
pub fn remove_keyed<C: Keyed>(rows: &Vec<C>, key: i32) -> (out: Vec<C>)
    ensures
        views_of(out@) == without_key::<C>(views_of(rows@), key as int),
{
    let mut out: Vec<C> = Vec::new();
    let mut i: usize = 0;
    proof {
        assert(views_of(rows@.subrange(0, 0)) =~= Seq::<C::V>::empty());
        assert(views_of(out@) =~= Seq::<C::V>::empty());
    }
    while i < rows.len()
        invariant
            i <= rows@.len(),
            views_of(out@) == without_key::<C>(
                views_of(rows@.subrange(0, i as int)), key as int,
            ),
        decreases rows@.len() - i,
    {
        let ghost pre = rows@.subrange(0, i as int);
        proof {
            assert(views_of(rows@)[i as int] == rows@[i as int]@);
            assert(rows@.subrange(0, i as int + 1) =~= pre.push(rows@[i as int]));
            assert(views_of(pre.push(rows@[i as int])) =~= views_of(pre).push(rows@[i as int]@));
            assert(views_of(pre.push(rows@[i as int])).drop_last() =~= views_of(pre));
        }
        if rows[i].key_of() != key {
            let x = rows[i].dup();
            let ghost old_out = out@;
            out.push(x);
            proof {
                assert(views_of(out@) =~= views_of(old_out).push(rows@[i as int]@));
            }
        }
        i = i + 1;
    }
    proof {
        assert(rows@.subrange(0, rows@.len() as int) =~= rows@);
    }
    out
}

/// What `first_keyed` finds carries the key it was asked for.
pub proof fn lemma_first_keyed_key<C: Keyed>(s: Seq<C::V>, key: int)
    requires
        first_keyed::<C>(s, key) is Some,
    ensures
        C::vkey(first_keyed::<C>(s, key)->Some_0) == key,
    decreases s.len(),
{
    if s.len() > 0 {
        if C::vkey(s[0]) == key {
        } else {
            lemma_first_keyed_key::<C>(s.drop_first(), key);
        }
    }
}

/// What `first_keyed` returns stood in the sequence.
pub proof fn lemma_first_keyed_member<C: Keyed>(s: Seq<C::V>, key: int)
    requires
        first_keyed::<C>(s, key) is Some,
    ensures
        exists|j: int| 0 <= j < s.len()
            && #[trigger] s[j] == first_keyed::<C>(s, key)->Some_0,
    decreases s.len(),
{
    if s.len() > 0 {
        if C::vkey(s[0]) == key {
        } else {
            lemma_first_keyed_member::<C>(s.drop_first(), key);
            let j = choose|j: int| 0 <= j < s.drop_first().len()
                && #[trigger] s.drop_first()[j] == first_keyed::<C>(s.drop_first(), key)->Some_0;
            assert(s[j + 1] == s.drop_first()[j]);
        }
    }
}

/// Removal never lengthens a table.
pub proof fn lemma_without_key_len<C: Keyed>(s: Seq<C::V>, key: int)
    ensures
        without_key::<C>(s, key).len() <= s.len(),
    decreases s.len(),
{
    if s.len() > 0 {
        lemma_without_key_len::<C>(s.drop_last(), key);
    }
}

} // verus!
