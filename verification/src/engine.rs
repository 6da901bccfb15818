//! The nearby query engine: one filter predicate feeds both the count and
//! the page, the page is a contiguous slice of the distance-ordered (or
//! otherwise ordered) full result, and the distance attached to each row
//! is the very value the filter and the ordering used.

use vstd::prelude::*;

use crate::geo;
use crate::geo::Point;
use crate::text;

verus! {

use vstd::multiset::Multiset;

/// The closed set of orderings offered by every listing endpoint.
#[derive(PartialEq, Eq, Structural, Clone, Copy, Debug)]
pub enum OrderBy {
    DistanceAsc,
    DistanceDesc,
    CreateOnAsc,
    CreateOnDesc,
    UpdateOnAsc,
    UpdateOnDesc,
    NameAsc,
    NameDesc,
}

impl Default for OrderBy {
    /// The default ordering of a nearby listing: nearest first.
    fn default() -> (r: Self)
        ensures
            r == OrderBy::DistanceAsc,
    {
        OrderBy::DistanceAsc
    }
}

/// The page size cap applied to every caller-supplied limit.
pub const MAX_PAGE_SIZE: i64 = 40;

/// One filter, consumed identically by the count path and the page path.
pub struct Filter {
    /// Case-insensitive substring match on the row's name or title.
    pub name: Option<String>,
    /// Equality on the row's category, where the entity has one.
    pub category: Option<i32>,
    /// Equality on the row's owner or discoverer.
    pub owner: Option<i32>,
    /// Strict lower bound on the creation instant.
    pub create_after: Option<i64>,
    /// Strict upper bound on the creation instant.
    pub create_before: Option<i64>,
    /// Center of the radius filter and of the distance ordering.
    pub center: Point,
    /// Inclusive radius, in the squared unit of `geo::dist_sq`.
    pub radius: u64,
}

pub struct FilterV {
    pub name: Option<Seq<char>>,
    pub category: Option<int>,
    pub owner: Option<int>,
    pub create_after: Option<int>,
    pub create_before: Option<int>,
    pub clat: int,
    pub clon: int,
    pub radius: int,
}

impl View for Filter {
    type V = FilterV;

    open spec fn view(&self) -> FilterV {
        FilterV {
            name: match self.name {
                Some(ref s) => Some(s@),
                None => None,
            },
            category: match self.category {
                Some(c) => Some(c as int),
                None => None,
            },
            owner: match self.owner {
                Some(o) => Some(o as int),
                None => None,
            },
            create_after: match self.create_after {
                Some(t) => Some(t as int),
                None => None,
            },
            create_before: match self.create_before {
                Some(t) => Some(t as int),
                None => None,
            },
            clat: self.center.lat as int,
            clon: self.center.lon as int,
            radius: self.radius as int,
        }
    }
}

/// A row the engine can list: every geo-tagged entity implements this,
/// exposing its identity, name, point, owner, category and timestamps.
pub trait GeoRow: View + Sized {
    spec fn vid(v: Self::V) -> int;

    spec fn vname(v: Self::V) -> Seq<char>;

    spec fn vlat(v: Self::V) -> int;

    spec fn vlon(v: Self::V) -> int;

    spec fn vcategory(v: Self::V) -> Option<int>;

    spec fn vowner(v: Self::V) -> int;

    spec fn vcreated(v: Self::V) -> int;

    spec fn vupdated(v: Self::V) -> int;

    fn id_of(&self) -> (r: i32)
        ensures
            r as int == Self::vid(self@),
    ;

    fn name_of(&self) -> (r: &str)
        ensures
            r@ == Self::vname(self@),
    ;

    fn lat_of(&self) -> (r: i64)
        ensures
            r as int == Self::vlat(self@),
    ;

    fn lon_of(&self) -> (r: i64)
        ensures
            r as int == Self::vlon(self@),
    ;

    fn category_of(&self) -> (r: Option<i32>)
        ensures
            match r {
                Some(c) => Self::vcategory(self@) == Some(c as int),
                None => Self::vcategory(self@) is None,
            },
    ;

    fn owner_of(&self) -> (r: i32)
        ensures
            r as int == Self::vowner(self@),
    ;

    fn created_of(&self) -> (r: i64)
        ensures
            r as int == Self::vcreated(self@),
    ;

    fn updated_of(&self) -> (r: i64)
        ensures
            r as int == Self::vupdated(self@),
    ;

    /// A field-for-field copy of the row.
    fn dup(&self) -> (r: Self)
        ensures
            r@ == self@,
    ;
}

/// The views of a sequence of rows.
pub open spec fn views_of<T: View>(s: Seq<T>) -> Seq<T::V> {
    s.map_values(|t: T| t@)
}

/// Every row's point lies in the representable coordinate band.
pub open spec fn rows_in_range<T: GeoRow>(vs: Seq<T::V>) -> bool {
    forall|k: int| 0 <= k < vs.len()
        ==> geo::point_in_range(T::vlat(#[trigger] vs[k]), T::vlon(vs[k]))
}

/// The single row predicate behind both the count and the page.
pub open spec fn row_ok<T: GeoRow>(f: FilterV, v: T::V) -> bool {
    &&& geo::spec_within(T::vlat(v), T::vlon(v), f.clat, f.clon, f.radius)
    &&& match f.name {
        Some(nm) => text::contains_ci(T::vname(v), nm),
        None => true,
    }
    &&& match f.category {
        Some(c) => T::vcategory(v) == Some(c),
        None => true,
    }
    &&& match f.owner {
        Some(o) => T::vowner(v) == o,
        None => true,
    }
    &&& match f.create_after {
        Some(t) => T::vcreated(v) > t,
        None => true,
    }
    &&& match f.create_before {
        Some(t) => T::vcreated(v) < t,
        None => true,
    }
}

/// The rows that pass the filter, in stored order.
pub open spec fn filtered_spec<T: GeoRow>(rows: Seq<T::V>, f: FilterV) -> Seq<T::V> {
    rows.filter(|v: T::V| row_ok::<T>(f, v))
}

/// The count query: how many rows pass the filter, independent of
/// ordering and pagination.
pub open spec fn total_spec<T: GeoRow>(rows: Seq<T::V>, f: FilterV) -> int {
    filtered_spec::<T>(rows, f).len() as int
}

/// Whether one row matches the filter; the executable side of `row_ok`.
pub fn row_matches<T: GeoRow>(r: &T, f: &Filter) -> (b: bool)
    requires
        geo::point_in_range(T::vlat(r@), T::vlon(r@)),
        geo::point_in_range(f@.clat, f@.clon),
    ensures
        b == row_ok::<T>(f@, r@),
{
    let p = Point { lat: r.lat_of(), lon: r.lon_of() };
    if !geo::within(&p, &f.center, f.radius) {
        return false;
    }
    match &f.name {
        Some(nm) => {
            if !text::contains_substring_ci(r.name_of(), nm.as_str()) {
                return false;
            }
        },
        None => {},
    }
    match f.category {
        Some(c) => {
            match r.category_of() {
                Some(rc) => {
                    if rc != c {
                        return false;
                    }
                },
                None => {
                    return false;
                },
            }
        },
        None => {},
    }
    match f.owner {
        Some(o) => {
            if r.owner_of() != o {
                return false;
            }
        },
        None => {},
    }
    match f.create_after {
        Some(t) => {
            if !(r.created_of() > t) {
                return false;
            }
        },
        None => {},
    }
    match f.create_before {
        Some(t) => {
            if !(r.created_of() < t) {
                return false;
            }
        },
        None => {},
    }
    true
}

/// Filtering a sequence extended by one element.
pub proof fn lemma_filter_push<A>(s: Seq<A>, p: spec_fn(A) -> bool, x: A)
    ensures
        s.push(x).filter(p) == if p(x) {
            s.filter(p).push(x)
        } else {
            s.filter(p)
        },
{
    assert(s.push(x).drop_last() =~= s);
    assert(s.push(x).last() == x);
    reveal_with_fuel(Seq::filter, 2);
}

/// The filter pass shared by the count query and the page query: keeps
/// exactly the rows that match, in stored order.
pub fn filter_rows<T: GeoRow>(rows: &Vec<T>, f: &Filter) -> (out: Vec<T>)
    requires
        rows_in_range::<T>(views_of(rows@)),
        geo::point_in_range(f@.clat, f@.clon),
    ensures
        views_of(out@) == filtered_spec::<T>(views_of(rows@), f@),
        rows_in_range::<T>(views_of(out@)),
{
    let mut out: Vec<T> = Vec::new();
    let mut i: usize = 0;
    proof {
        assert(views_of(rows@.subrange(0, 0)) =~= Seq::<T::V>::empty());
        assert(views_of(out@) =~= Seq::<T::V>::empty());
        assert(Seq::<T::V>::empty().filter(|v: T::V| row_ok::<T>(f@, v))
            =~= Seq::<T::V>::empty());
    }
    while i < rows.len()
        invariant
            i <= rows@.len(),
            rows_in_range::<T>(views_of(rows@)),
            geo::point_in_range(f@.clat, f@.clon),
            views_of(out@) == views_of(rows@.subrange(0, i as int)).filter(
                |v: T::V| row_ok::<T>(f@, v),
            ),
            rows_in_range::<T>(views_of(out@)),
        decreases rows@.len() - i,
    {
        let ghost pre = rows@.subrange(0, i as int);
        proof {
            assert(views_of(rows@)[i as int] == rows@[i as int]@);
            assert(geo::point_in_range(T::vlat(rows@[i as int]@), T::vlon(rows@[i as int]@)));
        }
        let keep = row_matches::<T>(&rows[i], f);
        proof {
            assert(rows@.subrange(0, i as int + 1) =~= pre.push(rows@[i as int]));
            assert(views_of(pre.push(rows@[i as int]))
                =~= views_of(pre).push(rows@[i as int]@));
            lemma_filter_push(views_of(pre), |v: T::V| row_ok::<T>(f@, v), rows@[i as int]@);
        }
        if keep {
            let x = rows[i].dup();
            let ghost old_out = out@;
            out.push(x);
            proof {
                assert(views_of(out@) =~= views_of(old_out).push(rows@[i as int]@));
                assert(rows_in_range::<T>(views_of(out@))) by {
                    assert(forall|k: int| 0 <= k < old_out.len()
                        ==> views_of(out@)[k] == views_of(old_out)[k]);
                }
            }
        }
        i = i + 1;
    }
    proof {
        assert(rows@.subrange(0, rows@.len() as int) =~= rows@);
    }
    out
}

// ------------------------------------------------------------- ordering

/// The ordering relation of one listing: the chosen key first, ascending
/// or descending, with ties broken by the row id so that the full result
/// is the same sequence on every call.
pub open spec fn row_le<T: GeoRow>(ord: OrderBy, clat: int, clon: int, a: T::V, b: T::V) -> bool {
    let tie = T::vid(a) <= T::vid(b);
    let da = geo::dist_sq(T::vlat(a), T::vlon(a), clat, clon);
    let db = geo::dist_sq(T::vlat(b), T::vlon(b), clat, clon);
    match ord {
        OrderBy::DistanceAsc => da < db || (da == db && tie),
        OrderBy::DistanceDesc => db < da || (da == db && tie),
        OrderBy::CreateOnAsc => T::vcreated(a) < T::vcreated(b)
            || (T::vcreated(a) == T::vcreated(b) && tie),
        OrderBy::CreateOnDesc => T::vcreated(b) < T::vcreated(a)
            || (T::vcreated(a) == T::vcreated(b) && tie),
        OrderBy::UpdateOnAsc => T::vupdated(a) < T::vupdated(b)
            || (T::vupdated(a) == T::vupdated(b) && tie),
        OrderBy::UpdateOnDesc => T::vupdated(b) < T::vupdated(a)
            || (T::vupdated(a) == T::vupdated(b) && tie),
        OrderBy::NameAsc => text::lex_lt(T::vname(a), T::vname(b))
            || (T::vname(a) == T::vname(b) && tie),
        OrderBy::NameDesc => text::lex_lt(T::vname(b), T::vname(a))
            || (T::vname(a) == T::vname(b) && tie),
    }
}

/// `row_le` for a fixed ordering and center, as a binary relation.
pub open spec fn le_of<T: GeoRow>(ord: OrderBy, clat: int, clon: int) -> spec_fn(T::V, T::V) -> bool {
    |a: T::V, b: T::V| row_le::<T>(ord, clat, clon, a, b)
}

/// The comparator is defined for every pair of rows.
pub proof fn lemma_row_le_connected<T: GeoRow>(ord: OrderBy, clat: int, clon: int, a: T::V, b: T::V)
    ensures
        row_le::<T>(ord, clat, clon, a, b) || row_le::<T>(ord, clat, clon, b, a),
{
    match ord {
        OrderBy::NameAsc => {
            text::lemma_lex_lt_connected(T::vname(a), T::vname(b));
        },
        OrderBy::NameDesc => {
            text::lemma_lex_lt_connected(T::vname(a), T::vname(b));
        },
        _ => {},
    }
}

/// The comparator chains: what precedes a row precedes what the row precedes.
pub proof fn lemma_row_le_transitive<T: GeoRow>(
    ord: OrderBy, clat: int, clon: int, a: T::V, b: T::V, c: T::V,
)
    requires
        row_le::<T>(ord, clat, clon, a, b),
        row_le::<T>(ord, clat, clon, b, c),
    ensures
        row_le::<T>(ord, clat, clon, a, c),
{
    match ord {
        OrderBy::NameAsc => {
            let na = T::vname(a);
            let nb = T::vname(b);
            let nc = T::vname(c);
            if text::lex_lt(na, nb) && text::lex_lt(nb, nc) {
                text::lemma_lex_lt_transitive(na, nb, nc);
            }
        },
        OrderBy::NameDesc => {
            let na = T::vname(a);
            let nb = T::vname(b);
            let nc = T::vname(c);
            if text::lex_lt(nc, nb) && text::lex_lt(nb, na) {
                text::lemma_lex_lt_transitive(nc, nb, na);
            }
        },
        _ => {},
    }
}

/// Decides `row_le` on two rows.
fn le_exec<T: GeoRow>(a: &T, b: &T, ord: OrderBy, center: &Point) -> (r: bool)
    requires
        geo::point_in_range(T::vlat(a@), T::vlon(a@)),
        geo::point_in_range(T::vlat(b@), T::vlon(b@)),
        geo::point_in_range(center.lat as int, center.lon as int),
    ensures
        r == row_le::<T>(ord, center.lat as int, center.lon as int, a@, b@),
{
    match ord {
        OrderBy::DistanceAsc | OrderBy::DistanceDesc => {
            let pa = Point { lat: a.lat_of(), lon: a.lon_of() };
            let pb = Point { lat: b.lat_of(), lon: b.lon_of() };
            let da = geo::distance(&pa, center);
            let db = geo::distance(&pb, center);
            let asc = ord == OrderBy::DistanceAsc;
            if da == db {
                a.id_of() <= b.id_of()
            } else if asc {
                da < db
            } else {
                db < da
            }
        },
        OrderBy::CreateOnAsc | OrderBy::CreateOnDesc => {
            let ka = a.created_of();
            let kb = b.created_of();
            let asc = ord == OrderBy::CreateOnAsc;
            if ka == kb {
                a.id_of() <= b.id_of()
            } else if asc {
                ka < kb
            } else {
                kb < ka
            }
        },
        OrderBy::UpdateOnAsc | OrderBy::UpdateOnDesc => {
            let ka = a.updated_of();
            let kb = b.updated_of();
            let asc = ord == OrderBy::UpdateOnAsc;
            if ka == kb {
                a.id_of() <= b.id_of()
            } else if asc {
                ka < kb
            } else {
                kb < ka
            }
        },
        OrderBy::NameAsc | OrderBy::NameDesc => {
            let na = a.name_of();
            let nb = b.name_of();
            let asc = ord == OrderBy::NameAsc;
            proof {
                text::lemma_lex_lt_irreflexive(na@);
                text::lemma_lex_lt_irreflexive(nb@);
                if text::lex_lt(na@, nb@) && text::lex_lt(nb@, na@) {
                    text::lemma_lex_lt_transitive(na@, nb@, na@);
                }
            }
            if text::str_lt(na, nb) {
                asc
            } else if text::str_lt(nb, na) {
                !asc
            } else {
                proof {
                    text::lemma_lex_lt_connected(na@, nb@);
                }
                a.id_of() <= b.id_of()
            }
        },
    }
}

/// A row inserted into an already ordered sequence, before the first
/// element it precedes.
pub open spec fn insert_le<V>(le: spec_fn(V, V) -> bool, x: V, s: Seq<V>) -> Seq<V>
    decreases s.len(),
{
    if s.len() == 0 {
        seq![x]
    } else if le(x, s[0]) {
        seq![x] + s
    } else {
        seq![s[0]] + insert_le(le, x, s.drop_first())
    }
}

/// The full ordered result: every row inserted in turn. This is the
/// sequence of which each page is a contiguous slice.
pub open spec fn sort_le<V>(le: spec_fn(V, V) -> bool, s: Seq<V>) -> Seq<V>
    decreases s.len(),
{
    if s.len() == 0 {
        Seq::<V>::empty()
    } else {
        insert_le(le, s.last(), sort_le(le, s.drop_last()))
    }
}

/// Where `insert_le` puts the new row: at the first position whose
/// element the new row precedes.
proof fn lemma_insert_le_at<V>(le: spec_fn(V, V) -> bool, x: V, s: Seq<V>, p: int)
    requires
        0 <= p <= s.len(),
        forall|k: int| 0 <= k < p ==> !le(x, #[trigger] s[k]),
        p < s.len() ==> le(x, s[p]),
    ensures
        insert_le(le, x, s) == s.subrange(0, p) + seq![x] + s.subrange(p, s.len() as int),
    decreases s.len(),
{
    if s.len() == 0 {
        assert(insert_le(le, x, s) =~= s.subrange(0, p) + seq![x] + s.subrange(p, s.len() as int));
    } else if p == 0 {
        assert(le(x, s[0]));
        assert(s.subrange(0, 0) =~= Seq::<V>::empty());
        assert(s.subrange(0, s.len() as int) =~= s);
        assert(insert_le(le, x, s) =~= s.subrange(0, 0) + seq![x] + s.subrange(0, s.len() as int));
    } else {
        assert(!le(x, s[0]));
        let t = s.drop_first();
        assert(forall|k: int| 0 <= k < p - 1 ==> !le(x, #[trigger] t[k]));
        lemma_insert_le_at(le, x, t, p - 1);
        assert(insert_le(le, x, s) == seq![s[0]] + insert_le(le, x, t));
        assert(seq![s[0]] + (t.subrange(0, p - 1) + seq![x] + t.subrange(p - 1, t.len() as int))
            =~= s.subrange(0, p) + seq![x] + s.subrange(p, s.len() as int));
    }
}

/// The number of rows is unchanged by insertion.
pub proof fn lemma_insert_le_len<V>(le: spec_fn(V, V) -> bool, x: V, s: Seq<V>)
    ensures
        insert_le(le, x, s).len() == s.len() + 1,
    decreases s.len(),
{
    if s.len() > 0 && !le(x, s[0]) {
        lemma_insert_le_len(le, x, s.drop_first());
    }
}

/// Ordering the rows loses none and invents none.
pub proof fn lemma_sort_le_multiset<V>(le: spec_fn(V, V) -> bool, s: Seq<V>)
    ensures
        sort_le(le, s).to_multiset() == s.to_multiset(),
    decreases s.len(),
{
    broadcast use vstd::seq_lib::group_to_multiset_ensures;

    if s.len() == 0 {
        assert(sort_le(le, s) =~= s);
    } else {
        lemma_sort_le_multiset(le, s.drop_last());
        lemma_insert_le_multiset(le, s.last(), sort_le(le, s.drop_last()));
        assert(s =~= s.drop_last().push(s.last()));
        assert(s.drop_last().push(s.last()).to_multiset()
            =~= s.drop_last().to_multiset().insert(s.last()));
    }
}

proof fn lemma_insert_le_multiset<V>(le: spec_fn(V, V) -> bool, x: V, s: Seq<V>)
    ensures
        insert_le(le, x, s).to_multiset() == s.to_multiset().insert(x),
    decreases s.len(),
{
    broadcast use vstd::seq_lib::group_to_multiset_ensures;

    if s.len() == 0 {
        assert(insert_le(le, x, s) =~= Seq::<V>::empty().push(x));
        assert(Seq::<V>::empty().push(x).to_multiset()
            =~= Seq::<V>::empty().to_multiset().insert(x));
        assert(Seq::<V>::empty().to_multiset() =~= s.to_multiset());
    } else if le(x, s[0]) {
        assert(insert_le(le, x, s) =~= (seq![x] + s));
        vstd::seq_lib::lemma_multiset_commutative(seq![x], s);
        assert(seq![x].to_multiset() =~= Seq::<V>::empty().push(x).to_multiset());
        assert(Seq::<V>::empty().push(x).to_multiset()
            =~= Multiset::<V>::empty().insert(x));
        assert(Multiset::<V>::empty().insert(x).add(s.to_multiset())
            =~= s.to_multiset().insert(x));
    } else {
        let t = s.drop_first();
        lemma_insert_le_multiset(le, x, t);
        assert(insert_le(le, x, s) == seq![s[0]] + insert_le(le, x, t));
        vstd::seq_lib::lemma_multiset_commutative(seq![s[0]], insert_le(le, x, t));
        vstd::seq_lib::lemma_multiset_commutative(seq![s[0]], t);
        assert(s =~= seq![s[0]] + t);
        assert(seq![s[0]].to_multiset().add(t.to_multiset().insert(x))
            =~= (seq![s[0]].to_multiset().add(t.to_multiset())).insert(x));
    }
}

/// The ordered result is sorted by the comparator, provided the
/// comparator is connected and transitive.
pub proof fn lemma_sort_le_sorted<V>(le: spec_fn(V, V) -> bool, s: Seq<V>)
    requires
        forall|a: V, b: V| #[trigger] le(a, b) || #[trigger] le(b, a),
        forall|a: V, b: V, c: V| #[trigger] le(a, b) && #[trigger] le(b, c) ==> le(a, c),
    ensures
        vstd::relations::sorted_by(sort_le(le, s), le),
    decreases s.len(),
{
    if s.len() > 0 {
        lemma_sort_le_sorted(le, s.drop_last());
        lemma_insert_le_sorted(le, s.last(), sort_le(le, s.drop_last()));
    }
}

proof fn lemma_insert_le_sorted<V>(le: spec_fn(V, V) -> bool, x: V, s: Seq<V>)
    requires
        vstd::relations::sorted_by(s, le),
        forall|a: V, b: V| #[trigger] le(a, b) || #[trigger] le(b, a),
        forall|a: V, b: V, c: V| #[trigger] le(a, b) && #[trigger] le(b, c) ==> le(a, c),
    ensures
        vstd::relations::sorted_by(insert_le(le, x, s), le),
    decreases s.len(),
{
    if s.len() == 0 {
    } else if le(x, s[0]) {
        let out = seq![x] + s;
        assert forall|i: int, j: int| 0 <= i < j < out.len() implies le(out[i], out[j]) by {
            if i == 0 {
                if j > 1 {
                    assert(le(s[0], s[j - 1]));
                }
            } else {
                assert(le(s[i - 1], s[j - 1]));
            }
        }
    } else {
        let t = s.drop_first();
        assert forall|i: int, j: int| 0 <= i < j < t.len() implies le(t[i], t[j]) by {
            assert(le(s[i + 1], s[j + 1]));
        }
        lemma_insert_le_sorted(le, x, t);
        let inner = insert_le(le, x, t);
        let out = seq![s[0]] + inner;
        assert(insert_le(le, x, s) == out);
        lemma_insert_le_multiset(le, x, t);
        broadcast use vstd::seq_lib::group_to_multiset_ensures;
        assert forall|i: int, j: int| 0 <= i < j < out.len() implies le(out[i], out[j]) by {
            if i == 0 {
                // the head precedes x (comparator is connected and !le(x, s[0]))
                // and precedes every element of t (s was sorted).
                let y = inner[j - 1];
                assert(inner.to_multiset().contains(y));
                assert(inner.to_multiset() == t.to_multiset().insert(x));
                if y == x {
                    assert(le(s[0], x));
                } else {
                    assert(t.to_multiset().contains(y));
                    let k = choose|k: int| 0 <= k < t.len() && t[k] == y;
                    assert(le(s[0], s[k + 1]));
                }
            } else {
                assert(le(inner[i - 1], inner[j - 1]));
            }
        }
    }
}

/// One pass of insertion: the orderly merge step of the page query.
fn insert_row<T: GeoRow>(out: &mut Vec<T>, x: T, ord: OrderBy, center: &Point)
    requires
        geo::point_in_range(T::vlat(x@), T::vlon(x@)),
        rows_in_range::<T>(views_of(old(out)@)),
        geo::point_in_range(center.lat as int, center.lon as int),
    ensures
        views_of(final(out)@) == insert_le(
            le_of::<T>(ord, center.lat as int, center.lon as int),
            x@,
            views_of(old(out)@),
        ),
        rows_in_range::<T>(views_of(final(out)@)),
{
    let ghost le = le_of::<T>(ord, center.lat as int, center.lon as int);
    let ghost vs = views_of(out@);
    let mut p: usize = 0;
    let mut found = false;
    while !found && p < out.len()
        invariant
            p <= out@.len(),
            views_of(out@) == vs,
            rows_in_range::<T>(vs),
            geo::point_in_range(T::vlat(x@), T::vlon(x@)),
            geo::point_in_range(center.lat as int, center.lon as int),
            forall|k: int| 0 <= k < p ==> !row_le::<T>(
                ord, center.lat as int, center.lon as int, x@, #[trigger] vs[k],
            ),
            found ==> p < vs.len() && row_le::<T>(
                ord, center.lat as int, center.lon as int, x@, vs[p as int],
            ),
        decreases vs.len() - p + (if found { 0int } else { 1int }),
    {
        proof {
            assert(vs[p as int] == out@[p as int]@);
        }
        if le_exec(&x, &out[p], ord, center) {
            found = true;
        } else {
            p = p + 1;
        }
    }
    proof {
        assert(forall|a: T::V, b: T::V| #[trigger] le(a, b)
            == row_le::<T>(ord, center.lat as int, center.lon as int, a, b));
        lemma_insert_le_at(le, x@, vs, p as int);
    }
    let ghost old_out = out@;
    out.insert(p, x);
    proof {
        assert(views_of(out@) =~= views_of(old_out).insert(p as int, x@));
        assert(views_of(out@) =~= vs.subrange(0, p as int) + seq![x@]
            + vs.subrange(p as int, vs.len() as int));
        assert(rows_in_range::<T>(views_of(out@))) by {
            assert(forall|k: int| 0 <= k < p ==> views_of(out@)[k] == vs[k]);
            assert(views_of(out@)[p as int] == x@);
            assert(forall|k: int| p < k < views_of(out@).len()
                ==> views_of(out@)[k] == vs[k - 1]);
        }
    }
}

/// The ordering pass of the page query: the filtered rows, ordered by the
/// chosen key with ties broken by id.
pub fn sort_rows<T: GeoRow>(rows: &Vec<T>, ord: OrderBy, center: &Point) -> (out: Vec<T>)
    requires
        rows_in_range::<T>(views_of(rows@)),
        geo::point_in_range(center.lat as int, center.lon as int),
    ensures
        views_of(out@) == sort_le(
            le_of::<T>(ord, center.lat as int, center.lon as int),
            views_of(rows@),
        ),
        rows_in_range::<T>(views_of(out@)),
{
    let ghost le = le_of::<T>(ord, center.lat as int, center.lon as int);
    proof {
        assert(forall|a: T::V, b: T::V| #[trigger] le(a, b)
            == row_le::<T>(ord, center.lat as int, center.lon as int, a, b));
    }
    let mut out: Vec<T> = Vec::new();
    let mut i: usize = 0;
    proof {
        assert(views_of(rows@.subrange(0, 0)) =~= Seq::<T::V>::empty());
        assert(views_of(out@) =~= Seq::<T::V>::empty());
    }
    while i < rows.len()
        invariant
            i <= rows@.len(),
            rows_in_range::<T>(views_of(rows@)),
            geo::point_in_range(center.lat as int, center.lon as int),
            views_of(out@) == sort_le(
                le_of::<T>(ord, center.lat as int, center.lon as int),
                views_of(rows@.subrange(0, i as int)),
            ),
            rows_in_range::<T>(views_of(out@)),
        decreases rows@.len() - i,
    {
        let ghost pre = rows@.subrange(0, i as int);
        proof {
            assert(views_of(rows@)[i as int] == rows@[i as int]@);
        }
        let x = rows[i].dup();
        insert_row(&mut out, x, ord, center);
        proof {
            assert(rows@.subrange(0, i as int + 1) =~= pre.push(rows@[i as int]));
            let vs1 = views_of(pre.push(rows@[i as int]));
            assert(vs1 =~= views_of(pre).push(rows@[i as int]@));
            assert(vs1.drop_last() =~= views_of(pre));
            assert(vs1.last() == rows@[i as int]@);
            let le1 = le_of::<T>(ord, center.lat as int, center.lon as int);
            assert(sort_le(le1, vs1) == insert_le(le1, rows@[i as int]@, sort_le(le1, views_of(pre))));
        }
        i = i + 1;
    }
    proof {
        assert(rows@.subrange(0, rows@.len() as int) =~= rows@);
    }
    out
}

// ------------------------------------------------------------ the query

/// The caller-supplied limit, capped at `MAX_PAGE_SIZE`.
pub open spec fn clamped_limit(limit: int) -> int {
    if limit > MAX_PAGE_SIZE as int {
        MAX_PAGE_SIZE as int
    } else {
        limit
    }
}

/// The half-open window `[lo, hi)` of the full ordered result that one
/// page shows: a non-positive limit yields no rows, a negative offset is
/// treated as zero, and an offset at or past the total yields an empty
/// page rather than an error.
pub open spec fn page_window(limit: int, offset: int, total: int) -> (int, int) {
    let lim = clamped_limit(limit);
    if lim <= 0 {
        (0, 0)
    } else {
        let off = if offset < 0 { 0 } else { offset };
        let lo = if off > total { total } else { off };
        let hi = if off + lim > total { total } else { off + lim };
        (lo, hi)
    }
}

/// The full ordered result of a listing: the filtered rows, ordered by
/// the chosen key around the filter's own center.
pub open spec fn ordered_spec<T: GeoRow>(rows: Seq<T::V>, f: FilterV, ord: OrderBy) -> Seq<T::V> {
    sort_le(le_of::<T>(ord, f.clat, f.clon), filtered_spec::<T>(rows, f))
}

/// One page: the contiguous slice of the full ordered result selected by
/// the pagination window.
pub open spec fn page_spec<T: GeoRow>(
    rows: Seq<T::V>, f: FilterV, ord: OrderBy, limit: int, offset: int,
) -> Seq<T::V> {
    let w = page_window(limit, offset, total_spec::<T>(rows, f));
    ordered_spec::<T>(rows, f, ord).subrange(w.0, w.1)
}

/// The nearby query engine: one call answers with the requested page of
/// the filtered, ordered result, the distance of each returned row from
/// the filter's center, and the total count of matching rows. The count
/// is computed against the same predicate as the page, so it does not
/// depend on limit, offset or ordering.
pub fn run_query<T: GeoRow>(
    rows: &Vec<T>, f: &Filter, ord: OrderBy, limit: i64, offset: i64,
) -> (r: (Vec<T>, Vec<u64>, i64))
    requires
        rows_in_range::<T>(views_of(rows@)),
        geo::point_in_range(f@.clat, f@.clon),
        rows@.len() <= 0x7fff_ffff_ffff_ffff,
    ensures
        views_of(r.0@) == page_spec::<T>(views_of(rows@), f@, ord, limit as int, offset as int),
        r.2 as int == total_spec::<T>(views_of(rows@), f@),
        r.1@.len() == r.0@.len(),
        forall|k: int| 0 <= k < r.0@.len() ==> r.1@[k] as int == geo::dist_sq(
            T::vlat(#[trigger] views_of(r.0@)[k]), T::vlon(views_of(r.0@)[k]),
            f@.clat, f@.clon,
        ),
{
    let ghost rvs = views_of(rows@);
    let filtered = filter_rows(rows, f);
    proof {
        rvs.lemma_filter_len(|v: T::V| row_ok::<T>(f@, v));
    }
    let total: i64 = filtered.len() as i64;
    let sorted = sort_rows(&filtered, ord, &f.center);
    let ghost ovs = ordered_spec::<T>(rvs, f@, ord);
    proof {
        assert(views_of(sorted@) == ovs);
        lemma_insert_le_len_all(le_of::<T>(ord, f@.clat, f@.clon), views_of(filtered@));
        assert(ovs.len() == total as int);
    }
    let mut page: Vec<T> = Vec::new();
    let mut dists: Vec<u64> = Vec::new();
    let lim: i64 = if limit > MAX_PAGE_SIZE { MAX_PAGE_SIZE } else { limit };
    if lim <= 0 {
        proof {
            assert(page_window(limit as int, offset as int, total as int) == (0int, 0int));
            assert(views_of(page@) =~= ovs.subrange(0, 0));
        }
        return (page, dists, total);
    }
    let off: i64 = if offset < 0 { 0 } else { offset };
    let lo: i64 = if off > total { total } else { off };
    let hi: i64 = if (off as i128 + lim as i128) > total as i128 { total } else { off + lim };
    proof {
        assert(page_window(limit as int, offset as int, total as int)
            == (lo as int, hi as int));
    }
    let mut i: usize = lo as usize;
    proof {
        assert(views_of(page@) =~= ovs.subrange(lo as int, lo as int));
    }
    while i < hi as usize
        invariant
            0 <= lo as int <= i as int <= hi as int <= views_of(sorted@).len(),
            views_of(sorted@) == ovs,
            rows_in_range::<T>(views_of(sorted@)),
            geo::point_in_range(f@.clat, f@.clon),
            f@.clat == f.center.lat as int,
            f@.clon == f.center.lon as int,
            views_of(page@) == ovs.subrange(lo as int, i as int),
            dists@.len() == page@.len(),
            forall|k: int| 0 <= k < page@.len() ==> dists@[k] as int == geo::dist_sq(
                T::vlat(#[trigger] views_of(page@)[k]), T::vlon(views_of(page@)[k]),
                f@.clat, f@.clon,
            ),
        decreases hi as int - i as int,
    {
        let x = sorted[i].dup();
        proof {
            assert(views_of(sorted@)[i as int] == sorted@[i as int]@);
        }
        let px = Point { lat: x.lat_of(), lon: x.lon_of() };
        let d = geo::distance(&px, &f.center);
        let ghost old_page = page@;
        let ghost old_dists = dists@;
        page.push(x);
        dists.push(d);
        proof {
            assert(views_of(page@) =~= views_of(old_page).push(sorted@[i as int]@));
            assert(views_of(page@) =~= ovs.subrange(lo as int, i as int + 1));
            assert(forall|k: int| 0 <= k < old_page.len()
                ==> views_of(page@)[k] == views_of(old_page)[k]);
            assert(forall|k: int| 0 <= k < old_dists.len() ==> dists@[k] == old_dists[k]);
        }
        i = i + 1;
    }
    (page, dists, total)
}

/// Ordering the rows keeps their number.
pub proof fn lemma_insert_le_len_all<V>(le: spec_fn(V, V) -> bool, s: Seq<V>)
    ensures
        sort_le(le, s).len() == s.len(),
    decreases s.len(),
{
    if s.len() > 0 {
        lemma_insert_le_len_all(le, s.drop_last());
        lemma_insert_le_len(le, s.last(), sort_le(le, s.drop_last()));
    }
}

// ----------------------------------------------------------------- laws

/// Total invariance: for a fixed filter, the total a listing reports is
/// the length of the full result whatever ordering is chosen, so it does
/// not depend on limit, offset or ordering, which enter `page_spec` only
/// through the window.
pub proof fn lemma_total_invariance<T: GeoRow>(
    rows: Seq<T::V>, f: FilterV, ord1: OrderBy, ord2: OrderBy,
)
    ensures
        ordered_spec::<T>(rows, f, ord1).len() == total_spec::<T>(rows, f),
        ordered_spec::<T>(rows, f, ord2).len() == total_spec::<T>(rows, f),
{
    lemma_insert_le_len_all(le_of::<T>(ord1, f.clat, f.clon), filtered_spec::<T>(rows, f));
    lemma_insert_le_len_all(le_of::<T>(ord2, f.clat, f.clon), filtered_spec::<T>(rows, f));
}

/// The full ordered result is sorted by the chosen comparator, and holds
/// exactly the rows that pass the filter.
pub proof fn lemma_result_ordered<T: GeoRow>(rows: Seq<T::V>, f: FilterV, ord: OrderBy)
    ensures
        vstd::relations::sorted_by(
            ordered_spec::<T>(rows, f, ord),
            le_of::<T>(ord, f.clat, f.clon),
        ),
        ordered_spec::<T>(rows, f, ord).to_multiset()
            == filtered_spec::<T>(rows, f).to_multiset(),
{
    let le = le_of::<T>(ord, f.clat, f.clon);
    assert forall|a: T::V, b: T::V| #[trigger] le(a, b) || #[trigger] le(b, a) by {
        lemma_row_le_connected::<T>(ord, f.clat, f.clon, a, b);
    }
    assert forall|a: T::V, b: T::V, c: T::V| #[trigger] le(a, b) && #[trigger] le(b, c)
        implies le(a, c) by {
        lemma_row_le_transitive::<T>(ord, f.clat, f.clon, a, b, c);
    }
    lemma_sort_le_sorted(le, filtered_spec::<T>(rows, f));
    lemma_sort_le_multiset(le, filtered_spec::<T>(rows, f));
}

/// Pages laid end to end.
pub open spec fn pages_concat<V>(ps: Seq<Seq<V>>) -> Seq<V>
    decreases ps.len(),
{
    if ps.len() == 0 {
        Seq::<V>::empty()
    } else {
        pages_concat(ps.drop_last()) + ps.last()
    }
}

proof fn lemma_pages_prefix<T: GeoRow>(
    rows: Seq<T::V>, f: FilterV, ord: OrderBy, lim: int, m: int,
)
    requires
        0 < lim <= MAX_PAGE_SIZE as int,
        0 <= m,
    ensures
        pages_concat(Seq::new(m as nat, |k: int| page_spec::<T>(rows, f, ord, lim, k * lim)))
            == if m * lim > total_spec::<T>(rows, f) {
                ordered_spec::<T>(rows, f, ord).subrange(0, total_spec::<T>(rows, f))
            } else {
                ordered_spec::<T>(rows, f, ord).subrange(0, m * lim)
            },
    decreases m,
{
    let total = total_spec::<T>(rows, f);
    let ordered = ordered_spec::<T>(rows, f, ord);
    lemma_total_invariance::<T>(rows, f, ord, ord);
    let pagef = |k: int| page_spec::<T>(rows, f, ord, lim, k * lim);
    assert(Seq::new(m as nat, |k: int| page_spec::<T>(rows, f, ord, lim, k * lim))
        =~= Seq::new(m as nat, pagef));
    if m == 0 {
        assert(Seq::new(0, pagef).len() == 0);
        assert(pages_concat(Seq::new(0, pagef)) =~= ordered.subrange(0, 0));
    } else {
        lemma_pages_prefix::<T>(rows, f, ord, lim, m - 1);
        let ps = Seq::new(m as nat, pagef);
        assert(ps.drop_last() =~= Seq::new((m - 1) as nat, pagef));
        assert(ps.last() == page_spec::<T>(rows, f, ord, lim, (m - 1) * lim));
        assert((m - 1) * lim + lim == m * lim) by (nonlinear_arith);
        assert((m - 1) * lim >= 0) by (nonlinear_arith)
            requires m >= 1 && lim > 0;
        let a = if (m - 1) * lim > total { total } else { (m - 1) * lim };
        let b = if m * lim > total { total } else { m * lim };
        assert(page_window(lim, (m - 1) * lim, total) == (a, b));
        assert(ps.last() == ordered.subrange(a, b));
        assert(pages_concat(ps) == pages_concat(ps.drop_last()) + ps.last());
        assert(ordered.subrange(0, a) + ordered.subrange(a, b) =~= ordered.subrange(0, b));
    }
}

/// Pagination completeness: walking the offsets `0, lim, 2*lim, ...` over
/// a fixed filter and ordering and laying the pages end to end rebuilds
/// the full ordered result exactly, each row once.
pub proof fn lemma_pagination_complete<T: GeoRow>(
    rows: Seq<T::V>, f: FilterV, ord: OrderBy, lim: int, m: int,
)
    requires
        0 < lim <= MAX_PAGE_SIZE as int,
        0 <= m,
        m * lim >= total_spec::<T>(rows, f),
    ensures
        pages_concat(Seq::new(m as nat, |k: int| page_spec::<T>(rows, f, ord, lim, k * lim)))
            == ordered_spec::<T>(rows, f, ord),
{
    let total = total_spec::<T>(rows, f);
    let ordered = ordered_spec::<T>(rows, f, ord);
    lemma_total_invariance::<T>(rows, f, ord, ord);
    lemma_pages_prefix::<T>(rows, f, ord, lim, m);
    assert(ordered.subrange(0, total) =~= ordered);
    if m * lim <= total {
        assert(m * lim == total);
    }
}

/// Every row the filter keeps stood in the input.
pub proof fn lemma_filter_members<A>(s: Seq<A>, pred: spec_fn(A) -> bool)
    ensures
        forall|i: int| 0 <= i < s.filter(pred).len()
            ==> s.contains(#[trigger] s.filter(pred)[i]),
    decreases s.len(),
{
    reveal(Seq::filter);
    if s.len() > 0 {
        lemma_filter_members(s.drop_last(), pred);
        let prev = s.drop_last().filter(pred);
        assert forall|i: int| 0 <= i < s.filter(pred).len()
            implies s.contains(#[trigger] s.filter(pred)[i]) by {
            if pred(s.last()) && i == s.filter(pred).len() - 1 {
                assert(s.filter(pred)[i] == s.last());
                assert(s[s.len() - 1] == s.last());
            } else {
                assert(s.filter(pred)[i] == prev[i]);
                assert(s.drop_last().contains(prev[i]));
                let j = choose|j: int| 0 <= j < s.drop_last().len()
                    && s.drop_last()[j] == prev[i];
                assert(s[j] == prev[i]);
            }
        }
    }
}

/// Every row of a page stood in the input: the page slices the ordered
/// result, which permutes the filtered rows, which the input contains.
pub proof fn lemma_page_members<T: GeoRow>(
    rows: Seq<T::V>, f: FilterV, ord: OrderBy, limit: int, offset: int,
)
    ensures
        forall|k: int| 0 <= k < page_spec::<T>(rows, f, ord, limit, offset).len()
            ==> rows.contains(#[trigger] page_spec::<T>(rows, f, ord, limit, offset)[k]),
{
    broadcast use vstd::seq_lib::group_to_multiset_ensures;

    let filtered = filtered_spec::<T>(rows, f);
    let le = le_of::<T>(ord, f.clat, f.clon);
    let sorted = sort_le(le, filtered);
    lemma_sort_le_multiset(le, filtered);
    lemma_insert_le_len_all(le, filtered);
    let pg = page_spec::<T>(rows, f, ord, limit, offset);
    assert forall|k: int| 0 <= k < pg.len() implies rows.contains(#[trigger] pg[k]) by {
        let w = page_window(limit, offset, total_spec::<T>(rows, f));
        assert(pg[k] == sorted[w.0 + k]);
        assert(sorted.contains(sorted[w.0 + k]));
        assert(sorted.to_multiset().count(pg[k]) > 0);
        assert(filtered.contains(pg[k]));
        let j = choose|j: int| 0 <= j < filtered.len() && filtered[j] == pg[k];
        lemma_filter_members(rows, |v: T::V| row_ok::<T>(f, v));
        assert(rows.contains(filtered[j]));
    }
}

} // verus!
