//! The shape every listing answers with: the page and the filter-wide
//! total.

use vstd::prelude::*;

verus! {

/// A page of rows and the total the same filter counts.
pub struct ListResponse<T> {
    pub list: Vec<T>,
    pub total: i64,
}

impl<T> ListResponse<T> {
    pub fn new(list: Vec<T>, total: i64) -> (r: Self)
        ensures
            r.list == list,
            r.total == total,
    {
        ListResponse { list, total }
    }
}

} // verus!
