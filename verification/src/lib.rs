//! A location-discovery library: geo-tagged entities searched by distance
//! from a center point, with filtered, ordered, paginated listings, batch
//! hydration of child collections, and an incrementally maintained rank
//! aggregate per location.
//!
//! The layers, leaf to root: `geo` holds the one distance metric that
//! both the radius filter and the ordering use; `text` the substring and
//! ordering predicates on names; `engine` the query engine — one filter
//! feeds the count and the page, and the page is a contiguous slice of
//! the ordered full result; `hydrate` attaches child rows to a page,
//! aligned index for index; `store` the relational state with its
//! invariant, whose aggregate clause ties every rank aggregate to the
//! sum and count of its location's comments; `dao` the per-table reads
//! and writes; `handlers` and `domain` the flows a caller sees,
//! including the rank transaction that keeps the aggregate clause true
//! at every exit.

use vstd::prelude::*;

pub mod dao;
pub mod domain;
pub mod engine;
pub mod errors;
pub mod geo;
pub mod hasher;
pub mod handlers;
pub mod hydrate;
pub mod store;
pub mod model;
pub mod response;
pub mod rows;
pub mod storer;
pub mod text;
pub mod token;

verus! {

} // verus!
