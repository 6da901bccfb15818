//! How each entity presents itself to the query engine and the hydrator:
//! the listing key fields of locations, playings, eatings and memories,
//! and the grouping key of every child table.

use vstd::prelude::*;

use crate::engine::GeoRow;
use crate::hydrate::Keyed;
use crate::model::{
    Comment, CommentV, Eating, EatingsUpload, EatingV, Equipment, EquipmentV, Location,
    LocationUploadRel, LocationV, Memory, MemoryUploadRel, MemoryV, Playing, PlayingV,
    PlayingsUpload, RankAggregation, User, UserV,
};

verus! {

impl GeoRow for Location {
    open spec fn vid(v: LocationV) -> int {
        v.id
    }

    open spec fn vname(v: LocationV) -> Seq<char> {
        v.name
    }

    open spec fn vlat(v: LocationV) -> int {
        v.latitude
    }

    open spec fn vlon(v: LocationV) -> int {
        v.longitude
    }

    open spec fn vcategory(v: LocationV) -> Option<int> {
        Some(v.category)
    }

    open spec fn vowner(v: LocationV) -> int {
        v.discoverer
    }

    open spec fn vcreated(v: LocationV) -> int {
        v.create_on
    }

    open spec fn vupdated(v: LocationV) -> int {
        v.update_on
    }

    fn id_of(&self) -> i32 {
        self.id
    }

    fn name_of(&self) -> &str {
        self.name.as_str()
    }

    fn lat_of(&self) -> i64 {
        self.latitude
    }

    fn lon_of(&self) -> i64 {
        self.longitude
    }

    fn category_of(&self) -> Option<i32> {
        Some(self.category)
    }

    fn owner_of(&self) -> i32 {
        self.discoverer
    }

    fn created_of(&self) -> i64 {
        self.create_on
    }

    fn updated_of(&self) -> i64 {
        self.update_on
    }

    fn dup(&self) -> Location {
        Location::dup(self)
    }
}

impl GeoRow for Playing {
    open spec fn vid(v: PlayingV) -> int {
        v.id
    }

    open spec fn vname(v: PlayingV) -> Seq<char> {
        v.name
    }

    open spec fn vlat(v: PlayingV) -> int {
        v.latitude
    }

    open spec fn vlon(v: PlayingV) -> int {
        v.longitude
    }

    open spec fn vcategory(v: PlayingV) -> Option<int> {
        None
    }

    open spec fn vowner(v: PlayingV) -> int {
        v.discoverer
    }

    open spec fn vcreated(v: PlayingV) -> int {
        v.create_on
    }

    open spec fn vupdated(v: PlayingV) -> int {
        v.update_on
    }

    fn id_of(&self) -> i32 {
        self.id
    }

    fn name_of(&self) -> &str {
        self.name.as_str()
    }

    fn lat_of(&self) -> i64 {
        self.latitude
    }

    fn lon_of(&self) -> i64 {
        self.longitude
    }

    fn category_of(&self) -> Option<i32> {
        None
    }

    fn owner_of(&self) -> i32 {
        self.discoverer
    }

    fn created_of(&self) -> i64 {
        self.create_on
    }

    fn updated_of(&self) -> i64 {
        self.update_on
    }

    fn dup(&self) -> Playing {
        Playing::dup(self)
    }
}

impl GeoRow for Eating {
    open spec fn vid(v: EatingV) -> int {
        v.id
    }

    open spec fn vname(v: EatingV) -> Seq<char> {
        v.name
    }

    open spec fn vlat(v: EatingV) -> int {
        v.latitude
    }

    open spec fn vlon(v: EatingV) -> int {
        v.longitude
    }

    open spec fn vcategory(v: EatingV) -> Option<int> {
        None
    }

    open spec fn vowner(v: EatingV) -> int {
        v.discoverer
    }

    open spec fn vcreated(v: EatingV) -> int {
        v.create_on
    }

    open spec fn vupdated(v: EatingV) -> int {
        v.update_on
    }

    fn id_of(&self) -> i32 {
        self.id
    }

    fn name_of(&self) -> &str {
        self.name.as_str()
    }

    fn lat_of(&self) -> i64 {
        self.latitude
    }

    fn lon_of(&self) -> i64 {
        self.longitude
    }

    fn category_of(&self) -> Option<i32> {
        None
    }

    fn owner_of(&self) -> i32 {
        self.discoverer
    }

    fn created_of(&self) -> i64 {
        self.create_on
    }

    fn updated_of(&self) -> i64 {
        self.update_on
    }

    fn dup(&self) -> Eating {
        Eating::dup(self)
    }
}

/// A memory joined with the location it sits on; the listing point comes
/// from the location, everything else from the memory.
pub struct MemoryPlace {
    pub memory: Memory,
    pub place: Location,
}

pub struct MemoryPlaceV {
    pub memory: MemoryV,
    pub place: LocationV,
}

impl View for MemoryPlace {
    type V = MemoryPlaceV;

    open spec fn view(&self) -> MemoryPlaceV {
        MemoryPlaceV { memory: self.memory@, place: self.place@ }
    }
}

impl GeoRow for MemoryPlace {
    open spec fn vid(v: MemoryPlaceV) -> int {
        v.memory.id
    }

    open spec fn vname(v: MemoryPlaceV) -> Seq<char> {
        v.memory.title
    }

    open spec fn vlat(v: MemoryPlaceV) -> int {
        v.place.latitude
    }

    open spec fn vlon(v: MemoryPlaceV) -> int {
        v.place.longitude
    }

    open spec fn vcategory(v: MemoryPlaceV) -> Option<int> {
        Some(v.memory.location)
    }

    open spec fn vowner(v: MemoryPlaceV) -> int {
        v.memory.owner
    }

    open spec fn vcreated(v: MemoryPlaceV) -> int {
        v.memory.create_on
    }

    open spec fn vupdated(v: MemoryPlaceV) -> int {
        v.memory.update_on
    }

    fn id_of(&self) -> i32 {
        self.memory.id
    }

    fn name_of(&self) -> &str {
        self.memory.title.as_str()
    }

    fn lat_of(&self) -> i64 {
        self.place.latitude
    }

    fn lon_of(&self) -> i64 {
        self.place.longitude
    }

    fn category_of(&self) -> Option<i32> {
        Some(self.memory.location)
    }

    fn owner_of(&self) -> i32 {
        self.memory.owner
    }

    fn created_of(&self) -> i64 {
        self.memory.create_on
    }

    fn updated_of(&self) -> i64 {
        self.memory.update_on
    }

    fn dup(&self) -> MemoryPlace {
        MemoryPlace { memory: self.memory.dup(), place: self.place.dup() }
    }
}

impl Keyed for Equipment {
    open spec fn vkey(v: EquipmentV) -> int {
        v.location
    }

    fn key_of(&self) -> i32 {
        self.location
    }

    fn dup(&self) -> Equipment {
        Equipment::dup(self)
    }
}

impl Keyed for LocationUploadRel {
    open spec fn vkey(v: <LocationUploadRel as View>::V) -> int {
        v.location_id
    }

    fn key_of(&self) -> i32 {
        self.location_id
    }

    fn dup(&self) -> LocationUploadRel {
        *self
    }
}

impl Keyed for MemoryUploadRel {
    open spec fn vkey(v: <MemoryUploadRel as View>::V) -> int {
        v.memory
    }

    fn key_of(&self) -> i32 {
        self.memory
    }

    fn dup(&self) -> MemoryUploadRel {
        *self
    }
}

impl Keyed for PlayingsUpload {
    open spec fn vkey(v: <PlayingsUpload as View>::V) -> int {
        v.playing_id
    }

    fn key_of(&self) -> i32 {
        self.playing_id
    }

    fn dup(&self) -> PlayingsUpload {
        *self
    }
}

impl Keyed for EatingsUpload {
    open spec fn vkey(v: <EatingsUpload as View>::V) -> int {
        v.eating_id
    }

    fn key_of(&self) -> i32 {
        self.eating_id
    }

    fn dup(&self) -> EatingsUpload {
        *self
    }
}

impl Keyed for RankAggregation {
    open spec fn vkey(v: <RankAggregation as View>::V) -> int {
        v.location_id
    }

    fn key_of(&self) -> i32 {
        self.location_id
    }

    fn dup(&self) -> RankAggregation {
        RankAggregation::dup(self)
    }
}

/// Comments group under their location for per-location listings.
impl Keyed for Comment {
    open spec fn vkey(v: CommentV) -> int {
        v.location
    }

    fn key_of(&self) -> i32 {
        self.location
    }

    fn dup(&self) -> Comment {
        Comment::dup(self)
    }
}

/// Users group under their own id, which lets a page of discoverer ids be
/// hydrated with the matching user rows.
impl Keyed for User {
    open spec fn vkey(v: UserV) -> int {
        v.id
    }

    fn key_of(&self) -> i32 {
        self.id
    }

    fn dup(&self) -> User {
        User::dup(self)
    }
}

/// Uploads group under their own id, which resolves relation rows.
impl Keyed for crate::model::Upload {
    open spec fn vkey(v: <crate::model::Upload as View>::V) -> int {
        v.id
    }

    fn key_of(&self) -> i32 {
        self.id
    }

    fn dup(&self) -> crate::model::Upload {
        crate::model::Upload::dup(self)
    }
}

impl crate::hydrate::RefLink for LocationUploadRel {
    open spec fn vref(v: <LocationUploadRel as View>::V) -> int {
        v.upload_id
    }

    fn ref_of(&self) -> i32 {
        self.upload_id
    }
}

impl crate::hydrate::RefLink for MemoryUploadRel {
    open spec fn vref(v: <MemoryUploadRel as View>::V) -> int {
        v.upload
    }

    fn ref_of(&self) -> i32 {
        self.upload
    }
}

impl crate::hydrate::RefLink for PlayingsUpload {
    open spec fn vref(v: <PlayingsUpload as View>::V) -> int {
        v.upload_id
    }

    fn ref_of(&self) -> i32 {
        self.upload_id
    }
}

impl crate::hydrate::RefLink for EatingsUpload {
    open spec fn vref(v: <EatingsUpload as View>::V) -> int {
        v.upload_id
    }

    fn ref_of(&self) -> i32 {
        self.upload_id
    }
}

/// Locations are found by their own id.
impl Keyed for Location {
    open spec fn vkey(v: LocationV) -> int {
        v.id
    }

    fn key_of(&self) -> i32 {
        self.id
    }

    fn dup(&self) -> Location {
        Location::dup(self)
    }
}

/// Memories are found by their own id.
impl Keyed for Memory {
    open spec fn vkey(v: MemoryV) -> int {
        v.id
    }

    fn key_of(&self) -> i32 {
        self.id
    }

    fn dup(&self) -> Memory {
        Memory::dup(self)
    }
}

/// Comments run through the engine for per-location listings: their
/// location stands as the owner key, and they carry no point of their
/// own, so every comment sits at the origin and any center or radius
/// admits it.
impl GeoRow for Comment {
    open spec fn vid(v: CommentV) -> int {
        v.id
    }

    open spec fn vname(v: CommentV) -> Seq<char> {
        v.content
    }

    open spec fn vlat(v: CommentV) -> int {
        0
    }

    open spec fn vlon(v: CommentV) -> int {
        0
    }

    open spec fn vcategory(v: CommentV) -> Option<int> {
        None
    }

    open spec fn vowner(v: CommentV) -> int {
        v.location
    }

    open spec fn vcreated(v: CommentV) -> int {
        v.create_on
    }

    open spec fn vupdated(v: CommentV) -> int {
        v.update_on
    }

    fn id_of(&self) -> i32 {
        self.id
    }

    fn name_of(&self) -> &str {
        self.content.as_str()
    }

    fn lat_of(&self) -> i64 {
        0
    }

    fn lon_of(&self) -> i64 {
        0
    }

    fn category_of(&self) -> Option<i32> {
        None
    }

    fn owner_of(&self) -> i32 {
        self.location
    }

    fn created_of(&self) -> i64 {
        self.create_on
    }

    fn updated_of(&self) -> i64 {
        self.update_on
    }

    fn dup(&self) -> Comment {
        Comment::dup(self)
    }
}

} // verus!
