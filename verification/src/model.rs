//! The data model: geo-tagged entities, their child records, and the
//! command structs that create or update them. Coordinates are scaled
//! integers (see `geo`), timestamps are integer instants supplied by the
//! caller, and every type has a mathematical view for contracts.

use vstd::prelude::*;

verus! {

// ---------------------------------------------------------------- users

#[derive(Debug)]
pub struct User {
    pub id: i32,
    pub name: String,
    pub phone: String,
    pub password: String,
    pub salt: String,
    pub create_on: i64,
    pub update_on: i64,
    pub avatar: Option<i32>,
}

pub struct UserV {
    pub id: int,
    pub name: Seq<char>,
    pub phone: Seq<char>,
    pub password: Seq<char>,
    pub salt: Seq<char>,
    pub create_on: int,
    pub update_on: int,
    pub avatar: Option<int>,
}

impl View for User {
    type V = UserV;

    open spec fn view(&self) -> UserV {
        UserV {
            id: self.id as int,
            name: self.name@,
            phone: self.phone@,
            password: self.password@,
            salt: self.salt@,
            create_on: self.create_on as int,
            update_on: self.update_on as int,
            avatar: match self.avatar {
                Some(a) => Some(a as int),
                None => None,
            },
        }
    }
}

impl User {
    pub fn dup(&self) -> (r: Self)
        ensures
            r@ == self@,
    {
        User {
            id: self.id,
            name: self.name.clone(),
            phone: self.phone.clone(),
            password: self.password.clone(),
            salt: self.salt.clone(),
            create_on: self.create_on,
            update_on: self.update_on,
            avatar: self.avatar,
        }
    }
}

/// Partial update of a user row: absent fields keep their stored value.
pub struct UserCommand {
    pub name: Option<String>,
    pub phone: Option<String>,
    pub password: Option<String>,
    pub salt: Option<String>,
    pub avatar: Option<i32>,
}

// ------------------------------------------------------------ locations

#[derive(Debug)]
pub struct Location {
    pub id: i32,
    pub name: String,
    pub latitude: i64,
    pub longitude: i64,
    pub category: i32,
    pub description: String,
    pub discoverer: i32,
    pub create_on: i64,
    pub update_on: i64,
    pub geo_index: u64,
}

pub struct LocationV {
    pub id: int,
    pub name: Seq<char>,
    pub latitude: int,
    pub longitude: int,
    pub category: int,
    pub description: Seq<char>,
    pub discoverer: int,
    pub create_on: int,
    pub update_on: int,
    pub geo_index: int,
}

impl View for Location {
    type V = LocationV;

    open spec fn view(&self) -> LocationV {
        LocationV {
            id: self.id as int,
            name: self.name@,
            latitude: self.latitude as int,
            longitude: self.longitude as int,
            category: self.category as int,
            description: self.description@,
            discoverer: self.discoverer as int,
            create_on: self.create_on as int,
            update_on: self.update_on as int,
            geo_index: self.geo_index as int,
        }
    }
}

impl Location {
    pub fn dup(&self) -> (r: Self)
        ensures
            r@ == self@,
    {
        Location {
            id: self.id,
            name: self.name.clone(),
            latitude: self.latitude,
            longitude: self.longitude,
            category: self.category,
            description: self.description.clone(),
            discoverer: self.discoverer,
            create_on: self.create_on,
            update_on: self.update_on,
            geo_index: self.geo_index,
        }
    }
}

/// The full field set supplied when a location is created.
pub struct LocationInsertion {
    pub name: String,
    pub latitude: i64,
    pub longitude: i64,
    pub category: i32,
    pub description: String,
    pub discoverer: i32,
    pub geo_index: u64,
}

/// The full field set supplied when a location is updated: an update
/// replaces every listed field at once.
pub struct LocationUpdating {
    pub name: String,
    pub latitude: i64,
    pub longitude: i64,
    pub category: i32,
    pub description: String,
    pub discoverer: i32,
    pub geo_index: u64,
}

// -------------------------------------------------------------- uploads

#[derive(Debug)]
pub struct Upload {
    pub id: i32,
    pub fetch_code: String,
    pub owner: i32,
    pub create_on: i64,
    pub update_on: i64,
}

pub struct UploadV {
    pub id: int,
    pub fetch_code: Seq<char>,
    pub owner: int,
    pub create_on: int,
    pub update_on: int,
}

impl View for Upload {
    type V = UploadV;

    open spec fn view(&self) -> UploadV {
        UploadV {
            id: self.id as int,
            fetch_code: self.fetch_code@,
            owner: self.owner as int,
            create_on: self.create_on as int,
            update_on: self.update_on as int,
        }
    }
}

impl Upload {
    pub fn dup(&self) -> (r: Self)
        ensures
            r@ == self@,
    {
        Upload {
            id: self.id,
            fetch_code: self.fetch_code.clone(),
            owner: self.owner,
            create_on: self.create_on,
            update_on: self.update_on,
        }
    }
}

/// A many-to-many row tying one location to one upload.
#[derive(PartialEq, Eq, Structural, Clone, Copy, Debug)]
pub struct LocationUploadRel {
    pub id: i32,
    pub location_id: i32,
    pub upload_id: i32,
}

pub struct LocationUploadRelV {
    pub id: int,
    pub location_id: int,
    pub upload_id: int,
}

impl View for LocationUploadRel {
    type V = LocationUploadRelV;

    open spec fn view(&self) -> LocationUploadRelV {
        LocationUploadRelV {
            id: self.id as int,
            location_id: self.location_id as int,
            upload_id: self.upload_id as int,
        }
    }
}

// ------------------------------------------------------------ equipment

#[derive(Debug)]
pub struct Equipment {
    pub id: i32,
    pub name: String,
    pub is_required: bool,
    pub usage: String,
    pub location: i32,
    pub create_on: i64,
    pub update_on: i64,
}

pub struct EquipmentV {
    pub id: int,
    pub name: Seq<char>,
    pub is_required: bool,
    pub usage: Seq<char>,
    pub location: int,
    pub create_on: int,
    pub update_on: int,
}

impl View for Equipment {
    type V = EquipmentV;

    open spec fn view(&self) -> EquipmentV {
        EquipmentV {
            id: self.id as int,
            name: self.name@,
            is_required: self.is_required,
            usage: self.usage@,
            location: self.location as int,
            create_on: self.create_on as int,
            update_on: self.update_on as int,
        }
    }
}

impl Equipment {
    pub fn dup(&self) -> (r: Self)
        ensures
            r@ == self@,
    {
        Equipment {
            id: self.id,
            name: self.name.clone(),
            is_required: self.is_required,
            usage: self.usage.clone(),
            location: self.location,
            create_on: self.create_on,
            update_on: self.update_on,
        }
    }
}

/// The field set supplied when an equipment row is created.
pub struct EquipmentCommand {
    pub name: String,
    pub is_required: bool,
    pub usage: String,
    pub location: i32,
}

// ------------------------------------------------------------- comments

#[derive(Debug)]
pub struct Comment {
    pub id: i32,
    pub rank: i32,
    pub content: String,
    pub user: i32,
    pub location: i32,
    pub create_on: i64,
    pub update_on: i64,
}

pub struct CommentV {
    pub id: int,
    pub rank: int,
    pub content: Seq<char>,
    pub user: int,
    pub location: int,
    pub create_on: int,
    pub update_on: int,
}

impl View for Comment {
    type V = CommentV;

    open spec fn view(&self) -> CommentV {
        CommentV {
            id: self.id as int,
            rank: self.rank as int,
            content: self.content@,
            user: self.user as int,
            location: self.location as int,
            create_on: self.create_on as int,
            update_on: self.update_on as int,
        }
    }
}

impl Comment {
    pub fn dup(&self) -> (r: Self)
        ensures
            r@ == self@,
    {
        Comment {
            id: self.id,
            rank: self.rank,
            content: self.content.clone(),
            user: self.user,
            location: self.location,
            create_on: self.create_on,
            update_on: self.update_on,
        }
    }
}

/// The caller-supplied part of a new comment.
pub struct CommentInsert {
    pub rank: i32,
    pub content: String,
    pub user: i32,
    pub location: i32,
}

/// The caller-supplied part of a comment upsert: rank and content.
pub struct CommentUpdate {
    pub rank: i32,
    pub content: String,
}

// ------------------------------------------------------ rank aggregates

/// The per-location running aggregate: `total` is the sum of the ranks of
/// the location's comments and `count` their number; both are maintained
/// incrementally by the upsert transaction, never recomputed by scan.
#[derive(Debug)]
pub struct RankAggregation {
    pub id: i32,
    pub total: i64,
    pub count: i64,
    pub location_id: i32,
    pub create_on: i64,
    pub update_on: i64,
}

pub struct RankAggregationV {
    pub id: int,
    pub total: int,
    pub count: int,
    pub location_id: int,
    pub create_on: int,
    pub update_on: int,
}

impl View for RankAggregation {
    type V = RankAggregationV;

    open spec fn view(&self) -> RankAggregationV {
        RankAggregationV {
            id: self.id as int,
            total: self.total as int,
            count: self.count as int,
            location_id: self.location_id as int,
            create_on: self.create_on as int,
            update_on: self.update_on as int,
        }
    }
}

impl RankAggregation {
    pub fn dup(&self) -> (r: Self)
        ensures
            r@ == self@,
            r == *self,
    {
        RankAggregation {
            id: self.id,
            total: self.total,
            count: self.count,
            location_id: self.location_id,
            create_on: self.create_on,
            update_on: self.update_on,
        }
    }
}

/// The field set for a fresh aggregate row, written at location creation.
pub struct RankAggregationInsert {
    pub total: i64,
    pub count: i64,
    pub location_id: i32,
}

/// The new running values written by one upsert transaction.
pub struct RankAggregationUpdate {
    pub total: i64,
    pub count: i64,
}

// ------------------------------------------------------------- memories

#[derive(Debug)]
pub struct Memory {
    pub id: i32,
    pub title: String,
    pub content: String,
    pub owner: i32,
    pub location: i32,
    pub create_on: i64,
    pub update_on: i64,
}

pub struct MemoryV {
    pub id: int,
    pub title: Seq<char>,
    pub content: Seq<char>,
    pub owner: int,
    pub location: int,
    pub create_on: int,
    pub update_on: int,
}

impl View for Memory {
    type V = MemoryV;

    open spec fn view(&self) -> MemoryV {
        MemoryV {
            id: self.id as int,
            title: self.title@,
            content: self.content@,
            owner: self.owner as int,
            location: self.location as int,
            create_on: self.create_on as int,
            update_on: self.update_on as int,
        }
    }
}

impl Memory {
    pub fn dup(&self) -> (r: Self)
        ensures
            r@ == self@,
    {
        Memory {
            id: self.id,
            title: self.title.clone(),
            content: self.content.clone(),
            owner: self.owner,
            location: self.location,
            create_on: self.create_on,
            update_on: self.update_on,
        }
    }
}

/// The caller-supplied fields of a memory, for create and update alike.
pub struct MemoryCommand {
    pub title: String,
    pub content: String,
    pub owner: i32,
    pub location: i32,
}

/// A many-to-many row tying one memory to one upload.
#[derive(PartialEq, Eq, Structural, Clone, Copy, Debug)]
pub struct MemoryUploadRel {
    pub id: i32,
    pub memory: i32,
    pub upload: i32,
}

pub struct MemoryUploadRelV {
    pub id: int,
    pub memory: int,
    pub upload: int,
}

impl View for MemoryUploadRel {
    type V = MemoryUploadRelV;

    open spec fn view(&self) -> MemoryUploadRelV {
        MemoryUploadRelV {
            id: self.id as int,
            memory: self.memory as int,
            upload: self.upload as int,
        }
    }
}

// ----------------------------------------------------- playings, eatings

#[derive(Debug)]
pub struct Playing {
    pub id: i32,
    pub name: String,
    pub latitude: i64,
    pub longitude: i64,
    pub discoverer: i32,
    pub create_on: i64,
    pub update_on: i64,
}

pub struct PlayingV {
    pub id: int,
    pub name: Seq<char>,
    pub latitude: int,
    pub longitude: int,
    pub discoverer: int,
    pub create_on: int,
    pub update_on: int,
}

impl View for Playing {
    type V = PlayingV;

    open spec fn view(&self) -> PlayingV {
        PlayingV {
            id: self.id as int,
            name: self.name@,
            latitude: self.latitude as int,
            longitude: self.longitude as int,
            discoverer: self.discoverer as int,
            create_on: self.create_on as int,
            update_on: self.update_on as int,
        }
    }
}

impl Playing {
    pub fn dup(&self) -> (r: Self)
        ensures
            r@ == self@,
    {
        Playing {
            id: self.id,
            name: self.name.clone(),
            latitude: self.latitude,
            longitude: self.longitude,
            discoverer: self.discoverer,
            create_on: self.create_on,
            update_on: self.update_on,
        }
    }
}

#[derive(Debug)]
pub struct Eating {
    pub id: i32,
    pub name: String,
    pub latitude: i64,
    pub longitude: i64,
    pub discoverer: i32,
    pub create_on: i64,
    pub update_on: i64,
}

pub struct EatingV {
    pub id: int,
    pub name: Seq<char>,
    pub latitude: int,
    pub longitude: int,
    pub discoverer: int,
    pub create_on: int,
    pub update_on: int,
}

impl View for Eating {
    type V = EatingV;

    open spec fn view(&self) -> EatingV {
        EatingV {
            id: self.id as int,
            name: self.name@,
            latitude: self.latitude as int,
            longitude: self.longitude as int,
            discoverer: self.discoverer as int,
            create_on: self.create_on as int,
            update_on: self.update_on as int,
        }
    }
}

impl Eating {
    pub fn dup(&self) -> (r: Self)
        ensures
            r@ == self@,
    {
        Eating {
            id: self.id,
            name: self.name.clone(),
            latitude: self.latitude,
            longitude: self.longitude,
            discoverer: self.discoverer,
            create_on: self.create_on,
            update_on: self.update_on,
        }
    }
}

/// A many-to-many row tying one playing to one upload.
#[derive(PartialEq, Eq, Structural, Clone, Copy, Debug)]
pub struct PlayingsUpload {
    pub id: i32,
    pub playing_id: i32,
    pub upload_id: i32,
}

pub struct PlayingsUploadV {
    pub id: int,
    pub playing_id: int,
    pub upload_id: int,
}

impl View for PlayingsUpload {
    type V = PlayingsUploadV;

    open spec fn view(&self) -> PlayingsUploadV {
        PlayingsUploadV {
            id: self.id as int,
            playing_id: self.playing_id as int,
            upload_id: self.upload_id as int,
        }
    }
}

/// A many-to-many row tying one eating to one upload.
#[derive(PartialEq, Eq, Structural, Clone, Copy, Debug)]
pub struct EatingsUpload {
    pub id: i32,
    pub eating_id: i32,
    pub upload_id: i32,
}

pub struct EatingsUploadV {
    pub id: int,
    pub eating_id: int,
    pub upload_id: int,
}

impl View for EatingsUpload {
    type V = EatingsUploadV;

    open spec fn view(&self) -> EatingsUploadV {
        EatingsUploadV {
            id: self.id as int,
            eating_id: self.eating_id as int,
            upload_id: self.upload_id as int,
        }
    }
}

/// The ordering keys of a memory listing.
#[derive(PartialEq, Eq, Structural, Clone, Copy, Debug)]
pub enum MemoryOrderBy {
    Distance,
    DistanceDesc,
    CreateOn,
    CreateOnDesc,
    UpdateOn,
    UpdateOnDesc,
    Title,
    TitleDesc,
}

impl Default for MemoryOrderBy {
    /// The default ordering of a memory listing: nearest first.
    fn default() -> (r: Self)
        ensures
            r == MemoryOrderBy::Distance,
    {
        MemoryOrderBy::Distance
    }
}

/// The filter and pagination of one memory listing.
pub struct MemoryQuery {
    pub latitude: i64,
    pub longitude: i64,
    pub title: Option<String>,
    pub owner: Option<i32>,
    pub location: Option<i32>,
    pub create_before: Option<i64>,
    pub create_after: Option<i64>,
    pub limit: i64,
    pub offset: i64,
    pub order_by: MemoryOrderBy,
}

} // verus!
