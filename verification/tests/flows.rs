use nearby::dao;
use nearby::domain::user::{Login, Registration};
use nearby::errors::Error;
use nearby::handlers::comment;
use nearby::handlers::location;
use nearby::handlers::user::{Hasher as FakeHasher, RandomGenerator};
use nearby::hasher::Hasher;
use nearby::store::Store;

fn register_user(store: &mut Store, name: &str, phone: &str) -> i32 {
    nearby::domain::user::register(
        store,
        &RandomGenerator::new(),
        &Hasher::new(),
        Registration {
            name: name.to_owned(),
            phone: phone.to_owned(),
            password: "secret".to_owned(),
            avatar: None,
        },
        1000,
    )
    .unwrap()
}

fn make_location(store: &mut Store, uid: i32, name: &str, lat: i64, lon: i64) -> i32 {
    location::create_location(
        store,
        uid,
        location::CreateRequest {
            name: name.to_owned(),
            latitude: lat,
            longitude: lon,
            category: 1,
            description: "a place".to_owned(),
            images: Vec::new(),
            geo_index: 0,
        },
        2000,
    )
    .unwrap()
}

#[test]
fn register_stores_a_digest_not_the_password() {
    let mut store = Store::new();
    let _uid = register_user(&mut store, "ann", "100");
    let row = &store.users[0];
    // the digest is rendered as 64 hex characters and is not the raw password
    assert_eq!(row.password.len(), 64);
    assert_ne!(row.password, "secret");
    assert!(row.password.chars().all(|c| c.is_ascii_hexdigit()));
    // the salt is 64 printable characters
    assert_eq!(row.salt.len(), 64);
    assert!(row.salt.chars().all(|c| (33..127).contains(&(c as u32))));
}

#[test]
fn login_succeeds_only_with_the_registered_password() {
    let mut store = Store::new();
    let uid = register_user(&mut store, "ann", "100");
    let ok = nearby::domain::user::login(
        &store,
        &Hasher::new(),
        Login { phone: "100".to_owned(), password: "secret".to_owned() },
    )
    .unwrap();
    assert_eq!(ok.id, uid);
    assert_eq!(ok.name, "ann");
    let bad = nearby::domain::user::login(
        &store,
        &Hasher::new(),
        Login { phone: "100".to_owned(), password: "wrong".to_owned() },
    );
    assert_eq!(bad.unwrap_err(), Error::PermissionDenied);
    let missing = nearby::domain::user::login(
        &store,
        &Hasher::new(),
        Login { phone: "999".to_owned(), password: "secret".to_owned() },
    );
    assert_eq!(missing.unwrap_err(), Error::NotFound);
}

#[test]
fn duplicate_phone_is_a_conflict() {
    let mut store = Store::new();
    let _ = register_user(&mut store, "ann", "100");
    let again = nearby::domain::user::register(
        &mut store,
        &RandomGenerator::new(),
        &FakeHasher::new(),
        Registration {
            name: "bob".to_owned(),
            phone: "100".to_owned(),
            password: "other".to_owned(),
            avatar: None,
        },
        1500,
    );
    assert_eq!(again.unwrap_err(), Error::Conflict);
}

#[test]
fn duplicate_location_is_a_conflict() {
    let mut store = Store::new();
    let uid = register_user(&mut store, "ann", "100");
    let _l = make_location(&mut store, uid, "first", 1000, 1000);
    let again = location::create_location(
        &mut store,
        uid,
        location::CreateRequest {
            name: "second".to_owned(),
            latitude: 1100,
            longitude: 1000,
            category: 1,
            description: "too close".to_owned(),
            images: Vec::new(),
            geo_index: 0,
        },
        2500,
    );
    assert_eq!(again.unwrap_err(), Error::Conflict);
}

#[test]
fn update_by_a_stranger_is_denied() {
    let mut store = Store::new();
    let owner = register_user(&mut store, "ann", "100");
    let other = register_user(&mut store, "bob", "200");
    let loc = make_location(&mut store, owner, "mine", 0, 0);
    let denied = location::update(
        &mut store,
        other,
        loc,
        location::UpdateBody {
            name: "stolen".to_owned(),
            description: "x".to_owned(),
            category: 2,
            images: Vec::new(),
        },
        3000,
    );
    assert_eq!(denied.unwrap_err(), Error::PermissionDenied);
    // the owner may update, and the photo set is replaced exactly
    let n = location::update(
        &mut store,
        owner,
        loc,
        location::UpdateBody {
            name: "renamed".to_owned(),
            description: "y".to_owned(),
            category: 2,
            images: Vec::new(),
        },
        3100,
    )
    .unwrap();
    assert_eq!(n, 1);
    assert_eq!(store.locations[0].name, "renamed");
    assert_eq!(store.locations[0].update_on, 3100);
    assert_eq!(store.locations[0].create_on, 2000);
}

#[test]
fn missing_location_is_not_found() {
    let mut store = Store::new();
    let uid = register_user(&mut store, "ann", "100");
    let r = location::detail(&store, 424242, 0, 0);
    assert_eq!(r.unwrap_err(), Error::NotFound);
    let u = location::update(
        &mut store,
        uid,
        424242,
        location::UpdateBody {
            name: "n".to_owned(),
            description: "d".to_owned(),
            category: 0,
            images: Vec::new(),
        },
        3000,
    );
    assert_eq!(u.unwrap_err(), Error::NotFound);
}

#[test]
fn upload_find_rejects_an_empty_filter() {
    let store = Store::new();
    let r = dao::upload::find(
        &store,
        dao::upload::Query { location: None, fetch_code: None, limit: 10, offset: 0 },
    );
    assert_eq!(r.unwrap_err(), Error::ValidationError);
}

#[test]
fn comment_create_and_conflict() {
    let mut store = Store::new();
    let ann = register_user(&mut store, "ann", "100");
    let loc = make_location(&mut store, ann, "spot", 0, 0);
    let id = comment::create(
        &mut store,
        ann,
        loc,
        comment::Create { content: "nice".to_owned(), rank: 4 },
        4000,
    )
    .unwrap();
    assert!(id > 0);
    // a second plain insert for the same pair is the caller-visible conflict
    let again = comment::create(
        &mut store,
        ann,
        loc,
        comment::Create { content: "again".to_owned(), rank: 5 },
        4100,
    );
    assert_eq!(again.unwrap_err(), Error::Conflict);
    // a comment on a location without an aggregate row is not found
    let nowhere = comment::create(
        &mut store,
        ann,
        99999,
        comment::Create { content: "void".to_owned(), rank: 1 },
        4200,
    );
    assert_eq!(nowhere.unwrap_err(), Error::NotFound);
}

fn agg_of(store: &Store, loc: i32) -> (i64, i64) {
    let a = dao::rank_aggregation::get_for_update(store, loc).unwrap();
    (a.total, a.count)
}

#[test]
fn scenario_two_users_then_a_reupsert() {
    let mut store = Store::new();
    let a = register_user(&mut store, "a", "100");
    let b = register_user(&mut store, "b", "200");
    let l = make_location(&mut store, a, "L", 1000000, 1000000);
    assert_eq!(agg_of(&store, l), (0, 0));
    comment::create(&mut store, a, l, comment::Create { content: "x".to_owned(), rank: 4 }, 10)
        .unwrap();
    assert_eq!(agg_of(&store, l), (4, 1));
    comment::create(&mut store, b, l, comment::Create { content: "y".to_owned(), rank: 2 }, 20)
        .unwrap();
    assert_eq!(agg_of(&store, l), (6, 2));
    let n = comment::upsert(
        &mut store,
        a,
        l,
        nearby::model::CommentUpdate { rank: 1, content: "z".to_owned() },
        30,
    )
    .unwrap();
    assert_eq!(n, 1);
    assert_eq!(agg_of(&store, l), (3, 2));
}

#[test]
fn idempotent_reupsert_nets_the_last_rank() {
    let mut store = Store::new();
    let a = register_user(&mut store, "a", "100");
    let l = make_location(&mut store, a, "L", 0, 0);
    let first = comment::upsert(
        &mut store,
        a,
        l,
        nearby::model::CommentUpdate { rank: 2, content: "first".to_owned() },
        10,
    )
    .unwrap();
    assert_eq!(first, 0);
    assert_eq!(agg_of(&store, l), (2, 1));
    let second = comment::upsert(
        &mut store,
        a,
        l,
        nearby::model::CommentUpdate { rank: 5, content: "second".to_owned() },
        20,
    )
    .unwrap();
    assert_eq!(second, 1);
    assert_eq!(agg_of(&store, l), (5, 1));
    // only one comment for the pair, carrying the last rank and content
    assert_eq!(store.comments.len(), 1);
    assert_eq!(store.comments[0].rank, 5);
    assert_eq!(store.comments[0].content, "second");
}

#[test]
fn concurrent_upserts_serialize_to_the_same_aggregate() {
    // the same three upserts in two lock-grant orders land on one answer
    let mut users_in_order: Vec<i32> = Vec::new();
    let mut store = Store::new();
    let mut first_loc = 0;
    for (k, order) in [[0usize, 1, 2], [2, 0, 1]].iter().enumerate() {
        let mut s = Store::new();
        let a = register_user(&mut s, "a", "100");
        let b = register_user(&mut s, "b", "200");
        let c = register_user(&mut s, "c", "300");
        let l = make_location(&mut s, a, "L", 0, 0);
        let ids = [a, b, c];
        let mut seq: Vec<i32> = Vec::new();
        for &i in order.iter() {
            seq.push(ids[i]);
        }
        comment::upsert_many(&mut s, &seq, l, 3, "same", 50).unwrap();
        assert_eq!(agg_of(&s, l), (9, 3));
        if k == 0 {
            users_in_order = seq;
            store = s;
            first_loc = l;
        }
    }
    assert_eq!(users_in_order.len(), 3);
    assert_eq!(agg_of(&store, first_loc), (9, 3));
}

#[test]
fn user_listing_filters_by_equality() {
    let mut store = Store::new();
    let ann = register_user(&mut store, "ann", "100");
    let _bob = register_user(&mut store, "bob", "200");
    let _ann2 = register_user(&mut store, "ann", "300");
    let (both, t) = dao::user::query_user(
        &store,
        nearby::domain::user::Query { name: Some("ann".to_owned()), phone: None },
    )
    .unwrap();
    assert_eq!(t, 2);
    assert!(both.iter().all(|u| u.name == "ann"));
    let (one, t2) = dao::user::query_user(
        &store,
        nearby::domain::user::Query { name: Some("ann".to_owned()), phone: Some("100".to_owned()) },
    )
    .unwrap();
    assert_eq!(t2, 1);
    assert_eq!(one[0].id, ann);
    let fetched = dao::user::get_user(&store, ann).unwrap();
    assert_eq!(fetched.phone, "100");
    assert_eq!(
        dao::user::get_user(&store, 777).unwrap_err(),
        Error::NotFound
    );
}

#[test]
fn partial_profile_update_merges_fields() {
    let mut store = Store::new();
    let ann = register_user(&mut store, "ann", "100");
    let _bob = register_user(&mut store, "bob", "200");
    let n = dao::user::update(
        &mut store,
        ann,
        nearby::model::UserCommand {
            name: Some("anne".to_owned()),
            phone: None,
            password: None,
            salt: None,
            avatar: Some(7),
        },
        5000,
    )
    .unwrap();
    assert_eq!(n, 1);
    assert_eq!(store.users[0].name, "anne");
    assert_eq!(store.users[0].phone, "100");
    assert_eq!(store.users[0].avatar, Some(7));
    assert_eq!(store.users[0].update_on, 5000);
    // taking another user's phone is the uniqueness conflict
    let taken = dao::user::update(
        &mut store,
        ann,
        nearby::model::UserCommand {
            name: None,
            phone: Some("200".to_owned()),
            password: None,
            salt: None,
            avatar: None,
        },
        5100,
    );
    assert_eq!(taken.unwrap_err(), Error::Conflict);
    // a missing id writes nothing
    let none = dao::user::update(
        &mut store,
        777,
        nearby::model::UserCommand {
            name: Some("ghost".to_owned()),
            phone: None,
            password: None,
            salt: None,
            avatar: None,
        },
        5200,
    )
    .unwrap();
    assert_eq!(none, 0);
}

#[test]
fn creation_by_an_unknown_caller_is_not_found() {
    let mut store = Store::new();
    let _ann = register_user(&mut store, "ann", "100");
    let ghost_caller = 4242;
    let r = location::create_location(
        &mut store,
        ghost_caller,
        location::CreateRequest {
            name: "nowhere".to_owned(),
            latitude: 0,
            longitude: 0,
            category: 0,
            description: "d".to_owned(),
            images: Vec::new(),
            geo_index: 0,
        },
        2000,
    );
    assert_eq!(r.unwrap_err(), Error::NotFound);
    assert!(store.locations.is_empty());
}
