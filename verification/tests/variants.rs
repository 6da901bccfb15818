use nearby::domain::eating;
use nearby::domain::playing;
use nearby::handlers::user::Tokener;
use nearby::domain::user::Registration;
use nearby::handlers::memory;
use nearby::handlers::user::RandomGenerator;
use nearby::hasher::Hasher;
use nearby::model::MemoryOrderBy;
use nearby::store::Store;

fn register_user(store: &mut Store, name: &str, phone: &str) -> i32 {
    nearby::domain::user::register(
        store,
        &RandomGenerator::new(),
        &Hasher::new(),
        Registration {
            name: name.to_owned(),
            phone: phone.to_owned(),
            password: "pw".to_owned(),
            avatar: None,
        },
        1000,
    )
    .unwrap()
}

#[test]
fn nearby_playings_hydrates_and_orders() {
    let mut store = Store::new();
    let ann = register_user(&mut store, "ann", "100");
    let img = nearby::dao::upload::insert_upload(&mut store, "p1".to_owned(), ann, 5).unwrap();
    let far = playing::create_playing(
        &mut store,
        playing::Creation {
            name: "far".to_owned(),
            latitude: 2000,
            longitude: 0,
            discoverer: ann,
            images: Vec::new(),
        },
        10,
    )
    .unwrap();
    let near = playing::create_playing(
        &mut store,
        playing::Creation {
            name: "near".to_owned(),
            latitude: 1000,
            longitude: 0,
            discoverer: ann,
            images: vec![img],
        },
        20,
    )
    .unwrap();
    let (rows, total) =
        playing::nearby_playings(&store, 0, 0, u64::MAX, 1, 10).unwrap();
    assert_eq!(total, 2);
    assert_eq!(rows[0].0.id, near);
    assert_eq!(rows[0].1.id, ann);
    assert_eq!(rows[0].2.len(), 1);
    assert_eq!(rows[0].2[0].fetch_code, "p1");
    assert_eq!(rows[0].3, 1000 * 1000);
    assert_eq!(rows[1].0.id, far);
    assert!(rows[1].2.is_empty());
}

#[test]
fn create_playing_checks_photo_ownership() {
    let mut store = Store::new();
    let ann = register_user(&mut store, "ann", "100");
    let bob = register_user(&mut store, "bob", "200");
    let his = nearby::dao::upload::insert_upload(&mut store, "his".to_owned(), bob, 5).unwrap();
    let denied = playing::create_playing(
        &mut store,
        playing::Creation {
            name: "p".to_owned(),
            latitude: 0,
            longitude: 0,
            discoverer: ann,
            images: vec![his],
        },
        10,
    );
    assert_eq!(denied.unwrap_err(), nearby::errors::Error::PermissionDenied);
    let missing = playing::create_playing(
        &mut store,
        playing::Creation {
            name: "p".to_owned(),
            latitude: 0,
            longitude: 0,
            discoverer: ann,
            images: vec![12345],
        },
        10,
    );
    assert_eq!(missing.unwrap_err(), nearby::errors::Error::NotFound);
}

#[test]
fn nearby_eatings_pages_by_page_number() {
    let mut store = Store::new();
    let ann = register_user(&mut store, "ann", "100");
    for k in 0..5i64 {
        eating::create_eating(
            &mut store,
            eating::Insertion {
                name: format!("e{}", k),
                latitude: (k + 1) * 1000,
                longitude: 0,
                discoverer: ann,
            },
            Vec::new(),
            10 + k,
        )
        .unwrap();
    }
    let (page2, total) = eating::nearby_eatings(
        &store,
        eating::NearbyQuery { latitude: 0, longitude: 0, radius: u64::MAX, page: 2, size: 2 },
    )
    .unwrap();
    assert_eq!(total, 5);
    assert_eq!(page2.len(), 2);
    assert_eq!(page2[0].0.name, "e2");
    assert_eq!(page2[1].0.name, "e3");
    assert_eq!(page2[0].1.id, ann);
    let (rows, t2) = eating::query_eating_by_distance(
        &store,
        eating::QueryByDistance {
            latitude: 0,
            longitude: 0,
            radius: 4_000_000,
            limit: 10,
            offset: 0,
        },
    )
    .unwrap();
    // only the two eatings within the squared radius pass the filter
    assert_eq!(t2, 2);
    assert_eq!(rows[0].1, 1_000_000);
    assert_eq!(rows[1].1, 4_000_000);
}

#[test]
fn memories_join_their_locations() {
    let mut store = Store::new();
    let ann = register_user(&mut store, "ann", "100");
    let loc = nearby::handlers::location::create_location(
        &mut store,
        ann,
        nearby::handlers::location::CreateRequest {
            name: "spot".to_owned(),
            latitude: 3000,
            longitude: 4000,
            category: 0,
            description: "d".to_owned(),
            images: Vec::new(),
            geo_index: 0,
        },
        100,
    )
    .unwrap();
    let img = nearby::dao::upload::insert_upload(&mut store, "m1".to_owned(), ann, 5).unwrap();
    let _m = memory::create(
        &mut store,
        ann,
        loc,
        memory::CreateBody {
            title: "sunset".to_owned(),
            content: "red".to_owned(),
            images: vec![img],
        },
        200,
    )
    .unwrap();
    let (rows, total) = memory::list(
        &mut store,
        loc,
        memory::ListParams {
            latitude: 0,
            longitude: 0,
            limit: 10,
            offset: 0,
            order_by: MemoryOrderBy::Distance,
        },
    )
    .unwrap();
    assert_eq!(total, 1);
    assert_eq!(rows[0].0.title, "sunset");
    assert_eq!(rows[0].1.id, loc);
    assert_eq!(rows[0].2.len(), 1);
    assert_eq!(rows[0].2[0].fetch_code, "m1");
    assert_eq!(rows[0].3, 3000 * 3000 + 4000 * 4000);
    // a memory on a missing location cannot be created
    let bad = memory::create(
        &mut store,
        ann,
        9999,
        memory::CreateBody {
            title: "void".to_owned(),
            content: "x".to_owned(),
            images: Vec::new(),
        },
        300,
    );
    assert_eq!(bad.unwrap_err(), nearby::errors::Error::NotFound);
    // the caller's own listing sees it, a stranger's does not
    let (mine, _locs, _dists, t_mine) = memory::my(
        &store,
        ann,
        memory::My {
            limit: 10,
            offset: 0,
            title: None,
            latitude: 0,
            longitude: 0,
            order_by: MemoryOrderBy::Distance,
        },
    )
    .unwrap();
    assert_eq!(t_mine, 1);
    assert_eq!(mine[0].title, "sunset");
    let (_others, _l2, _d2, t_other) = memory::my(
        &store,
        ann + 1,
        memory::My {
            limit: 10,
            offset: 0,
            title: None,
            latitude: 0,
            longitude: 0,
            order_by: MemoryOrderBy::Distance,
        },
    )
    .unwrap();
    assert_eq!(t_other, 0);
}

#[test]
fn near_memories_orders_by_place_distance() {
    let mut store = Store::new();
    let ann = register_user(&mut store, "ann", "100");
    let near = nearby::handlers::location::create_location(
        &mut store,
        ann,
        nearby::handlers::location::CreateRequest {
            name: "near".to_owned(),
            latitude: 1000,
            longitude: 0,
            category: 0,
            description: "d".to_owned(),
            images: Vec::new(),
            geo_index: 0,
        },
        100,
    )
    .unwrap();
    let far = nearby::handlers::location::create_location(
        &mut store,
        ann,
        nearby::handlers::location::CreateRequest {
            name: "far".to_owned(),
            latitude: 9000,
            longitude: 0,
            category: 0,
            description: "d".to_owned(),
            images: Vec::new(),
            geo_index: 0,
        },
        110,
    )
    .unwrap();
    for (loc, title, t) in [(far, "b", 200i64), (near, "a", 210i64)] {
        memory::create(
            &mut store,
            ann,
            loc,
            memory::CreateBody {
                title: title.to_owned(),
                content: "c".to_owned(),
                images: Vec::new(),
            },
            t,
        )
        .unwrap();
    }
    let (mems, locs, dists, total) = memory::near_memories(
        &store,
        memory::NearMemories { latitude: 0, longitude: 0, limit: 10, offset: 0 },
    )
    .unwrap();
    assert_eq!(total, 2);
    assert_eq!(mems[0].title, "a");
    assert_eq!(locs[0].id, near);
    assert_eq!(dists[0], 1_000_000);
    assert_eq!(mems[1].title, "b");
    assert_eq!(dists[1], 81_000_000);
}

#[test]
fn signin_round_trip() {
    struct PlainTokener;
    impl nearby::handlers::user::Tokener for PlainTokener {
        fn generate(&self, uid: i32) -> Result<String, nearby::errors::Error> {
            Ok(format!("token-{}", uid))
        }
        fn validate(&self, token: &str) -> Result<i32, nearby::errors::Error> {
            token
                .strip_prefix("token-")
                .and_then(|t| t.parse().ok())
                .ok_or(nearby::errors::Error::PermissionDenied)
        }
    }
    let mut store = Store::new();
    let uid = register_user(&mut store, "ann", "100");
    let resp = nearby::handlers::user::signin(
        &store,
        &Hasher::new(),
        &PlainTokener,
        nearby::domain::user::Login { phone: "100".to_owned(), password: "pw".to_owned() },
    )
    .unwrap();
    assert_eq!(resp.id, uid);
    assert_eq!(resp.name, "ann");
    assert_eq!(resp.token, format!("token-{}", uid));
    assert_eq!(PlainTokener.validate(&resp.token).unwrap(), uid);
}

#[test]
fn signin_maps_token_failure_to_an_infrastructure_error() {
    struct BrokenTokener;
    impl Tokener for BrokenTokener {
        fn generate(&self, _uid: i32) -> Result<String, nearby::errors::Error> {
            Err(nearby::errors::Error::NotFound)
        }
        fn validate(&self, _token: &str) -> Result<i32, nearby::errors::Error> {
            Err(nearby::errors::Error::NotFound)
        }
    }
    let mut store = Store::new();
    let _uid = register_user(&mut store, "ann", "100");
    let r = nearby::handlers::user::signin(
        &store,
        &Hasher::new(),
        &BrokenTokener,
        nearby::domain::user::Login { phone: "100".to_owned(), password: "pw".to_owned() },
    );
    assert_eq!(r.unwrap_err(), nearby::errors::Error::StorageError);
}
