use nearby::dao;
use nearby::domain::user::Registration;
use nearby::handlers::location;
use nearby::handlers::user::RandomGenerator;
use nearby::hasher::Hasher;
use nearby::model::EquipmentCommand;
use nearby::store::Store;

fn register_user(store: &mut Store, name: &str, phone: &str) -> i32 {
    nearby::domain::user::register(
        store,
        &RandomGenerator::new(),
        &Hasher::new(),
        Registration {
            name: name.to_owned(),
            phone: phone.to_owned(),
            password: "pw".to_owned(),
            avatar: None,
        },
        1000,
    )
    .unwrap()
}

fn make_location(store: &mut Store, uid: i32, name: &str, lat: i64) -> i32 {
    location::create_location(
        store,
        uid,
        location::CreateRequest {
            name: name.to_owned(),
            latitude: lat,
            longitude: 0,
            category: 0,
            description: "d".to_owned(),
            images: Vec::new(),
            geo_index: 0,
        },
        2000,
    )
    .unwrap()
}

#[test]
fn hydration_alignment() {
    // entity k carries exactly k children; the k-th output vector has
    // length k, in page order
    let mut store = Store::new();
    let uid = register_user(&mut store, "ann", "100");
    let mut locs = Vec::new();
    for k in 0..4i64 {
        let id = make_location(&mut store, uid, &format!("spot {}", k), (k + 1) * 1000);
        for j in 0..k {
            dao::equipment::insert_equipment(
                &mut store,
                EquipmentCommand {
                    name: format!("gear {}-{}", k, j),
                    is_required: j == 0,
                    usage: "u".to_owned(),
                    location: id,
                },
                3000,
            )
            .unwrap();
        }
        locs.push(id);
    }
    let page: Vec<nearby::model::Location> =
        store.locations.iter().map(|l| l.dup()).collect();
    let groups = dao::equipment::equipements_of_locations(&store, &page).unwrap();
    let lens: Vec<usize> = groups.iter().map(|g| g.len()).collect();
    assert_eq!(lens, vec![0, 1, 2, 3]);
    for (k, g) in groups.iter().enumerate() {
        assert!(g.iter().all(|e| e.location == locs[k]));
    }
}

#[test]
fn nearby_listing_is_fully_hydrated_and_aligned() {
    let mut store = Store::new();
    let ann = register_user(&mut store, "ann", "100");
    let bob = register_user(&mut store, "bob", "200");
    let near = make_location(&mut store, ann, "near", 1000);
    let far = make_location(&mut store, bob, "far", 2000);
    dao::equipment::insert_equipment(
        &mut store,
        EquipmentCommand {
            name: "rope".to_owned(),
            is_required: true,
            usage: "climb".to_owned(),
            location: far,
        },
        3000,
    )
    .unwrap();
    let (rows, total) = location::nearby_locations(
        &store,
        location::NearbyRequest { latitude: 0, longitude: 0, limit: 10, offset: 0 },
    )
    .unwrap();
    assert_eq!(total, 2);
    assert_eq!(rows.len(), 2);
    // nearest first, each row aligned with its own children
    assert_eq!(rows[0].0.id, near);
    assert_eq!(rows[0].1.id, ann);
    assert!(rows[0].2.is_empty());
    assert_eq!(rows[0].4, 1000 * 1000);
    assert_eq!(rows[0].5.total, 0);
    assert_eq!(rows[1].0.id, far);
    assert_eq!(rows[1].1.id, bob);
    assert_eq!(rows[1].2.len(), 1);
    assert_eq!(rows[1].2[0].name, "rope");
    assert_eq!(rows[1].4, 2000 * 2000);
}

#[test]
fn photo_sets_replace_destructively_on_update() {
    let mut store = Store::new();
    let ann = register_user(&mut store, "ann", "100");
    let u1 = dao::upload::insert_upload(&mut store, "code-1".to_owned(), ann, 10).unwrap();
    let u2 = dao::upload::insert_upload(&mut store, "code-2".to_owned(), ann, 11).unwrap();
    let u3 = dao::upload::insert_upload(&mut store, "code-3".to_owned(), ann, 12).unwrap();
    let loc = location::create_location(
        &mut store,
        ann,
        location::CreateRequest {
            name: "spot".to_owned(),
            latitude: 0,
            longitude: 0,
            category: 0,
            description: "d".to_owned(),
            images: vec![u1, u2],
            geo_index: 0,
        },
        2000,
    )
    .unwrap();
    let (_l, _u, photos) = location::get_without_coord(&store, loc).unwrap();
    let codes: Vec<&str> = photos.iter().map(|p| p.fetch_code.as_str()).collect();
    assert_eq!(codes, vec!["code-1", "code-2"]);
    location::update(
        &mut store,
        ann,
        loc,
        location::UpdateBody {
            name: "spot".to_owned(),
            description: "d".to_owned(),
            category: 0,
            images: vec![u3],
        },
        4000,
    )
    .unwrap();
    let (_l, _u, photos) = location::get_without_coord(&store, loc).unwrap();
    let codes: Vec<&str> = photos.iter().map(|p| p.fetch_code.as_str()).collect();
    assert_eq!(codes, vec!["code-3"]);
    // an update naming a photo that does not exist changes nothing
    let before = store.location_upload_rels.len();
    let missing = location::update(
        &mut store,
        ann,
        loc,
        location::UpdateBody {
            name: "spot".to_owned(),
            description: "d".to_owned(),
            category: 0,
            images: vec![987654],
        },
        5000,
    );
    assert_eq!(missing.unwrap_err(), nearby::errors::Error::NotFound);
    assert_eq!(store.location_upload_rels.len(), before);
}

#[test]
fn upload_listing_joins_and_paginates() {
    let mut store = Store::new();
    let ann = register_user(&mut store, "ann", "100");
    let mut imgs = Vec::new();
    for k in 0..5 {
        imgs.push(
            dao::upload::insert_upload(&mut store, format!("c{}", k), ann, 10 + k).unwrap(),
        );
    }
    let loc = location::create_location(
        &mut store,
        ann,
        location::CreateRequest {
            name: "spot".to_owned(),
            latitude: 0,
            longitude: 0,
            category: 0,
            description: "d".to_owned(),
            images: imgs.clone(),
            geo_index: 0,
        },
        2000,
    )
    .unwrap();
    let (page, total) = dao::upload::find(
        &store,
        dao::upload::Query { location: Some(loc), fetch_code: None, limit: 2, offset: 1 },
    )
    .unwrap();
    assert_eq!(total, 5);
    let codes: Vec<&str> = page.iter().map(|p| p.fetch_code.as_str()).collect();
    assert_eq!(codes, vec!["c1", "c2"]);
    let (by_code, t2) = dao::upload::find(
        &store,
        dao::upload::Query {
            location: Some(loc),
            fetch_code: Some("c3".to_owned()),
            limit: 10,
            offset: 0,
        },
    )
    .unwrap();
    assert_eq!(t2, 1);
    assert_eq!(by_code[0].fetch_code, "c3");
}

#[test]
fn comment_listing_is_newest_update_first() {
    let mut store = Store::new();
    let mut users = Vec::new();
    for k in 0..3 {
        users.push(register_user(&mut store, &format!("u{}", k), &format!("{}00", k + 1)));
    }
    let loc = make_location(&mut store, users[0], "spot", 1000);
    for (k, &u) in users.iter().enumerate() {
        nearby::handlers::comment::create(
            &mut store,
            u,
            loc,
            nearby::handlers::comment::Create {
                content: format!("c{}", k),
                rank: 3,
            },
            100 + k as i64,
        )
        .unwrap();
    }
    let (list, total) = nearby::handlers::comment::comments_of_location(
        &store,
        loc,
        nearby::handlers::comment::CommentsOfLocation { limit: 10, offset: 0 },
    )
    .unwrap();
    assert_eq!(total, 3);
    let contents: Vec<&str> = list.iter().map(|c| c.content.as_str()).collect();
    assert_eq!(contents, vec!["c2", "c1", "c0"]);
}

#[test]
fn comment_listing_rank_band() {
    let mut store = Store::new();
    let mut users = Vec::new();
    for k in 0..4 {
        users.push(register_user(&mut store, &format!("u{}", k), &format!("{}11", k + 1)));
    }
    let loc = make_location(&mut store, users[0], "spot", 1000);
    for (k, &u) in users.iter().enumerate() {
        nearby::handlers::comment::create(
            &mut store,
            u,
            loc,
            nearby::handlers::comment::Create {
                content: format!("c{}", k),
                rank: k as i32 + 1,
            },
            100 + k as i64,
        )
        .unwrap();
    }
    let (band, total) = dao::comment::query(
        &store,
        dao::comment::Query {
            rank_gt: Some(1),
            rank_lt: Some(4),
            location: Some(loc),
            limit: 10,
            offset: 0,
        },
    )
    .unwrap();
    assert_eq!(total, 2);
    assert!(band.iter().all(|c| c.rank == 2 || c.rank == 3));
}

#[test]
fn single_entity_hydrators_match_the_batch() {
    let mut store = Store::new();
    let ann = register_user(&mut store, "ann", "100");
    let loc = make_location(&mut store, ann, "spot", 1000);
    dao::equipment::insert_equipment(
        &mut store,
        EquipmentCommand {
            name: "rope".to_owned(),
            is_required: true,
            usage: "climb".to_owned(),
            location: loc,
        },
        10,
    )
    .unwrap();
    let (l, u, eqs, ups, d) = nearby::handlers::location::detail(&store, loc, 0, 0).unwrap();
    assert_eq!(l.id, loc);
    assert_eq!(u.id, ann);
    assert_eq!(eqs.len(), 1);
    assert!(ups.is_empty());
    assert_eq!(d, 1000 * 1000);
}

#[test]
fn memory_update_replaces_every_field_it_names() {
    let mut store = Store::new();
    let ann = register_user(&mut store, "ann", "100");
    let loc = make_location(&mut store, ann, "spot", 1000);
    let m = dao::memory::insert(
        &mut store,
        nearby::model::MemoryCommand {
            title: "before".to_owned(),
            content: "x".to_owned(),
            owner: ann,
            location: loc,
        },
        10,
    )
    .unwrap();
    let n = dao::memory::update(
        &mut store,
        m,
        nearby::model::MemoryCommand {
            title: "after".to_owned(),
            content: "y".to_owned(),
            owner: ann,
            location: loc,
        },
        20,
    )
    .unwrap();
    assert_eq!(n, 1);
    assert_eq!(store.memories[0].title, "after");
    assert_eq!(store.memories[0].create_on, 10);
    assert_eq!(store.memories[0].update_on, 20);
    let cleared = dao::memory::clear_images(&mut store, m).unwrap();
    assert_eq!(cleared, 0);
}
