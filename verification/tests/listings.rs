use nearby::dao;
use nearby::domain::user::Registration;
use nearby::engine::OrderBy;
use nearby::handlers::location;
use nearby::handlers::user::RandomGenerator;
use nearby::hasher::Hasher;
use nearby::store::Store;

fn register_user(store: &mut Store, name: &str, phone: &str) -> i32 {
    nearby::domain::user::register(
        store,
        &RandomGenerator::new(),
        &Hasher::new(),
        Registration {
            name: name.to_owned(),
            phone: phone.to_owned(),
            password: "pw".to_owned(),
            avatar: None,
        },
        1000,
    )
    .unwrap()
}

/// Lays out `n` locations on a line, spaced far enough apart that no two
/// fall within the duplicate radius, nearest first.
fn line_of_locations(store: &mut Store, uid: i32, n: usize) -> Vec<i32> {
    let mut ids = Vec::new();
    for k in 0..n {
        let id = location::create_location(
            store,
            uid,
            location::CreateRequest {
                name: format!("spot {:02}", k),
                latitude: (k as i64 + 1) * 1000,
                longitude: 0,
                category: (k % 3) as i32,
                description: "d".to_owned(),
                images: Vec::new(),
                geo_index: 0,
            },
            2000 + k as i64,
        )
        .unwrap();
        ids.push(id);
    }
    ids
}

fn query_ids(store: &Store, limit: i64, offset: i64, order_by: OrderBy) -> (Vec<i32>, i64) {
    let ((locs, _dists), total) = dao::location::query(
        store,
        dao::location::Query {
            name: None,
            latitude: 0,
            longitude: 0,
            radius: u64::MAX,
            category: None,
            owner: None,
            limit,
            offset,
            order_by,
        },
    )
    .unwrap();
    (locs.iter().map(|l| l.id).collect(), total)
}

#[test]
fn total_is_invariant_under_pagination_and_ordering() {
    let mut store = Store::new();
    let uid = register_user(&mut store, "ann", "100");
    let _ids = line_of_locations(&mut store, uid, 12);
    let (_page1, total1) = query_ids(&store, 10, 0, OrderBy::DistanceAsc);
    let (_page2, total2) = query_ids(&store, 5, 5, OrderBy::NameDesc);
    assert_eq!(total1, 12);
    assert_eq!(total2, 12);
}

#[test]
fn pages_concatenate_to_the_full_result() {
    let mut store = Store::new();
    let uid = register_user(&mut store, "ann", "100");
    let _ids = line_of_locations(&mut store, uid, 25);
    let (full, total) = query_ids(&store, 40, 0, OrderBy::DistanceAsc);
    assert_eq!(total, 25);
    assert_eq!(full.len(), 25);
    let mut stitched: Vec<i32> = Vec::new();
    for page in 0..3 {
        let (ids, t) = query_ids(&store, 10, page * 10, OrderBy::DistanceAsc);
        assert_eq!(t, 25);
        stitched.extend(ids);
    }
    assert_eq!(stitched, full);
    let mut dedup = stitched.clone();
    dedup.sort();
    dedup.dedup();
    assert_eq!(dedup.len(), 25);
}

#[test]
fn page_is_a_window_of_the_ordered_result() {
    let mut store = Store::new();
    let uid = register_user(&mut store, "ann", "100");
    let ids = line_of_locations(&mut store, uid, 6);
    // nearest first: creation order was nearest first already
    let (page, _t) = query_ids(&store, 3, 1, OrderBy::DistanceAsc);
    assert_eq!(page, vec![ids[1], ids[2], ids[3]]);
    // descending distance reverses the line
    let (desc, _t) = query_ids(&store, 40, 0, OrderBy::DistanceDesc);
    let mut expect = ids.clone();
    expect.reverse();
    assert_eq!(desc, expect);
    // name ordering is lexicographic on the padded names
    let (by_name, _t) = query_ids(&store, 40, 0, OrderBy::NameAsc);
    assert_eq!(by_name, ids);
}

#[test]
fn limit_is_clamped_and_bad_windows_are_empty() {
    let mut store = Store::new();
    let uid = register_user(&mut store, "ann", "100");
    let _ids = line_of_locations(&mut store, uid, 45);
    let (page, total) = query_ids(&store, 1000, 0, OrderBy::DistanceAsc);
    assert_eq!(total, 45);
    assert_eq!(page.len(), 40);
    let (none, t2) = query_ids(&store, 0, 0, OrderBy::DistanceAsc);
    assert_eq!(t2, 45);
    assert!(none.is_empty());
    let (neg, _t) = query_ids(&store, -3, 0, OrderBy::DistanceAsc);
    assert!(neg.is_empty());
    let (past, t3) = query_ids(&store, 10, 100, OrderBy::DistanceAsc);
    assert_eq!(t3, 45);
    assert!(past.is_empty());
}

#[test]
fn name_filter_is_a_case_insensitive_substring() {
    let mut store = Store::new();
    let uid = register_user(&mut store, "ann", "100");
    let _ids = line_of_locations(&mut store, uid, 12);
    let ((locs, _d), total) = dao::location::query(
        &store,
        dao::location::Query {
            name: Some("SPOT 0".to_owned()),
            latitude: 0,
            longitude: 0,
            radius: u64::MAX,
            category: None,
            owner: None,
            limit: 40,
            offset: 0,
            order_by: OrderBy::DistanceAsc,
        },
    )
    .unwrap();
    assert_eq!(total, 10);
    assert!(locs.iter().all(|l| l.name.starts_with("spot 0")));
}

#[test]
fn category_and_owner_filters_are_equalities() {
    let mut store = Store::new();
    let ann = register_user(&mut store, "ann", "100");
    let bob = register_user(&mut store, "bob", "200");
    let _mine = line_of_locations(&mut store, ann, 6);
    let other = location::create_location(
        &mut store,
        bob,
        location::CreateRequest {
            name: "his".to_owned(),
            latitude: -5000,
            longitude: 0,
            category: 9,
            description: "d".to_owned(),
            images: Vec::new(),
            geo_index: 0,
        },
        9000,
    )
    .unwrap();
    let ((cat, _d), t) = dao::location::query(
        &store,
        dao::location::Query {
            name: None,
            latitude: 0,
            longitude: 0,
            radius: u64::MAX,
            category: Some(9),
            owner: None,
            limit: 40,
            offset: 0,
            order_by: OrderBy::DistanceAsc,
        },
    )
    .unwrap();
    assert_eq!(t, 1);
    assert_eq!(cat[0].id, other);
    let (mine, t2) = {
        let r = location::my_locations(
            &store,
            ann,
            location::MyLocations {
                latitude: 0,
                longitude: 0,
                limit: 40,
                offset: 0,
                order_by: OrderBy::DistanceAsc,
            },
        )
        .unwrap();
        (r.0, r.1)
    };
    assert_eq!(t2, 6);
    assert!(mine.iter().all(|(l, _)| l.discoverer == ann));
}

#[test]
fn distances_match_the_metric_used_for_ordering() {
    let mut store = Store::new();
    let uid = register_user(&mut store, "ann", "100");
    let _ids = line_of_locations(&mut store, uid, 4);
    let ((locs, dists), _t) = dao::location::query(
        &store,
        dao::location::Query {
            name: None,
            latitude: 0,
            longitude: 0,
            radius: u64::MAX,
            category: None,
            owner: None,
            limit: 40,
            offset: 0,
            order_by: OrderBy::DistanceAsc,
        },
    )
    .unwrap();
    for (l, d) in locs.iter().zip(dists.iter()) {
        let dl = l.latitude as i128;
        let dn = l.longitude as i128;
        assert_eq!(*d as i128, dl * dl + dn * dn);
    }
    let mut sorted = dists.clone();
    sorted.sort();
    assert_eq!(sorted, dists);
}
