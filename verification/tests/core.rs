use nearby::domain::error::Error as ChainError;
use nearby::errors::Error;
use nearby::geo;

#[test]
fn test_vicinity_number() {
    assert!(geo::vicinity_number(0) == 1);
    assert!(geo::vicinity_number(1) == 7);
    assert!(geo::vicinity_number(2) == 19);
    assert!(geo::vicinity_number(3) == 37);
    assert!(geo::vicinity_number(4) == 61);
    assert!(geo::vicinity_number(5) == 91);
    assert!(geo::vicinity_number(6) == 127);
    assert!(geo::vicinity_number(7) == 169);
}

#[test]
fn test_chained_error() {
    let e1 = ChainError::new("level 1");
    let e2 = e1.wrap("level 2");
    let e3 = e2.wrap("level 3");
    println!("{}", e3.describe());
    assert_eq!(e3.describe(), "level 3: level 2: level 1");
}

#[test]
fn radius_monotonicity() {
    // a point at squared distance exactly 5000 from the center
    let p = geo::Point { lat: 50, lon: 50 };
    let c = geo::Point { lat: 0, lon: 0 };
    assert_eq!(geo::distance(&p, &c), 5000);
    assert!(!geo::within(&p, &c, 0));
    assert!(geo::within(&p, &c, 10000));
}

#[test]
fn zero_radius_is_exact() {
    let c = geo::Point { lat: 7, lon: -3 };
    let same = geo::Point { lat: 7, lon: -3 };
    let off = geo::Point { lat: 7, lon: -2 };
    assert!(geo::within(&same, &c, 0));
    assert!(!geo::within(&off, &c, 0));
}

#[test]
fn vicinity_factor_closed_form() {
    assert_eq!(geo::vicinity_factor(0), 0);
    assert_eq!(geo::vicinity_factor(1), 1);
    assert_eq!(geo::vicinity_factor(4), 10);
    assert_eq!(geo::vicinity_factor(100), 5050);
}

#[test]
fn substring_search_is_case_insensitive() {
    assert!(nearby::text::contains_substring_ci("Central Park", "PARK"));
    assert!(nearby::text::contains_substring_ci("Central Park", "central"));
    assert!(!nearby::text::contains_substring_ci("Central Park", "lake"));
    assert!(nearby::text::contains_substring_ci("anything", ""));
}

#[test]
fn lexicographic_order_on_strings() {
    assert!(nearby::text::str_lt("alpha", "beta"));
    assert!(nearby::text::str_lt("alp", "alpha"));
    assert!(!nearby::text::str_lt("beta", "beta"));
    assert!(nearby::text::str_eq("beta", "beta"));
    assert!(!nearby::text::str_eq("beta", "Beta"));
}

#[test]
fn error_status_codes() {
    assert_eq!(Error::PermissionDenied.status_code(), 403);
    assert_eq!(Error::Conflict.status_code(), 400);
    assert_eq!(Error::ValidationError.status_code(), 400);
    assert_eq!(Error::NotFound.status_code(), 500);
    assert_eq!(Error::StorageError.status_code(), 500);
    assert_eq!(Error::ConnectionUnavailable.status_code(), 500);
    assert!(Error::Conflict.is_recoverable());
    assert!(!Error::StorageError.is_recoverable());
}
