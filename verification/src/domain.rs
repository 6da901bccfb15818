//! Entity-centred flows kept apart from the request layer: chained
//! errors, user registration and login, and the playing and eating
//! variants of the nearby listing.

pub mod eating;
pub mod error;
pub mod playing;
pub mod user;
