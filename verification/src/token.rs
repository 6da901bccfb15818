//! The authenticated caller's identity, as the ownership checks see it:
//! an opaque integer supplied by the boundary.

use vstd::prelude::*;

verus! {

/// The id of the authenticated caller.
#[derive(PartialEq, Eq, Structural, Clone, Copy, Debug)]
pub struct UID(pub i32);

} // verus!
