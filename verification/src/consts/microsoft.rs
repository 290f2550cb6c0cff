use vstd::prelude::*;

verus! {

/// The Microsoft tenant that the login goes through.
pub const TENANT: &'static str = "consumers";

} // verus!
