//! A URL-shortening core: collision-free short-code allocation, a mapping
//! store with uniqueness invariants, and the shorten / resolve / delete
//! workflows over it.

use vstd::prelude::*;

pub mod codes;
pub mod laws;
pub mod service;
pub mod store;
pub mod users;

verus! {

/// Greeting served at the service root.
pub fn index() -> (r: &'static str)
    ensures
        r@ == "Hello, world! :D"@,
{
    "Hello, world! :D"
}

} // verus!
