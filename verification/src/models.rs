//! Who signs in, and from where.
use vstd::prelude::*;

verus! {

/// A user of the vault.
#[derive(Debug)]
pub struct User {
    pub id: String,
    pub email: String,
}

/// A device that a user signs in from.
#[derive(Debug)]
pub struct Device {
    pub identifier: String,
}

} // verus!
