//! Container operations over the session pool.
//!
//! The operations themselves run `docker` commands remotely and parse
//! serialized output; the application performs them and fills the record
//! types of [`crate::types`].  This module owns the manager handle they
//! hang off.

use vstd::prelude::*;

verus! {

/// Handle the container operations hang off; it carries no state of its
/// own, every call borrows the session pool.
#[derive(Debug)]
pub struct DockerManager;

impl DockerManager {
    /// A fresh handle.
    pub fn new() -> (r: Self)
        ensures
            r == (DockerManager {  }),
    {
        Self
    }
}

} // verus!
