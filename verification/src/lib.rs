//! Persistence and process-supervision core of a desktop game-library
//! manager: JSON-backed document stores with an atomic, lock-protected
//! write protocol, legacy-path migration, an in-memory registry of
//! launched game processes, and the executable-discovery heuristic used
//! when importing a folder of games.

use vstd::prelude::*;

pub mod codec;
pub mod json;
pub mod library;
pub mod models;
pub mod notes;
pub mod paths;
pub mod registry;
pub mod scanner;
pub mod store;
pub mod store_model;
pub mod text;
pub mod tokens;
pub mod tools;

verus! {

/// Number of times a writer retries acquiring the lock marker before
/// giving up with a lock-timeout error.
pub const LOCK_MAX_ATTEMPTS: u32 = 50;

/// Decides whether a writer that has failed `attempts` tries so far may
/// try again to create the lock marker, or must give up.
pub fn lock_may_retry(attempts: u32) -> (r: bool)
    ensures
        r == (attempts < LOCK_MAX_ATTEMPTS),
{
    attempts < LOCK_MAX_ATTEMPTS
}

} // verus!
