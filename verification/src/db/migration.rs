//! Migration of the single-source database of earlier versions.
use vstd::prelude::*;

verus! {

/// Whether the legacy database (`db/index.db`) is to be moved to the
/// Wandering Inn's own file (`db/wandering-inn.db`): exactly when the first
/// exists and the second does not, so that a migration never overwrites a
/// database.
pub fn needs_migration(legacy_exists: bool, new_exists: bool) -> (b: bool)
    ensures
        b == (legacy_exists && !new_exists),
{
    legacy_exists && !new_exists
}

} // verus!
