use vstd::prelude::*;

use crate::database::{unexpired, NamesRepository};
use crate::errors::AppError;

verus! {

/// How long a link stays valid, in seconds: seven days.
pub const RETENTION_WINDOW_SECS: u64 = 604800;

/// How long the sweeper waits between two sweeps, in seconds: one day.
pub const SWEEP_INTERVAL_SECS: u64 = 86400;

/// One sweep: deletes the links older than the retention window and returns how many
/// went.
pub fn sweep_expired<R: NamesRepository>(names_repo: &mut R) -> (r: Result<usize, AppError>)
    ensures
        match r {
            Ok(n) => {
                &&& final(names_repo).links() == unexpired(
                    old(names_repo).links(),
                    old(names_repo).clock(),
                    RETENTION_WINDOW_SECS as nat,
                )
                &&& n == old(names_repo).links().len() - final(names_repo).links().len()
            },
            Err(e) => e is DatabaseError && final(names_repo).links() == old(names_repo).links(),
        },
{
    names_repo.cleanup_old_links(RETENTION_WINDOW_SECS)
}

} // verus!
