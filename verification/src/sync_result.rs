//! What a usage import reports.

use vstd::prelude::*;

verus! {

/// The outcome of a usage import.
#[derive(Debug, PartialEq)]
pub struct SessionSyncResult {
    pub imported: u32,
    pub skipped: u32,
    pub files_scanned: u32,
    pub errors: Vec<String>,
}

impl SessionSyncResult {
    /// Nothing was done.
    pub open spec fn nothing_done(self) -> bool {
        &&& self.imported == 0
        &&& self.skipped == 0
        &&& self.files_scanned == 0
        &&& self.errors@.len() == 0
    }
}

impl Default for SessionSyncResult {
    fn default() -> (r: Self)
        ensures
            r.nothing_done(),
    {
        SessionSyncResult { imported: 0, skipped: 0, files_scanned: 0, errors: Vec::new() }
    }
}

/// A sum of counts, or the greatest 32-bit count if it is greater.
pub open spec fn capped(n: int) -> int {
    if n > u32::MAX {
        u32::MAX as int
    } else {
        n
    }
}

/// A sum is kept as it is up to the greatest 32-bit count, and stops there.
pub proof fn law_counts_stop_at_the_limit(n: int)
    requires
        n >= 0,
    ensures
        n <= 4_294_967_295 ==> capped(n) == n,
        n > 4_294_967_295 ==> capped(n) == 4_294_967_295,
{
}

} // verus!
