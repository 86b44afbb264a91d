//! Progress counters reported while a table is written.

use vstd::prelude::*;

verus! {

/// How far a write has come.
#[derive(Debug, Clone, Copy, PartialEq, Eq, Structural)]
pub struct Progress {
    /// Number of columns written within the current (incomplete) row group
    pub n_cols: u64,
    /// Number of rows fully written
    pub n_rows: u64,
    /// Number of row groups fully written
    pub n_groups: u64,
}

impl Default for Progress {
    fn default() -> (r: Progress)
        ensures
            r == (Progress { n_cols: 0, n_rows: 0, n_groups: 0 }),
    {
        Progress { n_cols: 0, n_rows: 0, n_groups: 0 }
    }
}

} // verus!
