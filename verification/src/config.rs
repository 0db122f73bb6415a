//! Immutable run parameters, shared read-only by every probe.

use vstd::prelude::*;

verus! {

/// Run parameters: whether fixes may be applied, and per-category caps on
/// how many report lines are shown. Created once at startup, never mutated.
pub struct Config {
    /// Apply the suggested fix (after confirmation).
    pub apply: bool,
    /// Maximum number of explicitly installed packages to be shown.
    pub max_packages: usize,
    /// Maximum number of disk usage entries to be shown.
    pub max_disk_usage: usize,
}

impl Config {
    pub fn new(apply: bool, max_packages: usize, max_disk_usage: usize) -> (c: Config)
        ensures
            c.apply == apply,
            c.max_packages == max_packages,
            c.max_disk_usage == max_disk_usage,
    {
        Config { apply, max_packages, max_disk_usage }
    }
}

} // verus!
