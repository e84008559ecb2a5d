//! The settings of a garbage collection run that the cargo home cleanup reads.

use vstd::prelude::*;

verus! {

/// Settings of a garbage collection run.
#[derive(Debug, Clone)]
pub struct Gc {
    /// Age, in days, past which cached crate archives are removed.
    pub age_threshold_days: u32,
    /// Report what would be removed without removing anything.
    pub dry_run: bool,
    /// Suppress progress messages.
    pub quiet: bool,
    /// Name prefixes of installed binaries that are never removed, beside
    /// the toolchain's own.
    pub preserve_binaries: Vec<String>,
}

impl Gc {
    /// Settings with the given threshold and switches, preserving the
    /// binaries whose names start with one of `preserve_binaries`.
    pub fn new(age_threshold_days: u32, dry_run: bool, quiet: bool, preserve_binaries: Vec<String>) -> (gc: Gc)
        ensures
            gc.age_threshold_days == age_threshold_days,
            gc.dry_run == dry_run,
            gc.quiet == quiet,
            gc.preserve_binaries@ == preserve_binaries@,
    {
        Gc { age_threshold_days, dry_run, quiet, preserve_binaries }
    }

    /// Whether a message of the given detail `level` is shown at verbosity
    /// `verbose`: only when not quiet and the verbosity exceeds the level.
    pub fn reports(&self, verbose: u8, level: u8) -> (shown: bool)
        ensures
            shown == (!self.quiet && verbose > level),
    {
        !self.quiet && verbose > level
    }
}

} // verus!
