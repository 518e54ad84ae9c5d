//! How many workers a run uses: one per logical CPU, and at least one.

use vstd::prelude::*;

verus! {

/// `num_cpus::get`: the number of logical CPUs that the process may use.
/// The value depends on the machine, so nothing is claimed of it.
#[verifier::external_body]
fn logical_cpus() -> (cpus: usize) {
    num_cpus::get()
}

/// Number of workers for a machine with `cpus` logical CPUs: that many, but
/// at least one and no more than the worker numbering can hold.
pub open spec fn spec_worker_count(cpus: nat) -> nat {
    if cpus == 0 {
        1
    } else if cpus > u32::MAX {
        u32::MAX as nat
    } else {
        cpus
    }
}

/// Number of workers for a machine with `cpus` logical CPUs.
pub fn worker_count_for(cpus: usize) -> (workers: u32)
    ensures
        workers == spec_worker_count(cpus as nat),
        workers >= 1,
{
    if cpus == 0 {
        1
    } else if cpus > u32::MAX as usize {
        u32::MAX
    } else {
        cpus as u32
    }
}

/// Number of workers for this machine. Whatever the machine reports, there
/// is at least one worker.
pub fn worker_count() -> (workers: u32)
    ensures
        workers >= 1,
{
    worker_count_for(logical_cpus())
}

} // verus!
