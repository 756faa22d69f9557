//! The size of the pool of workers that run the analyzers.

use vstd::prelude::*;

verus! {

/// Relies on `num_cpus::get_physical`: the number of physical cores, or of
/// logical ones where the physical count cannot be read. Nothing more is
/// stated of it: the count depends on the machine.
pub assume_specification[ num_cpus::get_physical ]() -> usize;

/// Workers for a machine of `cores` cores: all but one, kept for input and
/// coordination, and never fewer than one.
pub fn workers_for(cores: usize) -> (r: usize)
    ensures
        r == if cores > 1 {
            cores - 1
        } else {
            1
        },
{
    if cores > 1 {
        cores - 1
    } else {
        1
    }
}

/// Workers for this machine, at least one.
pub fn worker_count() -> (r: usize)
    ensures
        r >= 1,
{
    workers_for(num_cpus::get_physical())
}

} // verus!
