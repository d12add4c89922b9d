//! How many workers a run starts.

use vstd::prelude::*;

verus! {

/// Relies on `num_cpus::get`: the number of logical CPUs this process may
/// run on, which that function documents as always at least 1.
#[verifier::external_body]
fn logical_cpus() -> (r: usize)
    ensures
        r >= 1,
{
    num_cpus::get()
}

/// The number of workers for a wanted count: the count itself, capped at
/// the number of ids a worker can be given.
pub open spec fn capped(n: nat) -> nat {
    if n > u16::MAX as nat {
        u16::MAX as nat
    } else {
        n
    }
}

/// The number of workers to start: `requested` when it is given and not
/// zero, otherwise one per logical CPU; in either case at most one per
/// worker id.
pub fn thread_count(requested: Option<usize>) -> (r: u16)
    ensures
        r >= 1,
        requested is Some && requested->Some_0 >= 1 ==> r as nat == capped(
            requested->Some_0 as nat,
        ),
{
    let n = match requested {
        Some(n) if n >= 1 => n,
        _ => logical_cpus(),
    };
    if n > u16::MAX as usize {
        u16::MAX
    } else {
        n as u16
    }
}

} // verus!
