//! A user-mode process governor core: topology classification, policy
//! resolution, ProBalance suppression, memory-reaper and heavy-thread-binder
//! decisions, all specified and verified over plain data. The host shell
//! samples processes and performs the Win32 calls; this library decides.

use vstd::prelude::*;

pub mod types;
pub mod text;
pub mod mask;
pub mod topology;
pub mod profile;
pub mod enforce;
pub mod rules;
pub mod probalance;
pub mod binder;
pub mod reaper;
pub mod sampler;
pub mod pending;
pub mod codec;
pub mod power;
pub mod tweaks;
pub mod laws;
pub mod registry;

verus! {

/// Build an affinity mask from a list of logical core ids; ids of 64 or
/// more are ignored, as only 64 logical processors fit in one mask.
pub fn calculate_affinity_mask(cores: &Vec<u32>) -> (mask: u64)
    ensures
        mask == mask_of_cores(cores@),
{
    let mut mask: u64 = 0;
    let mut i: usize = 0;
    while i < cores.len()
        invariant
            0 <= i <= cores@.len(),
            mask == mask_of_cores(cores@.take(i as int)),
        decreases cores@.len() - i,
    {
        proof {
            assert(cores@.take(i + 1).drop_last() =~= cores@.take(i as int));
        }
        let core = cores[i];
        if core < 64 {
            mask = mask | (1u64 << core);
        }
        i = i + 1;
    }
    proof {
        assert(cores@.take(cores@.len() as int) =~= cores@);
    }
    mask
}

/// The mask with one bit set for every listed core id below 64.
pub open spec fn mask_of_cores(cores: Seq<u32>) -> u64
    decreases cores.len(),
{
    if cores.len() == 0 {
        0u64
    } else {
        let rest = mask_of_cores(cores.drop_last());
        let c = cores.last();
        if c < 64 {
            rest | (1u64 << c)
        } else {
            rest
        }
    }
}

} // verus!
