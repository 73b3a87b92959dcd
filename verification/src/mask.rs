//! Affinity masks: bit tests, core-id lists, validation against the system
//! mask, the rendered `All`/hex form used in snapshots, and the per-mode
//! transforms the effector applies.

use vstd::prelude::*;
use vstd::string::StringSliceAdditionalSpecFns;
use crate::text;
use crate::types::{AppError, PriorityLevel};

verus! {

/// Bit `i` of the mask is set.
pub open spec fn has_bit(mask: u64, i: u32) -> bool {
    i < 64 && (mask >> (i as u64)) & 1u64 == 1u64
}

/// How many of the 64 bits are set below position `n`.
pub open spec fn count_bits_below(mask: u64, n: int) -> int
    decreases n,
{
    if n <= 0 {
        0
    } else {
        count_bits_below(mask, n - 1) + if has_bit(mask, (n - 1) as u32) {
            1int
        } else {
            0int
        }
    }
}

/// The number of set bits of the mask.
pub open spec fn popcount(mask: u64) -> int {
    count_bits_below(mask, 64)
}

/// Bits of a union are the bits of either side.
pub proof fn lemma_or_bit(a: u64, b: u64, i: u32)
    requires
        i < 64,
    ensures
        has_bit(a | b, i) <==> (has_bit(a, i) || has_bit(b, i)),
{
    let iw = i as u64;
    assert(((a | b) >> iw) & 1u64 == 1u64 <==> ((a >> iw) & 1u64 == 1u64 || (b >> iw) & 1u64
        == 1u64)) by (bit_vector)
        requires
            iw < 64,
    ;
}

/// The single-bit mask `1 << i` has exactly bit `i`.
pub proof fn lemma_single_bit(i: u32, j: u32)
    requires
        i < 64,
        j < 64,
    ensures
        has_bit(1u64 << (i as u64), j) <==> i == j,
{
    let iw = i as u64;
    let jw = j as u64;
    assert(((1u64 << iw) >> jw) & 1u64 == 1u64 <==> iw == jw) by (bit_vector)
        requires
            iw < 64,
            jw < 64,
    ;
}

/// The mask built from a core list has exactly the listed bits: bit `i`
/// is set iff some listed core id equals `i` and fits in the mask.
pub proof fn lemma_mask_of_cores_bits(cores: Seq<u32>, i: u32)
    requires
        i < 64,
    ensures
        has_bit(crate::mask_of_cores(cores), i) <==> cores.contains(i),
    decreases cores.len(),
{
    if cores.len() == 0 {
        assert((0u64 >> (i as u64)) & 1u64 == 0u64) by (bit_vector);
        assert(!cores.contains(i));
    } else {
        let rest = cores.drop_last();
        let c = cores.last();
        lemma_mask_of_cores_bits(rest, i);
        if c < 64 {
            lemma_or_bit(crate::mask_of_cores(rest), 1u64 << (c as u64), i);
            lemma_single_bit(c, i);
        }
        assert(cores.contains(i) <==> (rest.contains(i) || c == i)) by {
            if cores.contains(i) {
                let k = choose|k: int| 0 <= k < cores.len() && cores[k] == i;
                if k < rest.len() {
                    assert(rest[k] == i);
                }
            }
            if rest.contains(i) {
                let k = choose|k: int| 0 <= k < rest.len() && rest[k] == i;
                assert(cores[k] == i);
            }
            if c == i {
                assert(cores[cores.len() - 1] == i);
            }
        }
        if c >= 64 {
            assert(c != i);
        }
    }
}

/// An acceptable mask names only cores the system mask names.
pub proof fn lemma_acceptable_subset(m: u64, system_mask: u64, i: u32)
    requires
        mask_acceptable(m, system_mask),
        has_bit(m, i),
    ensures
        has_bit(system_mask, i),
{
    let iw = i as u64;
    assert((m & !system_mask == 0 && (m >> iw) & 1u64 == 1u64) ==> (system_mask >> iw) & 1u64
        == 1u64) by (bit_vector)
        requires
            iw < 64,
    ;
}

/// The ids of the set bits below position `n`, ascending.
pub open spec fn cores_below(mask: u64, n: int) -> Seq<u32>
    decreases n,
{
    if n <= 0 {
        Seq::empty()
    } else {
        let r = cores_below(mask, n - 1);
        if has_bit(mask, (n - 1) as u32) {
            r.push((n - 1) as u32)
        } else {
            r
        }
    }
}

/// The ids of the set bits of the mask, ascending.
pub open spec fn spec_mask_cores(mask: u64) -> Seq<u32> {
    cores_below(mask, 64)
}

/// Every core id named by the mask, in ascending order.
pub fn mask_to_cores(mask: u64) -> (r: Vec<u32>)
    ensures
        r@ == spec_mask_cores(mask),
        forall|k: int| 0 <= k < r@.len() ==> has_bit(mask, #[trigger] r@[k]),
        forall|i: u32| has_bit(mask, i) ==> r@.contains(i),
        forall|k1: int, k2: int| 0 <= k1 < k2 < r@.len() ==> r@[k1] < r@[k2],
{
    let mut r: Vec<u32> = Vec::new();
    let mut i: u32 = 0;
    while i < 64
        invariant
            0 <= i <= 64,
            r@ == cores_below(mask, i as int),
            forall|k: int| 0 <= k < r@.len() ==> has_bit(mask, #[trigger] r@[k]) && r@[k] < i,
            forall|j: u32| j < i && has_bit(mask, j) ==> r@.contains(j),
            forall|k1: int, k2: int| 0 <= k1 < k2 < r@.len() ==> r@[k1] < r@[k2],
        decreases 64 - i,
    {
        if (mask >> (i as u64)) & 1u64 == 1u64 {
            let ghost prev = r@;
            r.push(i);
            proof {
                assert(forall|k: int| 0 <= k < prev.len() ==> r@[k] == prev[k]);
                assert(r@[prev.len() as int] == i);
                assert(forall|j: u32| prev.contains(j) ==> r@.contains(j));
                assert(r@.contains(i));
            }
        }
        i = i + 1;
    }
    r
}

/// The number of set bits.
pub fn popcount_u64(mask: u64) -> (r: u32)
    ensures
        r == popcount(mask),
{
    let mut r: u32 = 0;
    let mut i: u32 = 0;
    while i < 64
        invariant
            0 <= i <= 64,
            r == count_bits_below(mask, i as int),
            r <= i,
        decreases 64 - i,
    {
        if (mask >> (i as u64)) & 1u64 == 1u64 {
            r = r + 1;
        }
        i = i + 1;
    }
    r
}

/// The lowest set bit, if any.
pub fn first_core(mask: u64) -> (r: Option<u32>)
    ensures
        match r {
            Some(i) => has_bit(mask, i) && forall|j: u32| j < i ==> !has_bit(mask, j),
            None => forall|j: u32| !has_bit(mask, j),
        },
{
    let mut i: u32 = 0;
    while i < 64
        invariant
            0 <= i <= 64,
            forall|j: u32| j < i ==> !has_bit(mask, j),
        decreases 64 - i,
    {
        if (mask >> (i as u64)) & 1u64 == 1u64 {
            return Some(i);
        }
        i = i + 1;
    }
    None
}

/// A mask is acceptable as hard affinity iff it is non-zero and a subset of
/// the system mask.
pub open spec fn mask_acceptable(mask: u64, system_mask: u64) -> bool {
    mask != 0 && mask & !system_mask == 0
}

/// Validate a hard-affinity mask against the system mask: it must name at
/// least one core, all of them present in the system mask; anything else
/// is rejected as an invalid affinity mask.
pub fn validate_mask(mask: u64, system_mask: u64) -> (r: Result<(), AppError>)
    ensures
        r is Ok <==> mask_acceptable(mask, system_mask),
        !mask_acceptable(mask, system_mask) ==> (r matches Err(e) && (e matches
        AppError::InvalidAffinityMask(_))),
{
    if mask == 0 {
        Err(AppError::InvalidAffinityMask(String::from_str("mask is empty")))
    } else if mask & !system_mask != 0 {
        Err(AppError::InvalidAffinityMask(String::from_str("mask not within the system mask")))
    } else {
        Ok(())
    }
}

/// Validate a thread-affinity mask: a thread must keep at least one core;
/// an empty mask fails as a system error, as the thread-affinity call
/// reports it.
pub fn validate_thread_mask(mask: u64) -> (r: Result<(), AppError>)
    ensures
        r is Ok <==> mask != 0,
        mask == 0 ==> (r matches Err(e) && (e matches AppError::SystemError(_))),
{
    if mask == 0 {
        Err(AppError::SystemError(String::from_str("thread affinity would be empty")))
    } else {
        Ok(())
    }
}

/// The even-lane submask, used to step around SMT sibling pairs.
pub open spec fn even_lanes(mask: u64) -> u64 {
    mask & 0x5555_5555_5555_5555u64
}

/// Burst-mode mask: with more than four cores named, keep only the even
/// lanes so each SMT pair contributes one logical processor; keep the mask
/// as it is when that would leave nothing.
pub fn d2_mask(mask: u64) -> (r: u64)
    ensures
        r == (if popcount(mask) > 4 && even_lanes(mask) != 0 {
            even_lanes(mask)
        } else {
            mask
        }),
{
    let count = popcount_u64(mask);
    if count > 4 {
        let stripped = mask & 0x5555_5555_5555_5555u64;
        if stripped != 0 {
            return stripped;
        }
    }
    mask
}

/// Extreme-mode mask: clear bit 0 iff other bits remain set.
pub fn d3_mask(mask: u64) -> (r: u64)
    ensures
        r == (if mask & 1u64 != 0 && mask != 1u64 {
            mask & !1u64
        } else {
            mask
        }),
{
    if mask & 1u64 != 0 && mask != 1u64 {
        mask & !1u64
    } else {
        mask
    }
}

/// Affinity application mode of a profile.
#[derive(Debug, Clone, Copy, PartialEq, Eq, Structural)]
pub enum AffinityMode {
    /// OS-enforced affinity mask.
    Hard,
    /// Advisory CPU sets.
    Soft,
    /// Hard mask, but the mode never also touches priority.
    Dynamic,
    /// Burst: thin out SMT pairs and raise priority to High.
    D2,
    /// Extreme: step off core 0 and raise priority to RealTime.
    D3,
}

/// Which mode a configuration string denotes; anything unrecognized reads
/// as `Dynamic`, the store's default.
pub open spec fn mode_of_name(s: Seq<u8>) -> AffinityMode {
    let l = text::lower_of(s);
    if l == text::lower_of("hard".spec_bytes()) {
        AffinityMode::Hard
    } else if l == text::lower_of("soft".spec_bytes()) {
        AffinityMode::Soft
    } else if l == text::lower_of("d2".spec_bytes()) {
        AffinityMode::D2
    } else if l == text::lower_of("d3".spec_bytes()) {
        AffinityMode::D3
    } else {
        AffinityMode::Dynamic
    }
}

impl AffinityMode {
    /// Parse a mode name, case-insensitively.
    pub fn from_str(s: &str) -> (r: AffinityMode)
        ensures
            r == mode_of_name(s.spec_bytes()),
    {
        if text::eq_ignore_case(s, "hard") {
            AffinityMode::Hard
        } else if text::eq_ignore_case(s, "soft") {
            AffinityMode::Soft
        } else if text::eq_ignore_case(s, "d2") {
            AffinityMode::D2
        } else if text::eq_ignore_case(s, "d3") {
            AffinityMode::D3
        } else {
            AffinityMode::Dynamic
        }
    }
}

/// The mask actually applied under a mode, and the priority class the mode
/// itself forces, if any.
pub open spec fn mode_effect(mode: AffinityMode, mask: u64) -> (u64, Option<PriorityLevel>) {
    match mode {
        AffinityMode::Hard => (mask, None),
        AffinityMode::Soft => (mask, None),
        AffinityMode::Dynamic => (mask, None),
        AffinityMode::D2 => (
            if popcount(mask) > 4 && even_lanes(mask) != 0 {
                even_lanes(mask)
            } else {
                mask
            },
            Some(PriorityLevel::High),
        ),
        AffinityMode::D3 => (
            if mask & 1u64 != 0 && mask != 1u64 {
                mask & !1u64
            } else {
                mask
            },
            Some(PriorityLevel::RealTime),
        ),
    }
}

/// Resolve the mask and forced priority for one application of a profile's
/// affinity under the given mode.
pub fn apply_mode(mode: AffinityMode, mask: u64) -> (r: (u64, Option<PriorityLevel>))
    ensures
        r == mode_effect(mode, mask),
{
    match mode {
        AffinityMode::Hard => (mask, None),
        AffinityMode::Soft => (mask, None),
        AffinityMode::Dynamic => (mask, None),
        AffinityMode::D2 => (d2_mask(mask), Some(PriorityLevel::High)),
        AffinityMode::D3 => (d3_mask(mask), Some(PriorityLevel::RealTime)),
    }
}

/// What an affinity view string denotes as a mask: `All` is the system
/// mask, anything else is read as hex (optional `0x`), zero when unreadable.
pub open spec fn view_mask(s: Seq<u8>, system_mask: u64) -> u64 {
    if s == seq![65u8, 108u8, 108u8] {
        system_mask
    } else {
        match text::parse_hex_spec(text::strip_0x(s)) {
            Some(m) => m,
            None => 0u64,
        }
    }
}

/// Read a rendered affinity view back into a mask.
pub fn parse_affinity_view(s: &str, system_mask: u64) -> (r: u64)
    ensures
        r == view_mask(s.spec_bytes(), system_mask),
{
    let sb = s.as_bytes();
    // "All" spelled exactly, as the sampler renders it.
    if sb.len() == 3 && sb[0] == 65 && sb[1] == 108 && sb[2] == 108 {
        proof {
            assert(s.spec_bytes() =~= seq![65u8, 108u8, 108u8]);
        }
        return system_mask;
    }
    proof {
        assert(s.spec_bytes() != seq![65u8, 108u8, 108u8]) by {
            if s.spec_bytes().len() == 3 {
                assert(sb@[0] == 65 && sb@[1] == 108 && sb@[2] == 108 ==> false);
            }
        }
    }
    match text::parse_hex_u64(s) {
        Some(m) => m,
        None => 0,
    }
}

/// The rendered affinity view of a process mask: `All` when it equals the
/// system mask, else the hexadecimal mask with a `0x` prefix.
pub open spec fn rendered_view(process_mask: u64, system_mask: u64) -> Seq<char> {
    if process_mask == system_mask {
        "All"@
    } else {
        "0x"@ + text::hex_seq(process_mask as nat)
    }
}

/// Render a process's hard-affinity mask for the snapshot.
pub fn render_affinity(process_mask: u64, system_mask: u64) -> (r: String)
    ensures
        r@ == rendered_view(process_mask, system_mask),
{
    if process_mask == system_mask {
        String::from_str("All")
    } else {
        let mut s = String::from_str("0x");
        let h = text::u64_to_hex(process_mask);
        s.append(h.as_str());
        s
    }
}

} // verus!
