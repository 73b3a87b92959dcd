//! Sampler arithmetic and ordering: CPU normalization, the cadence of the
//! expensive per-process queries, FILETIME arithmetic, and the descending
//! CPU sort the snapshot is published in. The host reads the OS counters;
//! this module computes.

use vstd::prelude::*;
use crate::types::ProcessInfo;
use vstd::multiset::Multiset;

verus! {

/// Normalize a raw sum-over-cores CPU reading (hundredths of a percent) by
/// the logical core count, so the result lives in 0 ..= 10000. A zero core
/// count leaves the raw value, clamped.
pub fn normalize_cpu_centi(raw_centi: u64, logical_cores: u32) -> (r: u32)
    ensures
        logical_cores > 0 ==> r == if (raw_centi as int) / (logical_cores as int) <= u32::MAX {
            (raw_centi as int) / (logical_cores as int)
        } else {
            u32::MAX as int
        },
        logical_cores == 0 ==> r == if raw_centi <= u32::MAX {
            raw_centi as int
        } else {
            u32::MAX as int
        },
{
    let v: u64 = if logical_cores > 0 {
        raw_centi / (logical_cores as u64)
    } else {
        raw_centi
    };
    if v <= 0xFFFF_FFFF {
        v as u32
    } else {
        u32::MAX
    }
}

/// The expensive per-process details (priority class, affinity mask) are
/// refreshed every third tick.
pub fn should_refresh_details(tick: u64) -> (r: bool)
    ensures
        r == (tick % 3 == 0),
{
    tick % 3 == 0
}

/// The users table is refreshed, and caches for vanished pids are evicted,
/// every sixtieth tick.
pub fn should_refresh_users(tick: u64) -> (r: bool)
    ensures
        r == (tick % 60 == 0),
{
    tick % 60 == 0
}

/// Combine the two halves of a FILETIME into one 100-nanosecond counter.
pub fn combine_filetime(high: u32, low: u32) -> (r: u64)
    ensures
        r == high * 0x1_0000_0000 + low,
{
    let h = high as u64;
    let l = low as u64;
    proof {
        assert((h << 32u64) | l == h * 0x1_0000_0000 + l) by (bit_vector)
            requires
                h < 0x1_0000_0000,
                l < 0x1_0000_0000,
        ;
    }
    (h << 32u64) | l
}

/// A thread's total CPU time: kernel plus user, saturating at the top.
pub fn thread_cpu_time(kernel: u64, user: u64) -> (r: u64)
    ensures
        r == if kernel + user <= u64::MAX {
            kernel + user
        } else {
            u64::MAX as int
        },
{
    if kernel <= u64::MAX - user {
        kernel + user
    } else {
        u64::MAX
    }
}

/// A thread's CPU usage over a wall-clock window, in hundredths of a
/// percent of one core, capped at 10000.
pub fn thread_usage_centi(delta_time_ns: u64, elapsed_ns: u64) -> (r: u32)
    ensures
        elapsed_ns > 0 ==> r == if delta_time_ns * 10000 / (elapsed_ns as int) <= 10000 {
            delta_time_ns * 10000 / (elapsed_ns as int)
        } else {
            10000int
        },
        elapsed_ns == 0 ==> r == 0,
{
    if elapsed_ns == 0 {
        return 0;
    }
    proof {
        assert((delta_time_ns as u128) * 10000 <= u128::MAX) by (nonlinear_arith)
            requires
                delta_time_ns <= u64::MAX,
        ;
    }
    let scaled = (delta_time_ns as u128) * 10000 / (elapsed_ns as u128);
    if scaled <= 10000 {
        scaled as u32
    } else {
        10000
    }
}

/// The snapshot order: descending by normalized CPU usage.
pub open spec fn sorted_by_cpu_desc(s: Seq<ProcessInfo>) -> bool {
    forall|i: int, j: int| 0 <= i < j < s.len() ==> s[i].cpu_centi_pct >= s[j].cpu_centi_pct
}

/// Sort a snapshot descending by CPU usage. The result holds exactly the
/// given entries.
pub fn sort_by_cpu_desc(input: Vec<ProcessInfo>) -> (r: Vec<ProcessInfo>)
    ensures
        sorted_by_cpu_desc(r@),
        r@.to_multiset() == input@.to_multiset(),
{
    broadcast use vstd::seq_lib::group_to_multiset_ensures;
    broadcast use vstd::multiset::group_multiset_axioms;

    let ghost orig_ms = input@.to_multiset();
    let mut rest = input;
    let mut out: Vec<ProcessInfo> = Vec::new();
    proof {
        assert(out@.to_multiset().add(rest@.to_multiset()) =~= orig_ms);
    }
    loop
        invariant
            orig_ms == input@.to_multiset(),
            sorted_by_cpu_desc(out@),
            out@.to_multiset().add(rest@.to_multiset()) == orig_ms,
        decreases rest@.len(),
    {
        let ghost rest_before = rest@;
        let popped = rest.pop();
        match popped {
            None => {
                proof {
                    broadcast use vstd::seq_lib::group_to_multiset_ensures;
                    broadcast use vstd::multiset::group_multiset_axioms;

                    assert forall|x: ProcessInfo| rest_before.to_multiset().count(x) == 0 by {
                        assert(!rest_before.contains(x));
                    }
                    assert(rest_before.to_multiset() =~= Multiset::<ProcessInfo>::empty());
                    assert(out@.to_multiset().add(Multiset::<ProcessInfo>::empty())
                        =~= out@.to_multiset());
                }
                return out;
            },
            Some(p) => {
                proof {
                    broadcast use vstd::seq_lib::group_to_multiset_ensures;
                    broadcast use vstd::multiset::group_multiset_axioms;

                    let last = rest_before.len() - 1;
                    assert(rest_before.drop_last() =~= rest_before.remove(last));
                    assert(rest_before.remove(last).to_multiset() =~= rest_before.to_multiset()
                        .remove(rest_before[last]));
                    assert(rest_before[last] == p);
                    assert(rest@.to_multiset() =~= rest_before.to_multiset().remove(p));
                    assert(rest_before.contains(p));
                    assert(rest_before.to_multiset().contains(p));
                }
                // Find the first position whose entry is lighter.
                let mut idx: usize = 0;
                while idx < out.len()
                    invariant
                        0 <= idx <= out@.len(),
                        forall|k: int| 0 <= k < idx ==> out@[k].cpu_centi_pct >= p.cpu_centi_pct,
                    ensures
                        0 <= idx <= out@.len(),
                        forall|k: int| 0 <= k < idx ==> out@[k].cpu_centi_pct >= p.cpu_centi_pct,
                        idx < out@.len() ==> out@[idx as int].cpu_centi_pct < p.cpu_centi_pct,
                    decreases out@.len() - idx,
                {
                    if out[idx].cpu_centi_pct < p.cpu_centi_pct {
                        break;
                    }
                    idx = idx + 1;
                }
                let ghost out_before = out@;
                let ghost pos = idx as int;
                out.insert(idx, p);
                proof {
                    broadcast use vstd::seq_lib::group_to_multiset_ensures;
                    broadcast use vstd::multiset::group_multiset_axioms;

                    assert(out@.remove(pos) =~= out_before);
                    assert(out@[pos] == p);
                    assert(out@.to_multiset().remove(p) =~= out_before.to_multiset());
                    assert(out@.to_multiset().contains(p));
                    assert(out@.to_multiset() =~= out_before.to_multiset().insert(p));
                    assert(out@.to_multiset().add(rest@.to_multiset()) =~= orig_ms);
                    assert forall|i: int, j: int|
                        0 <= i < j < out@.len() implies out@[i].cpu_centi_pct
                        >= out@[j].cpu_centi_pct by {
                        if i < pos && j < pos {
                            assert(out@[i] == out_before[i] && out@[j] == out_before[j]);
                        } else if i < pos && j == pos {
                            assert(out@[i] == out_before[i]);
                        } else if i < pos && j > pos {
                            assert(out@[i] == out_before[i] && out@[j] == out_before[j - 1]);
                        } else if i == pos && j > pos {
                            assert(out@[j] == out_before[j - 1]);
                            assert(out_before[pos].cpu_centi_pct < p.cpu_centi_pct);
                            assert(out_before[pos].cpu_centi_pct >= out_before[j - 1].cpu_centi_pct);
                        } else {
                            assert(out@[i] == out_before[i - 1] && out@[j] == out_before[j - 1]);
                        }
                    }
                }
            },
        }
    }
}

} // verus!
