//! The memory reaper: when memory usage crosses the configured threshold
//! and the debounce interval has passed, every fat background process gets
//! its working set trimmed, and the OS standby list is purged. The host
//! reads memory counters and performs the trims; this module decides.

use vstd::prelude::*;
use vstd::string::StringSliceAdditionalSpecFns;
use crate::text;
use crate::types::ProcessInfo;

verus! {

/// Only processes at least this resident are worth trimming.
pub const TRIM_MIN_BYTES: u64 = 0x3200000;

/// How the reaper trims, parsed from the SmartTrim mode name.
#[derive(Debug, Clone, Copy, PartialEq, Eq, Structural)]
pub enum TrimMode {
    /// Only purge the OS standby list.
    StandbyOnly,
    /// Only trim per-process working sets.
    WorkingSet,
    /// Both, the default.
    Both,
}

/// Which trim mode a configuration string denotes; anything unrecognized
/// reads as `Both`.
pub open spec fn trim_mode_of_name(s: Seq<u8>) -> TrimMode {
    let l = text::lower_of(s);
    if l == text::lower_of("standby-only".spec_bytes()) {
        TrimMode::StandbyOnly
    } else if l == text::lower_of("working-set".spec_bytes()) {
        TrimMode::WorkingSet
    } else {
        TrimMode::Both
    }
}

impl TrimMode {
    /// Parse a trim mode name, case-insensitively.
    pub fn from_str(s: &str) -> (r: TrimMode)
        ensures
            r == trim_mode_of_name(s.spec_bytes()),
    {
        if text::eq_ignore_case(s, "standby-only") {
            TrimMode::StandbyOnly
        } else if text::eq_ignore_case(s, "working-set") {
            TrimMode::WorkingSet
        } else {
            TrimMode::Both
        }
    }

    /// Whether this mode trims per-process working sets.
    pub fn trims_working_sets(&self) -> (r: bool)
        ensures
            r == (*self == TrimMode::WorkingSet || *self == TrimMode::Both),
    {
        match self {
            TrimMode::StandbyOnly => false,
            TrimMode::WorkingSet => true,
            TrimMode::Both => true,
        }
    }

    /// Whether this mode purges the standby list.
    pub fn purges_standby(&self) -> (r: bool)
        ensures
            r == (*self == TrimMode::StandbyOnly || *self == TrimMode::Both),
    {
        match self {
            TrimMode::StandbyOnly => true,
            TrimMode::WorkingSet => false,
            TrimMode::Both => true,
        }
    }
}

/// The bytes a working-set trim freed: how far the resident size dropped,
/// never negative.
pub fn freed_bytes(rss_before: u64, rss_after: u64) -> (r: u64)
    ensures
        r == if rss_before > rss_after {
            rss_before - rss_after
        } else {
            0int
        },
        (r == 0) <==> (rss_after >= rss_before),
{
    if rss_before > rss_after {
        rss_before - rss_after
    } else {
        0
    }
}

/// The reaper fires iff SmartTrim is enabled, the debounce interval has
/// passed since the last run, and memory usage reached the threshold.
pub fn should_trim(
    enabled: bool,
    elapsed_sec: u64,
    interval_sec: u32,
    memory_percent: u32,
    threshold_percent: u32,
) -> (r: bool)
    ensures
        r == (enabled && elapsed_sec >= interval_sec && memory_percent >= threshold_percent),
{
    enabled && elapsed_sec >= interval_sec as u64 && memory_percent >= threshold_percent
}

/// A process is trimmed iff it is fat enough and is neither the foreground
/// process nor the governor itself.
pub open spec fn trim_ok(p: ProcessInfo, foreground_pid: u32, self_pid: u32) -> bool {
    p.memory_bytes >= TRIM_MIN_BYTES && p.pid != foreground_pid && p.pid != self_pid
}

/// The pids the reaper will trim, in snapshot order.
pub open spec fn spec_trim_plan(
    ps: Seq<ProcessInfo>,
    foreground_pid: u32,
    self_pid: u32,
) -> Seq<u32>
    decreases ps.len(),
{
    if ps.len() == 0 {
        Seq::empty()
    } else {
        let r = spec_trim_plan(ps.drop_last(), foreground_pid, self_pid);
        if trim_ok(ps.last(), foreground_pid, self_pid) {
            r.push(ps.last().pid)
        } else {
            r
        }
    }
}

/// Select the processes whose working sets the reaper trims: everything
/// resident beyond the floor, sparing the foreground process and the
/// governor itself.
pub fn trim_plan(processes: &Vec<ProcessInfo>, foreground_pid: u32, self_pid: u32) -> (r: Vec<u32>)
    ensures
        r@ == spec_trim_plan(processes@, foreground_pid, self_pid),
{
    let mut r: Vec<u32> = Vec::new();
    let n = processes.len();
    let mut i: usize = 0;
    while i < n
        invariant
            n == processes@.len(),
            0 <= i <= n,
            r@ == spec_trim_plan(processes@.take(i as int), foreground_pid, self_pid),
        decreases n - i,
    {
        proof {
            assert(processes@.take(i + 1).drop_last() =~= processes@.take(i as int));
            assert(processes@.take(i + 1).last() == processes@[i as int]);
        }
        let p = &processes[i];
        if p.memory_bytes >= 0x3200000 && p.pid != foreground_pid && p.pid != self_pid {
            r.push(p.pid);
        }
        i = i + 1;
    }
    proof {
        assert(processes@.take(n as int) =~= processes@);
    }
    r
}

/// What one reaper run reports back to the caller.
#[derive(Debug, Clone)]
pub struct TrimOutcome {
    /// Mebibytes the run made available again.
    pub freed_mib: u64,
    /// How many working sets were trimmed.
    pub trimmed_count: u32,
    /// A human-readable summary.
    pub message: String,
}

/// Summarize a reaper run from the available-memory counters around it.
pub fn trim_outcome(available_before: u64, available_after: u64, trimmed_count: u32) -> (r:
    TrimOutcome)
    ensures
        r.freed_mib == if available_after > available_before {
            (available_after - available_before) / 0x100000
        } else {
            0int
        },
        r.trimmed_count == trimmed_count,
        r.freed_mib > 0 ==> r.message@ == "freed "@ + text::dec_seq(r.freed_mib as nat)
            + " MiB"@,
        r.freed_mib == 0 ==> r.message@ == "memory already optimized"@,
{
    let freed_mib: u64 = if available_after > available_before {
        (available_after - available_before) / 0x100000
    } else {
        0
    };
    let message = if freed_mib > 0 {
        let mut m = String::from_str("freed ");
        let d = text::u64_to_dec(freed_mib);
        m.append(d.as_str());
        m.append(" MiB");
        m
    } else {
        String::from_str("memory already optimized")
    };
    TrimOutcome { freed_mib, trimmed_count, message }
}

} // verus!
