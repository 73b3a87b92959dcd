//! The heavy-thread binder: from two CPU-time samples of a process's
//! threads, 100 ms apart, pick the thread that burned the most CPU time in
//! between. The host samples and sleeps; this module decides.

use vstd::prelude::*;
use crate::types::AppError;

verus! {

/// One thread's accumulated CPU time (kernel + user) at a sampling instant,
/// in 100-nanosecond units.
#[derive(Debug, Clone, Copy, PartialEq, Eq, Structural)]
pub struct ThreadCpuSample {
    pub tid: u32,
    pub cpu_time: u64,
}

/// The first sampled time of a tid, if the tid was sampled.
pub open spec fn time_of(s: Seq<ThreadCpuSample>, tid: u32) -> Option<u64>
    decreases s.len(),
{
    if s.len() == 0 {
        None
    } else if s[0].tid == tid {
        Some(s[0].cpu_time)
    } else {
        time_of(s.skip(1), tid)
    }
}

/// The CPU-time delta of entry `k` of the second sample against the first
/// sample: zero when the thread was not in the first sample or its counter
/// did not grow.
pub open spec fn delta_at(s1: Seq<ThreadCpuSample>, s2: Seq<ThreadCpuSample>, k: int) -> int {
    match time_of(s1, s2[k].tid) {
        Some(t1) => if s2[k].cpu_time >= t1 {
            s2[k].cpu_time - t1
        } else {
            0
        },
        None => 0,
    }
}

/// Look up a tid's time in a sample.
fn find_time(s: &Vec<ThreadCpuSample>, tid: u32) -> (r: Option<u64>)
    ensures
        r == time_of(s@, tid),
{
    let n = s.len();
    let mut i: usize = 0;
    proof {
        assert(s@.skip(0int) =~= s@);
    }
    while i < n
        invariant
            n == s@.len(),
            0 <= i <= n,
            time_of(s@, tid) == time_of(s@.skip(i as int), tid),
        decreases n - i,
    {
        let ghost rest = s@.skip(i as int);
        proof {
            assert(rest[0] == s@[i as int]);
            assert(rest.skip(1) =~= s@.skip(i + 1));
        }
        if s[i].tid == tid {
            return Some(s[i].cpu_time);
        }
        i = i + 1;
    }
    proof {
        assert(s@.skip(n as int) =~= Seq::<ThreadCpuSample>::empty());
    }
    None
}

/// Pick the thread whose CPU-time delta over the sampling window is the
/// largest. The returned tid's delta is positive and at least every other
/// entry's delta; it is the first entry reaching that maximum. When no
/// thread advanced at all, no heaviest thread exists.
pub fn pick_heaviest(s1: &Vec<ThreadCpuSample>, s2: &Vec<ThreadCpuSample>) -> (r: Result<
    u32,
    AppError,
>)
    ensures
        match r {
            Ok(tid) => exists|k: int|
                0 <= k < s2@.len() && #[trigger] s2@[k].tid == tid && delta_at(s1@, s2@, k) > 0
                    && (forall|j: int| 0 <= j < s2@.len() ==> delta_at(s1@, s2@, j) <= delta_at(
                    s1@,
                    s2@,
                    k,
                )) && (forall|j: int| 0 <= j < k ==> delta_at(s1@, s2@, j) < delta_at(s1@, s2@, k)),
            Err(_) => forall|j: int| 0 <= j < s2@.len() ==> delta_at(s1@, s2@, j) == 0,
        },
{
    let mut max_delta: u64 = 0;
    let mut heaviest: u32 = 0;
    let ghost mut max_at: int = -1;
    let n = s2.len();
    let mut i: usize = 0;
    while i < n
        invariant
            n == s2@.len(),
            0 <= i <= n,
            max_delta == 0 ==> forall|j: int| 0 <= j < i ==> delta_at(s1@, s2@, j) == 0,
            max_delta > 0 ==> 0 <= max_at < i && delta_at(s1@, s2@, max_at) == max_delta
                && s2@[max_at].tid == heaviest && (forall|j: int|
                0 <= j < i ==> delta_at(s1@, s2@, j) <= max_delta) && (forall|j: int|
                0 <= j < max_at ==> delta_at(s1@, s2@, j) < max_delta),
        decreases n - i,
    {
        let t2 = s2[i].cpu_time;
        let delta: u64 = match find_time(s1, s2[i].tid) {
            Some(t1) => if t2 >= t1 {
                t2 - t1
            } else {
                0
            },
            None => 0,
        };
        proof {
            assert(delta == delta_at(s1@, s2@, i as int));
        }
        if delta > max_delta {
            max_delta = delta;
            heaviest = s2[i].tid;
            proof {
                max_at = i as int;
            }
        }
        i = i + 1;
    }
    if max_delta == 0 {
        Err(AppError::SystemError(String::from_str("no heaviest thread")))
    } else {
        Ok(heaviest)
    }
}

} // verus!
