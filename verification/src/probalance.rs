//! The ProBalance supervisor: while a game-list process is running and the
//! total load crosses the threshold, background CPU hogs are demoted to the
//! restrain priority; when the pressure ends, ProBalance is disabled, or no
//! game runs, every demoted pid is restored to Normal. Games themselves are
//! never demoted.

use vstd::prelude::*;
use vstd::string::StringSliceAdditionalSpecFns;
use crate::enforce::observed_level;
use crate::profile;
use crate::text;
use crate::types::{PriorityLevel, ProcessInfo};

verus! {

/// Some snapshot entry matches the game list.
pub open spec fn spec_game_running(ps: Seq<ProcessInfo>, game_list: Seq<Seq<u8>>) -> bool {
    exists|i: int|
        0 <= i < ps.len() && profile::name_in_list(text::bytes_of(#[trigger] ps[i].name), game_list)
}

/// Whether any snapshot entry matches the game list.
pub fn game_running(processes: &Vec<ProcessInfo>, game_list: &Vec<String>) -> (r: bool)
    ensures
        r == spec_game_running(processes@, profile::list_bytes(game_list@)),
{
    let mut i: usize = 0;
    while i < processes.len()
        invariant
            0 <= i <= processes@.len(),
            forall|j: int|
                0 <= j < i ==> !profile::name_in_list(
                    text::bytes_of(#[trigger] processes@[j].name),
                    profile::list_bytes(game_list@),
                ),
        decreases processes@.len() - i,
    {
        if profile::matches_list(processes[i].name.as_str(), game_list) {
            return true;
        }
        i = i + 1;
    }
    false
}

/// The total normalized CPU load of the snapshot, in hundredths of a
/// percent of the whole machine. Entries are already normalized by the
/// logical core count, so the total is their plain sum.
pub open spec fn spec_total_centi(ps: Seq<ProcessInfo>) -> int
    decreases ps.len(),
{
    if ps.len() == 0 {
        0
    } else {
        spec_total_centi(ps.drop_last()) + ps.last().cpu_centi_pct
    }
}

/// Sum the normalized CPU load over the snapshot.
pub fn total_centi(processes: &Vec<ProcessInfo>) -> (r: u64)
    requires
        processes@.len() <= 0x1_0000_0000,
    ensures
        r == spec_total_centi(processes@),
{
    let mut r: u64 = 0;
    let n = processes.len();
    let mut i: usize = 0;
    while i < n
        invariant
            n == processes@.len() <= 0x1_0000_0000,
            0 <= i <= n,
            r == spec_total_centi(processes@.take(i as int)),
            r <= i * 0x1_0000_0000,
        decreases n - i,
    {
        proof {
            assert(processes@.take(i + 1).drop_last() =~= processes@.take(i as int));
            assert(processes@.take(i + 1).last() == processes@[i as int]);
        }
        r = r + processes[i].cpu_centi_pct as u64;
        i = i + 1;
    }
    proof {
        assert(processes@.take(n as int) =~= processes@);
    }
    r
}

/// A process is eligible for demotion iff it sits at Normal, AboveNormal
/// or High priority, is not the foreground process, matches neither the
/// game list nor the exclude list, uses at least one percent of the
/// machine, and is not already restrained.
pub open spec fn demote_ok(
    p: ProcessInfo,
    game_list: Seq<Seq<u8>>,
    excludes: Seq<Seq<u8>>,
    foreground_pid: u32,
    restrained: Seq<u32>,
) -> bool {
    &&& (observed_level(p) == Some(PriorityLevel::Normal) || observed_level(p) == Some(
        PriorityLevel::AboveNormal,
    ) || observed_level(p) == Some(PriorityLevel::High))
    &&& p.pid != foreground_pid
    &&& !profile::name_in_list(text::bytes_of(p.name), game_list)
    &&& !profile::name_in_list(text::bytes_of(p.name), excludes)
    &&& p.cpu_centi_pct >= 100
    &&& !restrained.contains(p.pid)
}

/// The pids the supervisor will try to demote, in snapshot order.
pub open spec fn demote_candidates(
    ps: Seq<ProcessInfo>,
    game_list: Seq<Seq<u8>>,
    excludes: Seq<Seq<u8>>,
    foreground_pid: u32,
    restrained: Seq<u32>,
) -> Seq<u32>
    decreases ps.len(),
{
    if ps.len() == 0 {
        Seq::empty()
    } else {
        let r = demote_candidates(ps.drop_last(), game_list, excludes, foreground_pid, restrained);
        if demote_ok(ps.last(), game_list, excludes, foreground_pid, restrained) {
            r.push(ps.last().pid)
        } else {
            r
        }
    }
}

/// What one supervisor pass decides: pids to restore to Normal (after
/// which the restrained set is cleared) and pids to try to demote. At most
/// one of the two lists is non-empty.
#[derive(Debug, Clone)]
pub struct BalanceStep {
    pub restore: Vec<u32>,
    pub demote: Vec<u32>,
}

/// One supervisor pass over a snapshot. With ProBalance disabled or no
/// game running, every restrained pid is restored; under threshold, the
/// same; over threshold, the eligible background hogs are demoted. Only
/// pids whose demotion the effector then reports as successful may be
/// added to the restrained set.
pub fn balance_step(
    enabled: bool,
    cpu_threshold_centi: u32,
    processes: &Vec<ProcessInfo>,
    game_list: &Vec<String>,
    excludes: &Vec<String>,
    foreground_pid: u32,
    restrained: &Vec<u32>,
) -> (r: BalanceStep)
    requires
        processes@.len() <= 0x1_0000_0000,
    ensures
        (!enabled || !spec_game_running(processes@, profile::list_bytes(game_list@))
            || spec_total_centi(processes@) <= cpu_threshold_centi) ==> (r.restore@ == restrained@
            && r.demote@.len() == 0),
        (enabled && spec_game_running(processes@, profile::list_bytes(game_list@))
            && spec_total_centi(processes@) > cpu_threshold_centi) ==> (r.restore@.len() == 0
            && r.demote@ == demote_candidates(
            processes@,
            profile::list_bytes(game_list@),
            profile::list_bytes(excludes@),
            foreground_pid,
            restrained@,
        )),
{
    if !enabled || !game_running(processes, game_list) {
        return BalanceStep { restore: clone_pids(restrained), demote: Vec::new() };
    }
    let total = total_centi(processes);
    if total <= cpu_threshold_centi as u64 {
        return BalanceStep { restore: clone_pids(restrained), demote: Vec::new() };
    }
    let ghost gl = profile::list_bytes(game_list@);
    let ghost ex = profile::list_bytes(excludes@);
    let mut demote: Vec<u32> = Vec::new();
    let n = processes.len();
    let mut i: usize = 0;
    while i < n
        invariant
            n == processes@.len(),
            gl == profile::list_bytes(game_list@),
            ex == profile::list_bytes(excludes@),
            0 <= i <= n,
            demote@ == demote_candidates(
                processes@.take(i as int),
                gl,
                ex,
                foreground_pid,
                restrained@,
            ),
        decreases n - i,
    {
        proof {
            assert(processes@.take(i + 1).drop_last() =~= processes@.take(i as int));
            assert(processes@.take(i + 1).last() == processes@[i as int]);
        }
        let p = &processes[i];
        let level = PriorityLevel::from_str(p.priority.as_str());
        let eligible_priority = level == Some(PriorityLevel::Normal) || level == Some(
            PriorityLevel::AboveNormal,
        ) || level == Some(PriorityLevel::High);
        if eligible_priority && p.pid != foreground_pid && !profile::matches_list(
            p.name.as_str(),
            game_list,
        ) && !profile::matches_list(p.name.as_str(), excludes) && p.cpu_centi_pct >= 100
            && !crate::types::contains_pid(restrained, p.pid) {
            demote.push(p.pid);
        }
        i = i + 1;
    }
    proof {
        assert(processes@.take(n as int) =~= processes@);
    }
    BalanceStep { restore: Vec::new(), demote }
}

/// Record one successful demotion: the pid joins the restrained set (once).
pub fn mark_restrained(restrained: &mut Vec<u32>, pid: u32)
    ensures
        !old(restrained)@.contains(pid) ==> final(restrained)@ == old(restrained)@.push(pid),
        old(restrained)@.contains(pid) ==> final(restrained)@ == old(restrained)@,
        final(restrained)@.contains(pid),
{
    broadcast use vstd::seq_lib::lemma_seq_contains_after_push;

    if !crate::types::contains_pid(restrained, pid) {
        restrained.push(pid);
    }
}

/// Forget every restrained pid, after their restoration was issued.
pub fn clear_restrained(restrained: &mut Vec<u32>)
    ensures
        final(restrained)@.len() == 0,
{
    restrained.clear();
}


/// Copy a pid list.
fn clone_pids(v: &Vec<u32>) -> (r: Vec<u32>)
    ensures
        r@ == v@,
{
    let mut r: Vec<u32> = Vec::new();
    let mut k: usize = 0;
    while k < v.len()
        invariant
            0 <= k <= v@.len(),
            r@ == v@.take(k as int),
        decreases v@.len() - k,
    {
        proof {
            assert(v@.take(k + 1).drop_last() =~= v@.take(k as int));
            assert(v@.take(k + 1).last() == v@[k as int]);
        }
        r.push(v[k]);
        k = k + 1;
    }
    proof {
        assert(v@.take(v@.len() as int) =~= v@);
    }
    r
}

/// The pid belongs to an eligible snapshot entry.
pub open spec fn eligible_pid(
    ps: Seq<ProcessInfo>,
    game_list: Seq<Seq<u8>>,
    excludes: Seq<Seq<u8>>,
    foreground_pid: u32,
    restrained: Seq<u32>,
    pid: u32,
) -> bool {
    exists|j: int|
        0 <= j < ps.len() && #[trigger] ps[j].pid == pid && demote_ok(
            ps[j],
            game_list,
            excludes,
            foreground_pid,
            restrained,
        )
}

/// Every demotion candidate was eligible: in particular it is not yet
/// restrained (a pid is only demoted once) and it does not match the game
/// list (games are immune).
pub proof fn lemma_candidates_eligible(
    ps: Seq<ProcessInfo>,
    game_list: Seq<Seq<u8>>,
    excludes: Seq<Seq<u8>>,
    foreground_pid: u32,
    restrained: Seq<u32>,
)
    ensures
        forall|k: int|
            0 <= k < demote_candidates(ps, game_list, excludes, foreground_pid, restrained).len()
                ==> eligible_pid(
                ps,
                game_list,
                excludes,
                foreground_pid,
                restrained,
                #[trigger] demote_candidates(ps, game_list, excludes, foreground_pid, restrained)[k],
            ),
    decreases ps.len(),
{
    if ps.len() > 0 {
        lemma_candidates_eligible(ps.drop_last(), game_list, excludes, foreground_pid, restrained);
        let c = demote_candidates(ps, game_list, excludes, foreground_pid, restrained);
        let cd = demote_candidates(ps.drop_last(), game_list, excludes, foreground_pid, restrained);
        assert forall|k: int| 0 <= k < c.len() implies eligible_pid(
            ps,
            game_list,
            excludes,
            foreground_pid,
            restrained,
            #[trigger] c[k],
        ) by {
            if k < cd.len() {
                assert(c[k] == cd[k]);
                assert(eligible_pid(ps.drop_last(), game_list, excludes, foreground_pid, restrained, cd[k]));
                let j = choose|j: int|
                    0 <= j < ps.drop_last().len() && #[trigger] ps.drop_last()[j].pid == cd[k]
                        && demote_ok(
                        ps.drop_last()[j],
                        game_list,
                        excludes,
                        foreground_pid,
                        restrained,
                    );
                assert(ps[j] == ps.drop_last()[j]);
                assert(ps[j].pid == c[k] && demote_ok(
                    ps[j],
                    game_list,
                    excludes,
                    foreground_pid,
                    restrained,
                ));
            } else {
                assert(ps[ps.len() - 1].pid == c[k] && demote_ok(
                    ps[ps.len() - 1],
                    game_list,
                    excludes,
                    foreground_pid,
                    restrained,
                ));
            }
        }
    }
}

/// Each pid appears at most once in a snapshot, as the OS guarantees for
/// one sampling pass.
pub open spec fn pids_unique(ps: Seq<ProcessInfo>) -> bool {
    forall|j1: int, j2: int|
        0 <= j1 < ps.len() && 0 <= j2 < ps.len() && #[trigger] ps[j1].pid == #[trigger] ps[j2].pid
            ==> j1 == j2
}

/// Game immunity is preserved tick over tick: if no restrained pid belongs
/// to a game-list process of the snapshot, then after demoting this tick's
/// candidates the same still holds — a candidate never matches the game
/// list.
pub proof fn lemma_game_immunity(
    ps: Seq<ProcessInfo>,
    game_list: Seq<Seq<u8>>,
    excludes: Seq<Seq<u8>>,
    foreground_pid: u32,
    restrained: Seq<u32>,
    demoted: Seq<u32>,
)
    requires
        forall|q: int|
            0 <= q < restrained.len() ==> !game_pid_in(ps, game_list, #[trigger] restrained[q]),
        forall|k: int|
            0 <= k < demoted.len() ==> demote_candidates(
                ps,
                game_list,
                excludes,
                foreground_pid,
                restrained,
            ).contains(#[trigger] demoted[k]),
        pids_unique(ps),
    ensures
        forall|q: int|
            0 <= q < restrained.add(demoted).len() ==> !game_pid_in(
                ps,
                game_list,
                #[trigger] restrained.add(demoted)[q],
            ),
{
    lemma_candidates_eligible(ps, game_list, excludes, foreground_pid, restrained);
    let cands = demote_candidates(ps, game_list, excludes, foreground_pid, restrained);
    assert forall|q: int| 0 <= q < restrained.add(demoted).len() implies !game_pid_in(
        ps,
        game_list,
        #[trigger] restrained.add(demoted)[q],
    ) by {
        let pid = restrained.add(demoted)[q];
        if q < restrained.len() {
            assert(pid == restrained[q]);
        } else {
            assert(pid == demoted[q - restrained.len()]);
            assert(cands.contains(pid));
            let k = choose|k: int| 0 <= k < cands.len() && cands[k] == pid;
            assert(eligible_pid(ps, game_list, excludes, foreground_pid, restrained, cands[k]));
            let j = choose|j: int|
                0 <= j < ps.len() && #[trigger] ps[j].pid == cands[k] && demote_ok(
                    ps[j],
                    game_list,
                    excludes,
                    foreground_pid,
                    restrained,
                );
            if game_pid_in(ps, game_list, pid) {
                let j2 = choose|j2: int|
                    0 <= j2 < ps.len() && #[trigger] ps[j2].pid == pid && profile::name_in_list(
                        text::bytes_of(ps[j2].name),
                        game_list,
                    );
                assert(j == j2);
            }
        }
    }
}

/// Every pid in the restrained set got there by a demotion that had not
/// been restored: a tick's demotion candidates are disjoint from the pids
/// already restrained, so joining the successful ones keeps every entry
/// accounted for by exactly one demotion.
pub proof fn lemma_restrained_provenance(
    ps: Seq<ProcessInfo>,
    game_list: Seq<Seq<u8>>,
    excludes: Seq<Seq<u8>>,
    foreground_pid: u32,
    restrained: Seq<u32>,
)
    ensures
        forall|k: int|
            0 <= k < demote_candidates(ps, game_list, excludes, foreground_pid, restrained).len()
                ==> !restrained.contains(
                #[trigger] demote_candidates(ps, game_list, excludes, foreground_pid, restrained)[k],
            ),
{
    lemma_candidates_eligible(ps, game_list, excludes, foreground_pid, restrained);
    let cands = demote_candidates(ps, game_list, excludes, foreground_pid, restrained);
    assert forall|k: int| 0 <= k < cands.len() implies !restrained.contains(
        #[trigger] cands[k],
    ) by {
        assert(eligible_pid(ps, game_list, excludes, foreground_pid, restrained, cands[k]));
        let j = choose|j: int|
            0 <= j < ps.len() && #[trigger] ps[j].pid == cands[k] && demote_ok(
                ps[j],
                game_list,
                excludes,
                foreground_pid,
                restrained,
            );
        assert(!restrained.contains(ps[j].pid));
    }
}

/// The pid belongs to a snapshot entry that matches the game list.
pub open spec fn game_pid_in(ps: Seq<ProcessInfo>, game_list: Seq<Seq<u8>>, pid: u32) -> bool {
    exists|j: int|
        0 <= j < ps.len() && #[trigger] ps[j].pid == pid && profile::name_in_list(
            text::bytes_of(ps[j].name),
            game_list,
        )
}

} // verus!
