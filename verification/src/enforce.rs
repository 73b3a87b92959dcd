//! The policy enforcer: per tick it reconciles each observed process
//! against its resolved target profile and plans the mutations to issue,
//! under the five-process operation budget. The planner only decides; the
//! host performs the Win32 calls and reports what succeeded.

use vstd::prelude::*;
use vstd::string::StringSliceAdditionalSpecFns;
use crate::mask;
use crate::mask::AffinityMode;
use crate::profile;
use crate::profile::ProcessProfile;
use crate::text;
use crate::types::{PriorityLevel, ProcessInfo};

verus! {

/// One mutation the effector is asked to perform.
#[derive(Debug, Clone, Copy, PartialEq, Eq, Structural)]
pub struct Action {
    pub pid: u32,
    pub kind: ActionKind,
}

/// What the mutation does.
#[derive(Debug, Clone, Copy, PartialEq, Eq, Structural)]
pub enum ActionKind {
    /// Set the process priority class.
    SetPriority(PriorityLevel),
    /// Set the hard affinity mask; a burst or extreme mode also raises the
    /// priority class in the same application.
    SetHardAffinity(u64, Option<PriorityLevel>),
    /// Apply the mask's cores as advisory CPU sets.
    SetCpuSets(u64),
}

/// One remembered successful application, used to skip redundant calls.
#[derive(Debug, Clone, Copy, PartialEq, Eq, Structural)]
pub struct AppliedEntry {
    pub pid: u32,
    pub mask: u64,
    pub level: PriorityLevel,
}

/// The cache of most recent successful mutations per pid.
#[derive(Debug, Clone)]
pub struct AppliedCache {
    pub entries: Vec<AppliedEntry>,
}

/// The cache entry standing for a pid: the first record, scanning from
/// the front.
pub open spec fn cache_entry(entries: Seq<AppliedEntry>, pid: u32) -> Option<AppliedEntry>
    decreases entries.len(),
{
    if entries.len() == 0 {
        None
    } else if entries[0].pid == pid {
        Some(entries[0])
    } else {
        cache_entry(entries.skip(1), pid)
    }
}

/// Removing a record of another pid leaves a pid's standing entry as it was.
proof fn lemma_cache_entry_remove(s: Seq<AppliedEntry>, j: int, q: u32)
    requires
        0 <= j < s.len(),
        s[j].pid != q,
    ensures
        cache_entry(s.remove(j), q) == cache_entry(s, q),
    decreases s.len(),
{
    if j == 0 {
        assert(s.remove(0) =~= s.skip(1));
    } else {
        assert(s.remove(j)[0] == s[0]);
        if s[0].pid == q {
        } else {
            assert(s.remove(j).skip(1) =~= s.skip(1).remove(j - 1));
            lemma_cache_entry_remove(s.skip(1), j - 1, q);
        }
    }
}

impl AppliedCache {
    /// An empty cache.
    pub fn new() -> (r: AppliedCache)
        ensures
            r.entries@.len() == 0,
    {
        AppliedCache { entries: Vec::new() }
    }

    /// Look up the remembered state of a pid.
    pub fn lookup(&self, pid: u32) -> (r: Option<AppliedEntry>)
        ensures
            r == cache_entry(self.entries@, pid),
    {
        let n = self.entries.len();
        let mut i: usize = 0;
        proof {
            assert(self.entries@.skip(0int) =~= self.entries@);
        }
        while i < n
            invariant
                n == self.entries@.len(),
                0 <= i <= n,
                cache_entry(self.entries@, pid) == cache_entry(self.entries@.skip(i as int), pid),
            decreases n - i,
        {
            let ghost rest = self.entries@.skip(i as int);
            proof {
                assert(rest[0] == self.entries@[i as int]);
                assert(rest.skip(1) =~= self.entries@.skip(i + 1));
            }
            if self.entries[i].pid == pid {
                return Some(self.entries[i]);
            }
            i = i + 1;
        }
        proof {
            assert(self.entries@.skip(n as int) =~= Seq::<AppliedEntry>::empty());
        }
        None
    }

    /// Record a successful application, replacing any earlier record of
    /// the pid.
    pub fn store(&mut self, pid: u32, mask: u64, level: PriorityLevel)
        ensures
            cache_entry(final(self).entries@, pid) == Some(AppliedEntry { pid, mask, level }),
            forall|q: u32|
                q != pid ==> cache_entry(final(self).entries@, q) == cache_entry(
                    old(self).entries@,
                    q,
                ),
    {
        let ghost orig = self.entries@;
        let n = self.entries.len();
        let mut i: usize = 0;
        while i < n
            invariant
                n == self.entries@.len(),
                self.entries@ == orig,
                orig == old(self).entries@,
                0 <= i <= n,
                forall|j: int| 0 <= j < i ==> orig[j].pid != pid,
            decreases n - i,
        {
            if self.entries[i].pid == pid {
                let entry = AppliedEntry { pid, mask, level };
                self.entries.remove(i);
                proof {
                    assert forall|q: u32| q != pid implies cache_entry(orig.remove(i as int), q)
                        == cache_entry(orig, q) by {
                        lemma_cache_entry_remove(orig, i as int, q);
                    }
                }
                let ghost trimmed = self.entries@;
                self.entries.insert(0, entry);
                proof {
                    assert(self.entries@[0] == entry);
                    assert(self.entries@.skip(1) =~= trimmed);
                }
                return ;
            }
            i = i + 1;
        }
        let entry = AppliedEntry { pid, mask, level };
        let ghost prev = self.entries@;
        self.entries.insert(0, entry);
        proof {
            assert(self.entries@[0] == entry);
            assert(self.entries@.skip(1) =~= prev);
        }
    }

    /// Drop the records of pids no longer alive, as the sampler does once
    /// a minute.
    pub fn retain_live(&mut self, live: &Vec<u32>)
        ensures
            final(self).entries@ == old(self).entries@.filter(
                |e: AppliedEntry| live@.contains(e.pid),
            ),
    {
        broadcast use vstd::seq_lib::group_filter_ensures;

        let ghost orig = self.entries@;
        let ghost keep = |e: AppliedEntry| live@.contains(e.pid);
        let mut i: usize = 0;
        let ghost mut k: int = 0;
        proof {
            assert(orig.take(0int) =~= Seq::<AppliedEntry>::empty());
            assert(orig.take(0int).filter(keep) + orig.skip(0int) =~= orig);
        }
        while i < self.entries.len()
            invariant
                keep == (|e: AppliedEntry| live@.contains(e.pid)),
                0 <= k <= orig.len(),
                i as int == orig.take(k).filter(keep).len(),
                self.entries@ == orig.take(k).filter(keep) + orig.skip(k),
                i as int <= self.entries@.len(),
                k == orig.len() ==> i as int == self.entries@.len(),
            decreases orig.len() - k,
        {
            let ghost kept_k = orig.take(k).filter(keep);
            proof {
                assert(k < orig.len()) by {
                    if k == orig.len() {
                        assert(i as int == self.entries@.len());
                    }
                }
                assert(orig.take(k + 1) =~= orig.take(k).push(orig[k]));
                assert(self.entries@[i as int] == orig.skip(k)[0]);
                assert(orig.skip(k)[0] == orig[k]);
            }
            let alive = crate::types::contains_pid(live, self.entries[i].pid);
            if !alive {
                proof {
                    assert(!keep(orig[k]));
                }
                self.entries.remove(i);
                proof {
                    orig.take(k).lemma_filter_push(orig[k], keep);
                    assert(self.entries@ =~= kept_k + orig.skip(k + 1));
                    assert(orig.take(k + 1).filter(keep) == kept_k);
                }
            } else {
                proof {
                    assert(keep(orig[k]));
                    orig.take(k).lemma_filter_push(orig[k], keep);
                    assert(orig.take(k + 1).filter(keep) == kept_k.push(orig[k]));
                    assert(kept_k.push(orig[k]) + orig.skip(k + 1) =~= kept_k + orig.skip(k));
                }
                i = i + 1;
            }
            proof {
                k = k + 1;
                assert(k == orig.len() ==> orig.skip(k) =~= Seq::<AppliedEntry>::empty());
            }
        }
        proof {
            assert(k == orig.len()) by {
                if k < orig.len() {
                    assert(self.entries@.len() > i as int);
                }
            }
            assert(orig.skip(k) =~= Seq::<AppliedEntry>::empty());
            assert(self.entries@ =~= orig.take(k).filter(keep));
            assert(orig.take(k) =~= orig);
        }
    }
}


/// The priority class a profile asks for, if its name parses.
pub open spec fn target_level(p: ProcessProfile) -> Option<PriorityLevel> {
    crate::types::priority_of_name(text::bytes_of(p.priority))
}

/// The affinity mask a profile asks for, if its hex string parses.
pub open spec fn target_mask(p: ProcessProfile) -> Option<u64> {
    text::parse_hex_spec(text::strip_0x(text::bytes_of(p.affinity)))
}

/// The affinity mode a profile asks for.
pub open spec fn profile_mode(p: ProcessProfile) -> AffinityMode {
    mask::mode_of_name(text::bytes_of(p.mode))
}

/// The priority class a snapshot entry shows, if readable.
pub open spec fn observed_level(p: ProcessInfo) -> Option<PriorityLevel> {
    crate::types::priority_of_name(text::bytes_of(p.priority))
}

/// The hard-affinity mask a snapshot entry shows.
pub open spec fn observed_mask(p: ProcessInfo, system_mask: u64) -> u64 {
    mask::view_mask(text::bytes_of(p.cpu_affinity), system_mask)
}

/// The rendered-view prefix that marks an entry as running under CPU sets.
pub open spec fn sets_prefix() -> Seq<u8> {
    seq![83u8, 101u8, 116u8, 115u8]
}

/// The snapshot entry shows an advisory CPU-set assignment.
pub open spec fn observed_soft(p: ProcessInfo) -> bool {
    text::has_prefix(text::bytes_of(p.cpu_affinity), sets_prefix())
}

/// The priority mutation enforcement plans for one process: set the
/// profile's class when it parses, the observation shows another class,
/// and the cache does not already record this exact class for the pid.
pub open spec fn plan_priority(
    p: ProcessInfo,
    prof: ProcessProfile,
    cache: Seq<AppliedEntry>,
) -> Seq<Action> {
    match target_level(prof) {
        Some(t) => {
            if observed_level(p) != Some(t) && !cache_records_level(cache, p.pid, t) {
                seq![Action { pid: p.pid, kind: ActionKind::SetPriority(t) }]
            } else {
                Seq::empty()
            }
        },
        None => Seq::empty(),
    }
}

/// The cache remembers exactly this priority class for the pid.
pub open spec fn cache_records_level(
    cache: Seq<AppliedEntry>,
    pid: u32,
    level: PriorityLevel,
) -> bool {
    match cache_entry(cache, pid) {
        Some(e) => e.level == level,
        None => false,
    }
}

/// The cache remembers exactly this mask for the pid.
pub open spec fn cache_records_mask(cache: Seq<AppliedEntry>, pid: u32, m: u64) -> bool {
    match cache_entry(cache, pid) {
        Some(e) => e.mask == m,
        None => false,
    }
}

/// The affinity mutation enforcement plans for one process. Soft mode
/// re-applies CPU sets whenever the observation does not show them; any
/// other mode compares the observed mask against the mode's final mask.
pub open spec fn plan_affinity(
    p: ProcessInfo,
    prof: ProcessProfile,
    cache: Seq<AppliedEntry>,
    system_mask: u64,
) -> Seq<Action> {
    match target_mask(prof) {
        Some(tm) => {
            let mode = profile_mode(prof);
            if mode == AffinityMode::Soft {
                if !observed_soft(p) {
                    seq![Action { pid: p.pid, kind: ActionKind::SetCpuSets(tm) }]
                } else {
                    Seq::empty()
                }
            } else {
                let effect = mask::mode_effect(mode, tm);
                if observed_mask(p, system_mask) != effect.0 && !cache_records_mask(
                    cache,
                    p.pid,
                    effect.0,
                ) {
                    seq![
                        Action {
                            pid: p.pid,
                            kind: ActionKind::SetHardAffinity(effect.0, effect.1),
                        },
                    ]
                } else {
                    Seq::empty()
                }
            }
        },
        None => Seq::empty(),
    }
}

/// Everything enforcement plans for one process under its profile.
pub open spec fn process_plan(
    p: ProcessInfo,
    prof: ProcessProfile,
    cache: Seq<AppliedEntry>,
    system_mask: u64,
) -> Seq<Action> {
    plan_priority(p, prof, cache) + plan_affinity(p, prof, cache, system_mask)
}

/// Plan the mutations for one process under one profile.
pub fn plan_process(
    p: &ProcessInfo,
    prof: &ProcessProfile,
    cache: &AppliedCache,
    system_mask: u64,
) -> (r: Vec<Action>)
    ensures
        r@ == process_plan(*p, *prof, cache.entries@, system_mask),
{
    let mut r: Vec<Action> = Vec::new();
    let cached = cache.lookup(p.pid);
    match PriorityLevel::from_str(prof.priority.as_str()) {
        Some(t) => {
            let obs = PriorityLevel::from_str(p.priority.as_str());
            let cache_hit = match cached {
                Some(e) => e.level == t,
                None => false,
            };
            if obs != Some(t) && !cache_hit {
                r.push(Action { pid: p.pid, kind: ActionKind::SetPriority(t) });
            }
        },
        None => {},
    }
    proof {
        assert(r@ =~= plan_priority(*p, *prof, cache.entries@));
    }
    match text::parse_hex_u64(prof.affinity.as_str()) {
        Some(tm) => {
            let mode = AffinityMode::from_str(prof.mode.as_str());
            if mode == AffinityMode::Soft {
                let ab = p.cpu_affinity.as_str().as_bytes();
                let is_sets = ab.len() >= 4 && ab[0] == 83 && ab[1] == 101 && ab[2] == 116
                    && ab[3] == 115;
                proof {
                    if is_sets {
                        assert(text::bytes_of(p.cpu_affinity).subrange(0, 4) =~= sets_prefix());
                    } else if ab@.len() >= 4 {
                        assert(text::bytes_of(p.cpu_affinity).subrange(0, 4) != sets_prefix())
                            by {
                            let pr = text::bytes_of(p.cpu_affinity).subrange(0, 4);
                            if pr == sets_prefix() {
                                assert(ab@[0] == 83 && ab@[1] == 101 && ab@[2] == 116 && ab@[3]
                                    == 115);
                            }
                        }
                    }
                }
                if !is_sets {
                    r.push(Action { pid: p.pid, kind: ActionKind::SetCpuSets(tm) });
                }
            } else {
                let effect = mask::apply_mode(mode, tm);
                let obs_mask = mask::parse_affinity_view(p.cpu_affinity.as_str(), system_mask);
                let cache_hit = match cached {
                    Some(e) => e.mask == effect.0,
                    None => false,
                };
                if obs_mask != effect.0 && !cache_hit {
                    r.push(
                        Action { pid: p.pid, kind: ActionKind::SetHardAffinity(effect.0, effect.1) },
                    );
                }
            }
        },
        None => {},
    }
    proof {
        assert(r@ =~= process_plan(*p, *prof, cache.entries@, system_mask));
    }
    r
}

/// A conforming observation needs no mutation: when the observed priority
/// and affinity already equal the profile's target, the plan is empty.
pub proof fn lemma_conforming_plan_empty(
    p: ProcessInfo,
    prof: ProcessProfile,
    cache: Seq<AppliedEntry>,
    system_mask: u64,
)
    requires
        match target_level(prof) {
            Some(t) => observed_level(p) == Some(t),
            None => true,
        },
        match target_mask(prof) {
            Some(tm) => {
                if profile_mode(prof) == AffinityMode::Soft {
                    observed_soft(p)
                } else {
                    observed_mask(p, system_mask) == mask::mode_effect(profile_mode(prof), tm).0
                }
            },
            None => true,
        },
    ensures
        process_plan(p, prof, cache, system_mask) == Seq::<Action>::empty(),
{
    assert(process_plan(p, prof, cache, system_mask) =~= Seq::<Action>::empty());
}

/// A cache hit suppresses the second application: re-planning right after
/// the cache recorded the target yields no mutation, whatever the (stale)
/// observation still shows; and a pid whose cache entry differs from the
/// target is planned again whenever the observation differs too.
pub proof fn lemma_cache_hit_suppresses(
    p: ProcessInfo,
    prof: ProcessProfile,
    cache: Seq<AppliedEntry>,
    system_mask: u64,
    t: PriorityLevel,
    fm: u64,
)
    requires
        target_level(prof) == Some(t),
        (target_mask(prof) matches Some(tm) && mask::mode_effect(profile_mode(prof), tm).0 == fm),
        profile_mode(prof) != AffinityMode::Soft,
        cache_entry(cache, p.pid) == Some(AppliedEntry { pid: p.pid, mask: fm, level: t }),
    ensures
        process_plan(p, prof, cache, system_mask) == Seq::<Action>::empty(),
{
    assert(cache_records_level(cache, p.pid, t));
    assert(cache_records_mask(cache, p.pid, fm));
    assert(process_plan(p, prof, cache, system_mask) =~= Seq::<Action>::empty());
}

/// With no matching cache entry, a diverging observation is planned: the
/// mutation is issued again (a cache miss costs one call per diverging
/// field).
pub proof fn lemma_cache_miss_replans(
    p: ProcessInfo,
    prof: ProcessProfile,
    cache: Seq<AppliedEntry>,
    system_mask: u64,
    t: PriorityLevel,
)
    requires
        target_level(prof) == Some(t),
        observed_level(p) != Some(t),
        !cache_records_level(cache, p.pid, t),
    ensures
        process_plan(p, prof, cache, system_mask).len() > 0,
        process_plan(p, prof, cache, system_mask)[0] == (Action {
            pid: p.pid,
            kind: ActionKind::SetPriority(t),
        }),
{
    assert(plan_priority(p, prof, cache).len() == 1);
}

/// The per-tick operation budget: at most this many processes receive
/// mutations in one tick.
pub const OPERATION_BUDGET: u32 = 5;

/// The full enforcement plan of one tick: walk the snapshot in order,
/// plan each process that resolves to an enabled profile, and stop once
/// the budget of mutated processes is spent.
pub open spec fn spec_tick_plan(
    ps: Seq<ProcessInfo>,
    profiles: Seq<ProcessProfile>,
    cache: Seq<AppliedEntry>,
    system_mask: u64,
    budget: int,
) -> Seq<Action>
    decreases ps.len(),
{
    if ps.len() == 0 || budget <= 0 {
        Seq::empty()
    } else {
        let acts = match profile::match_profile(profiles, text::bytes_of(ps[0].name)) {
            Some(pr) => process_plan(ps[0], pr, cache, system_mask),
            None => Seq::empty(),
        };
        if acts.len() > 0 {
            acts + spec_tick_plan(ps.skip(1), profiles, cache, system_mask, budget - 1)
        } else {
            spec_tick_plan(ps.skip(1), profiles, cache, system_mask, budget)
        }
    }
}

/// How many processes the tick plan mutates.
pub open spec fn spec_tick_touched(
    ps: Seq<ProcessInfo>,
    profiles: Seq<ProcessProfile>,
    cache: Seq<AppliedEntry>,
    system_mask: u64,
    budget: int,
) -> int
    decreases ps.len(),
{
    if ps.len() == 0 || budget <= 0 {
        0
    } else {
        let acts = match profile::match_profile(profiles, text::bytes_of(ps[0].name)) {
            Some(pr) => process_plan(ps[0], pr, cache, system_mask),
            None => Seq::empty(),
        };
        if acts.len() > 0 {
            1 + spec_tick_touched(ps.skip(1), profiles, cache, system_mask, budget - 1)
        } else {
            spec_tick_touched(ps.skip(1), profiles, cache, system_mask, budget)
        }
    }
}

/// One process contributes at most two mutations: one priority change and
/// one affinity change.
pub proof fn lemma_process_plan_len(
    p: ProcessInfo,
    prof: ProcessProfile,
    cache: Seq<AppliedEntry>,
    system_mask: u64,
)
    ensures
        process_plan(p, prof, cache, system_mask).len() <= 2,
{
}

/// The operation budget holds: one tick mutates at most `budget`
/// processes, so at most `2 * budget` mutations are planned.
pub proof fn lemma_tick_plan_budget(
    ps: Seq<ProcessInfo>,
    profiles: Seq<ProcessProfile>,
    cache: Seq<AppliedEntry>,
    system_mask: u64,
    budget: int,
)
    ensures
        spec_tick_touched(ps, profiles, cache, system_mask, budget) <= if budget >= 0 {
            budget
        } else {
            0
        },
        spec_tick_plan(ps, profiles, cache, system_mask, budget).len() <= 2
            * spec_tick_touched(ps, profiles, cache, system_mask, budget),
    decreases ps.len(),
{
    if ps.len() == 0 || budget <= 0 {
    } else {
        match profile::match_profile(profiles, text::bytes_of(ps[0].name)) {
            Some(pr) => {
                lemma_process_plan_len(ps[0], pr, cache, system_mask);
            },
            None => {},
        }
        lemma_tick_plan_budget(ps.skip(1), profiles, cache, system_mask, budget - 1);
        lemma_tick_plan_budget(ps.skip(1), profiles, cache, system_mask, budget);
    }
}

/// Plan one tick of profile enforcement over the snapshot, in snapshot
/// order, under the operation budget.
pub fn plan_tick(
    processes: &Vec<ProcessInfo>,
    profiles: &Vec<ProcessProfile>,
    cache: &AppliedCache,
    system_mask: u64,
) -> (r: Vec<Action>)
    ensures
        r@ == spec_tick_plan(
            processes@,
            profiles@,
            cache.entries@,
            system_mask,
            OPERATION_BUDGET as int,
        ),
{
    let mut r: Vec<Action> = Vec::new();
    let mut budget: u32 = OPERATION_BUDGET;
    let n = processes.len();
    let mut i: usize = 0;
    proof {
        assert(processes@.skip(0int) =~= processes@);
    }
    while i < n
        invariant
            n == processes@.len(),
            0 <= i <= n,
            budget <= OPERATION_BUDGET,
            spec_tick_plan(
                processes@,
                profiles@,
                cache.entries@,
                system_mask,
                OPERATION_BUDGET as int,
            ) == r@ + spec_tick_plan(
                processes@.skip(i as int),
                profiles@,
                cache.entries@,
                system_mask,
                budget as int,
            ),
        decreases n - i,
    {
        let ghost rest = processes@.skip(i as int);
        proof {
            assert(rest[0] == processes@[i as int]);
            assert(rest.skip(1) =~= processes@.skip(i + 1));
        }
        if budget == 0 {
            proof {
                assert(spec_tick_plan(rest, profiles@, cache.entries@, system_mask, 0)
                    =~= Seq::<Action>::empty());
                assert(r@ + Seq::<Action>::empty() =~= r@);
            }
            return r;
        }
        match profile::find_profile(profiles, processes[i].name.as_str()) {
            Some(idx) => {
                let mut acts = plan_process(&processes[i], &profiles[idx], cache, system_mask);
                if acts.len() > 0 {
                    let ghost racts = acts@;
                    let ghost rprev = r@;
                    r.append(&mut acts);
                    proof {
                        assert(r@ =~= rprev + racts);
                        assert((rprev + racts) + spec_tick_plan(
                            rest.skip(1),
                            profiles@,
                            cache.entries@,
                            system_mask,
                            budget - 1,
                        ) =~= rprev + (racts + spec_tick_plan(
                            rest.skip(1),
                            profiles@,
                            cache.entries@,
                            system_mask,
                            budget - 1,
                        )));
                    }
                    budget = budget - 1;
                }
            },
            None => {},
        }
        i = i + 1;
    }
    proof {
        assert(processes@.skip(n as int) =~= Seq::<ProcessInfo>::empty());
        assert(spec_tick_plan(
            processes@.skip(n as int),
            profiles@,
            cache.entries@,
            system_mask,
            budget as int,
        ) =~= Seq::<Action>::empty());
        assert(r@ + Seq::<Action>::empty() =~= r@);
    }
    r
}

} // verus!
