//! Default rules: processes without an explicit profile are steered by a
//! game rule or a system rule. Game-list names get the game mask and
//! priority; everything else gets the system rule, except a protected set
//! of names and processes too quiet to be worth touching.

use vstd::prelude::*;
use vstd::string::StringSliceAdditionalSpecFns;
use crate::enforce::{Action, ActionKind, observed_level, observed_mask};
use crate::profile;
use crate::profile::{DefaultRules, ProcessProfile};
use crate::text;
use crate::types::{PriorityLevel, ProcessInfo};

verus! {

/// The names that default rules never touch: core system processes and
/// the governor's own executable.
pub open spec fn spec_protected_name(name: Seq<u8>) -> bool {
    let l = text::lower_of(name);
    ||| l == text::lower_of("system".spec_bytes())
    ||| l == text::lower_of("idle".spec_bytes())
    ||| l == text::lower_of("smss.exe".spec_bytes())
    ||| l == text::lower_of("csrss.exe".spec_bytes())
    ||| l == text::lower_of("wininit.exe".spec_bytes())
    ||| l == text::lower_of("services.exe".spec_bytes())
    ||| l == text::lower_of("lsass.exe".spec_bytes())
    ||| l == text::lower_of("svchost.exe".spec_bytes())
    ||| l == text::lower_of("dwm.exe".spec_bytes())
    ||| l == text::lower_of("explorer.exe".spec_bytes())
    ||| l == text::lower_of("task-nexus.exe".spec_bytes())
}

/// Whether a process name belongs to the protected set, compared
/// case-insensitively.
pub fn is_protected_name(name: &str) -> (r: bool)
    ensures
        r == spec_protected_name(name.spec_bytes()),
{
    text::eq_ignore_case(name, "system") || text::eq_ignore_case(name, "idle")
        || text::eq_ignore_case(name, "smss.exe") || text::eq_ignore_case(name, "csrss.exe")
        || text::eq_ignore_case(name, "wininit.exe") || text::eq_ignore_case(name, "services.exe")
        || text::eq_ignore_case(name, "lsass.exe") || text::eq_ignore_case(name, "svchost.exe")
        || text::eq_ignore_case(name, "dwm.exe") || text::eq_ignore_case(name, "explorer.exe")
        || text::eq_ignore_case(name, "task-nexus.exe")
}

/// The mask mutation a rule mask string asks for: plan a hard-affinity
/// call when the mask parses and the observation differs.
pub open spec fn rule_mask_plan(
    p: ProcessInfo,
    mask_str: Option<String>,
    system_mask: u64,
) -> Seq<Action> {
    match mask_str {
        Some(m) => match text::parse_hex_spec(text::strip_0x(text::bytes_of(m))) {
            Some(tm) => if observed_mask(p, system_mask) != tm {
                seq![Action { pid: p.pid, kind: ActionKind::SetHardAffinity(tm, None) }]
            } else {
                Seq::empty()
            },
            None => Seq::empty(),
        },
        None => Seq::empty(),
    }
}

/// The priority mutation a rule priority name asks for.
pub open spec fn rule_priority_plan(p: ProcessInfo, priority: String) -> Seq<Action> {
    match crate::types::priority_of_name(text::bytes_of(priority)) {
        Some(t) => if observed_level(p) != Some(t) {
            seq![Action { pid: p.pid, kind: ActionKind::SetPriority(t) }]
        } else {
            Seq::empty()
        },
        None => Seq::empty(),
    }
}

/// A process is quiet when it uses under a tenth of a percent of the
/// machine and sits at Normal priority; the system rule skips it.
pub open spec fn spec_quiet(p: ProcessInfo) -> bool {
    p.cpu_centi_pct < 10 && observed_level(p) == Some(PriorityLevel::Normal)
}

/// What default rules plan for one process: nothing when an explicit
/// profile resolves or the name is protected (for the system rule); the
/// game rule for game-list names; the system rule for the rest, unless
/// the process is quiet.
pub open spec fn rules_plan_one(
    p: ProcessInfo,
    rules: DefaultRules,
    profiles: Seq<ProcessProfile>,
    game_list: Seq<Seq<u8>>,
    system_mask: u64,
) -> Seq<Action> {
    if profile::match_profile(profiles, text::bytes_of(p.name)) is Some {
        Seq::empty()
    } else if profile::name_in_list(text::bytes_of(p.name), game_list) {
        rule_mask_plan(p, rules.game_mask, system_mask) + rule_priority_plan(p, rules.game_priority)
    } else if spec_protected_name(text::bytes_of(p.name)) || spec_quiet(p) {
        Seq::empty()
    } else {
        rule_mask_plan(p, rules.system_mask, system_mask) + rule_priority_plan(
            p,
            rules.system_priority,
        )
    }
}

/// Plan the default-rule mutations for one process.
pub fn plan_rules_process(
    p: &ProcessInfo,
    rules: &DefaultRules,
    profiles: &Vec<ProcessProfile>,
    game_list: &Vec<String>,
    system_mask: u64,
) -> (r: Vec<Action>)
    ensures
        r@ == rules_plan_one(*p, *rules, profiles@, profile::list_bytes(game_list@), system_mask),
{
    let mut r: Vec<Action> = Vec::new();
    if profile::has_profile(profiles, p.name.as_str()) {
        return r;
    }
    let is_game = profile::matches_list(p.name.as_str(), game_list);
    if !is_game && (is_protected_name(p.name.as_str()) || (p.cpu_centi_pct < 10 && (
    PriorityLevel::from_str(p.priority.as_str()) == Some(PriorityLevel::Normal)))) {
        proof {
            assert(r@ =~= rules_plan_one(
                *p,
                *rules,
                profiles@,
                profile::list_bytes(game_list@),
                system_mask,
            ));
        }
        return r;
    }
    let (mask_str, priority) = if is_game {
        (&rules.game_mask, &rules.game_priority)
    } else {
        (&rules.system_mask, &rules.system_priority)
    };
    match mask_str {
        Some(m) => {
            match text::parse_hex_u64(m.as_str()) {
                Some(tm) => {
                    let obs = crate::mask::parse_affinity_view(p.cpu_affinity.as_str(), system_mask);
                    if obs != tm {
                        r.push(Action { pid: p.pid, kind: ActionKind::SetHardAffinity(tm, None) });
                    }
                },
                None => {},
            }
        },
        None => {},
    }
    match PriorityLevel::from_str(priority.as_str()) {
        Some(t) => {
            let obs = PriorityLevel::from_str(p.priority.as_str());
            if obs != Some(t) {
                r.push(Action { pid: p.pid, kind: ActionKind::SetPriority(t) });
            }
        },
        None => {},
    }
    proof {
        assert(r@ =~= rules_plan_one(
            *p,
            *rules,
            profiles@,
            profile::list_bytes(game_list@),
            system_mask,
        ));
    }
    r
}

/// The full default-rules plan of one tick, in snapshot order, under the
/// same operation budget as profile enforcement; disabled rules plan
/// nothing.
pub open spec fn spec_rules_plan(
    ps: Seq<ProcessInfo>,
    rules: DefaultRules,
    profiles: Seq<ProcessProfile>,
    game_list: Seq<Seq<u8>>,
    system_mask: u64,
    budget: int,
) -> Seq<Action>
    decreases ps.len(),
{
    if ps.len() == 0 || budget <= 0 || !rules.enabled {
        Seq::empty()
    } else {
        let acts = rules_plan_one(ps[0], rules, profiles, game_list, system_mask);
        if acts.len() > 0 {
            acts + spec_rules_plan(ps.skip(1), rules, profiles, game_list, system_mask, budget - 1)
        } else {
            spec_rules_plan(ps.skip(1), rules, profiles, game_list, system_mask, budget)
        }
    }
}

/// Plan one tick of default-rule enforcement.
pub fn plan_rules_tick(
    processes: &Vec<ProcessInfo>,
    rules: &DefaultRules,
    profiles: &Vec<ProcessProfile>,
    game_list: &Vec<String>,
    system_mask: u64,
) -> (r: Vec<Action>)
    ensures
        r@ == spec_rules_plan(
            processes@,
            *rules,
            profiles@,
            profile::list_bytes(game_list@),
            system_mask,
            crate::enforce::OPERATION_BUDGET as int,
        ),
{
    let ghost gl = profile::list_bytes(game_list@);
    let mut r: Vec<Action> = Vec::new();
    if !rules.enabled {
        proof {
            if processes@.len() > 0 {
                assert(spec_rules_plan(
                    processes@,
                    *rules,
                    profiles@,
                    gl,
                    system_mask,
                    crate::enforce::OPERATION_BUDGET as int,
                ) =~= Seq::<Action>::empty());
            }
        }
        return r;
    }
    let mut budget: u32 = 5;
    let n = processes.len();
    let mut i: usize = 0;
    proof {
        assert(processes@.skip(0int) =~= processes@);
    }
    while i < n
        invariant
            n == processes@.len(),
            gl == profile::list_bytes(game_list@),
            rules.enabled,
            0 <= i <= n,
            budget <= 5,
            spec_rules_plan(processes@, *rules, profiles@, gl, system_mask, 5int) == r@
                + spec_rules_plan(
                processes@.skip(i as int),
                *rules,
                profiles@,
                gl,
                system_mask,
                budget as int,
            ),
        decreases n - i,
    {
        let ghost rest = processes@.skip(i as int);
        proof {
            assert(rest[0] == processes@[i as int]);
            assert(rest.skip(1) =~= processes@.skip(i + 1));
        }
        if budget == 0 {
            proof {
                assert(spec_rules_plan(rest, *rules, profiles@, gl, system_mask, 0)
                    =~= Seq::<Action>::empty());
                assert(r@ + Seq::<Action>::empty() =~= r@);
            }
            return r;
        }
        let mut acts = plan_rules_process(&processes[i], rules, profiles, game_list, system_mask);
        if acts.len() > 0 {
            let ghost racts = acts@;
            let ghost rprev = r@;
            r.append(&mut acts);
            proof {
                assert(r@ =~= rprev + racts);
                assert((rprev + racts) + spec_rules_plan(
                    rest.skip(1),
                    *rules,
                    profiles@,
                    gl,
                    system_mask,
                    budget - 1,
                ) =~= rprev + (racts + spec_rules_plan(
                    rest.skip(1),
                    *rules,
                    profiles@,
                    gl,
                    system_mask,
                    budget - 1,
                )));
            }
            budget = budget - 1;
        }
        i = i + 1;
    }
    proof {
        assert(processes@.skip(n as int) =~= Seq::<ProcessInfo>::empty());
        assert(spec_rules_plan(
            processes@.skip(n as int),
            *rules,
            profiles@,
            gl,
            system_mask,
            budget as int,
        ) =~= Seq::<Action>::empty());
        assert(r@ + Seq::<Action>::empty() =~= r@);
    }
    r
}

/// With no masks configured, default rules plan no affinity mutation: a
/// degraded topology that yields no masks only disables them.
pub proof fn lemma_rules_no_masks_no_affinity(
    ps: Seq<ProcessInfo>,
    rules: DefaultRules,
    profiles: Seq<ProcessProfile>,
    game_list: Seq<Seq<u8>>,
    system_mask: u64,
    budget: int,
)
    requires
        rules.game_mask is None,
        rules.system_mask is None,
    ensures
        forall|k: int|
            0 <= k < spec_rules_plan(ps, rules, profiles, game_list, system_mask, budget).len()
                ==> (#[trigger] spec_rules_plan(
                ps,
                rules,
                profiles,
                game_list,
                system_mask,
                budget,
            )[k].kind matches ActionKind::SetPriority(_)),
    decreases ps.len(),
{
    if ps.len() == 0 || budget <= 0 || !rules.enabled {
    } else {
        let acts = rules_plan_one(ps[0], rules, profiles, game_list, system_mask);
        if acts.len() > 0 {
            lemma_rules_no_masks_no_affinity(
                ps.skip(1),
                rules,
                profiles,
                game_list,
                system_mask,
                budget - 1,
            );
        } else {
            lemma_rules_no_masks_no_affinity(
                ps.skip(1),
                rules,
                profiles,
                game_list,
                system_mask,
                budget,
            );
        }
    }
}

} // verus!
