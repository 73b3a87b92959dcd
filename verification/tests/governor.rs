use task_nexus::binder::{pick_heaviest, ThreadCpuSample};
use task_nexus::enforce::{plan_process, plan_tick, Action, ActionKind, AppliedCache};
use task_nexus::mask;
use task_nexus::probalance::{balance_step, clear_restrained, mark_restrained};
use task_nexus::profile::{DefaultRules, ProcessProfile};
use task_nexus::rules::plan_rules_tick;
use task_nexus::types::{AppError, PriorityLevel, ProcessInfo};

fn proc_entry(pid: u32, name: &str, cpu_centi: u32, priority: &str, affinity: &str) -> ProcessInfo {
    ProcessInfo {
        pid,
        parent_pid: None,
        name: name.to_string(),
        cpu_centi_pct: cpu_centi,
        memory_bytes: 100 << 20,
        priority: priority.to_string(),
        cpu_affinity: affinity.to_string(),
        thread_count: 4,
        user: "user".to_string(),
        path: String::new(),
    }
}

fn game_profile() -> ProcessProfile {
    ProcessProfile {
        name: "cs2.exe".to_string(),
        affinity: "0x000000FF".to_string(),
        mode: "hard".to_string(),
        priority: "High".to_string(),
        primary_core: None,
        enabled: true,
        timestamp: 0,
    }
}

#[test]
fn game_assert_two_ticks_converge() {
    // A hybrid 8P+8E machine: system mask covers 16 logical processors.
    let system_mask: u64 = 0xFFFF;
    let profiles = vec![game_profile()];
    let cache = AppliedCache::new();

    // Tick 1: cs2.exe shows up at Normal priority with the full mask.
    let p = proc_entry(42, "cs2.exe", 300, "Normal", "All");
    let plan = plan_tick(&vec![p], &profiles, &cache, system_mask);
    assert_eq!(plan.len(), 2);
    assert_eq!(
        plan[0],
        Action { pid: 42, kind: ActionKind::SetPriority(PriorityLevel::High) }
    );
    assert_eq!(plan[1], Action { pid: 42, kind: ActionKind::SetHardAffinity(0xFF, None) });

    // Tick 2: the observation shows the applied state; nothing is planned.
    let rendered = mask::render_affinity(0xFF, system_mask);
    assert_eq!(rendered, "0xff");
    let p2 = proc_entry(42, "cs2.exe", 300, "High", &rendered);
    let plan2 = plan_tick(&vec![p2], &profiles, &cache, system_mask);
    assert_eq!(plan2.len(), 0);
}

#[test]
fn operation_budget_caps_five_processes() {
    let system_mask: u64 = 0xFFFF;
    let profiles = vec![ProcessProfile {
        name: "bg.exe".to_string(),
        affinity: "".to_string(),
        mode: "hard".to_string(),
        priority: "BelowNormal".to_string(),
        primary_core: None,
        enabled: true,
        timestamp: 0,
    }];
    let cache = AppliedCache::new();
    let mut processes = Vec::new();
    for pid in 0..10u32 {
        processes.push(proc_entry(pid, "bg.exe", 50, "Normal", "All"));
    }
    let plan = plan_tick(&processes, &profiles, &cache, system_mask);
    // Each eligible process needs one priority mutation; the budget stops at five.
    assert_eq!(plan.len(), 5);
    for (k, a) in plan.iter().enumerate() {
        assert_eq!(a.pid, k as u32);
        assert_eq!(a.kind, ActionKind::SetPriority(PriorityLevel::BelowNormal));
    }
}

#[test]
fn probalance_demote_and_restore() {
    // 16-core host: the hog's 120% sum-over-cores reading normalizes to 7.5%.
    assert_eq!(task_nexus::sampler::normalize_cpu_centi(12000, 16), 750);

    let game = proc_entry(100, "game.exe", 400, "Normal", "All");
    let hog = proc_entry(200, "hog.exe", 750, "Normal", "All");
    let game_list = vec!["game.exe".to_string()];
    let excludes: Vec<String> = Vec::new();
    let mut restrained: Vec<u32> = Vec::new();

    // Tick 1: total 11.5% over the 5% threshold; the hog is demoted.
    let step = balance_step(true, 500, &vec![game.clone(), hog.clone()], &game_list, &excludes, 0, &restrained);
    assert_eq!(step.restore.len(), 0);
    assert_eq!(step.demote, vec![200]);
    mark_restrained(&mut restrained, 200);
    assert_eq!(restrained, vec![200]);

    // Tick 2: the hog dropped to 0.2%; the load subsided, everything restores.
    let hog_quiet = proc_entry(200, "hog.exe", 20, "BelowNormal", "All");
    let step2 = balance_step(true, 500, &vec![game, hog_quiet], &game_list, &excludes, 0, &restrained);
    assert_eq!(step2.restore, vec![200]);
    assert_eq!(step2.demote.len(), 0);
    clear_restrained(&mut restrained);
    assert_eq!(restrained.len(), 0);
}

#[test]
fn probalance_never_demotes_games() {
    // Same pressure, but the hog is itself on the game list.
    let game = proc_entry(100, "game.exe", 400, "Normal", "All");
    let hog = proc_entry(200, "hog.exe", 750, "Normal", "All");
    let game_list = vec!["game.exe".to_string(), "hog.exe".to_string()];
    let excludes: Vec<String> = Vec::new();
    let restrained: Vec<u32> = Vec::new();
    let step = balance_step(true, 500, &vec![game, hog], &game_list, &excludes, 0, &restrained);
    assert_eq!(step.demote.len(), 0);
    assert_eq!(step.restore.len(), 0);
}

#[test]
fn probalance_disable_restores_within_one_tick() {
    let hog = proc_entry(200, "hog.exe", 750, "Normal", "All");
    let game_list = vec!["game.exe".to_string()];
    let excludes: Vec<String> = Vec::new();
    let restrained: Vec<u32> = vec![200, 300];
    let step = balance_step(false, 500, &vec![hog], &game_list, &excludes, 0, &restrained);
    assert_eq!(step.restore, vec![200, 300]);
    assert_eq!(step.demote.len(), 0);
}

#[test]
fn heavy_thread_bind_picks_largest_delta() {
    let s1 = vec![
        ThreadCpuSample { tid: 11, cpu_time: 0 },
        ThreadCpuSample { tid: 12, cpu_time: 0 },
        ThreadCpuSample { tid: 13, cpu_time: 0 },
    ];
    let s2 = vec![
        ThreadCpuSample { tid: 11, cpu_time: 100 },
        ThreadCpuSample { tid: 12, cpu_time: 200 },
        ThreadCpuSample { tid: 13, cpu_time: 1_000_000 },
    ];
    let tid = pick_heaviest(&s1, &s2).unwrap();
    assert_eq!(tid, 13);
    // Binding to core 5 uses the single-bit mask 0x20.
    assert_eq!(1u64 << 5, 0x20);
}

#[test]
fn heavy_thread_bind_fails_when_idle() {
    let s1 = vec![ThreadCpuSample { tid: 11, cpu_time: 500 }];
    let s2 = vec![ThreadCpuSample { tid: 11, cpu_time: 500 }];
    assert!(pick_heaviest(&s1, &s2).is_err());
}

#[test]
fn soft_affinity_reapplies_until_sets_shows() {
    let system_mask: u64 = 0xFFFF;
    let profile = ProcessProfile {
        name: "app.exe".to_string(),
        affinity: "0x0F".to_string(),
        mode: "soft".to_string(),
        priority: "Normal".to_string(),
        primary_core: None,
        enabled: true,
        timestamp: 0,
    };
    let cache = AppliedCache::new();
    let p = proc_entry(7, "app.exe", 100, "Normal", "All");
    let plan = plan_process(&p, &profile, &cache, system_mask);
    assert_eq!(plan.len(), 1);
    assert_eq!(plan[0], Action { pid: 7, kind: ActionKind::SetCpuSets(0x0F) });
    // The mask translates to the first four logical cores.
    assert_eq!(mask::mask_to_cores(0x0F), vec![0, 1, 2, 3]);

    // Once the observation reports CPU sets, nothing more is planned.
    let p2 = proc_entry(7, "app.exe", 100, "Normal", "Sets: 0,1,2,3");
    let plan2 = plan_process(&p2, &profile, &cache, system_mask);
    assert_eq!(plan2.len(), 0);
}

#[test]
fn cache_hit_suppresses_second_application() {
    let system_mask: u64 = 0xFFFF;
    let profile = game_profile();
    let mut cache = AppliedCache::new();
    // The observation is stale, but the cache already records the target.
    cache.store(42, 0xFF, PriorityLevel::High);
    let p = proc_entry(42, "cs2.exe", 300, "Normal", "All");
    let plan = plan_process(&p, &profile, &cache, system_mask);
    assert_eq!(plan.len(), 0);

    // A cache entry for a different target does not suppress anything.
    cache.store(42, 0x3, PriorityLevel::Normal);
    let plan2 = plan_process(&p, &profile, &cache, system_mask);
    assert_eq!(plan2.len(), 2);
}

#[test]
fn mask_validation_boundaries() {
    // Bit 63 alone is accepted when the system mask has it.
    assert!(mask::validate_mask(1u64 << 63, u64::MAX).is_ok());
    // The empty mask is rejected as an invalid affinity mask.
    match mask::validate_mask(0, u64::MAX) {
        Err(AppError::InvalidAffinityMask(_)) => {},
        _ => panic!("empty mask must be rejected"),
    }
    // A mask outside the system mask is rejected too.
    assert!(mask::validate_mask(0x100, 0xFF).is_err());
}

#[test]
fn default_rules_without_masks_only_touch_priority() {
    let system_mask: u64 = 0xFF;
    let rules = DefaultRules {
        enabled: true,
        game_mask: None,
        system_mask: None,
        game_priority: "High".to_string(),
        system_priority: "BelowNormal".to_string(),
    };
    let profiles: Vec<ProcessProfile> = Vec::new();
    let game_list = vec!["cs2".to_string()];
    let busy = proc_entry(5, "worker.exe", 500, "Normal", "All");
    let plan = plan_rules_tick(&vec![busy], &rules, &profiles, &game_list, system_mask);
    assert_eq!(plan.len(), 1);
    assert!(matches!(plan[0].kind, ActionKind::SetPriority(PriorityLevel::BelowNormal)));
}

#[test]
fn default_rules_spare_protected_and_quiet_processes() {
    let system_mask: u64 = 0xFF;
    let rules = DefaultRules {
        enabled: true,
        game_mask: None,
        system_mask: None,
        game_priority: "High".to_string(),
        system_priority: "BelowNormal".to_string(),
    };
    let profiles: Vec<ProcessProfile> = Vec::new();
    let game_list: Vec<String> = Vec::new();
    // A protected name is skipped even when busy.
    let shell = proc_entry(4, "explorer.exe", 2000, "Normal", "All");
    // A quiet process at Normal priority is skipped.
    let quiet = proc_entry(9, "idleapp.exe", 5, "Normal", "All");
    let plan = plan_rules_tick(&vec![shell, quiet], &rules, &profiles, &game_list, system_mask);
    assert_eq!(plan.len(), 0);
}

#[test]
fn d2_and_d3_mode_transforms() {
    // Burst mode keeps the even lanes of a wide mask and raises to High.
    let (m, raise) = mask::apply_mode(mask::AffinityMode::D2, 0xFF);
    assert_eq!(m, 0x55);
    assert_eq!(raise, Some(PriorityLevel::High));
    // A narrow mask is kept as it is.
    let (m2, _) = mask::apply_mode(mask::AffinityMode::D2, 0x0F);
    assert_eq!(m2, 0x0F);
    // Extreme mode steps off core 0 when others remain, raising to RealTime.
    let (m3, raise3) = mask::apply_mode(mask::AffinityMode::D3, 0x0F);
    assert_eq!(m3, 0x0E);
    assert_eq!(raise3, Some(PriorityLevel::RealTime));
    // A mask of only core 0 is left alone.
    let (m4, _) = mask::apply_mode(mask::AffinityMode::D3, 0x01);
    assert_eq!(m4, 0x01);
}
