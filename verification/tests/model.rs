use task_nexus::codec;
use task_nexus::mask;
use task_nexus::pending::{get_core_type_char, get_profile_summary, PendingProfile, ProcessProfile};
use task_nexus::power;
use task_nexus::profile::default_game_keywords;
use task_nexus::reaper;
use task_nexus::sampler;
use task_nexus::text;
use task_nexus::topology::{classify_cores, CacheRecord, CoreRecord, CpuTopology};
use task_nexus::tweaks;
use task_nexus::types::{
    memory_info_from_bytes, priority_from_class_code, CoreType, CpuVendor, PriorityLevel,
    ProcessInfo,
};

#[test]
fn priority_level_strings() {
    assert_eq!(PriorityLevel::from_str("ReAlTiMe"), Some(PriorityLevel::RealTime));
    assert_eq!(PriorityLevel::from_str("belownormal"), Some(PriorityLevel::BelowNormal));
    assert_eq!(PriorityLevel::from_str("turbo"), None);
    assert_eq!(PriorityLevel::High.as_str(), "High");
    assert_eq!(PriorityLevel::High.as_str_cn(), "高");
    assert_eq!(PriorityLevel::RealTime.color(), (255, 50, 50));
    assert_eq!(PriorityLevel::Idle.rank(), 0);
    assert_eq!(priority_from_class_code(0x80), PriorityLevel::High);
    assert_eq!(priority_from_class_code(0xDEAD), PriorityLevel::Normal);
}

#[test]
fn hex_parsing_and_rendering() {
    assert_eq!(text::parse_hex_u64("ff"), Some(255));
    assert_eq!(text::parse_hex_u64("0xFF"), Some(255));
    assert_eq!(text::parse_hex_u64(""), None);
    assert_eq!(text::parse_hex_u64("0x"), None);
    assert_eq!(text::parse_hex_u64("xyz"), None);
    assert_eq!(text::parse_hex_u64("FFFFFFFFFFFFFFFF"), Some(u64::MAX));
    assert_eq!(text::parse_hex_u64("10000000000000000"), None);
    assert_eq!(text::u64_to_dec(90210), "90210");
    assert_eq!(text::u64_to_hex(0xAB), "ab");
    assert_eq!(text::u64_to_hex_upper(0xAB), "AB");
}

#[test]
fn case_insensitive_matching() {
    assert!(text::eq_ignore_case("CS2.exe", "cs2.EXE"));
    assert!(!text::eq_ignore_case("cs2", "cs3"));
    assert!(text::contains_ignore_case("Counter-Strike 2", "STRIKE"));
    assert!(!text::contains_ignore_case("notepad", "game"));
    assert!(text::starts_with("Sets: 0,1", "Sets"));
}

#[test]
fn intel_hybrid_classification() {
    // An 8P+8E part: one record per physical core, efficiency class 1 for
    // the P cohort and 0 for the E cohort.
    let mut cores = Vec::new();
    for i in 0..8u32 {
        cores.push(CoreRecord { group_mask: 1 << i, efficiency_class: 1 });
    }
    for i in 8..16u32 {
        cores.push(CoreRecord { group_mask: 1 << i, efficiency_class: 0 });
    }
    let classified = classify_cores(&Vec::new(), &cores);
    assert_eq!(classified.len(), 16);
    for c in &classified {
        if c.id < 8 {
            assert_eq!(c.core_type, CoreType::Performance);
        } else {
            assert_eq!(c.core_type, CoreType::Efficiency);
        }
    }
    let topo = CpuTopology::from_cores(classified, CpuVendor::Intel, "hybrid part".to_string());
    assert!(topo.is_hybrid);
    assert!(!topo.has_vcache);
    assert_eq!(topo.logical_cores, 16);
    assert_eq!(topo.physical_cores, 16);
    assert_eq!(topo.mask_of_type(CoreType::Performance), 0x00FF);
    assert_eq!(topo.mask_of_type(CoreType::Efficiency), 0xFF00);
}

#[test]
fn vcache_classification_and_ccd_groups() {
    // Two CCDs of 8 logical processors; the first carries 96 MiB of L3.
    let caches = vec![
        CacheRecord { level: 3, group_mask: 0x00FF, size: 96 << 20 },
        CacheRecord { level: 3, group_mask: 0xFF00, size: 32 << 20 },
        CacheRecord { level: 2, group_mask: 0x0003, size: 1 << 20 },
    ];
    let mut cores = Vec::new();
    for i in 0..8u32 {
        cores.push(CoreRecord { group_mask: 0b11 << (2 * i), efficiency_class: 0 });
    }
    let classified = classify_cores(&caches, &cores);
    assert_eq!(classified.len(), 16);
    for c in &classified {
        if c.id < 8 {
            assert_eq!(c.core_type, CoreType::VCache);
        } else {
            assert_eq!(c.core_type, CoreType::Performance);
        }
    }
    let topo = CpuTopology::from_cores(classified, CpuVendor::AMD, "stacked part".to_string());
    assert!(topo.has_vcache);
    assert_eq!(topo.physical_cores, 8);
    assert_eq!(topo.logical_cores, 16);
    assert_eq!(topo.ccd_groups.len(), 2);
    assert_eq!(topo.ccd_groups[0], vec![0, 1, 2, 3, 4, 5, 6, 7]);
    assert_eq!(topo.ccd_groups[1], vec![8, 9, 10, 11, 12, 13, 14, 15]);
    // One representative per physical core, SMT siblings separately.
    let (physical, smt) = topo.get_grouped_cores();
    assert_eq!(physical.len(), 8);
    assert_eq!(smt.len(), 8);
    assert_eq!(physical[0].id, 0);
    assert_eq!(smt[0].id, 1);
}

#[test]
fn degraded_topology_is_empty_not_fatal() {
    let classified = classify_cores(&Vec::new(), &Vec::new());
    assert_eq!(classified.len(), 0);
    let topo = CpuTopology::from_cores(classified, CpuVendor::Unknown, String::new());
    assert_eq!(topo.logical_cores, 0);
    assert_eq!(topo.physical_cores, 0);
    assert_eq!(topo.ccd_groups.len(), 0);
}

#[test]
fn model_string_detection() {
    assert_eq!(
        task_nexus::topology::detect_intel_hybrid("13th Gen Intel Core i7-13700K"),
        Some((8, 8))
    );
    assert_eq!(task_nexus::topology::detect_intel_hybrid("Intel Core i5-9400F"), None);
    assert_eq!(task_nexus::topology::detect_amd_ccds("AMD Ryzen 9 7950X", 32), Some(2));
    assert_eq!(task_nexus::topology::detect_amd_ccds("AMD Ryzen 5 7600", 12), Some(1));
    assert_eq!(task_nexus::topology::detect_amd_ccds("mystery", 32), Some(2));
    assert_eq!(task_nexus::topology::detect_amd_ccds("mystery", 4), None);
    assert_eq!(task_nexus::topology::vendor_from_model("AMD Ryzen 7"), CpuVendor::AMD);
    assert_eq!(task_nexus::topology::vendor_from_model("Intel Xeon"), CpuVendor::Intel);
    assert_eq!(task_nexus::topology::vendor_from_model("Loongson"), CpuVendor::Unknown);
}

#[test]
fn model_string_cleaning() {
    assert_eq!(
        task_nexus::topology::clean_cpu_model("Intel(R) Core(TM) i7-13700K CPU @ 3.40GHz"),
        "Intel Core i7-13700K"
    );
    assert_eq!(
        task_nexus::topology::clean_cpu_model("AMD Ryzen 9 7950X 16-Core Processor"),
        "AMD Ryzen 9 7950X 16-Core Processor"
    );
}

#[test]
fn reaper_decisions() {
    // Threshold 80%, interval 30 s: fires only once both are reached.
    assert!(reaper::should_trim(true, 31, 30, 85, 80));
    assert!(!reaper::should_trim(true, 10, 30, 85, 80));
    assert!(!reaper::should_trim(true, 31, 30, 60, 80));
    assert!(!reaper::should_trim(false, 31, 30, 85, 80));

    // Freed bytes never go negative and are zero iff rss did not drop.
    assert_eq!(reaper::freed_bytes(1000, 400), 600);
    assert_eq!(reaper::freed_bytes(400, 1000), 0);
    assert_eq!(reaper::freed_bytes(400, 400), 0);

    // The plan spares the foreground process and the governor itself.
    let fat = |pid: u32, bytes: u64| ProcessInfo {
        pid,
        parent_pid: None,
        name: "app.exe".to_string(),
        cpu_centi_pct: 0,
        memory_bytes: bytes,
        priority: "Normal".to_string(),
        cpu_affinity: "All".to_string(),
        thread_count: 1,
        user: String::new(),
        path: String::new(),
    };
    let procs = vec![fat(1, 100 << 20), fat(2, 100 << 20), fat(3, 10 << 20), fat(4, 100 << 20)];
    let plan = reaper::trim_plan(&procs, 2, 4);
    assert_eq!(plan, vec![1]);

    let outcome = reaper::trim_outcome(1 << 30, (1 << 30) + (200 << 20), 3);
    assert_eq!(outcome.freed_mib, 200);
    assert_eq!(outcome.trimmed_count, 3);
    assert_eq!(outcome.message, "freed 200 MiB");
    let quiet = reaper::trim_outcome(1 << 30, 1 << 30, 0);
    assert_eq!(quiet.message, "memory already optimized");

    assert_eq!(reaper::TrimMode::from_str("standby-only"), reaper::TrimMode::StandbyOnly);
    assert!(reaper::TrimMode::Both.trims_working_sets());
    assert!(!reaper::TrimMode::WorkingSet.purges_standby());
}

#[test]
fn sampler_arithmetic_and_order() {
    assert_eq!(sampler::normalize_cpu_centi(12000, 16), 750);
    assert_eq!(sampler::normalize_cpu_centi(12000, 0), 12000);
    assert!(sampler::should_refresh_details(3));
    assert!(!sampler::should_refresh_details(4));
    assert!(sampler::should_refresh_users(60));
    assert_eq!(sampler::combine_filetime(1, 2), 0x1_0000_0002);
    assert_eq!(sampler::thread_cpu_time(10, 20), 30);
    assert_eq!(sampler::thread_usage_centi(50_000_000, 100_000_000), 5000);
    assert_eq!(sampler::thread_usage_centi(0, 100), 0);

    let entry = |pid: u32, cpu: u32| ProcessInfo {
        pid,
        parent_pid: None,
        name: "p".to_string(),
        cpu_centi_pct: cpu,
        memory_bytes: 0,
        priority: "Normal".to_string(),
        cpu_affinity: "All".to_string(),
        thread_count: 1,
        user: String::new(),
        path: String::new(),
    };
    let sorted = sampler::sort_by_cpu_desc(vec![entry(1, 50), entry(2, 900), entry(3, 200)]);
    let cpus: Vec<u32> = sorted.iter().map(|p| p.cpu_centi_pct).collect();
    assert_eq!(cpus, vec![900, 200, 50]);
}

#[test]
fn memory_reading() {
    let total: u64 = 16 << 30;
    let avail: u64 = total / 10;
    let info = memory_info_from_bytes(total, avail);
    assert_eq!(info.percent, 90);
    assert_eq!(info.total_mib, 16 * 1024);
    assert_eq!(info.free_mib, 16 * 1024 / 10);
}

#[test]
fn pending_profile_roundtrip_and_summary() {
    let pending = PendingProfile {
        affinity_mask: Some(0xAB),
        priority: Some(PriorityLevel::High),
        thread_bind_core: Some(3),
        ideal_core: None,
    };
    assert!(!pending.is_empty());
    let stored = ProcessProfile::from_pending(&pending);
    assert_eq!(stored.affinity_mask.as_deref(), Some("0xAB"));
    assert_eq!(stored.priority.as_deref(), Some("High"));
    let back = stored.to_pending();
    assert_eq!(back.affinity_mask, Some(0xAB));
    assert_eq!(back.priority, Some(PriorityLevel::High));
    assert_eq!(back.thread_bind_core, Some(3));

    let empty = PendingProfile { affinity_mask: None, priority: None, thread_bind_core: None, ideal_core: None };
    assert!(empty.is_empty());
    assert_eq!(get_profile_summary(&empty, None), "默认");

    let small = PendingProfile {
        affinity_mask: Some(0x3),
        priority: Some(PriorityLevel::High),
        thread_bind_core: None,
        ideal_core: None,
    };
    assert_eq!(get_profile_summary(&small, None), "核心:0,1 | 高");

    let wide = PendingProfile {
        affinity_mask: Some(0xFF),
        priority: None,
        thread_bind_core: None,
        ideal_core: None,
    };
    assert_eq!(get_profile_summary(&wide, None), "核心:0-7");

    let scattered = PendingProfile {
        affinity_mask: Some(0x5555),
        priority: None,
        thread_bind_core: None,
        ideal_core: None,
    };
    assert_eq!(get_profile_summary(&scattered, None), "8核");

    // An all-zero mask is still a set field: the core-list prefix shows,
    // with nothing after it.
    let zero_mask = PendingProfile {
        affinity_mask: Some(0),
        priority: None,
        thread_bind_core: None,
        ideal_core: None,
    };
    assert!(!zero_mask.is_empty());
    assert_eq!(get_profile_summary(&zero_mask, None), "核心:");

    assert_eq!(get_core_type_char(&CoreType::VCache), "V");
    assert_eq!(get_core_type_char(&CoreType::Unknown), "");
}

#[test]
fn codec_wrappers_do_real_work() {
    // GBK bytes of a two-character Chinese greeting.
    let greeting = codec::decode_output(&[0xC4, 0xE3, 0xBA, 0xC3]);
    assert_eq!(greeting, "你好");
    // Base64 obfuscation round-trips and is not the identity.
    let enc = codec::encrypt_data("hello");
    assert_eq!(enc, "aGVsbG8=");
    assert_eq!(codec::decrypt_data(&enc).unwrap(), "hello");
    assert!(codec::decrypt_data("!!!not-base64!!!").is_err());
    assert_eq!(codec::get_machine_code(), "TASK-NEXUS-DEV-MACHINE");
    assert!(codec::verify_license("anything"));
    let status = codec::evaluate_expiration(
        100,
        130,
        "2026-02-01".to_string(),
        "now".to_string(),
        "Network".to_string(),
    );
    assert!(!status.is_expired);
    assert_eq!(status.days_remaining, 30);
    let expired = codec::evaluate_expiration(
        131,
        130,
        "2026-02-01".to_string(),
        "now".to_string(),
        "Network".to_string(),
    );
    assert!(expired.is_expired);
    assert_eq!(expired.days_remaining, 0);
}

#[test]
fn guid_extraction() {
    let line = "Power Scheme GUID: 381B4222-F694-41F0-9685-FF5BB260DF2E  (Balanced) *";
    assert_eq!(
        power::extract_guid(line).as_deref(),
        Some("381b4222-f694-41f0-9685-ff5bb260df2e")
    );
    assert!(power::is_guid("e9a42b02-d5df-448d-aa00-03f14749eb61"));
    assert!(!power::is_guid("not a guid"));
    assert_eq!(
        power::builtin_plan_guid("Balanced").unwrap(),
        "381b4222-f694-41f0-9685-ff5bb260df2e"
    );
    assert!(power::builtin_plan_guid("mystery").is_none());
    assert!(power::is_default_plan("381B4222-F694-41F0-9685-FF5BB260DF2E"));
    assert!(power::check_deletable("381b4222-f694-41f0-9685-ff5bb260df2e").is_err());
    assert!(power::check_deletable("11111111-2222-3333-4444-555555555555").is_ok());
}

#[test]
fn power_plan_line_parsing() {
    let line = "Power Scheme GUID: 381b4222-f694-41f0-9685-ff5bb260df2e  (Balanced) *";
    let plan = power::parse_power_plan_line(line).unwrap();
    assert_eq!(plan.guid, "381b4222-f694-41f0-9685-ff5bb260df2e");
    assert_eq!(plan.name, "Balanced");
    assert!(plan.is_active);
    let inactive = "Power Scheme GUID: e9a42b02-d5df-448d-aa00-03f14749eb61  (Ultimate Performance)";
    let plan2 = power::parse_power_plan_line(inactive).unwrap();
    assert!(!plan2.is_active);
    assert_eq!(plan2.name, "Ultimate Performance");
    assert!(power::parse_power_plan_line("Existing Power Schemes:").is_none());
}

#[test]
fn tweak_catalogue() {
    let map = tweaks::get_tweaks_map();
    assert_eq!(map.len(), 8);
    let idx = tweaks::find_tweak(&map, "tcp_nodelay").unwrap();
    assert_eq!(map[idx].id, "tcp_nodelay");
    assert!(map[idx].command.contains("nagle=disabled"));
    assert!(tweaks::find_tweak(&map, "mystery_tweak").is_none());
}

#[test]
fn game_keyword_table() {
    let kws = default_game_keywords();
    assert_eq!(kws.len(), 43);
    assert_eq!(kws[0], "cs2");
    assert_eq!(kws[42], "game");
    assert!(kws.contains(&"naraka".to_string()));
}

#[test]
fn affinity_view_roundtrip() {
    let sys: u64 = 0xFFFF;
    assert_eq!(mask::render_affinity(sys, sys), "All");
    assert_eq!(mask::parse_affinity_view("All", sys), sys);
    assert_eq!(mask::render_affinity(0xF0, sys), "0xf0");
    assert_eq!(mask::parse_affinity_view("0xf0", sys), 0xF0);
    assert_eq!(mask::parse_affinity_view("garbage", sys), 0);
    assert_eq!(mask::popcount_u64(0xFF), 8);
    assert_eq!(mask::first_core(0xF0), Some(4));
    assert_eq!(mask::first_core(0), None);
    assert_eq!(task_nexus::calculate_affinity_mask(&vec![0, 1, 7, 64]), 0x83);
    assert!(mask::validate_thread_mask(0x20).is_ok());
    match mask::validate_thread_mask(0) {
        Err(task_nexus::types::AppError::SystemError(_)) => {},
        _ => panic!("an empty thread mask must fail as a system error"),
    }
}

#[test]
fn all_cores_mask_covers_every_id() {
    let mut cores = Vec::new();
    for i in 0..6u32 {
        cores.push(CoreRecord { group_mask: 1 << i, efficiency_class: 0 });
    }
    let classified = classify_cores(&Vec::new(), &cores);
    let topo = CpuTopology::from_cores(classified, CpuVendor::Unknown, String::new());
    assert_eq!(topo.all_cores_mask(), 0x3F);
}
