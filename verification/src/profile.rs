//! The profile store: per-process target profiles, default rules, the
//! ProBalance and SmartTrim configurations, and the list lookups the
//! resolver performs. Lookups by process name are case-insensitive;
//! game / exclude lists match by substring, profiles by the exact name.

use vstd::prelude::*;
use vstd::string::StringSliceAdditionalSpecFns;
use crate::text;

verus! {

/// A per-process target profile, as the configuration layer stores it.
#[derive(Debug, Clone)]
pub struct ProcessProfile {
    /// Process name the profile applies to, e.g. `cs2.exe`.
    pub name: String,
    /// Affinity mask as a hexadecimal string, optional `0x` prefix.
    pub affinity: String,
    /// Scheduling mode name; see `mask::AffinityMode`.
    pub mode: String,
    /// Priority class name.
    pub priority: String,
    /// Preferred core, if any.
    pub primary_core: Option<u32>,
    pub enabled: bool,
    /// Creation timestamp, kept for the configuration layer.
    pub timestamp: u64,
}

/// Default rules applied to processes without an explicit profile.
#[derive(Debug, Clone)]
pub struct DefaultRules {
    pub enabled: bool,
    /// Mask for game processes, hexadecimal.
    pub game_mask: Option<String>,
    /// Mask for background processes, hexadecimal.
    pub system_mask: Option<String>,
    pub game_priority: String,
    pub system_priority: String,
}

impl Default for DefaultRules {
    /// Default rules are disabled, with no masks, games at High and
    /// background work at BelowNormal.
    fn default() -> (r: DefaultRules)
        ensures
            !r.enabled,
            r.game_mask is None,
            r.system_mask is None,
            r.game_priority@ == "High"@,
            r.system_priority@ == "BelowNormal"@,
    {
        DefaultRules {
            enabled: false,
            game_mask: None,
            system_mask: None,
            game_priority: String::from_str("High"),
            system_priority: String::from_str("BelowNormal"),
        }
    }
}

/// Threshold-triggered memory trimming configuration.
#[derive(Debug, Clone)]
pub struct SmartTrimConfig {
    pub enabled: bool,
    /// Memory-usage percentage at which the reaper fires.
    pub threshold: u32,
    /// Minimum seconds between two reaper runs.
    pub interval: u32,
    /// Trim mode name: `standby-only`, `working-set` or `both`.
    pub mode: String,
}

impl Default for SmartTrimConfig {
    fn default() -> (r: SmartTrimConfig)
        ensures
            !r.enabled,
            r.threshold == 80,
            r.interval == 30,
            r.mode@ == "standby-only"@,
    {
        SmartTrimConfig {
            enabled: false,
            threshold: 80,
            interval: 30,
            mode: String::from_str("standby-only"),
        }
    }
}

/// ProBalance: reactive demotion of background CPU hogs while a game runs.
#[derive(Debug, Clone)]
pub struct ProBalanceConfig {
    pub enabled: bool,
    /// Total-load threshold in hundredths of a percent (5000 = 50%).
    pub cpu_threshold_centi: u32,
    /// Priority class name that demoted processes receive.
    pub restrain_priority: String,
    /// Names never demoted, matched by substring.
    pub excluded_processes: Vec<String>,
}

impl Default for ProBalanceConfig {
    fn default() -> (r: ProBalanceConfig)
        ensures
            !r.enabled,
            r.cpu_threshold_centi == 5000,
            r.restrain_priority@ == "BelowNormal"@,
            r.excluded_processes@.len() == 2,
    {
        let excluded = vec![String::from_str("task-nexus.exe"), String::from_str("explorer.exe")];
        ProBalanceConfig {
            enabled: false,
            cpu_threshold_centi: 5000,
            restrain_priority: String::from_str("BelowNormal"),
            excluded_processes: excluded,
        }
    }
}

/// Everything the per-tick policy reads, served from one source of truth.
#[derive(Debug, Clone)]
pub struct ProfileStore {
    pub profiles: Vec<ProcessProfile>,
    pub default_rules: DefaultRules,
    pub pro_balance: ProBalanceConfig,
    pub game_list: Vec<String>,
    pub exclude_list: Vec<String>,
    pub throttle_list: Vec<String>,
    pub smart_trim: SmartTrimConfig,
}

/// The name matches some list entry as a case-insensitive substring.
pub open spec fn name_in_list(name: Seq<u8>, list: Seq<Seq<u8>>) -> bool {
    exists|i: int|
        0 <= i < list.len() && text::contains_bytes(
            text::lower_of(name),
            text::lower_of(#[trigger] list[i]),
        )
}

/// The byte views of a list of strings.
pub open spec fn list_bytes(list: Seq<String>) -> Seq<Seq<u8>> {
    list.map_values(|s: String| text::bytes_of(s))
}

/// Whether the name matches any list entry, case-insensitively (ASCII
/// fold) and by substring, as game and exclude lists are consulted.
pub fn matches_list(name: &str, list: &Vec<String>) -> (r: bool)
    ensures
        r == name_in_list(name.spec_bytes(), list_bytes(list@)),
{
    let mut i: usize = 0;
    while i < list.len()
        invariant
            0 <= i <= list@.len(),
            forall|j: int|
                0 <= j < i ==> !text::contains_bytes(
                    text::lower_of(name.spec_bytes()),
                    text::lower_of(#[trigger] list_bytes(list@)[j]),
                ),
        decreases list@.len() - i,
    {
        if text::contains_ignore_case(name, list[i].as_str()) {
            proof {
                assert(list_bytes(list@)[i as int] == text::bytes_of(list@[i as int]));
            }
            return true;
        }
        i = i + 1;
    }
    false
}

/// The first enabled profile whose name equals the process name, ignoring
/// case: the profile that enforcement resolves for the process.
pub open spec fn match_profile(profiles: Seq<ProcessProfile>, name: Seq<u8>) -> Option<
    ProcessProfile,
>
    decreases profiles.len(),
{
    if profiles.len() == 0 {
        None
    } else if profiles[0].enabled && text::lower_of(text::bytes_of(profiles[0].name))
        == text::lower_of(name) {
        Some(profiles[0])
    } else {
        match_profile(profiles.skip(1), name)
    }
}

/// Find the first enabled profile for a process name, ignoring case.
pub fn find_profile(profiles: &Vec<ProcessProfile>, name: &str) -> (r: Option<usize>)
    ensures
        match r {
            Some(i) => 0 <= i < profiles@.len() && match_profile(profiles@, name.spec_bytes())
                == Some(profiles@[i as int]),
            None => match_profile(profiles@, name.spec_bytes()) is None,
        },
{
    let n = profiles.len();
    let mut i: usize = 0;
    proof {
        assert(profiles@.skip(0int) =~= profiles@);
    }
    while i < n
        invariant
            n == profiles@.len(),
            0 <= i <= n,
            match_profile(profiles@, name.spec_bytes()) == match_profile(
                profiles@.skip(i as int),
                name.spec_bytes(),
            ),
        decreases n - i,
    {
        let ghost rest = profiles@.skip(i as int);
        proof {
            assert(rest[0] == profiles@[i as int]);
            assert(rest.skip(1) =~= profiles@.skip(i + 1));
        }
        if profiles[i].enabled && text::eq_ignore_case(profiles[i].name.as_str(), name) {
            return Some(i);
        }
        i = i + 1;
    }
    proof {
        assert(profiles@.skip(n as int) =~= Seq::<ProcessProfile>::empty());
    }
    None
}

/// Whether some enabled profile names this process.
pub fn has_profile(profiles: &Vec<ProcessProfile>, name: &str) -> (r: bool)
    ensures
        r == (match_profile(profiles@, name.spec_bytes()) is Some),
{
    match find_profile(profiles, name) {
        Some(_) => true,
        None => false,
    }
}

/// Any profile (enabled or not) with the given name, ignoring case: the
/// store holds at most one per name.
pub open spec fn named_profile(profiles: Seq<ProcessProfile>, i: int, name: Seq<u8>) -> bool {
    0 <= i < profiles.len() && text::lower_of(text::bytes_of(profiles[i].name)) == text::lower_of(
        name,
    )
}

/// Add a profile, replacing the first existing profile of the same name
/// (ignoring case) or appending a new one.
pub fn upsert_profile(profiles: &mut Vec<ProcessProfile>, profile: ProcessProfile)
    ensures
        (exists|i: int| named_profile(old(profiles)@, i, text::bytes_of(profile.name)))
            ==> final(profiles)@ == old(profiles)@.update(
            choose|i: int|
                named_profile(old(profiles)@, i, text::bytes_of(profile.name)) && forall|j: int|
                    0 <= j < i ==> !named_profile(old(profiles)@, j, text::bytes_of(profile.name)),
            profile,
        ),
        !(exists|i: int| named_profile(old(profiles)@, i, text::bytes_of(profile.name)))
            ==> final(profiles)@ == old(profiles)@.push(profile),
{
    let n = profiles.len();
    let mut i: usize = 0;
    while i < n
        invariant
            n == profiles@.len(),
            profiles@ == old(profiles)@,
            0 <= i <= n,
            forall|j: int| 0 <= j < i ==> !named_profile(profiles@, j, text::bytes_of(profile.name)),
        decreases n - i,
    {
        if text::eq_ignore_case(profiles[i].name.as_str(), profile.name.as_str()) {
            proof {
                assert(named_profile(profiles@, i as int, text::bytes_of(profile.name)));
                let w = choose|w: int|
                    named_profile(profiles@, w, text::bytes_of(profile.name)) && forall|j: int|
                        0 <= j < w ==> !named_profile(profiles@, j, text::bytes_of(profile.name));
                assert(!(w < i || w > i));
            }
            let ghost before = profiles@;
            profiles.remove(i);
            profiles.insert(i, profile);
            proof {
                assert(profiles@ =~= before.update(i as int, profile));
            }
            return ;
        }
        i = i + 1;
    }
    profiles.push(profile);
}

/// Remove every profile with the given name, ignoring case; an unknown
/// name is reported.
pub fn remove_profile(profiles: &mut Vec<ProcessProfile>, name: &str) -> (r: Result<
    (),
    crate::types::AppError,
>)
    ensures
        final(profiles)@ == old(profiles)@.filter(
            |p: ProcessProfile|
                text::lower_of(text::bytes_of(p.name)) != text::lower_of(name.spec_bytes()),
        ),
        r is Ok <==> exists|i: int| named_profile(old(profiles)@, i, name.spec_bytes()),
{
    broadcast use vstd::seq_lib::group_filter_ensures;
    broadcast use Seq::lemma_filter_push;

    let ghost orig = old(profiles)@;
    let ghost keep = |p: ProcessProfile|
        text::lower_of(text::bytes_of(p.name)) != text::lower_of(name.spec_bytes());
    let mut removed_any = false;
    let mut i: usize = 0;
    let ghost mut k: int = 0;
    proof {
        assert(orig.take(0int) =~= Seq::<ProcessProfile>::empty());
        assert(orig.take(0int).filter(keep) + orig.skip(0int) =~= orig);
    }
    while i < profiles.len()
        invariant
            keep == (|p: ProcessProfile|
                text::lower_of(text::bytes_of(p.name)) != text::lower_of(name.spec_bytes())),
            0 <= k <= orig.len(),
            i as int == orig.take(k).filter(keep).len(),
            profiles@ == orig.take(k).filter(keep) + orig.skip(k),
            i as int <= profiles@.len(),
            removed_any == exists|j: int| 0 <= j < k && named_profile(orig, j, name.spec_bytes()),
            k == orig.len() ==> i as int == profiles@.len(),
        decreases orig.len() - k,
    {
        let ghost kept_k = orig.take(k).filter(keep);
        proof {
            assert(k < orig.len()) by {
                if k == orig.len() {
                    assert(i as int == profiles@.len());
                }
            }
            assert(orig.take(k + 1) =~= orig.take(k).push(orig[k]));
            assert(profiles@[i as int] == orig.skip(k)[0]);
            assert(orig.skip(k)[0] == orig[k]);
        }
        let matched = text::eq_ignore_case(profiles[i].name.as_str(), name);
        if matched {
            removed_any = true;
            proof {
                assert(!keep(orig[k]));
                assert(named_profile(orig, k, name.spec_bytes()));
            }
            profiles.remove(i);
            proof {
                orig.take(k).lemma_filter_push(orig[k], keep);
                assert(profiles@ =~= kept_k + orig.skip(k + 1));
                assert(orig.take(k + 1).filter(keep) == kept_k);
            }
        } else {
            proof {
                assert(keep(orig[k]));
                orig.take(k).lemma_filter_push(orig[k], keep);
                assert(orig.take(k + 1).filter(keep) == kept_k.push(orig[k]));
                assert(kept_k.push(orig[k]) + orig.skip(k + 1) =~= kept_k + orig.skip(k));
            }
            i = i + 1;
        }
        proof {
            k = k + 1;
            assert(k == orig.len() ==> orig.skip(k) =~= Seq::<ProcessProfile>::empty());
        }
    }
    proof {
        assert(k == orig.len()) by {
            if k < orig.len() {
                assert(profiles@.len() > i as int);
            }
        }
        assert(orig.skip(k) =~= Seq::<ProcessProfile>::empty());
        assert(profiles@ =~= orig.take(k).filter(keep));
        assert(orig.take(k) =~= orig);
    }
    if removed_any {
        Ok(())
    } else {
        Err(crate::types::AppError::ConfigError(String::from_str("profile not found")))
    }
}

/// The built-in game keyword at each index of the default list.
pub open spec fn game_keyword(i: int) -> Seq<char> {
    if i == 0 {
        "cs2"@
    } else if i == 1 {
        "csgo"@
    } else if i == 2 {
        "counter-strike"@
    } else if i == 3 {
        "valorant"@
    } else if i == 4 {
        "apex"@
    } else if i == 5 {
        "apexlegends"@
    } else if i == 6 {
        "pubg"@
    } else if i == 7 {
        "tslgame"@
    } else if i == 8 {
        "fortnite"@
    } else if i == 9 {
        "fortniteclient"@
    } else if i == 10 {
        "overwatch"@
    } else if i == 11 {
        "r5apex"@
    } else if i == 12 {
        "cod"@
    } else if i == 13 {
        "callofduty"@
    } else if i == 14 {
        "rainbow"@
    } else if i == 15 {
        "rainbowsix"@
    } else if i == 16 {
        "league"@
    } else if i == 17 {
        "lol"@
    } else if i == 18 {
        "leagueclient"@
    } else if i == 19 {
        "dota"@
    } else if i == 20 {
        "dota2"@
    } else if i == 21 {
        "honorofkings"@
    } else if i == 22 {
        "naraka"@
    } else if i == 23 {
        "narakabladepoint"@
    } else if i == 24 {
        "streetfighter"@
    } else if i == 25 {
        "tekken"@
    } else if i == 26 {
        "genshinimpact"@
    } else if i == 27 {
        "yuanshen"@
    } else if i == 28 {
        "gta"@
    } else if i == 29 {
        "gtav"@
    } else if i == 30 {
        "eldenring"@
    } else if i == 31 {
        "cyberpunk"@
    } else if i == 32 {
        "starfield"@
    } else if i == 33 {
        "diablo"@
    } else if i == 34 {
        "pathofexile"@
    } else if i == 35 {
        "poe"@
    } else if i == 36 {
        "lostark"@
    } else if i == 37 {
        "forza"@
    } else if i == 38 {
        "assettocorsa"@
    } else if i == 39 {
        "minecraft"@
    } else if i == 40 {
        "rust"@
    } else if i == 41 {
        "ark"@
    } else {
        "game"@
    }
}

/// The default list of game-name keywords the shell seeds the game list
/// with, matched as case-insensitive substrings of process names.
pub fn default_game_keywords() -> (r: Vec<String>)
    ensures
        r@.len() == 43,
        forall|i: int| 0 <= i < 43 ==> (#[trigger] r@[i])@ == game_keyword(i),
{
    let mut r: Vec<String> = Vec::new();
    r.push(String::from_str("cs2"));
    r.push(String::from_str("csgo"));
    r.push(String::from_str("counter-strike"));
    r.push(String::from_str("valorant"));
    r.push(String::from_str("apex"));
    r.push(String::from_str("apexlegends"));
    r.push(String::from_str("pubg"));
    r.push(String::from_str("tslgame"));
    r.push(String::from_str("fortnite"));
    r.push(String::from_str("fortniteclient"));
    r.push(String::from_str("overwatch"));
    r.push(String::from_str("r5apex"));
    r.push(String::from_str("cod"));
    r.push(String::from_str("callofduty"));
    r.push(String::from_str("rainbow"));
    r.push(String::from_str("rainbowsix"));
    r.push(String::from_str("league"));
    r.push(String::from_str("lol"));
    r.push(String::from_str("leagueclient"));
    r.push(String::from_str("dota"));
    r.push(String::from_str("dota2"));
    r.push(String::from_str("honorofkings"));
    r.push(String::from_str("naraka"));
    r.push(String::from_str("narakabladepoint"));
    r.push(String::from_str("streetfighter"));
    r.push(String::from_str("tekken"));
    r.push(String::from_str("genshinimpact"));
    r.push(String::from_str("yuanshen"));
    r.push(String::from_str("gta"));
    r.push(String::from_str("gtav"));
    r.push(String::from_str("eldenring"));
    r.push(String::from_str("cyberpunk"));
    r.push(String::from_str("starfield"));
    r.push(String::from_str("diablo"));
    r.push(String::from_str("pathofexile"));
    r.push(String::from_str("poe"));
    r.push(String::from_str("lostark"));
    r.push(String::from_str("forza"));
    r.push(String::from_str("assettocorsa"));
    r.push(String::from_str("minecraft"));
    r.push(String::from_str("rust"));
    r.push(String::from_str("ark"));
    r.push(String::from_str("game"));
    r
}

} // verus!
