//! The system-tweak catalogue: a fixed table of optimization recipes the
//! shell can apply through external commands. The table and its lookup are
//! the library's; running a command is the host's.

use vstd::prelude::*;
use vstd::string::StringSliceAdditionalSpecFns;
use crate::text;

verus! {

/// One optimization recipe.
#[derive(Debug, Clone)]
pub struct TweakInfo {
    pub id: String,
    pub category: String,
    pub name: String,
    pub desc: String,
    /// The shell command that applies the tweak.
    pub command: String,
    pub safe: bool,
}

/// The identifier of each catalogue entry.
pub open spec fn tweak_id(i: int) -> Seq<char> {
    if i == 0 {
        "disable_hpet"@
    } else if i == 1 {
        "disable_dynamic_tick"@
    } else if i == 2 {
        "optimize_keyboard"@
    } else if i == 3 {
        "disable_mouse_accel"@
    } else if i == 4 {
        "tcp_nodelay"@
    } else if i == 5 {
        "network_throttling_disable"@
    } else if i == 6 {
        "disable_game_bar"@
    } else {
        "disable_power_throttling"@
    }
}

/// The command of each catalogue entry.
pub open spec fn tweak_command(i: int) -> Seq<char> {
    if i == 0 {
        "bcdedit /deletevalue useplatformclock"@
    } else if i == 1 {
        "bcdedit /set disabledynamictick yes"@
    } else if i == 2 {
        r#"reg add "HKCU\Control Panel\Keyboard" /v KeyboardDelay /t REG_SZ /d "0" /f && reg add "HKCU\Control Panel\Keyboard" /v KeyboardSpeed /t REG_SZ /d "31" /f"#@
    } else if i == 3 {
        r#"reg add "HKCU\Control Panel\Mouse" /v MouseSpeed /t REG_SZ /d "0" /f && reg add "HKCU\Control Panel\Mouse" /v MouseThreshold1 /t REG_SZ /d "0" /f && reg add "HKCU\Control Panel\Mouse" /v MouseThreshold2 /t REG_SZ /d "0" /f"#@
    } else if i == 4 {
        "netsh int tcp set global nagle=disabled && netsh int tcp set global autotuninglevel=normal"@
    } else if i == 5 {
        r#"reg add "HKLM\SOFTWARE\Microsoft\Windows NT\CurrentVersion\Multimedia\SystemProfile" /v NetworkThrottlingIndex /t REG_DWORD /d 0xffffffff /f"#@
    } else if i == 6 {
        r#"reg add "HKCU\System\GameConfigStore" /v GameDVR_Enabled /t REG_DWORD /d 0 /f && reg add "HKLM\SOFTWARE\Policies\Microsoft\Windows\GameDVR" /v AllowGameDVR /t REG_DWORD /d 0 /f"#@
    } else {
        r#"reg add "HKLM\SYSTEM\CurrentControlSet\Control\Power\PowerThrottling" /v PowerThrottlingOff /t REG_DWORD /d 1 /f"#@
    }
}

/// The catalogue of available tweaks, keyed by id.
pub fn get_tweaks_map() -> (r: Vec<TweakInfo>)
    ensures
        r@.len() == 8,
        forall|i: int| 0 <= i < 8 ==> (#[trigger] r@[i].id)@ == tweak_id(i),
        forall|i: int| 0 <= i < 8 ==> (#[trigger] r@[i].command)@ == tweak_command(i),
        forall|i: int| 0 <= i < 8 ==> (#[trigger] r@[i]).safe,
{
    let mut r: Vec<TweakInfo> = Vec::new();
    r.push(TweakInfo {
        id: String::from_str("disable_hpet"),
        category: String::from_str("Input"),
        name: String::from_str("disable HPET"),
        desc: String::new(),
        command: String::from_str("bcdedit /deletevalue useplatformclock"),
        safe: true,
    });
    r.push(TweakInfo {
        id: String::from_str("disable_dynamic_tick"),
        category: String::from_str("Input"),
        name: String::from_str("disable dynamic tick"),
        desc: String::new(),
        command: String::from_str("bcdedit /set disabledynamictick yes"),
        safe: true,
    });
    r.push(TweakInfo {
        id: String::from_str("optimize_keyboard"),
        category: String::from_str("Input"),
        name: String::from_str("fast keyboard response"),
        desc: String::new(),
        command: String::from_str(
            r#"reg add "HKCU\Control Panel\Keyboard" /v KeyboardDelay /t REG_SZ /d "0" /f && reg add "HKCU\Control Panel\Keyboard" /v KeyboardSpeed /t REG_SZ /d "31" /f"#,
        ),
        safe: true,
    });
    r.push(TweakInfo {
        id: String::from_str("disable_mouse_accel"),
        category: String::from_str("Input"),
        name: String::from_str("disable mouse acceleration"),
        desc: String::new(),
        command: String::from_str(
            r#"reg add "HKCU\Control Panel\Mouse" /v MouseSpeed /t REG_SZ /d "0" /f && reg add "HKCU\Control Panel\Mouse" /v MouseThreshold1 /t REG_SZ /d "0" /f && reg add "HKCU\Control Panel\Mouse" /v MouseThreshold2 /t REG_SZ /d "0" /f"#,
        ),
        safe: true,
    });
    r.push(TweakInfo {
        id: String::from_str("tcp_nodelay"),
        category: String::from_str("Network"),
        name: String::from_str("TCP NoDelay"),
        desc: String::new(),
        command: String::from_str(
            "netsh int tcp set global nagle=disabled && netsh int tcp set global autotuninglevel=normal",
        ),
        safe: true,
    });
    r.push(TweakInfo {
        id: String::from_str("network_throttling_disable"),
        category: String::from_str("Network"),
        name: String::from_str("lift network throttling"),
        desc: String::new(),
        command: String::from_str(
            r#"reg add "HKLM\SOFTWARE\Microsoft\Windows NT\CurrentVersion\Multimedia\SystemProfile" /v NetworkThrottlingIndex /t REG_DWORD /d 0xffffffff /f"#,
        ),
        safe: true,
    });
    r.push(TweakInfo {
        id: String::from_str("disable_game_bar"),
        category: String::from_str("System"),
        name: String::from_str("disable Game Bar"),
        desc: String::new(),
        command: String::from_str(
            r#"reg add "HKCU\System\GameConfigStore" /v GameDVR_Enabled /t REG_DWORD /d 0 /f && reg add "HKLM\SOFTWARE\Policies\Microsoft\Windows\GameDVR" /v AllowGameDVR /t REG_DWORD /d 0 /f"#,
        ),
        safe: true,
    });
    r.push(TweakInfo {
        id: String::from_str("disable_power_throttling"),
        category: String::from_str("System"),
        name: String::from_str("disable power throttling"),
        desc: String::new(),
        command: String::from_str(
            r#"reg add "HKLM\SYSTEM\CurrentControlSet\Control\Power\PowerThrottling" /v PowerThrottlingOff /t REG_DWORD /d 1 /f"#,
        ),
        safe: true,
    });
    r
}

/// The first catalogue entry with the given id.
pub open spec fn match_tweak(tweaks: Seq<TweakInfo>, id: Seq<u8>) -> Option<TweakInfo>
    decreases tweaks.len(),
{
    if tweaks.len() == 0 {
        None
    } else if text::bytes_of(tweaks[0].id) == id {
        Some(tweaks[0])
    } else {
        match_tweak(tweaks.skip(1), id)
    }
}

/// Find a tweak by its exact id.
pub fn find_tweak(tweaks: &Vec<TweakInfo>, id: &str) -> (r: Option<usize>)
    ensures
        match r {
            Some(i) => 0 <= i < tweaks@.len() && match_tweak(tweaks@, id.spec_bytes()) == Some(
                tweaks@[i as int],
            ),
            None => match_tweak(tweaks@, id.spec_bytes()) is None,
        },
{
    let n = tweaks.len();
    let mut i: usize = 0;
    proof {
        assert(tweaks@.skip(0int) =~= tweaks@);
    }
    while i < n
        invariant
            n == tweaks@.len(),
            0 <= i <= n,
            match_tweak(tweaks@, id.spec_bytes()) == match_tweak(
                tweaks@.skip(i as int),
                id.spec_bytes(),
            ),
        decreases n - i,
    {
        let ghost rest = tweaks@.skip(i as int);
        proof {
            assert(rest[0] == tweaks@[i as int]);
            assert(rest.skip(1) =~= tweaks@.skip(i + 1));
        }
        if bytes_equal(tweaks[i].id.as_str(), id) {
            return Some(i);
        }
        i = i + 1;
    }
    proof {
        assert(tweaks@.skip(n as int) =~= Seq::<TweakInfo>::empty());
    }
    None
}

/// Exact byte equality of two strings.
pub fn bytes_equal(a: &str, b: &str) -> (r: bool)
    ensures
        r == (a.spec_bytes() == b.spec_bytes()),
{
    let ab = a.as_bytes();
    let bb = b.as_bytes();
    if ab.len() != bb.len() {
        return false;
    }
    let n = ab.len();
    let mut i: usize = 0;
    while i < n
        invariant
            n == ab@.len() == bb@.len(),
            ab@ == a.spec_bytes(),
            bb@ == b.spec_bytes(),
            0 <= i <= n,
            forall|j: int| 0 <= j < i ==> ab@[j] == bb@[j],
        decreases n - i,
    {
        if ab[i] != bb[i] {
            return false;
        }
        i = i + 1;
    }
    proof {
        assert(a.spec_bytes() =~= b.spec_bytes());
    }
    true
}

} // verus!
