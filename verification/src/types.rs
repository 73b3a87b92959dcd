//! Shared data types of the governor: priority classes, core classes,
//! process snapshot entries, system readings, and the error type.

use vstd::prelude::*;
use vstd::string::StringSliceAdditionalSpecFns;
use crate::text;

verus! {

/// Process priority class, totally ordered from lowest to highest.
#[derive(Debug, Clone, Copy, PartialEq, Eq, Structural)]
pub enum PriorityLevel {
    Idle,
    BelowNormal,
    Normal,
    AboveNormal,
    High,
    RealTime,
}

/// The canonical name of a priority class.
pub open spec fn priority_name(level: PriorityLevel) -> Seq<char> {
    match level {
        PriorityLevel::Idle => "Idle"@,
        PriorityLevel::BelowNormal => "BelowNormal"@,
        PriorityLevel::Normal => "Normal"@,
        PriorityLevel::AboveNormal => "AboveNormal"@,
        PriorityLevel::High => "High"@,
        PriorityLevel::RealTime => "RealTime"@,
    }
}

/// The rank of a priority class in the low-to-high order.
pub open spec fn priority_rank(level: PriorityLevel) -> int {
    match level {
        PriorityLevel::Idle => 0,
        PriorityLevel::BelowNormal => 1,
        PriorityLevel::Normal => 2,
        PriorityLevel::AboveNormal => 3,
        PriorityLevel::High => 4,
        PriorityLevel::RealTime => 5,
    }
}

/// Which priority class a name denotes, compared case-insensitively; `None`
/// for an unrecognized name.
pub open spec fn priority_of_name(s: Seq<u8>) -> Option<PriorityLevel> {
    let l = text::lower_of(s);
    if l == text::lower_of("idle".spec_bytes()) {
        Some(PriorityLevel::Idle)
    } else if l == text::lower_of("belownormal".spec_bytes()) {
        Some(PriorityLevel::BelowNormal)
    } else if l == text::lower_of("normal".spec_bytes()) {
        Some(PriorityLevel::Normal)
    } else if l == text::lower_of("abovenormal".spec_bytes()) {
        Some(PriorityLevel::AboveNormal)
    } else if l == text::lower_of("high".spec_bytes()) {
        Some(PriorityLevel::High)
    } else if l == text::lower_of("realtime".spec_bytes()) {
        Some(PriorityLevel::RealTime)
    } else {
        None
    }
}

impl PriorityLevel {
    /// The canonical name, as the profile persistence format spells it.
    pub fn as_str(&self) -> (r: &'static str)
        ensures
            r@ == priority_name(*self),
    {
        match self {
            PriorityLevel::Idle => "Idle",
            PriorityLevel::BelowNormal => "BelowNormal",
            PriorityLevel::Normal => "Normal",
            PriorityLevel::AboveNormal => "AboveNormal",
            PriorityLevel::High => "High",
            PriorityLevel::RealTime => "RealTime",
        }
    }

    /// The display name used by the Chinese-language shell.
    pub fn as_str_cn(&self) -> (r: &'static str)
        ensures
            *self == PriorityLevel::Idle ==> r@ == "空闲"@,
            *self == PriorityLevel::BelowNormal ==> r@ == "低"@,
            *self == PriorityLevel::Normal ==> r@ == "正常"@,
            *self == PriorityLevel::AboveNormal ==> r@ == "较高"@,
            *self == PriorityLevel::High ==> r@ == "高"@,
            *self == PriorityLevel::RealTime ==> r@ == "实时"@,
    {
        match self {
            PriorityLevel::Idle => "空闲",
            PriorityLevel::BelowNormal => "低",
            PriorityLevel::Normal => "正常",
            PriorityLevel::AboveNormal => "较高",
            PriorityLevel::High => "高",
            PriorityLevel::RealTime => "实时",
        }
    }

    /// Parse a priority name, case-insensitively.
    pub fn from_str(s: &str) -> (r: Option<PriorityLevel>)
        ensures
            r == priority_of_name(s.spec_bytes()),
    {
        if text::eq_ignore_case(s, "idle") {
            Some(PriorityLevel::Idle)
        } else if text::eq_ignore_case(s, "belownormal") {
            Some(PriorityLevel::BelowNormal)
        } else if text::eq_ignore_case(s, "normal") {
            Some(PriorityLevel::Normal)
        } else if text::eq_ignore_case(s, "abovenormal") {
            Some(PriorityLevel::AboveNormal)
        } else if text::eq_ignore_case(s, "high") {
            Some(PriorityLevel::High)
        } else if text::eq_ignore_case(s, "realtime") {
            Some(PriorityLevel::RealTime)
        } else {
            None
        }
    }

    /// The display colour (red, green, blue) the shell paints this class in.
    pub fn color(&self) -> (r: (u8, u8, u8))
        ensures
            r == priority_color(*self),
    {
        match self {
            PriorityLevel::RealTime => (255, 50, 50),
            PriorityLevel::High => (255, 150, 50),
            PriorityLevel::AboveNormal => (255, 220, 50),
            PriorityLevel::Normal => (150, 150, 150),
            PriorityLevel::BelowNormal => (100, 180, 255),
            PriorityLevel::Idle => (100, 100, 100),
        }
    }

    /// The position of this class in the low-to-high order.
    pub fn rank(&self) -> (r: u32)
        ensures
            r == priority_rank(*self),
    {
        match self {
            PriorityLevel::Idle => 0,
            PriorityLevel::BelowNormal => 1,
            PriorityLevel::Normal => 2,
            PriorityLevel::AboveNormal => 3,
            PriorityLevel::High => 4,
            PriorityLevel::RealTime => 5,
        }
    }
}

/// The display colour of each priority class.
pub open spec fn priority_color(level: PriorityLevel) -> (u8, u8, u8) {
    match level {
        PriorityLevel::RealTime => (255u8, 50u8, 50u8),
        PriorityLevel::High => (255u8, 150u8, 50u8),
        PriorityLevel::AboveNormal => (255u8, 220u8, 50u8),
        PriorityLevel::Normal => (150u8, 150u8, 150u8),
        PriorityLevel::BelowNormal => (100u8, 180u8, 255u8),
        PriorityLevel::Idle => (100u8, 100u8, 100u8),
    }
}

/// Class of a logical processor.
#[derive(Debug, Clone, Copy, PartialEq, Eq, Structural)]
pub enum CoreType {
    Performance,
    Efficiency,
    VCache,
    Unknown,
}

/// CPU vendor, as recognized from the model string.
#[derive(Debug, Clone, Copy, PartialEq, Eq, Structural)]
pub enum CpuVendor {
    Intel,
    AMD,
    Unknown,
}

/// GPU vendor.
#[derive(Debug, Clone, Copy, PartialEq, Eq, Structural)]
pub enum GpuVendor {
    NVIDIA,
    AMD,
    Intel,
    Unknown,
}

/// A detected GPU.
#[derive(Debug, Clone)]
pub struct GpuInfo {
    pub vendor: GpuVendor,
    pub name: String,
}

/// One entry of a process snapshot. CPU usage is stored in hundredths of a
/// percent of the whole machine (10000 = all logical cores busy), so the
/// snapshot carries no floating point.
#[derive(Debug, Clone)]
pub struct ProcessInfo {
    pub pid: u32,
    pub parent_pid: Option<u32>,
    pub name: String,
    /// Normalized CPU usage in hundredths of a percent, 0 ..= 10000.
    pub cpu_centi_pct: u32,
    pub memory_bytes: u64,
    /// Rendered priority class name, `Normal` when unreadable.
    pub priority: String,
    /// Rendered hard affinity: `All`, a `0x…` mask, or a `Sets…` note.
    pub cpu_affinity: String,
    pub thread_count: u32,
    pub user: String,
    pub path: String,
}

/// System memory reading, in mebibytes.
#[derive(Debug, Clone, Copy, PartialEq, Eq, Structural)]
pub struct MemoryInfo {
    pub total_mib: u64,
    pub free_mib: u64,
    pub used_mib: u64,
    /// Usage in whole percent, 0 ..= 100.
    pub percent: u32,
}

/// Load of one logical core, in hundredths of a percent.
#[derive(Debug, Clone, Copy, PartialEq, Eq, Structural)]
pub struct CoreLoad {
    pub index: u32,
    pub usage_centi_pct: u32,
}

/// Summarize a memory reading from byte counts, as the sampler publishes it.
pub fn memory_info_from_bytes(total_bytes: u64, available_bytes: u64) -> (r: MemoryInfo)
    requires
        available_bytes <= total_bytes,
    ensures
        r.total_mib == total_bytes / 0x100000,
        r.free_mib == available_bytes / 0x100000,
        r.used_mib == (total_bytes - available_bytes) / 0x100000,
        total_bytes > 0 ==> r.percent == (total_bytes - available_bytes) * 100 / (
        total_bytes as int),
        total_bytes == 0 ==> r.percent == 0,
        r.percent <= 100,
{
    let used_bytes = total_bytes - available_bytes;
    let percent: u32 = if total_bytes > 0 {
        proof {
            assert((used_bytes as int) * 100 / (total_bytes as int) <= 100) by (nonlinear_arith)
                requires
                    0 < total_bytes,
                    0 <= used_bytes <= total_bytes,
            ;
            assert((used_bytes as u128) * 100 <= u128::MAX) by (nonlinear_arith)
                requires
                    used_bytes <= u64::MAX,
            ;
        }
        ((used_bytes as u128) * 100 / (total_bytes as u128)) as u32
    } else {
        0
    };
    MemoryInfo {
        total_mib: total_bytes / 0x100000,
        free_mib: available_bytes / 0x100000,
        used_mib: used_bytes / 0x100000,
        percent,
    }
}

/// The governor's error taxonomy.
#[derive(Debug, Clone)]
pub enum AppError {
    /// The process handle could not be opened; it likely exited.
    ProcessNotFound(u32),
    /// A mask failed to parse, was empty, or was no subset of the system mask.
    InvalidAffinityMask(String),
    /// An unrecognized priority name.
    InvalidPriority(String),
    /// Any other system-call failure, message preserved.
    SystemError(String),
    /// The profile store refused a write.
    ConfigError(String),
}

/// The rendered message of each error kind.
pub open spec fn error_message(e: AppError) -> Seq<char> {
    match e {
        AppError::ProcessNotFound(pid) => "process not found: "@ + text::dec_seq(pid as nat),
        AppError::InvalidAffinityMask(m) => "invalid affinity mask: "@ + m@,
        AppError::InvalidPriority(p) => "invalid priority: "@ + p@,
        AppError::SystemError(d) => "system error: "@ + d@,
        AppError::ConfigError(d) => "config error: "@ + d@,
    }
}

impl AppError {
    /// Render the error for logs and command callers.
    pub fn message(&self) -> (r: String)
        ensures
            r@ == error_message(*self),
    {
        match self {
            AppError::ProcessNotFound(pid) => {
                let mut s = String::from_str("process not found: ");
                let d = text::u64_to_dec(*pid as u64);
                s.append(d.as_str());
                s
            },
            AppError::InvalidAffinityMask(m) => {
                let mut s = String::from_str("invalid affinity mask: ");
                s.append(m.as_str());
                s
            },
            AppError::InvalidPriority(p) => {
                let mut s = String::from_str("invalid priority: ");
                s.append(p.as_str());
                s
            },
            AppError::SystemError(d) => {
                let mut s = String::from_str("system error: ");
                s.append(d.as_str());
                s
            },
            AppError::ConfigError(d) => {
                let mut s = String::from_str("config error: ");
                s.append(d.as_str());
                s
            },
        }
    }
}

/// Result type used by all governor operations.
pub type AppResult<T> = Result<T, AppError>;

/// Map a Win32 priority-class code to its class; unknown codes read as
/// `Normal`, as the sampler treats unreadable processes.
pub fn priority_from_class_code(code: u32) -> (r: PriorityLevel)
    ensures
        code == 0x40 ==> r == PriorityLevel::Idle,
        code == 0x4000 ==> r == PriorityLevel::BelowNormal,
        code == 0x20 ==> r == PriorityLevel::Normal,
        code == 0x8000 ==> r == PriorityLevel::AboveNormal,
        code == 0x80 ==> r == PriorityLevel::High,
        code == 0x100 ==> r == PriorityLevel::RealTime,
        code != 0x40 && code != 0x4000 && code != 0x20 && code != 0x8000 && code != 0x80 && code
            != 0x100 ==> r == PriorityLevel::Normal,
{
    if code == 0x40 {
        PriorityLevel::Idle
    } else if code == 0x4000 {
        PriorityLevel::BelowNormal
    } else if code == 0x20 {
        PriorityLevel::Normal
    } else if code == 0x8000 {
        PriorityLevel::AboveNormal
    } else if code == 0x80 {
        PriorityLevel::High
    } else if code == 0x100 {
        PriorityLevel::RealTime
    } else {
        PriorityLevel::Normal
    }
}

/// The Win32 priority-class code of a class.
pub fn priority_to_class_code(level: PriorityLevel) -> (r: u32)
    ensures
        r == priority_class_code(level),
{
    match level {
        PriorityLevel::Idle => 0x40,
        PriorityLevel::BelowNormal => 0x4000,
        PriorityLevel::Normal => 0x20,
        PriorityLevel::AboveNormal => 0x8000,
        PriorityLevel::High => 0x80,
        PriorityLevel::RealTime => 0x100,
    }
}

/// The Win32 priority-class code of each class.
pub open spec fn priority_class_code(level: PriorityLevel) -> u32 {
    match level {
        PriorityLevel::Idle => 0x40u32,
        PriorityLevel::BelowNormal => 0x4000u32,
        PriorityLevel::Normal => 0x20u32,
        PriorityLevel::AboveNormal => 0x8000u32,
        PriorityLevel::High => 0x80u32,
        PriorityLevel::RealTime => 0x100u32,
    }
}

/// Whether a pid is in the list.
pub fn contains_pid(v: &Vec<u32>, pid: u32) -> (r: bool)
    ensures
        r == v@.contains(pid),
{
    let mut k: usize = 0;
    while k < v.len()
        invariant
            0 <= k <= v@.len(),
            forall|j: int| 0 <= j < k ==> v@[j] != pid,
        decreases v@.len() - k,
    {
        if v[k] == pid {
            proof {
                assert(v@[k as int] == pid);
            }
            return true;
        }
        k = k + 1;
    }
    false
}

} // verus!
