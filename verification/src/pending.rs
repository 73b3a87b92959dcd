//! Pending profiles: the shell's not-yet-applied per-process policy, its
//! persisted form, and the one-line summary the shell shows for it.

use vstd::prelude::*;
use vstd::string::StringSliceAdditionalSpecFns;
use crate::text;
use crate::topology::{CpuTopology, LogicalCore};
use crate::types::{CoreType, PriorityLevel};

verus! {

/// A policy chosen in the shell but not yet applied to a process.
#[derive(Debug, Clone, Copy, PartialEq, Eq, Structural)]
pub struct PendingProfile {
    /// Core mask; `None` keeps the current selection.
    pub affinity_mask: Option<u64>,
    /// Priority class; `None` leaves it untouched.
    pub priority: Option<PriorityLevel>,
    /// Core to bind the heaviest thread to.
    pub thread_bind_core: Option<u32>,
    /// Ideal processor for the heaviest thread.
    pub ideal_core: Option<u32>,
}

impl Default for PendingProfile {
    fn default() -> (r: PendingProfile)
        ensures
            r.affinity_mask is None,
            r.priority is None,
            r.thread_bind_core is None,
            r.ideal_core is None,
    {
        PendingProfile { affinity_mask: None, priority: None, thread_bind_core: None, ideal_core: None }
    }
}

impl PendingProfile {
    /// A pending profile is empty iff it asks for nothing.
    pub fn is_empty(&self) -> (r: bool)
        ensures
            r == (self.affinity_mask is None && self.priority is None && self.thread_bind_core
                is None && self.ideal_core is None),
    {
        self.affinity_mask.is_none() && self.priority.is_none() && self.thread_bind_core.is_none()
            && self.ideal_core.is_none()
    }
}

/// The persisted form of a pending profile: the mask as an upper-case hex
/// string with a `0x` prefix, the priority by its canonical name.
#[derive(Debug, Clone)]
pub struct ProcessProfile {
    pub affinity_mask: Option<String>,
    pub priority: Option<String>,
    pub thread_bind_core: Option<u32>,
    pub ideal_core: Option<u32>,
}

impl ProcessProfile {
    /// Serialize a pending profile for the configuration file.
    pub fn from_pending(p: &PendingProfile) -> (r: ProcessProfile)
        ensures
            match p.affinity_mask {
                Some(m) => (r.affinity_mask matches Some(s) && s@ == "0x"@ + text::hex_seq_upper(
                    m as nat,
                )),
                None => r.affinity_mask is None,
            },
            match p.priority {
                Some(level) => (r.priority matches Some(s) && s@ == crate::types::priority_name(
                    level,
                )),
                None => r.priority is None,
            },
            r.thread_bind_core == p.thread_bind_core,
            r.ideal_core == p.ideal_core,
    {
        let affinity_mask = match p.affinity_mask {
            Some(m) => {
                let mut s = String::from_str("0x");
                let h = text::u64_to_hex_upper(m);
                s.append(h.as_str());
                Some(s)
            },
            None => None,
        };
        let priority = match p.priority {
            Some(level) => Some(String::from_str(level.as_str())),
            None => None,
        };
        ProcessProfile {
            affinity_mask,
            priority,
            thread_bind_core: p.thread_bind_core,
            ideal_core: p.ideal_core,
        }
    }

    /// Read a persisted profile back; an unreadable mask or priority name
    /// reads as absent.
    pub fn to_pending(&self) -> (r: PendingProfile)
        ensures
            r.affinity_mask == match self.affinity_mask {
                Some(s) => text::parse_hex_spec(text::strip_0x(text::bytes_of(s))),
                None => None::<u64>,
            },
            r.priority == match self.priority {
                Some(s) => crate::types::priority_of_name(text::bytes_of(s)),
                None => None::<PriorityLevel>,
            },
            r.thread_bind_core == self.thread_bind_core,
            r.ideal_core == self.ideal_core,
    {
        let affinity_mask = match &self.affinity_mask {
            Some(s) => text::parse_hex_u64(s.as_str()),
            None => None,
        };
        let priority = match &self.priority {
            Some(s) => PriorityLevel::from_str(s.as_str()),
            None => None,
        };
        PendingProfile {
            affinity_mask,
            priority,
            thread_bind_core: self.thread_bind_core,
            ideal_core: self.ideal_core,
        }
    }
}

/// The single-letter marker of a core class.
pub open spec fn core_type_char(t: CoreType) -> Seq<char> {
    match t {
        CoreType::VCache => "V"@,
        CoreType::Performance => "P"@,
        CoreType::Efficiency => "E"@,
        CoreType::Unknown => ""@,
    }
}

/// The display letter of a core class: V-Cache, Performance or Efficiency.
pub fn get_core_type_char(core_type: &CoreType) -> (r: &'static str)
    ensures
        r@ == core_type_char(*core_type),
{
    match core_type {
        CoreType::VCache => "V",
        CoreType::Performance => "P",
        CoreType::Efficiency => "E",
        CoreType::Unknown => "",
    }
}

/// The class of the first topology entry with the given id, if any.
pub open spec fn type_of_core(cores: Seq<LogicalCore>, id: int) -> Option<CoreType>
    decreases cores.len(),
{
    if cores.len() == 0 {
        None
    } else if cores[0].id == id {
        Some(cores[0].core_type)
    } else {
        type_of_core(cores.skip(1), id)
    }
}

/// The class marker shown after a core id.
pub open spec fn suffix_of(core_id: u32, topo: Option<CpuTopology>) -> Seq<char> {
    match topo {
        Some(t) => match type_of_core(t.cores@, core_id as int) {
            Some(ct) => core_type_char(ct),
            None => ""@,
        },
        None => ""@,
    }
}

/// The class marker of a core id under an optional topology.
pub fn get_suffix(core_id: u32, topology: Option<&CpuTopology>) -> (r: &'static str)
    ensures
        match topology {
            Some(t) => r@ == suffix_of(core_id, Some(*t)),
            None => r@ == ""@,
        },
{
    match topology {
        Some(t) => {
            let n = t.cores.len();
            let mut i: usize = 0;
            proof {
                assert(t.cores@.skip(0int) =~= t.cores@);
            }
            while i < n
                invariant
                    topology == Some(t),
                    n == t.cores@.len(),
                    0 <= i <= n,
                    type_of_core(t.cores@, core_id as int) == type_of_core(
                        t.cores@.skip(i as int),
                        core_id as int,
                    ),
                decreases n - i,
            {
                let ghost rest = t.cores@.skip(i as int);
                proof {
                    assert(rest[0] == t.cores@[i as int]);
                    assert(rest.skip(1) =~= t.cores@.skip(i + 1));
                }
                if t.cores[i].id == core_id as usize {
                    return get_core_type_char(&t.cores[i].core_type);
                }
                i = i + 1;
            }
            proof {
                assert(t.cores@.skip(n as int) =~= Seq::<LogicalCore>::empty());
            }
            ""
        },
        None => "",
    }
}

/// A core id with its class marker, e.g. `3P`.
pub open spec fn core_label(c: u32, topo: Option<CpuTopology>) -> Seq<char> {
    text::dec_seq(c as nat) + suffix_of(c, topo)
}

/// The labels of the mask's cores, joined with commas.
pub open spec fn core_list_labels(cores: Seq<u32>, topo: Option<CpuTopology>) -> Seq<char>
    decreases cores.len(),
{
    if cores.len() == 0 {
        Seq::empty()
    } else if cores.len() == 1 {
        core_label(cores[0], topo)
    } else {
        core_list_labels(cores.drop_last(), topo) + ","@ + core_label(cores.last(), topo)
    }
}

/// The summary fragment describing a mask: few cores are listed one by
/// one (an all-zero mask lists none, leaving the bare prefix), a
/// contiguous run is shown as a range, anything else by its count.
pub open spec fn mask_summary(mask: u64, topo: Option<CpuTopology>) -> Seq<char> {
    let cores = crate::mask::spec_mask_cores(mask);
    if cores.len() <= 4 {
        "核心:"@ + core_list_labels(cores, topo)
    } else if cores.last() - cores.first() + 1 == cores.len() {
        "核心:"@ + text::dec_seq(cores.first() as nat) + "-"@ + text::dec_seq(cores.last() as nat)
    } else {
        text::dec_seq(cores.len() as nat) + "核"@
    }
}

/// The parts of a profile summary, in display order.
pub open spec fn summary_parts(p: PendingProfile, topo: Option<CpuTopology>) -> Seq<Seq<char>> {
    let mask_part: Seq<Seq<char>> = match p.affinity_mask {
        Some(m) => seq![mask_summary(m, topo)],
        None => Seq::empty(),
    };
    let prio_part: Seq<Seq<char>> = match p.priority {
        Some(level) => seq![priority_name_cn(level)],
        None => Seq::empty(),
    };
    let bind_part: Seq<Seq<char>> = match p.thread_bind_core {
        Some(c) => seq!["绑定:"@ + core_label(c, topo)],
        None => Seq::empty(),
    };
    let ideal_part: Seq<Seq<char>> = match p.ideal_core {
        Some(c) => seq!["理想:"@ + core_label(c, topo)],
        None => Seq::empty(),
    };
    mask_part + prio_part + bind_part + ideal_part
}

/// The Chinese display name of a priority class.
pub open spec fn priority_name_cn(level: PriorityLevel) -> Seq<char> {
    match level {
        PriorityLevel::Idle => "空闲"@,
        PriorityLevel::BelowNormal => "低"@,
        PriorityLevel::Normal => "正常"@,
        PriorityLevel::AboveNormal => "较高"@,
        PriorityLevel::High => "高"@,
        PriorityLevel::RealTime => "实时"@,
    }
}

/// Parts joined with ` | `.
pub open spec fn joined_parts(parts: Seq<Seq<char>>) -> Seq<char>
    decreases parts.len(),
{
    if parts.len() == 0 {
        Seq::empty()
    } else if parts.len() == 1 {
        parts[0]
    } else {
        joined_parts(parts.drop_last()) + " | "@ + parts.last()
    }
}

/// The one-line summary of a pending profile, or `默认` for an empty one.
pub open spec fn spec_profile_summary(p: PendingProfile, topo: Option<CpuTopology>) -> Seq<char> {
    if p.affinity_mask is None && p.priority is None && p.thread_bind_core is None && p.ideal_core
        is None {
        "默认"@
    } else {
        joined_parts(summary_parts(p, topo))
    }
}

/// Render the one-line summary of a pending profile the shell shows.
pub fn get_profile_summary(profile: &PendingProfile, topology: Option<&CpuTopology>) -> (r: String)
    ensures
        r@ == spec_profile_summary(*profile, match topology {
            Some(t) => Some(*t),
            None => None::<CpuTopology>,
        }),
{
    let ghost topo = match topology {
        Some(t) => Some(*t),
        None => None::<CpuTopology>,
    };
    if profile.is_empty() {
        return String::from_str("默认");
    }
    let mut parts: Vec<String> = Vec::new();
    match profile.affinity_mask {
        Some(m) => {
            let cores = crate::mask::mask_to_cores(m);
            let part = render_mask_summary(m, &cores, topology);
            proof {
                assert(part@ == mask_summary(m, topo));
            }
            parts.push(part);
        },
        None => {},
    }
    match profile.priority {
        Some(level) => {
            parts.push(String::from_str(level.as_str_cn()));
        },
        None => {},
    }
    match profile.thread_bind_core {
        Some(c) => {
            let mut s = String::from_str("绑定:");
            let d = text::u64_to_dec(c as u64);
            s.append(d.as_str());
            s.append(get_suffix(c, topology));
            parts.push(s);
        },
        None => {},
    }
    match profile.ideal_core {
        Some(c) => {
            let mut s = String::from_str("理想:");
            let d = text::u64_to_dec(c as u64);
            s.append(d.as_str());
            s.append(get_suffix(c, topology));
            parts.push(s);
        },
        None => {},
    }
    proof {
        assert(parts@.map_values(|s: String| s@) =~~= summary_parts(*profile, topo));
    }
    join_parts(&parts)
}

fn render_mask_summary(m: u64, cores: &Vec<u32>, topology: Option<&CpuTopology>) -> (r: String)
    requires
        cores@ == crate::mask::spec_mask_cores(m),
        forall|k1: int, k2: int| 0 <= k1 < k2 < cores@.len() ==> cores@[k1] < cores@[k2],
    ensures
        r@ == mask_summary(m, match topology {
            Some(t) => Some(*t),
            None => None::<CpuTopology>,
        }),
{
    let ghost topo = match topology {
        Some(t) => Some(*t),
        None => None::<CpuTopology>,
    };
    if cores.len() <= 4 {
        let mut s = String::from_str("核心:");
        let mut k: usize = 0;
        let mut labels = String::new();
        while k < cores.len()
            invariant
                cores@ == crate::mask::spec_mask_cores(m),
                topo == (match topology {
                    Some(t) => Some(*t),
                    None => None::<CpuTopology>,
                }),
                0 <= k <= cores@.len(),
                labels@ == core_list_labels(cores@.take(k as int), topo),
            decreases cores@.len() - k,
        {
            proof {
                assert(cores@.take(k + 1).drop_last() =~= cores@.take(k as int));
                assert(cores@.take(k + 1).last() == cores@[k as int]);
                if k == 0 {
                    assert(cores@.take(1int)[0] == cores@[0]);
                }
            }
            let ghost labels_before = labels@;
            if k > 0 {
                labels.append(",");
            }
            let d = text::u64_to_dec(cores[k] as u64);
            labels.append(d.as_str());
            labels.append(get_suffix(cores[k], topology));
            proof {
                if k == 0 {
                    assert(labels@ =~= core_list_labels(cores@.take(1int), topo));
                } else {
                    assert(labels@ =~= core_list_labels(cores@.take(k as int), topo) + ","@
                        + core_label(cores@[k as int], topo));
                    assert(labels@ =~= core_list_labels(cores@.take(k + 1), topo));
                }
            }
            k = k + 1;
        }
        proof {
            assert(cores@.take(cores@.len() as int) =~= cores@);
        }
        s.append(labels.as_str());
        return s;
    }
    let lo = cores[0];
    let hi = cores[cores.len() - 1];
    proof {
        assert(cores@.first() == cores@[0]);
        assert(cores@.last() == cores@[cores@.len() - 1]);
    }
    if (hi - lo) as u64 + 1 == cores.len() as u64 {
        let mut s = String::from_str("核心:");
        let d1 = text::u64_to_dec(lo as u64);
        s.append(d1.as_str());
        s.append("-");
        let d2 = text::u64_to_dec(hi as u64);
        s.append(d2.as_str());
        s
    } else {
        let mut s = text::u64_to_dec(cores.len() as u64);
        s.append("核");
        s
    }
}

/// Join rendered parts with ` | `.
fn join_parts(parts: &Vec<String>) -> (r: String)
    ensures
        r@ == joined_parts(parts@.map_values(|s: String| s@)),
{
    let ghost views = parts@.map_values(|s: String| s@);
    let mut r = String::new();
    let mut k: usize = 0;
    while k < parts.len()
        invariant
            views == parts@.map_values(|s: String| s@),
            0 <= k <= parts@.len(),
            r@ == joined_parts(views.take(k as int)),
        decreases parts@.len() - k,
    {
        proof {
            assert(views.take(k + 1).drop_last() =~= views.take(k as int));
            assert(views.take(k + 1).last() == views[k as int]);
            if k == 0 {
                assert(views.take(1int)[0] == views[0]);
            }
        }
        if k > 0 {
            r.append(" | ");
        }
        r.append(parts[k].as_str());
        proof {
            if k == 0 {
                assert(r@ =~= joined_parts(views.take(1int)));
            } else {
                assert(r@ =~= joined_parts(views.take(k as int)) + " | "@ + views[k as int]);
                assert(r@ =~= joined_parts(views.take(k + 1)));
            }
        }
        k = k + 1;
    }
    proof {
        assert(views.take(views.len() as int) =~= views);
    }
    r
}

} // verus!
