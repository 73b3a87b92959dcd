//! Hardware topology model: classify every logical processor as P-core,
//! E-core or V-Cache core from the raw processor and cache relations the
//! host hands in, and group cores by physical core and by shared L3 (CCD).

use vstd::prelude::*;
use vstd::string::StringSliceAdditionalSpecFns;
use vstd::string::StrSliceExecFns;
use vstd::string::StringExecFns;
use crate::mask::has_bit;
use crate::types::{CoreType, CpuVendor};

verus! {

/// One cache relation: its level, the mask of logical processors sharing
/// it, and its size in bytes.
#[derive(Debug, Clone, Copy, PartialEq, Eq, Structural)]
pub struct CacheRecord {
    pub level: u8,
    pub group_mask: u64,
    pub size: u64,
}

/// One physical-core relation: the mask of its logical processors and the
/// OS efficiency class.
#[derive(Debug, Clone, Copy, PartialEq, Eq, Structural)]
pub struct CoreRecord {
    pub group_mask: u64,
    pub efficiency_class: u8,
}

/// One classified logical processor.
#[derive(Debug, Clone, Copy, PartialEq, Eq, Structural)]
pub struct LogicalCore {
    pub id: usize,
    pub core_type: CoreType,
    pub physical_id: usize,
    pub group_id: u32,
}

/// An L3 domain larger than this is taken as 3D V-Cache.
pub const VCACHE_THRESHOLD: u64 = 0x4000000;

/// Record `i` is the defining L3 record for its mask: the last level-3
/// record with that mask, whose size therefore stands.
pub open spec fn defines_l3(caches: Seq<CacheRecord>, i: int) -> bool {
    0 <= i < caches.len() && caches[i].level == 3 && forall|j: int|
        i < j < caches.len() ==> !(#[trigger] caches[j].level == 3 && caches[j].group_mask
            == caches[i].group_mask)
}

/// Record `i` assigns core `c` its L3 group: the last level-3 record whose
/// mask covers the core.
pub open spec fn assigns_group(caches: Seq<CacheRecord>, i: int, c: u32) -> bool {
    0 <= i < caches.len() && caches[i].level == 3 && has_bit(caches[i].group_mask, c) && forall|
        j: int,
    |
        i < j < caches.len() ==> !(#[trigger] caches[j].level == 3 && has_bit(
            caches[j].group_mask,
            c,
        ))
}

/// The L3 group mask of core `c`, if any level-3 record covers it.
pub open spec fn group_of(caches: Seq<CacheRecord>, c: u32) -> Option<u64> {
    if exists|i: int| assigns_group(caches, i, c) {
        Some(caches[choose|i: int| assigns_group(caches, i, c)].group_mask)
    } else {
        None
    }
}

/// The recorded size of the L3 domain with the given mask.
pub open spec fn l3_size_of(caches: Seq<CacheRecord>, mask: u64) -> Option<u64> {
    if exists|i: int| defines_l3(caches, i) && caches[i].group_mask == mask {
        Some(caches[choose|i: int| defines_l3(caches, i) && caches[i].group_mask == mask].size)
    } else {
        None
    }
}

/// Some L3 domain exceeds the V-Cache threshold.
pub open spec fn spec_has_large_l3(caches: Seq<CacheRecord>) -> bool {
    exists|i: int| defines_l3(caches, i) && caches[i].size > VCACHE_THRESHOLD
}

/// Whether any level-3 cache record's standing size exceeds the V-Cache
/// threshold.
pub fn has_large_l3(caches: &Vec<CacheRecord>) -> (r: bool)
    ensures
        r == spec_has_large_l3(caches@),
{
    let n = caches.len();
    let mut i: usize = 0;
    while i < n
        invariant
            n == caches@.len(),
            0 <= i <= n,
            forall|k: int| 0 <= k < i ==> !(defines_l3(caches@, k) && caches@[k].size
                > VCACHE_THRESHOLD),
        decreases n - i,
    {
        if caches[i].level == 3 && caches[i].size > 0x4000000 {
            // Is this the standing (last) record for its mask?
            let mut j: usize = i + 1;
            let mut overridden = false;
            while j < n
                invariant
                    n == caches@.len(),
                    0 <= i < j <= n,
                    overridden == !(forall|k: int|
                        i < k < j ==> !(#[trigger] caches@[k].level == 3 && caches@[k].group_mask
                            == caches@[i as int].group_mask)),
                decreases n - j,
            {
                if !overridden && caches[j].level == 3 && caches[j].group_mask
                    == caches[i].group_mask {
                    overridden = true;
                }
                j = j + 1;
            }
            if !overridden {
                proof {
                    assert(defines_l3(caches@, i as int));
                }
                return true;
            }
        }
        i = i + 1;
    }
    false
}

/// The L3 group mask assigned to core `c`, scanning the records from the
/// last backwards.
pub fn find_group(caches: &Vec<CacheRecord>, c: u32) -> (r: Option<u64>)
    ensures
        r == group_of(caches@, c),
{
    let n = caches.len();
    let mut j: usize = n;
    while j > 0
        invariant
            n == caches@.len(),
            0 <= j <= n,
            forall|k: int| j <= k < n ==> !(#[trigger] caches@[k].level == 3 && has_bit(
                caches@[k].group_mask,
                c,
            )),
        decreases j,
    {
        j = j - 1;
        if caches[j].level == 3 {
            let m = caches[j].group_mask;
            if c < 64 && (m >> (c as u64)) & 1u64 == 1u64 {
                proof {
                    assert(assigns_group(caches@, j as int, c));
                    let w = choose|i: int| assigns_group(caches@, i, c);
                    assert(!(w < j || w > j));
                }
                return Some(m);
            }
        }
    }
    proof {
        assert(forall|i: int| !assigns_group(caches@, i, c));
    }
    None
}

/// The standing size of the L3 domain with the given mask, scanning from
/// the last record backwards.
pub fn find_l3_size(caches: &Vec<CacheRecord>, mask: u64) -> (r: Option<u64>)
    ensures
        r == l3_size_of(caches@, mask),
{
    let n = caches.len();
    let mut j: usize = n;
    while j > 0
        invariant
            n == caches@.len(),
            0 <= j <= n,
            forall|k: int| j <= k < n ==> !(#[trigger] caches@[k].level == 3 && caches@[k].group_mask
                == mask),
        decreases j,
    {
        j = j - 1;
        if caches[j].level == 3 && caches[j].group_mask == mask {
            proof {
                assert(defines_l3(caches@, j as int) && caches@[j as int].group_mask == mask);
                let w = choose|i: int|
                    defines_l3(caches@, i) && caches@[i].group_mask == mask;
                assert(!(w < j || w > j));
            }
            return Some(caches[j].size);
        }
    }
    proof {
        assert(forall|i: int| !(defines_l3(caches@, i) && caches@[i].group_mask == mask));
    }
    None
}

/// The efficiency classes differ somewhere: an Intel hybrid part.
pub open spec fn spec_is_hybrid(cores: Seq<CoreRecord>) -> bool {
    exists|i: int, j: int|
        0 <= i < cores.len() && 0 <= j < cores.len() && cores[i].efficiency_class
            != cores[j].efficiency_class
}

/// Whether two physical cores carry different efficiency classes.
pub fn records_hybrid(cores: &Vec<CoreRecord>) -> (r: bool)
    ensures
        r == spec_is_hybrid(cores@),
{
    if cores.len() == 0 {
        return false;
    }
    let c0 = cores[0].efficiency_class;
    let n = cores.len();
    let mut i: usize = 1;
    while i < n
        invariant
            n == cores@.len(),
            n > 0,
            c0 == cores@[0].efficiency_class,
            1 <= i <= n,
            forall|k: int| 0 <= k < i ==> cores@[k].efficiency_class == c0,
        decreases n - i,
    {
        if cores[i].efficiency_class != c0 {
            return true;
        }
        i = i + 1;
    }
    false
}

/// The class of one logical processor, given what its L3 domain looks like
/// and its efficiency class. On a machine with a large L3 domain the cache
/// decides; otherwise the efficiency classes do, the zero cohort reading
/// as Efficiency only on a hybrid part.
pub open spec fn core_class(
    caches: Seq<CacheRecord>,
    large: bool,
    hybrid: bool,
    c: u32,
    efficiency_class: u8,
) -> CoreType {
    if large {
        match group_of(caches, c) {
            Some(m) => match l3_size_of(caches, m) {
                Some(s) => if s > VCACHE_THRESHOLD {
                    CoreType::VCache
                } else {
                    CoreType::Performance
                },
                None => CoreType::Performance,
            },
            None => CoreType::Performance,
        }
    } else if efficiency_class == 1 {
        CoreType::Performance
    } else if efficiency_class == 0 {
        if hybrid {
            CoreType::Efficiency
        } else {
            CoreType::Performance
        }
    } else {
        CoreType::Performance
    }
}

/// The group id recorded on a classified core: its L3 mask, truncated to
/// 32 bits, or zero for a core no L3 record covers.
pub open spec fn core_group_id(caches: Seq<CacheRecord>, c: u32) -> u32 {
    match group_of(caches, c) {
        Some(m) => m as u32,
        None => 0u32,
    }
}

/// Classify every logical processor named by the core records. The result
/// is ascending by processor id; each entry carries the physical core it
/// came from, its class, and its L3 group.
pub fn classify_cores(caches: &Vec<CacheRecord>, cores: &Vec<CoreRecord>) -> (r: Vec<LogicalCore>)
    ensures
        forall|k1: int, k2: int| 0 <= k1 < k2 < r@.len() ==> r@[k1].id <= r@[k2].id,
        forall|k: int| 0 <= k < r@.len() ==> valid_core_entry(caches@, cores@, #[trigger] r@[k]),
        forall|p: int, b: u32|
            0 <= p < cores@.len() && #[trigger] has_bit(cores@[p].group_mask, b) ==> exists|k: int|
                0 <= k < r@.len() && #[trigger] r@[k].id == b && r@[k].physical_id == p,
{
    let large = has_large_l3(caches);
    let hybrid = records_hybrid(cores);
    let mut r: Vec<LogicalCore> = Vec::new();
    let mut b: u32 = 0;
    while b < 64
        invariant
            large == spec_has_large_l3(caches@),
            hybrid == spec_is_hybrid(cores@),
            0 <= b <= 64,
            forall|k1: int, k2: int| 0 <= k1 < k2 < r@.len() ==> r@[k1].id <= r@[k2].id,
            forall|k: int| 0 <= k < r@.len() ==> valid_core_entry(caches@, cores@, #[trigger] r@[k])
                && r@[k].id < b,
            forall|p: int, bb: u32|
                0 <= p < cores@.len() && bb < b && #[trigger] has_bit(cores@[p].group_mask, bb)
                    ==> exists|k: int|
                    0 <= k < r@.len() && #[trigger] r@[k].id == bb && r@[k].physical_id == p,
        decreases 64 - b,
    {
        let mut p: usize = 0;
        while p < cores.len()
            invariant
                large == spec_has_large_l3(caches@),
                hybrid == spec_is_hybrid(cores@),
                0 <= b < 64,
                0 <= p <= cores@.len(),
                forall|k1: int, k2: int| 0 <= k1 < k2 < r@.len() ==> r@[k1].id <= r@[k2].id,
                forall|k: int|
                    0 <= k < r@.len() ==> valid_core_entry(caches@, cores@, #[trigger] r@[k])
                        && r@[k].id <= b,
                forall|pp: int, bb: u32|
                    0 <= pp < cores@.len() && bb < b && #[trigger] has_bit(cores@[pp].group_mask, bb)
                        ==> exists|k: int|
                        0 <= k < r@.len() && #[trigger] r@[k].id == bb && r@[k].physical_id == pp,
                forall|pp: int|
                    0 <= pp < p && #[trigger] has_bit(cores@[pp].group_mask, b) ==> exists|k: int|
                        0 <= k < r@.len() && #[trigger] r@[k].id == b && r@[k].physical_id == pp,
            decreases cores@.len() - p,
        {
            let m = cores[p].group_mask;
            if (m >> (b as u64)) & 1u64 == 1u64 {
                let class = classify_one(caches, large, hybrid, b, cores[p].efficiency_class);
                let gid = match find_group(caches, b) {
                    Some(g) => g as u32,
                    None => 0,
                };
                let ghost prev = r@;
                r.push(LogicalCore { id: b as usize, core_type: class, physical_id: p, group_id: gid });
                proof {
                    assert(forall|k: int| 0 <= k < prev.len() ==> r@[k] == prev[k]);
                    assert(r@[prev.len() as int].id == b && r@[prev.len() as int].physical_id
                        == p as int);
                    assert(valid_core_entry(caches@, cores@, r@[prev.len() as int]));
                }
            }
            p = p + 1;
        }
        b = b + 1;
    }
    r
}

/// A classified entry is faithful to the records: its id names a bit of
/// its physical core's mask, and class and group follow the rules above.
pub open spec fn valid_core_entry(
    caches: Seq<CacheRecord>,
    cores: Seq<CoreRecord>,
    e: LogicalCore,
) -> bool {
    &&& e.id < 64
    &&& 0 <= e.physical_id < cores.len()
    &&& has_bit(cores[e.physical_id as int].group_mask, e.id as u32)
    &&& e.core_type == core_class(
        caches,
        spec_has_large_l3(caches),
        spec_is_hybrid(cores),
        e.id as u32,
        cores[e.physical_id as int].efficiency_class,
    )
    &&& e.group_id == core_group_id(caches, e.id as u32)
}

fn classify_one(
    caches: &Vec<CacheRecord>,
    large: bool,
    hybrid: bool,
    c: u32,
    efficiency_class: u8,
) -> (r: CoreType)
    requires
        large == spec_has_large_l3(caches@),
    ensures
        r == core_class(caches@, large, hybrid, c, efficiency_class),
{
    if large {
        match find_group(caches, c) {
            Some(m) => match find_l3_size(caches, m) {
                Some(s) => if s > 0x4000000 {
                    CoreType::VCache
                } else {
                    CoreType::Performance
                },
                None => CoreType::Performance,
            },
            None => CoreType::Performance,
        }
    } else if efficiency_class == 1 {
        CoreType::Performance
    } else if efficiency_class == 0 {
        if hybrid {
            CoreType::Efficiency
        } else {
            CoreType::Performance
        }
    } else {
        CoreType::Performance
    }
}

/// Which CPU vendor a model string names.
pub fn vendor_from_model(model: &str) -> (r: CpuVendor)
    ensures
        r == spec_vendor(model.spec_bytes()),
{
    if crate::text::contains_ignore_case(model, "intel") {
        CpuVendor::Intel
    } else if crate::text::contains_ignore_case(model, "amd") {
        CpuVendor::AMD
    } else if crate::text::contains_ignore_case(model, "ryzen") {
        CpuVendor::AMD
    } else {
        CpuVendor::Unknown
    }
}

/// The vendor read from a model string, case-insensitively.
pub open spec fn spec_vendor(model: Seq<u8>) -> CpuVendor {
    let l = crate::text::lower_of(model);
    if crate::text::contains_bytes(l, crate::text::lower_of("intel".spec_bytes())) {
        CpuVendor::Intel
    } else if crate::text::contains_bytes(l, crate::text::lower_of("amd".spec_bytes()))
        || crate::text::contains_bytes(l, crate::text::lower_of("ryzen".spec_bytes())) {
        CpuVendor::AMD
    } else {
        CpuVendor::Unknown
    }
}

/// Some core of the sequence belongs to physical core `p`.
pub open spec fn contains_physical(s: Seq<LogicalCore>, p: int) -> bool {
    exists|k: int| 0 <= k < s.len() && #[trigger] s[k].physical_id == p
}

/// The first core of each physical core, in order of appearance.
pub open spec fn firsts_of_physical(s: Seq<LogicalCore>) -> Seq<LogicalCore>
    decreases s.len(),
{
    if s.len() == 0 {
        Seq::empty()
    } else {
        let r = firsts_of_physical(s.drop_last());
        if contains_physical(s.drop_last(), s.last().physical_id as int) {
            r
        } else {
            r.push(s.last())
        }
    }
}

/// The remaining SMT siblings: every core whose physical core appeared
/// earlier, in order of appearance.
pub open spec fn smt_siblings(s: Seq<LogicalCore>) -> Seq<LogicalCore>
    decreases s.len(),
{
    if s.len() == 0 {
        Seq::empty()
    } else {
        let r = smt_siblings(s.drop_last());
        if contains_physical(s.drop_last(), s.last().physical_id as int) {
            r.push(s.last())
        } else {
            r
        }
    }
}

fn vec_contains_physical(v: &Vec<LogicalCore>, p: usize) -> (r: bool)
    ensures
        r == contains_physical(v@, p as int),
{
    let mut k: usize = 0;
    while k < v.len()
        invariant
            0 <= k <= v@.len(),
            forall|j: int| 0 <= j < k ==> v@[j].physical_id != p as int,
        decreases v@.len() - k,
    {
        if v[k].physical_id == p {
            return true;
        }
        k = k + 1;
    }
    false
}

/// Some core of the sequence carries the given group id.
pub open spec fn contains_gid(s: Seq<LogicalCore>, gid: u32) -> bool {
    exists|k: int| 0 <= k < s.len() && #[trigger] s[k].group_id == gid
}

/// The distinct group ids, in order of first appearance.
pub open spec fn group_keys(s: Seq<LogicalCore>) -> Seq<u32>
    decreases s.len(),
{
    if s.len() == 0 {
        Seq::empty()
    } else {
        let r = group_keys(s.drop_last());
        if contains_gid(s.drop_last(), s.last().group_id) {
            r
        } else {
            r.push(s.last().group_id)
        }
    }
}

/// The ids of the cores carrying a group id, in order.
pub open spec fn ids_with_group(s: Seq<LogicalCore>, gid: u32) -> Seq<usize>
    decreases s.len(),
{
    if s.len() == 0 {
        Seq::empty()
    } else {
        let r = ids_with_group(s.drop_last(), gid);
        if s.last().group_id == gid {
            r.push(s.last().id)
        } else {
            r
        }
    }
}

/// The distinct keys hold exactly the group ids that occur.
pub proof fn lemma_group_keys_contains(s: Seq<LogicalCore>, g: u32)
    ensures
        group_keys(s).contains(g) == contains_gid(s, g),
    decreases s.len(),
{
    broadcast use vstd::seq_lib::lemma_seq_contains_after_push;

    if s.len() == 0 {
        assert(!contains_gid(s, g));
        assert(!group_keys(s).contains(g));
    } else {
        let dl = s.drop_last();
        lemma_group_keys_contains(dl, g);
        lemma_group_keys_contains(dl, s.last().group_id);
        assert(contains_gid(s, g) <==> (contains_gid(dl, g) || g == s.last().group_id)) by {
            if contains_gid(s, g) {
                let k = choose|k: int| 0 <= k < s.len() && s[k].group_id == g;
                if k < dl.len() {
                    assert(dl[k].group_id == g);
                } else {
                    assert(s[k] == s.last());
                }
            }
            if contains_gid(dl, g) {
                let k = choose|k: int| 0 <= k < dl.len() && dl[k].group_id == g;
                assert(s[k].group_id == g);
            }
            if g == s.last().group_id {
                assert(s[s.len() - 1].group_id == g);
            }
        }
    }
}

/// The representatives hold exactly the physical ids that occur.
pub proof fn lemma_firsts_contains(s: Seq<LogicalCore>, p: int)
    ensures
        contains_physical(firsts_of_physical(s), p) == contains_physical(s, p),
    decreases s.len(),
{
    if s.len() == 0 {
        assert(!contains_physical(s, p));
        assert(!contains_physical(firsts_of_physical(s), p));
    } else {
        let dl = s.drop_last();
        lemma_firsts_contains(dl, p);
        lemma_firsts_contains(dl, s.last().physical_id as int);
        assert(contains_physical(s, p) <==> (contains_physical(dl, p) || p
            == s.last().physical_id as int)) by {
            if contains_physical(s, p) {
                let k = choose|k: int| 0 <= k < s.len() && s[k].physical_id == p;
                if k < dl.len() {
                    assert(dl[k].physical_id == p);
                } else {
                    assert(s[k] == s.last());
                }
            }
            if contains_physical(dl, p) {
                let k = choose|k: int| 0 <= k < dl.len() && dl[k].physical_id == p;
                assert(s[k].physical_id == p);
            }
            if p == s.last().physical_id as int {
                assert(s[s.len() - 1].physical_id == p);
            }
        }
        let f = firsts_of_physical(s);
        let fd = firsts_of_physical(dl);
        if !contains_physical(dl, s.last().physical_id as int) {
            assert(f == fd.push(s.last()));
            assert(contains_physical(f, p) <==> (contains_physical(fd, p) || p
                == s.last().physical_id as int)) by {
                if contains_physical(f, p) {
                    let k = choose|k: int| 0 <= k < f.len() && f[k].physical_id == p;
                    if k < fd.len() {
                        assert(fd[k].physical_id == p);
                    } else {
                        assert(f[k] == s.last());
                    }
                }
                if contains_physical(fd, p) {
                    let k = choose|k: int| 0 <= k < fd.len() && fd[k].physical_id == p;
                    assert(f[k].physical_id == p);
                }
                if p == s.last().physical_id as int {
                    assert(f[f.len() - 1].physical_id == p);
                }
            }
        }
    }
}

fn vec_contains_gid(v: &Vec<u32>, gid: u32) -> (r: bool)
    ensures
        r == v@.contains(gid),
{
    let mut k: usize = 0;
    while k < v.len()
        invariant
            0 <= k <= v@.len(),
            forall|j: int| 0 <= j < k ==> v@[j] != gid,
        decreases v@.len() - k,
    {
        if v[k] == gid {
            proof {
                assert(v@[k as int] == gid);
            }
            return true;
        }
        k = k + 1;
    }
    false
}

/// Group the classified cores by shared L3 domain. The groups stand in
/// order of first appearance — with cores ascending by id, that is the
/// order of each group's smallest core id — and members keep core order.
pub fn ccd_groups_of(cores: &Vec<LogicalCore>) -> (r: Vec<Vec<usize>>)
    ensures
        r@.len() == group_keys(cores@).len(),
        forall|j: int|
            0 <= j < r@.len() ==> #[trigger] r@[j]@ == ids_with_group(
                cores@,
                group_keys(cores@)[j],
            ),
{
    // First pass: the distinct group ids in order of first appearance.
    let mut keys: Vec<u32> = Vec::new();
    let n = cores.len();
    let mut i: usize = 0;
    while i < n
        invariant
            n == cores@.len(),
            0 <= i <= n,
            keys@ == group_keys(cores@.take(i as int)),
        decreases n - i,
    {
        let ghost prefix = cores@.take(i as int);
        let ghost prefix1 = cores@.take(i + 1);
        proof {
            assert(prefix1.drop_last() =~= prefix);
        }
        let gid = cores[i].group_id;
        proof {
            lemma_group_keys_contains(prefix, gid);
        }
        if !vec_contains_gid(&keys, gid) {
            keys.push(gid);
        }
        proof {
            assert(prefix1.last() == cores@[i as int]);
            assert(keys@ == group_keys(prefix1));
        }
        i = i + 1;
    }
    proof {
        assert(cores@.take(n as int) =~= cores@);
    }
    // Second pass: collect each group's member ids in core order.
    let mut r: Vec<Vec<usize>> = Vec::new();
    let mut j: usize = 0;
    while j < keys.len()
        invariant
            n == cores@.len(),
            keys@ == group_keys(cores@),
            0 <= j <= keys@.len(),
            r@.len() == j,
            forall|jj: int|
                0 <= jj < j ==> #[trigger] r@[jj]@ == ids_with_group(cores@, keys@[jj]),
        decreases keys@.len() - j,
    {
        let gid = keys[j];
        let mut members: Vec<usize> = Vec::new();
        proof {
            assert(cores@.take(0int).len() == 0);
            assert(members@ =~= ids_with_group(cores@.take(0int), gid));
        }
        let mut i2: usize = 0;
        while i2 < n
            invariant
                n == cores@.len(),
                0 <= i2 <= n,
                members@ == ids_with_group(cores@.take(i2 as int), gid),
            decreases n - i2,
        {
            proof {
                assert(cores@.take(i2 + 1).drop_last() =~= cores@.take(i2 as int));
            }
            if cores[i2].group_id == gid {
                members.push(cores[i2].id);
            }
            i2 = i2 + 1;
        }
        proof {
            assert(cores@.take(n as int) =~= cores@);
        }
        r.push(members);
        j = j + 1;
    }
    r
}

/// The hardware topology: every classified logical processor, grouped by
/// physical core count and shared-L3 domain.
#[derive(Debug, Clone)]
pub struct CpuTopology {
    pub vendor: CpuVendor,
    pub model: String,
    pub physical_cores: u32,
    pub logical_cores: u32,
    pub cores: Vec<LogicalCore>,
    pub is_hybrid: bool,
    pub has_vcache: bool,
    pub ccd_groups: Vec<Vec<usize>>,
}

/// Some core of the sequence has the given class.
pub open spec fn has_core_type(s: Seq<LogicalCore>, t: CoreType) -> bool {
    exists|k: int| 0 <= k < s.len() && #[trigger] s[k].core_type == t
}

fn vec_has_core_type(v: &Vec<LogicalCore>, t: CoreType) -> (r: bool)
    ensures
        r == has_core_type(v@, t),
{
    let mut k: usize = 0;
    while k < v.len()
        invariant
            0 <= k <= v@.len(),
            forall|j: int| 0 <= j < k ==> v@[j].core_type != t,
        decreases v@.len() - k,
    {
        if v[k].core_type == t {
            return true;
        }
        k = k + 1;
    }
    false
}

impl CpuTopology {
    /// Assemble the topology from classified cores. The physical-core
    /// count is the number of distinct physical ids; a part is hybrid when
    /// an Efficiency core exists and carries V-Cache when a VCache core
    /// does.
    pub fn from_cores(cores: Vec<LogicalCore>, vendor: CpuVendor, model: String) -> (r: CpuTopology)
        requires
            cores@.len() <= u32::MAX,
        ensures
            r.vendor == vendor,
            r.model == model,
            r.cores == cores,
            r.logical_cores == cores@.len(),
            r.physical_cores == firsts_of_physical(cores@).len(),
            r.is_hybrid == has_core_type(cores@, CoreType::Efficiency),
            r.has_vcache == has_core_type(cores@, CoreType::VCache),
            r.ccd_groups@.len() == group_keys(cores@).len(),
            forall|j: int|
                0 <= j < r.ccd_groups@.len() ==> #[trigger] r.ccd_groups@[j]@ == ids_with_group(
                    cores@,
                    group_keys(cores@)[j],
                ),
    {
        let (physical, _rest) = grouped_cores(&cores);
        let ccd_groups = ccd_groups_of(&cores);
        let is_hybrid = vec_has_core_type(&cores, CoreType::Efficiency);
        let has_vcache = vec_has_core_type(&cores, CoreType::VCache);
        let logical_cores = cores.len() as u32;
        let physical_cores = physical.len() as u32;
        proof {
            lemma_firsts_len(cores@);
        }
        CpuTopology {
            vendor,
            model,
            physical_cores,
            logical_cores,
            cores,
            is_hybrid,
            has_vcache,
            ccd_groups,
        }
    }

    /// Partition the cores into one representative per physical core and
    /// the remaining SMT siblings, each in order of appearance.
    pub fn get_grouped_cores(&self) -> (r: (Vec<LogicalCore>, Vec<LogicalCore>))
        ensures
            r.0@ == firsts_of_physical(self.cores@),
            r.1@ == smt_siblings(self.cores@),
            r.0@.len() + r.1@.len() == self.cores@.len(),
    {
        grouped_cores(&self.cores)
    }

    /// The mask naming every classified core, used to reset a process to
    /// the default affinity.
    pub fn all_cores_mask(&self) -> (r: u64)
        ensures
            r == spec_all_cores_mask(self.cores@),
    {
        let mut r: u64 = 0;
        let mut k: usize = 0;
        while k < self.cores.len()
            invariant
                0 <= k <= self.cores@.len(),
                r == spec_all_cores_mask(self.cores@.take(k as int)),
            decreases self.cores@.len() - k,
        {
            proof {
                assert(self.cores@.take(k + 1).drop_last() =~= self.cores@.take(k as int));
            }
            let c = &self.cores[k];
            if c.id < 64 {
                r = r | (1u64 << (c.id as u64));
            }
            k = k + 1;
        }
        proof {
            assert(self.cores@.take(self.cores@.len() as int) =~= self.cores@);
        }
        r
    }

    /// The mask of cores of one class.
    pub fn mask_of_type(&self, t: CoreType) -> (r: u64)
        ensures
            r == spec_mask_of_type(self.cores@, t),
    {
        let mut r: u64 = 0;
        let mut k: usize = 0;
        while k < self.cores.len()
            invariant
                0 <= k <= self.cores@.len(),
                r == spec_mask_of_type(self.cores@.take(k as int), t),
            decreases self.cores@.len() - k,
        {
            proof {
                assert(self.cores@.take(k + 1).drop_last() =~= self.cores@.take(k as int));
            }
            let c = &self.cores[k];
            if c.core_type == t && c.id < 64 {
                r = r | (1u64 << (c.id as u64));
            }
            k = k + 1;
        }
        proof {
            assert(self.cores@.take(self.cores@.len() as int) =~= self.cores@);
        }
        r
    }
}

/// The union mask of all cores (ids of 64 and above do not fit and are
/// left out).
pub open spec fn spec_all_cores_mask(s: Seq<LogicalCore>) -> u64
    decreases s.len(),
{
    if s.len() == 0 {
        0u64
    } else {
        let r = spec_all_cores_mask(s.drop_last());
        if s.last().id < 64 {
            r | (1u64 << (s.last().id as u64))
        } else {
            r
        }
    }
}

/// The union mask of the cores of one class (ids of 64 and above do not
/// fit and are left out).
pub open spec fn spec_mask_of_type(s: Seq<LogicalCore>, t: CoreType) -> u64
    decreases s.len(),
{
    if s.len() == 0 {
        0u64
    } else {
        let r = spec_mask_of_type(s.drop_last(), t);
        if s.last().core_type == t && s.last().id < 64 {
            r | (1u64 << (s.last().id as u64))
        } else {
            r
        }
    }
}

/// The representatives and siblings together cover every core once.
pub proof fn lemma_firsts_len(s: Seq<LogicalCore>)
    ensures
        firsts_of_physical(s).len() + smt_siblings(s).len() == s.len(),
    decreases s.len(),
{
    if s.len() > 0 {
        lemma_firsts_len(s.drop_last());
    }
}

fn grouped_cores(cores: &Vec<LogicalCore>) -> (r: (Vec<LogicalCore>, Vec<LogicalCore>))
    ensures
        r.0@ == firsts_of_physical(cores@),
        r.1@ == smt_siblings(cores@),
        r.0@.len() + r.1@.len() == cores@.len(),
{
    let mut physical: Vec<LogicalCore> = Vec::new();
    let mut smt: Vec<LogicalCore> = Vec::new();
    let n = cores.len();
    let mut i: usize = 0;
    while i < n
        invariant
            n == cores@.len(),
            0 <= i <= n,
            physical@ == firsts_of_physical(cores@.take(i as int)),
            smt@ == smt_siblings(cores@.take(i as int)),
        decreases n - i,
    {
        let ghost prefix = cores@.take(i as int);
        let ghost prefix1 = cores@.take(i + 1);
        proof {
            assert(prefix1.drop_last() =~= prefix);
        }
        let core = cores[i];
        proof {
            lemma_firsts_contains(prefix, core.physical_id as int);
        }
        if vec_contains_physical(&physical, core.physical_id) {
            smt.push(core);
        } else {
            physical.push(core);
        }
        proof {
            assert(prefix1.last() == cores@[i as int]);
            assert(physical@ == firsts_of_physical(prefix1));
            assert(smt@ == smt_siblings(prefix1));
        }
        i = i + 1;
    }
    proof {
        assert(cores@.take(n as int) =~= cores@);
        lemma_firsts_len(cores@);
    }
    (physical, smt)
}

/// The model string mentions the keyword, ignoring ASCII case.
pub open spec fn model_has(m: Seq<u8>, kw: Seq<u8>) -> bool {
    crate::text::contains_bytes(crate::text::lower_of(m), crate::text::lower_of(kw))
}

/// The P-core / E-core counts that a known Intel hybrid model name implies.
pub open spec fn spec_intel_hybrid(m: Seq<u8>) -> Option<(u32, u32)> {
    if model_has(m, "14900hx".spec_bytes()) { Some((8u32, 16u32)) }
    else if model_has(m, "14900".spec_bytes()) { Some((8u32, 16u32)) }
    else if model_has(m, "14700hx".spec_bytes()) { Some((8u32, 12u32)) }
    else if model_has(m, "14700".spec_bytes()) { Some((8u32, 12u32)) }
    else if model_has(m, "14600hx".spec_bytes()) { Some((6u32, 8u32)) }
    else if model_has(m, "14600".spec_bytes()) { Some((6u32, 8u32)) }
    else if model_has(m, "13980hx".spec_bytes()) || model_has(m, "13950hx".spec_bytes()) { Some((8u32, 16u32)) }
    else if model_has(m, "13900hx".spec_bytes()) { Some((8u32, 16u32)) }
    else if model_has(m, "13900hk".spec_bytes()) || model_has(m, "13900h".spec_bytes()) { Some((6u32, 8u32)) }
    else if model_has(m, "13900".spec_bytes()) { Some((8u32, 16u32)) }
    else if model_has(m, "13700hx".spec_bytes()) { Some((8u32, 8u32)) }
    else if model_has(m, "13700h".spec_bytes()) { Some((6u32, 8u32)) }
    else if model_has(m, "13700".spec_bytes()) { Some((8u32, 8u32)) }
    else if model_has(m, "13650hx".spec_bytes()) || model_has(m, "13600hx".spec_bytes()) { Some((6u32, 8u32)) }
    else if model_has(m, "13600h".spec_bytes()) { Some((4u32, 8u32)) }
    else if model_has(m, "13600".spec_bytes()) { Some((6u32, 8u32)) }
    else if model_has(m, "13500hx".spec_bytes()) { Some((6u32, 8u32)) }
    else if model_has(m, "13500h".spec_bytes()) { Some((4u32, 8u32)) }
    else if model_has(m, "13400".spec_bytes()) { Some((6u32, 4u32)) }
    else if model_has(m, "12900hx".spec_bytes()) { Some((8u32, 8u32)) }
    else if model_has(m, "12900hk".spec_bytes()) || model_has(m, "12900h".spec_bytes()) { Some((6u32, 8u32)) }
    else if model_has(m, "12900".spec_bytes()) { Some((8u32, 8u32)) }
    else if model_has(m, "12800h".spec_bytes()) { Some((6u32, 8u32)) }
    else if model_has(m, "12700h".spec_bytes()) { Some((6u32, 8u32)) }
    else if model_has(m, "12700".spec_bytes()) { Some((8u32, 4u32)) }
    else if model_has(m, "12650h".spec_bytes()) { Some((6u32, 4u32)) }
    else if model_has(m, "12600k".spec_bytes()) { Some((6u32, 4u32)) }
    else if model_has(m, "12400".spec_bytes()) { Some((6u32, 0u32)) }
    else { None }
}

/// Look up the P-core / E-core split that a known Intel hybrid model name
/// implies; `None` asks the caller to fall back to dynamic detection.
pub fn detect_intel_hybrid(model: &str) -> (r: Option<(u32, u32)>)
    ensures
        r == spec_intel_hybrid(model.spec_bytes()),
{
    if crate::text::contains_ignore_case(model, "14900hx") { Some((8, 16)) }
    else if crate::text::contains_ignore_case(model, "14900") { Some((8, 16)) }
    else if crate::text::contains_ignore_case(model, "14700hx") { Some((8, 12)) }
    else if crate::text::contains_ignore_case(model, "14700") { Some((8, 12)) }
    else if crate::text::contains_ignore_case(model, "14600hx") { Some((6, 8)) }
    else if crate::text::contains_ignore_case(model, "14600") { Some((6, 8)) }
    else if crate::text::contains_ignore_case(model, "13980hx")
        || crate::text::contains_ignore_case(model, "13950hx") { Some((8, 16)) }
    else if crate::text::contains_ignore_case(model, "13900hx") { Some((8, 16)) }
    else if crate::text::contains_ignore_case(model, "13900hk")
        || crate::text::contains_ignore_case(model, "13900h") { Some((6, 8)) }
    else if crate::text::contains_ignore_case(model, "13900") { Some((8, 16)) }
    else if crate::text::contains_ignore_case(model, "13700hx") { Some((8, 8)) }
    else if crate::text::contains_ignore_case(model, "13700h") { Some((6, 8)) }
    else if crate::text::contains_ignore_case(model, "13700") { Some((8, 8)) }
    else if crate::text::contains_ignore_case(model, "13650hx")
        || crate::text::contains_ignore_case(model, "13600hx") { Some((6, 8)) }
    else if crate::text::contains_ignore_case(model, "13600h") { Some((4, 8)) }
    else if crate::text::contains_ignore_case(model, "13600") { Some((6, 8)) }
    else if crate::text::contains_ignore_case(model, "13500hx") { Some((6, 8)) }
    else if crate::text::contains_ignore_case(model, "13500h") { Some((4, 8)) }
    else if crate::text::contains_ignore_case(model, "13400") { Some((6, 4)) }
    else if crate::text::contains_ignore_case(model, "12900hx") { Some((8, 8)) }
    else if crate::text::contains_ignore_case(model, "12900hk")
        || crate::text::contains_ignore_case(model, "12900h") { Some((6, 8)) }
    else if crate::text::contains_ignore_case(model, "12900") { Some((8, 8)) }
    else if crate::text::contains_ignore_case(model, "12800h") { Some((6, 8)) }
    else if crate::text::contains_ignore_case(model, "12700h") { Some((6, 8)) }
    else if crate::text::contains_ignore_case(model, "12700") { Some((8, 4)) }
    else if crate::text::contains_ignore_case(model, "12650h") { Some((6, 4)) }
    else if crate::text::contains_ignore_case(model, "12600k") { Some((6, 4)) }
    else if crate::text::contains_ignore_case(model, "12400") { Some((6, 0)) }
    else { None }
}

/// The CCD count that a known AMD model name or the core count implies.
pub open spec fn spec_amd_ccds(m: Seq<u8>, logical_cores: u32) -> Option<u32> {
    if model_has(m, "5900".spec_bytes()) || model_has(m, "5950".spec_bytes())
        || model_has(m, "7900".spec_bytes()) || model_has(m, "7950".spec_bytes())
        || model_has(m, "9900".spec_bytes()) || model_has(m, "9950".spec_bytes()) {
        Some(2u32)
    } else if model_has(m, "5600".spec_bytes()) || model_has(m, "5700".spec_bytes())
        || model_has(m, "5800".spec_bytes()) || model_has(m, "7600".spec_bytes())
        || model_has(m, "7700".spec_bytes()) || model_has(m, "7800".spec_bytes())
        || model_has(m, "9600".spec_bytes()) || model_has(m, "9700".spec_bytes())
        || model_has(m, "9800".spec_bytes()) {
        Some(1u32)
    } else if logical_cores >= 24 {
        Some(2u32)
    } else if logical_cores >= 6 {
        Some(1u32)
    } else {
        None
    }
}

/// How many CCDs a known AMD model name implies, falling back to a guess
/// from the logical core count.
pub fn detect_amd_ccds(model: &str, logical_cores: u32) -> (r: Option<u32>)
    ensures
        r == spec_amd_ccds(model.spec_bytes(), logical_cores),
{
    if crate::text::contains_ignore_case(model, "5900")
        || crate::text::contains_ignore_case(model, "5950")
        || crate::text::contains_ignore_case(model, "7900")
        || crate::text::contains_ignore_case(model, "7950")
        || crate::text::contains_ignore_case(model, "9900")
        || crate::text::contains_ignore_case(model, "9950") {
        Some(2)
    } else if crate::text::contains_ignore_case(model, "5600")
        || crate::text::contains_ignore_case(model, "5700")
        || crate::text::contains_ignore_case(model, "5800")
        || crate::text::contains_ignore_case(model, "7600")
        || crate::text::contains_ignore_case(model, "7700")
        || crate::text::contains_ignore_case(model, "7800")
        || crate::text::contains_ignore_case(model, "9600")
        || crate::text::contains_ignore_case(model, "9700")
        || crate::text::contains_ignore_case(model, "9800") {
        Some(1)
    } else if logical_cores >= 24 {
        Some(2)
    } else if logical_cores >= 6 {
        Some(1)
    } else {
        None
    }
}

/// The CPU model string cleaned for display: trademark markers removed,
/// the `CPU` filler dropped, anything from an `@` frequency suffix cut
/// off, and whitespace trimmed.
pub open spec fn spec_clean_model(s: Seq<char>) -> Seq<char> {
    let a = crate::text::replaced(s, "(R)"@, ""@);
    let b = crate::text::replaced(a, "(TM)"@, ""@);
    let c = crate::text::replaced(b, " CPU "@, " "@);
    let d = match crate::text::find_from(c, '@', 0) {
        Some(k) => c.subrange(0, k),
        None => c,
    };
    crate::text::trimmed_ws(d)
}

/// Clean a raw CPU brand string for display.
pub fn clean_cpu_model(model: &str) -> (r: String)
    ensures
        r@ == spec_clean_model(model@),
{
    let a = crate::text::replace_all(model, "(R)", "");
    let b = crate::text::replace_all(a.as_str(), "(TM)", "");
    let c = crate::text::replace_all(b.as_str(), " CPU ", " ");
    let cut = match crate::text::find_char_from(c.as_str(), '@', 0) {
        Some(k) => c.as_str().substring_char(0, k),
        None => c.as_str(),
    };
    crate::text::trim_ws(cut).to_owned()
}

} // verus!
