//! Topology detection: physical core count and logical thread count.
//!
//! Strategies in priority order: extended-topology enumeration (the newer
//! leaf first, then the older one), vendor-specific legacy fallbacks, and a
//! one-core last resort. A platform-native enumeration, where the host
//! offers one, is handled separately as a sequence of typed entries.
//!
//! Layout of one extended-topology result: bits 4..0 of the first word are
//! the level shift (zero signals the last level), bits 15..0 of the second
//! word the cumulative logical-processor count at this level, bits 15..8 of
//! the third word the level type (1 = thread grouping, 2 = core grouping).

use vstd::prelude::*;

use crate::arith::{cap_usize, sat_add_usize, sat_u64_to_usize};
use crate::identity::Vendor;
use crate::query::{CpuidProbe, Leaf, ProbeView};

verus! {

pub open spec fn topo_shift(e: Leaf) -> u32 {
    e.eax & 0x1F
}

pub open spec fn topo_level_count(e: Leaf) -> u32 {
    e.ebx & 0xFFFF
}

pub open spec fn topo_level_type(e: Leaf) -> u32 {
    (e.ecx >> 8) & 0xFF
}

/// One pass over consecutive extended-topology results, threading the
/// thread-level and core-level counts. The scan stops at a level whose
/// count is zero, after a level whose shift is zero, or at the end.
pub open spec fn scan_spec(s: Seq<Leaf>, smt: u32, logical: u32) -> (u32, u32)
    decreases s.len(),
{
    if s.len() == 0 {
        (smt, logical)
    } else {
        let e = s[0];
        if topo_level_count(e) == 0 {
            (smt, logical)
        } else {
            let smt2 = if topo_level_type(e) == 1 {
                topo_level_count(e)
            } else {
                smt
            };
            let log2 = if topo_level_type(e) == 2 {
                topo_level_count(e)
            } else {
                logical
            };
            if topo_shift(e) == 0 {
                (smt2, log2)
            } else {
                scan_spec(s.drop_first(), smt2, log2)
            }
        }
    }
}

/// The thread-level and core-level counts after both extended-topology
/// leaves were given their chance: the newer leaf runs when the basic range
/// reaches it, the older one only when the newer yielded no core-level
/// count.
pub open spec fn extended_pair(p: ProbeView) -> (u32, u32) {
    let first = if p.max_basic >= 0x1F {
        scan_spec(p.topo_new, 0, 0)
    } else {
        (0, 0)
    };
    if first.1 != 0 {
        first
    } else if p.max_basic >= 0x0B {
        scan_spec(p.topo_old, first.0, first.1)
    } else {
        first
    }
}

/// The extended-topology strategy: physical cores are the core-level count
/// divided by the thread-level count (at least one), and it applies exactly
/// when some enumeration step reported a nonzero core-level count.
pub open spec fn extended_topology(p: ProbeView) -> Option<(u32, u32)> {
    let (smt, logical) = extended_pair(p);
    if logical != 0 {
        let smt_eff = if smt >= 1 {
            smt
        } else {
            1
        };
        let phys0 = logical / smt_eff;
        let phys = if phys0 >= 1 {
            phys0
        } else {
            1
        };
        Some((phys, logical))
    } else {
        None
    }
}

/// Legacy fallback on an AMD host: logical processors per package from the
/// second word of query(1, 0), physical cores from the low byte of the
/// third word of query(0x8000_0008, 0) plus one; threads are clamped to at
/// least the core count.
pub open spec fn amd_pair(p: ProbeView) -> (u32, u32) {
    let lpp = (p.leaf1.ebx >> 16) & 0xFF;
    let phys = ((p.ext8.ecx & 0xFF) + 1) as u32;
    (phys, if lpp >= phys {
        lpp
    } else {
        phys
    })
}

/// The maximum "cores per package minus one" field over consecutive legacy
/// deterministic-cache results, scanned until a result of cache type zero.
pub open spec fn max_cores_scan(s: Seq<Leaf>, m: u32) -> u32
    decreases s.len(),
{
    if s.len() == 0 {
        m
    } else if s[0].eax & 0x1F == 0 {
        m
    } else {
        let c = (s[0].eax >> 26) & 0x3F;
        max_cores_scan(s.drop_first(), if c > m {
            c
        } else {
            m
        })
    }
}

/// Legacy fallback on an Intel host: physical cores from the legacy
/// deterministic-cache leaf, threads from the logical-processor count of
/// query(1, 0), clamped to at least the core count.
pub open spec fn intel_pair(p: ProbeView) -> (u32, u32) {
    let phys0 = (max_cores_scan(p.cache_legacy, 0) + 1) as u32;
    let phys = if phys0 >= 1 {
        phys0
    } else {
        1u32
    };
    let lpp = (p.leaf1.ebx >> 16) & 0xFF;
    (phys, if lpp >= phys {
        lpp
    } else {
        phys
    })
}

/// Last resort: one physical core; logical threads from query(1, 0) when
/// that field is nonzero, else one.
pub open spec fn fallback_pair(p: ProbeView) -> (u32, u32) {
    let lpp = (p.leaf1.ebx >> 16) & 0xFF;
    (1, if lpp != 0 {
        lpp
    } else {
        1
    })
}

/// What the layered detector yields: the extended enumeration where it
/// reports anything, else the fallback the recognized vendor allows,
/// else the one-core last resort.
pub open spec fn topology_spec(p: ProbeView, vendor: Vendor) -> (u32, u32) {
    match extended_topology(p) {
        Some(pair) => pair,
        None => {
            if p.max_ext >= 0x8000_0008 && vendor == Vendor::Amd {
                amd_pair(p)
            } else if p.max_basic >= 4 && vendor == Vendor::Intel {
                intel_pair(p)
            } else {
                fallback_pair(p)
            }
        },
    }
}

/// Runs one extended-topology scan over gathered sub-index results.
fn scan_topo_entries(entries: &Vec<Leaf>, smt0: u32, logical0: u32) -> (r: (u32, u32))
    ensures
        r == scan_spec(entries@, smt0, logical0),
{
    let n: usize = entries.len();
    let mut i: usize = 0;
    let mut smt: u32 = smt0;
    let mut logical: u32 = logical0;
    proof {
        assert(entries@.subrange(0, n as int) =~= entries@);
    }
    while i < n
        invariant
            0 <= i <= n,
            n == entries@.len(),
            scan_spec(entries@, smt0, logical0) == scan_spec(
                entries@.subrange(i as int, n as int),
                smt,
                logical,
            ),
        decreases n - i,
    {
        let ghost suffix = entries@.subrange(i as int, n as int);
        let e = entries[i];
        proof {
            assert(suffix[0] == e);
            assert(suffix.drop_first() =~= entries@.subrange(i + 1int, n as int));
        }
        let count: u32 = e.ebx & 0xFFFF;
        if count == 0 {
            return (smt, logical);
        }
        let level_type: u32 = (e.ecx >> 8) & 0xFF;
        if level_type == 1 {
            smt = count;
        }
        if level_type == 2 {
            logical = count;
        }
        if e.eax & 0x1F == 0 {
            return (smt, logical);
        }
        i = i + 1;
    }
    (smt, logical)
}

/// Finds the maximum "cores per package minus one" field over gathered
/// legacy deterministic-cache results.
fn scan_max_cores(entries: &Vec<Leaf>) -> (r: u32)
    ensures
        r == max_cores_scan(entries@, 0),
        r <= 0x3F,
{
    let n: usize = entries.len();
    let mut i: usize = 0;
    let mut m: u32 = 0;
    proof {
        assert(entries@.subrange(0, n as int) =~= entries@);
    }
    while i < n
        invariant
            0 <= i <= n,
            n == entries@.len(),
            m <= 0x3F,
            max_cores_scan(entries@, 0) == max_cores_scan(
                entries@.subrange(i as int, n as int),
                m,
            ),
        decreases n - i,
    {
        let ghost suffix = entries@.subrange(i as int, n as int);
        let e = &entries[i];
        proof {
            assert(suffix[0] == entries@[i as int]);
            assert(suffix.drop_first() =~= entries@.subrange(i + 1int, n as int));
        }
        if e.eax & 0x1F == 0 {
            proof {
                lemma_max_cores_scan_bound(suffix, m);
            }
            return m;
        }
        let c: u32 = (e.eax >> 26) & 0x3F;
        proof {
            let w = entries@[i as int].eax;
            assert((w >> 26) & 0x3F <= 0x3F) by (bit_vector);
        }
        if c > m {
            m = c;
        }
        i = i + 1;
    }
    m
}

/// Detects physical cores and logical threads from the gathered query
/// results: the extended enumeration first, then the vendor fallbacks, then
/// the one-core last resort. Whatever the host offered, at least one core
/// and at least as many threads as cores are reported.
pub fn detect_topology(p: &CpuidProbe, vendor: Vendor) -> (r: (u32, u32))
    ensures
        r == topology_spec(p@, vendor),
        1 <= r.0 <= r.1,
{
    proof {
        lemma_topology_in_range(p@, vendor);
    }
    let first = if p.max_basic >= 0x1F {
        scan_topo_entries(&p.topo_new, 0, 0)
    } else {
        (0, 0)
    };
    let (smt, logical) = if first.1 != 0 {
        first
    } else if p.max_basic >= 0x0B {
        scan_topo_entries(&p.topo_old, first.0, first.1)
    } else {
        first
    };
    if logical != 0 {
        let smt_eff: u32 = if smt >= 1 {
            smt
        } else {
            1
        };
        let phys0: u32 = logical / smt_eff;
        let phys: u32 = if phys0 >= 1 {
            phys0
        } else {
            1
        };
        return (phys, logical);
    }
    if p.max_ext >= 0x8000_0008 && vendor == Vendor::Amd {
        let lpp: u32 = (p.leaf1.ebx >> 16) & 0xFF;
        let low: u32 = p.ext8.ecx & 0xFF;
        proof {
            let w = p@.ext8.ecx;
            assert(w & 0xFF < 0x100) by (bit_vector);
        }
        let phys: u32 = low + 1;
        return (phys, if lpp >= phys {
            lpp
        } else {
            phys
        });
    }
    if p.max_basic >= 4 && vendor == Vendor::Intel {
        let m: u32 = scan_max_cores(&p.cache_legacy);
        let phys0: u32 = m + 1;
        let phys: u32 = if phys0 >= 1 {
            phys0
        } else {
            1
        };
        let lpp: u32 = (p.leaf1.ebx >> 16) & 0xFF;
        return (phys, if lpp >= phys {
            lpp
        } else {
            phys
        });
    }
    let lpp: u32 = (p.leaf1.ebx >> 16) & 0xFF;
    (1, if lpp != 0 {
        lpp
    } else {
        1
    })
}

/// The running maximum stays below the width of its six-bit field.
proof fn lemma_max_cores_scan_bound(s: Seq<Leaf>, m: u32)
    requires
        m <= 0x3F,
    ensures
        max_cores_scan(s, m) <= 0x3F,
    decreases s.len(),
{
    if s.len() == 0 {
    } else if s[0].eax & 0x1F == 0 {
    } else {
        let e0 = s[0].eax;
        assert((e0 >> 26) & 0x3F <= 0x3F) by (bit_vector);
        let c = (e0 >> 26) & 0x3F;
        lemma_max_cores_scan_bound(s.drop_first(), if c > m {
            c
        } else {
            m
        });
    }
}

/// Topology monotonicity: whatever strategy fires, the detector reports at
/// least one physical core and at least as many logical threads as cores.
pub proof fn lemma_topology_in_range(p: ProbeView, vendor: Vendor)
    ensures
        1 <= topology_spec(p, vendor).0,
        topology_spec(p, vendor).0 <= topology_spec(p, vendor).1,
{
    lemma_extended_monotonic(p);
    match extended_topology(p) {
        Some(pair) => {},
        None => {
            if p.max_ext >= 0x8000_0008 && vendor == Vendor::Amd {
                let w = p.ext8.ecx;
                assert(w & 0xFF < 0x100) by (bit_vector);
            } else if p.max_basic >= 4 && vendor == Vendor::Intel {
                lemma_max_cores_scan_bound(p.cache_legacy, 0);
            } else {
            }
        },
    }
}

/// Extended-topology monotonicity: whenever the enumeration reports a
/// nonzero core-level count, physical cores and logical threads are both at
/// least one and cores never exceed threads.
pub proof fn lemma_extended_monotonic(p: ProbeView)
    ensures
        match extended_topology(p) {
            Some(pair) => 1 <= pair.0 <= pair.1,
            None => true,
        },
{
    let (smt, logical) = extended_pair(p);
    if logical != 0 {
        let smt_eff = if smt >= 1 {
            smt
        } else {
            1u32
        };
        assert(logical / smt_eff <= logical) by (nonlinear_arith)
            requires
                smt_eff >= 1,
        ;
    }
}

/// Graceful degradation: a host that exposes neither the leaves the vendor
/// fallbacks need nor any extended-topology enumeration still yields one
/// physical core and at least one logical thread, never zero of either.
pub proof fn lemma_graceful_degradation(p: ProbeView, vendor: Vendor)
    requires
        p.max_basic < 4,
        p.max_ext < 0x8000_0008,
    ensures
        topology_spec(p, vendor).0 == 1,
        topology_spec(p, vendor).1 >= 1,
{
}

/// The one-core last resort as an executable step.
pub fn fallback_topology(p: &CpuidProbe) -> (r: (u32, u32))
    ensures
        r == fallback_pair(p@),
        1 <= r.0 <= r.1,
{
    let lpp: u32 = (p.leaf1.ebx >> 16) & 0xFF;
    (1, if lpp != 0 {
        lpp
    } else {
        1
    })
}

/// One record of a platform-native topology enumeration: whether the entry
/// describes a processor core, and the affinity mask of its logical
/// processors.
#[derive(Clone, Copy, Debug, PartialEq, Eq, Structural)]
pub struct NativeEntry {
    pub is_core: bool,
    pub mask: u64,
}

impl View for NativeEntry {
    type V = NativeEntry;

    open spec fn view(&self) -> NativeEntry {
        *self
    }
}

impl DeepView for NativeEntry {
    type V = NativeEntry;

    open spec fn deep_view(&self) -> NativeEntry {
        *self
    }
}

/// How many bits of `n` are set.
pub open spec fn ones(n: nat) -> nat
    decreases n,
{
    if n == 0 {
        0
    } else {
        n % 2 + ones(n / 2)
    }
}

/// A number has no more set bits than its own value.
proof fn lemma_ones_le(n: nat)
    ensures
        ones(n) <= n,
    decreases n,
{
    if n > 0 {
        lemma_ones_le(n / 2);
    }
}

/// The physical cores a native enumeration reports: one per core entry.
pub open spec fn native_cores(s: Seq<NativeEntry>) -> nat
    decreases s.len(),
{
    if s.len() == 0 {
        0
    } else {
        native_cores(s.drop_last()) + if s.last().is_core {
            1nat
        } else {
            0nat
        }
    }
}

/// The logical threads a native enumeration reports: the set bits of every
/// core entry's affinity mask.
pub open spec fn native_threads(s: Seq<NativeEntry>) -> nat
    decreases s.len(),
{
    if s.len() == 0 {
        0
    } else {
        native_threads(s.drop_last()) + if s.last().is_core {
            ones(s.last().mask as nat)
        } else {
            0nat
        }
    }
}

proof fn lemma_native_cores_le_len(s: Seq<NativeEntry>)
    ensures
        native_cores(s) <= s.len(),
    decreases s.len(),
{
    if s.len() > 0 {
        lemma_native_cores_le_len(s.drop_last());
    }
}

/// Counts the set bits of an affinity mask.
fn popcount(x: u64) -> (r: u64)
    ensures
        r as nat == ones(x as nat),
{
    let mut acc: u64 = 0;
    let mut v: u64 = x;
    while v != 0
        invariant
            acc + ones(v as nat) == ones(x as nat),
        decreases v,
    {
        proof {
            lemma_ones_le(x as nat);
            assert(ones(v as nat) == (v as nat) % 2 + ones((v as nat) / 2));
            assert((v % 2) as nat == (v as nat) % 2 && (v / 2) as nat == (v as nat) / 2);
            assert(acc + (v % 2) <= ones(x as nat));
        }
        acc = acc + (v % 2);
        v = v / 2;
    }
    acc
}

/// Counts a native enumeration: one core per core entry, and the set bits
/// of each core entry's mask as threads, the tally saturating at the
/// largest `usize`.
pub fn count_native_topology(entries: &Vec<NativeEntry>) -> (r: (usize, usize))
    ensures
        r.0 as nat == native_cores(entries@),
        r.1 as nat == cap_usize(native_threads(entries@)),
{
    let n: usize = entries.len();
    let mut cores: usize = 0;
    let mut threads: usize = 0;
    let mut i: usize = 0;
    while i < n
        invariant
            0 <= i <= n,
            n == entries@.len(),
            cores as nat == native_cores(entries@.subrange(0, i as int)),
            cores <= i,
            threads as nat == cap_usize(native_threads(entries@.subrange(0, i as int))),
        decreases n - i,
    {
        let ghost prefix = entries@.subrange(0, i as int);
        let ghost next = entries@.subrange(0, i + 1int);
        proof {
            assert(next.drop_last() =~= prefix);
            assert(next.last() == entries@[i as int]);
            lemma_native_cores_le_len(prefix);
        }
        let e = entries[i];
        if e.is_core {
            cores = cores + 1;
            let pc = popcount(e.mask);
            let pc_usize = sat_u64_to_usize(pc);
            proof {
                crate::arith::lemma_cap_usize_of_cap64(ones(e.mask as nat));
                assert(crate::arith::cap64(ones(e.mask as nat)) == ones(e.mask as nat));
            }
            threads = sat_add_usize(threads, pc_usize);
            proof {
                lemma_cap_usize_add(
                    native_threads(prefix),
                    ones(entries@[i as int].mask as nat),
                );
            }
        }
        i = i + 1;
        proof {
            assert(entries@.subrange(0, i as int) == next);
        }
    }
    proof {
        assert(entries@.subrange(0, n as int) =~= entries@);
    }
    (cores, threads)
}

/// What a native enumeration resolves to: its core count and clamped
/// thread tally where it reports at least one processor core, else the
/// one-core last resort — an absent or coreless enumeration is recoverable,
/// never a zero-core result.
pub open spec fn native_pair(p: ProbeView, topology: Option<Seq<NativeEntry>>) -> (nat, nat) {
    match topology {
        Some(entries) => {
            let cores = native_cores(entries);
            if cores == 0 {
                (fallback_pair(p).0 as nat, fallback_pair(p).1 as nat)
            } else {
                let counted = cap_usize(native_threads(entries));
                (cores, if counted >= cores {
                    counted
                } else {
                    cores
                })
            }
        },
        None => (fallback_pair(p).0 as nat, fallback_pair(p).1 as nat),
    }
}

/// Graceful degradation on the native path: whatever the enumeration
/// yielded — nothing at all, no core entry, or any mix of entries — the
/// resolved topology has at least one core and at least as many threads as
/// cores.
pub proof fn lemma_native_graceful_degradation(p: ProbeView, topology: Option<Seq<NativeEntry>>)
    ensures
        1 <= native_pair(p, topology).0,
        native_pair(p, topology).0 <= native_pair(p, topology).1,
{
}

/// Capping after a capped `usize` addition caps the exact sum.
proof fn lemma_cap_usize_add(a: nat, b: nat)
    ensures
        cap_usize(cap_usize(a) + cap_usize(b)) == cap_usize(a + b),
{
}

} // verus!
