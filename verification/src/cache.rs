//! Cache size aggregation from deterministic cache parameters.
//!
//! Layout of one deterministic-cache result: bits 4..0 of the first word are
//! the cache type (0 = no more caches, 1 = data, 2 = instruction,
//! 3 = unified), bits 7..5 the level, bits 25..14 the maximum number of
//! logical processors sharing the cache minus one; the second word holds the
//! line size (bits 11..0), the physical-line partitions (bits 21..12) and
//! the ways of associativity (bits 31..22), each minus one; the third word
//! holds the set count minus one. One cache's byte size is
//! ways x partitions x line size x sets.
//!
//! Aggregation: data and instruction caches at level 1 sum into L1, unified
//! caches at level 2 into L2, unified caches at level 3 into L3 scaled by
//! the number of distinct cache instances (total logical threads divided by
//! the sharing field plus one). L1 and L2 are reported per core and so are
//! multiplied by the physical core count; L3 is already instance-aggregated.
//! Every other type/level combination is ignored. All sums saturate.

use vstd::prelude::*;

use crate::arith::{
    cap64, cap_usize, lemma_cap64_add, lemma_cap64_mul, lemma_cap_usize_of_cap64, sat_add_u64,
    sat_mul_u64, sat_u64_to_usize,
};
use crate::query::{CpuidProbe, Leaf, ProbeView};

verus! {

pub open spec fn cache_type(e: Leaf) -> u32 {
    e.eax & 0x1F
}

pub open spec fn cache_level(e: Leaf) -> u32 {
    (e.eax >> 5) & 0x7
}

pub open spec fn cache_line_size(e: Leaf) -> nat {
    ((e.ebx & 0xFFF) + 1) as nat
}

pub open spec fn cache_partitions(e: Leaf) -> nat {
    (((e.ebx >> 12) & 0x3FF) + 1) as nat
}

pub open spec fn cache_ways(e: Leaf) -> nat {
    (((e.ebx >> 22) & 0x3FF) + 1) as nat
}

pub open spec fn cache_sets(e: Leaf) -> nat {
    (e.ecx + 1) as nat
}

pub open spec fn cache_share_field(e: Leaf) -> u32 {
    (e.eax >> 14) & 0xFFF
}

/// One cache's byte size from its geometry.
pub open spec fn entry_size(e: Leaf) -> nat {
    cache_ways(e) * cache_partitions(e) * cache_line_size(e) * cache_sets(e)
}

/// How many distinct instances of this cache the package holds: the total
/// logical threads (taken modulo 2^32, the width the sharing field is
/// compared at) divided by the sharing field plus one; one where no thread
/// total is available.
pub open spec fn shared_groups(e: Leaf, threads_shared: nat) -> nat {
    if threads_shared > 0 {
        (threads_shared % 0x1_0000_0000) / ((cache_share_field(e) + 1) as nat)
    } else {
        1
    }
}

/// Sum of level-1 data and instruction cache sizes over consecutive
/// results, up to the first result of cache type zero.
pub open spec fn l1_bytes(s: Seq<Leaf>) -> nat
    decreases s.len(),
{
    if s.len() == 0 {
        0
    } else if cache_type(s[0]) == 0 {
        0
    } else {
        (if (cache_type(s[0]) == 1 || cache_type(s[0]) == 2) && cache_level(s[0]) == 1 {
            entry_size(s[0])
        } else {
            0
        }) + l1_bytes(s.drop_first())
    }
}

/// Sum of level-2 unified cache sizes, up to the first type-zero result.
pub open spec fn l2_bytes(s: Seq<Leaf>) -> nat
    decreases s.len(),
{
    if s.len() == 0 {
        0
    } else if cache_type(s[0]) == 0 {
        0
    } else {
        (if cache_type(s[0]) == 3 && cache_level(s[0]) == 2 {
            entry_size(s[0])
        } else {
            0
        }) + l2_bytes(s.drop_first())
    }
}

/// Sum of level-3 unified cache sizes, each scaled by its instance count,
/// up to the first type-zero result.
pub open spec fn l3_bytes(s: Seq<Leaf>, threads_shared: nat) -> nat
    decreases s.len(),
{
    if s.len() == 0 {
        0
    } else if cache_type(s[0]) == 0 {
        0
    } else {
        (if cache_type(s[0]) == 3 && cache_level(s[0]) == 3 {
            entry_size(s[0]) * shared_groups(s[0], threads_shared)
        } else {
            0
        }) + l3_bytes(s.drop_first(), threads_shared)
    }
}

/// The three aggregated sizes for one sequence of deterministic-cache
/// results: L1 and L2 per-core sums multiplied by the core count, L3 the
/// instance-scaled sum, each capped at the largest `usize`.
pub open spec fn universal_totals(s: Seq<Leaf>, cores: nat, threads_shared: nat) -> (nat, nat, nat) {
    (
        cap_usize(l1_bytes(s) * cores),
        cap_usize(l2_bytes(s) * cores),
        cap_usize(l3_bytes(s, threads_shared)),
    )
}

/// Which deterministic-cache leaf the probe uses and what it yields: the
/// extended leaf with thread scaling where the extended range reaches it,
/// else the legacy leaf without a thread total.
pub open spec fn cache_totals(p: ProbeView, cores: nat, threads: nat) -> (nat, nat, nat) {
    if p.max_ext >= 0x8000_001D {
        universal_totals(p.cache_ext, cores, threads)
    } else {
        universal_totals(p.cache_legacy, cores, 0)
    }
}

/// Decodes one result's geometry into its byte size, capped at 64 bits.
fn entry_size_exec(e: &Leaf) -> (r: u64)
    ensures
        r as nat == cap64(entry_size(*e)),
{
    proof {
        let w = e.ebx;
        assert((w & 0xFFF) <= 0xFFF && ((w >> 12) & 0x3FF) <= 0x3FF && ((w >> 22) & 0x3FF)
            <= 0x3FF) by (bit_vector);
    }
    let line: u64 = ((e.ebx & 0xFFF) as u64) + 1;
    let partitions: u64 = (((e.ebx >> 12) & 0x3FF) as u64) + 1;
    let ways: u64 = (((e.ebx >> 22) & 0x3FF) as u64) + 1;
    let sets: u64 = (e.ecx as u64) + 1;
    proof {
        assert(ways * partitions <= 0x400 * 0x400) by (nonlinear_arith)
            requires
                ways <= 0x400 && partitions <= 0x400 && 0 <= ways && 0 <= partitions,
        ;
    }
    let wp: u64 = ways * partitions;
    proof {
        assert(wp * line <= 0x100000 * 0x1000) by (nonlinear_arith)
            requires
                wp <= 0x100000 && line <= 0x1000 && 0 <= wp && 0 <= line,
        ;
    }
    let wpl: u64 = wp * line;
    let r = sat_mul_u64(wpl, sets);
    proof {
        assert(entry_size(*e) == wpl * sets) by (nonlinear_arith)
            requires
                wpl == cache_ways(*e) * cache_partitions(*e) * cache_line_size(*e) && sets
                    == cache_sets(*e) && entry_size(*e) == cache_ways(*e) * cache_partitions(*e)
                    * cache_line_size(*e) * cache_sets(*e),
        ;
    }
    r
}

/// Computes how many distinct instances of this cache the package holds.
fn shared_groups_exec(e: &Leaf, threads_shared: usize) -> (r: u32)
    ensures
        r as nat == shared_groups(*e, threads_shared as nat),
{
    if threads_shared > 0 {
        let truncated: u32 = ((threads_shared as u64) % 0x1_0000_0000) as u32;
        let field: u32 = (e.eax >> 14) & 0xFFF;
        proof {
            let w = e.eax;
            assert(((w >> 14) & 0xFFF) <= 0xFFF) by (bit_vector);
        }
        truncated / (field + 1)
    } else {
        1
    }
}

/// Walks consecutive deterministic-cache results for one leaf and
/// aggregates the three level sums, stopping at the first type-zero result.
pub fn cache_size_universal(entries: &Vec<Leaf>, cores: usize, threads_shared: usize) -> (r: (
    usize,
    usize,
    usize,
))
    ensures
        r.0 as nat == universal_totals(entries@, cores as nat, threads_shared as nat).0,
        r.1 as nat == universal_totals(entries@, cores as nat, threads_shared as nat).1,
        r.2 as nat == universal_totals(entries@, cores as nat, threads_shared as nat).2,
{
    let ghost ts = threads_shared as nat;
    let n: usize = entries.len();
    let mut i: usize = 0;
    let mut acc1: u64 = 0;
    let mut acc2: u64 = 0;
    let mut acc3: u64 = 0;
    let ghost mut sum1: nat = 0nat;
    let ghost mut sum2: nat = 0nat;
    let ghost mut sum3: nat = 0nat;
    let mut stopped: bool = false;
    proof {
        assert(entries@.subrange(0, n as int) =~= entries@);
    }
    while i < n && !stopped
        invariant
            0 <= i <= n,
            n == entries@.len(),
            acc1 as nat == cap64(sum1),
            acc2 as nat == cap64(sum2),
            acc3 as nat == cap64(sum3),
            ts == threads_shared as nat,
            !stopped ==> l1_bytes(entries@) == sum1 + l1_bytes(
                entries@.subrange(i as int, n as int),
            ),
            !stopped ==> l2_bytes(entries@) == sum2 + l2_bytes(
                entries@.subrange(i as int, n as int),
            ),
            !stopped ==> l3_bytes(entries@, ts) == sum3 + l3_bytes(
                entries@.subrange(i as int, n as int),
                ts,
            ),
            stopped ==> l1_bytes(entries@) == sum1,
            stopped ==> l2_bytes(entries@) == sum2,
            stopped ==> l3_bytes(entries@, ts) == sum3,
        decreases n - i + (if stopped { 0int } else { 1int }),
    {
        let ghost suffix = entries@.subrange(i as int, n as int);
        let e = entries[i];
        proof {
            assert(suffix[0] == e);
            assert(suffix.drop_first() =~= entries@.subrange(i + 1int, n as int));
        }
        let t: u32 = e.eax & 0x1F;
        if t == 0 {
            stopped = true;
        } else {
            let level: u32 = (e.eax >> 5) & 0x7;
            let size: u64 = entry_size_exec(&e);
            if (t == 1 || t == 2) && level == 1 {
                acc1 = sat_add_u64(acc1, size);
                proof {
                    lemma_cap64_add(sum1, entry_size(entries@[i as int]));
                    sum1 = sum1 + entry_size(entries@[i as int]);
                }
            }
            if t == 3 && level == 2 {
                acc2 = sat_add_u64(acc2, size);
                proof {
                    lemma_cap64_add(sum2, entry_size(entries@[i as int]));
                    sum2 = sum2 + entry_size(entries@[i as int]);
                }
            }
            if t == 3 && level == 3 {
                let shared: u32 = shared_groups_exec(&e, threads_shared);
                let scaled: u64 = sat_mul_u64(size, shared as u64);
                proof {
                    lemma_cap64_mul(entry_size(entries@[i as int]), shared as nat);
                    assert(cap64(shared as nat) == shared as nat);
                }
                acc3 = sat_add_u64(acc3, scaled);
                proof {
                    lemma_cap64_add(
                        sum3,
                        entry_size(entries@[i as int]) * shared_groups(entries@[i as int], ts),
                    );
                    sum3 = sum3 + entry_size(entries@[i as int]) * shared_groups(
                        entries@[i as int],
                        ts,
                    );
                }
            }
            i = i + 1;
        }
    }
    proof {
        if !stopped {
            assert(entries@.subrange(i as int, n as int).len() == 0);
        }
    }
    let cores64: u64 = cores as u64;
    let l1: u64 = sat_mul_u64(acc1, cores64);
    let l2: u64 = sat_mul_u64(acc2, cores64);
    proof {
        lemma_cap64_mul(sum1, cores as nat);
        lemma_cap64_mul(sum2, cores as nat);
        assert(cap64(cores as nat) == cores as nat);
        lemma_cap_usize_of_cap64(sum1 * cores as nat);
        lemma_cap_usize_of_cap64(sum2 * cores as nat);
        lemma_cap_usize_of_cap64(sum3);
    }
    (sat_u64_to_usize(l1), sat_u64_to_usize(l2), sat_u64_to_usize(acc3))
}

/// Aggregates cache sizes for the probe: the extended deterministic-cache
/// leaf with thread scaling where the extended range supports it, else the
/// legacy leaf, which carries no usable sharing information.
pub fn cache_size(p: &CpuidProbe, cores: usize, threads: usize) -> (r: (usize, usize, usize))
    ensures
        r.0 as nat == cache_totals(p@, cores as nat, threads as nat).0,
        r.1 as nat == cache_totals(p@, cores as nat, threads as nat).1,
        r.2 as nat == cache_totals(p@, cores as nat, threads as nat).2,
{
    if p.max_ext >= 0x8000_001D {
        cache_size_universal(&p.cache_ext, cores, threads)
    } else {
        cache_size_universal(&p.cache_legacy, cores, 0)
    }
}

/// The aggregation policy on one split pair of results, for every core
/// count whose scaled total fits the machine word: a level-1 cache whose
/// geometry decodes to 32768 bytes contributes its size once per core, a
/// level-3 unified cache of 1048576 bytes shared two ways among eight
/// logical threads contributes four instances in all, and nothing reaches
/// the level-2 total.
pub proof fn lemma_cache_aggregation_pair(e1: Leaf, e2: Leaf, cores: nat)
    requires
        cache_type(e1) == 1,
        cache_level(e1) == 1,
        entry_size(e1) == 32768,
        cache_type(e2) == 3,
        cache_level(e2) == 3,
        entry_size(e2) == 1048576,
        cache_share_field(e2) == 1,
        32768 * cores <= usize::MAX,
    ensures
        universal_totals(seq![e1, e2], cores, 8) == (32768 * cores, 0nat, 4194304nat),
{
    let s = seq![e1, e2];
    let s1 = seq![e2];
    assert(s.drop_first() =~= s1);
    assert(s1.drop_first() =~= Seq::<Leaf>::empty());
    assert(l1_bytes(Seq::<Leaf>::empty()) == 0);
    assert(l1_bytes(s1) == 0);
    assert(l1_bytes(s) == 32768);
    assert(l2_bytes(Seq::<Leaf>::empty()) == 0);
    assert(l2_bytes(s1) == 0);
    assert(l2_bytes(s) == 0);
    assert(cache_share_field(e2) + 1 == 2);
    assert((8nat % 0x1_0000_0000) == 8nat);
    assert(shared_groups(e2, 8) == (8nat % 0x1_0000_0000) / 2nat);
    assert(shared_groups(e2, 8) == 4);
    assert(l3_bytes(Seq::<Leaf>::empty(), 8) == 0);
    assert(l3_bytes(s1, 8) == 1048576 * 4);
    assert(l3_bytes(s, 8) == 4194304);
    assert(cap_usize(32768 * cores) == 32768 * cores);
    assert(cap_usize(4194304) == 4194304);
}

} // verus!
