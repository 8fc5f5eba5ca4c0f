use cpu_probe::cache::{cache_size, cache_size_universal};
use cpu_probe::cpu_info::topo_and_caches;
use cpu_probe::identity::Vendor;
use cpu_probe::topology::{count_native_topology, detect_topology};
use cpu_probe::{CpuidProbe, Leaf, NativeEntry};

fn leaf(eax: u32, ebx: u32, ecx: u32, edx: u32) -> Leaf {
    Leaf { eax, ebx, ecx, edx }
}

/// A topology sub-index result: level type in bits 15..8 of the third word,
/// cumulative logical count in the low 16 bits of the second word, level
/// shift in the low 5 bits of the first word.
fn topo_entry(level_type: u32, count: u32, shift: u32) -> Leaf {
    leaf(shift, count, level_type << 8, 0)
}

fn probe_with(topo_new: Vec<Leaf>) -> CpuidProbe {
    let mut p = CpuidProbe::absent();
    p.max_basic = 0x1F;
    p.topo_new = topo_new;
    p
}

#[test]
fn extended_topology_divides_core_count_by_thread_count() {
    // two threads per core, eight logical processors in the package
    let p = probe_with(vec![topo_entry(1, 2, 1), topo_entry(2, 8, 0)]);
    assert_eq!(detect_topology(&p, Vendor::Other), (4, 8));
}

#[test]
fn extended_topology_without_smt_level_keeps_counts() {
    let p = probe_with(vec![topo_entry(2, 6, 0)]);
    assert_eq!(detect_topology(&p, Vendor::Other), (6, 6));
}

#[test]
fn topology_is_monotonic_over_synthetic_enumerations() {
    // whatever the sub-index sequence, cores are at least one and never
    // exceed threads
    let cases: Vec<Vec<Leaf>> = vec![
        vec![],
        vec![topo_entry(1, 2, 1)],
        vec![topo_entry(1, 2, 1), topo_entry(2, 8, 0)],
        vec![topo_entry(2, 3, 1), topo_entry(1, 16, 0)],
        vec![topo_entry(1, 0, 1), topo_entry(2, 5, 0)],
        vec![topo_entry(2, 1, 0)],
        vec![topo_entry(1, 9, 1), topo_entry(2, 4, 0)],
    ];
    for entries in cases {
        let p = probe_with(entries);
        let (cores, threads) = detect_topology(&p, Vendor::Other);
        assert!(cores >= 1);
        assert!(threads >= cores);
    }
}

#[test]
fn older_topology_leaf_is_tried_after_the_newer() {
    let mut p = CpuidProbe::absent();
    p.max_basic = 0x1F;
    p.topo_new = vec![];
    p.topo_old = vec![topo_entry(1, 2, 1), topo_entry(2, 12, 0)];
    assert_eq!(detect_topology(&p, Vendor::Other), (6, 12));
}

#[test]
fn amd_legacy_fallback_uses_extended_core_count() {
    let mut p = CpuidProbe::absent();
    p.max_ext = 0x8000_0008;
    // logical processors per package: bits 23..16 of the second leaf-1 word
    p.leaf1 = leaf(0, 16 << 16, 0, 0);
    // physical cores minus one in the low byte of the third word
    p.ext8 = leaf(0, 0, 7, 0);
    assert_eq!(detect_topology(&p, Vendor::Amd), (8, 16));
    // an unrecognized vendor never takes the AMD path
    assert_eq!(detect_topology(&p, Vendor::Other), (1, 16));
}

#[test]
fn intel_legacy_fallback_scans_the_cache_leaf() {
    let mut p = CpuidProbe::absent();
    p.max_basic = 4;
    // two cache results reporting "cores per package minus one" of 3
    p.cache_legacy = vec![leaf(1 | (3 << 26), 0, 0, 0), leaf(2 | (3 << 26), 0, 0, 0)];
    p.leaf1 = leaf(0, 8 << 16, 0, 0);
    assert_eq!(detect_topology(&p, Vendor::Intel), (4, 8));
}

#[test]
fn bare_host_degrades_to_one_core() {
    // no extended queries at all: one core, at least one thread
    let p = CpuidProbe::absent();
    assert_eq!(detect_topology(&p, Vendor::Other), (1, 1));
    // a leaf-1 logical count alone still bounds the threads
    let mut p = CpuidProbe::absent();
    p.leaf1 = leaf(0, 4 << 16, 0, 0);
    assert_eq!(detect_topology(&p, Vendor::Other), (1, 4));
}

/// A deterministic-cache result from its geometry.
fn cache_entry(ctype: u32, level: u32, ways: u32, line: u32, sets: u32, share: u32) -> Leaf {
    leaf(
        ctype | (level << 5) | (share << 14),
        ((ways - 1) << 22) | (line - 1),
        sets - 1,
        0,
    )
}

#[test]
fn cache_aggregation_scales_l1_by_cores_and_l3_by_instances() {
    // type 1 level 1, 8 ways x 64-byte lines x 64 sets = 32768 bytes
    let l1d = cache_entry(1, 1, 8, 64, 64, 0);
    // type 3 level 3, 16 ways x 64-byte lines x 1024 sets = 1048576 bytes,
    // shared by 2 of 8 threads: 4 instances
    let l3 = cache_entry(3, 3, 16, 64, 1024, 1);
    let entries = vec![l1d, l3];
    let (a, b, c) = cache_size_universal(&entries, 2, 8);
    assert_eq!(a, 32768 * 2);
    assert_eq!(b, 0);
    assert_eq!(c, 1048576 * 4);
}

#[test]
fn cache_walk_stops_at_the_first_type_zero_result() {
    let l1d = cache_entry(1, 1, 8, 64, 64, 0);
    let stop = leaf(0, 0, 0, 0);
    let ghost_entry = cache_entry(1, 1, 8, 64, 64, 0);
    let entries = vec![l1d, stop, ghost_entry];
    let (a, b, c) = cache_size_universal(&entries, 1, 0);
    assert_eq!((a, b, c), (32768, 0, 0));
}

#[test]
fn split_l1_caches_sum_and_l2_accumulates() {
    let l1d = cache_entry(1, 1, 8, 64, 64, 0);
    let l1i = cache_entry(2, 1, 8, 64, 64, 0);
    let l2 = cache_entry(3, 2, 8, 64, 2048, 0);
    let entries = vec![l1d, l1i, l2];
    let (a, b, c) = cache_size_universal(&entries, 4, 0);
    assert_eq!(a, 2 * 32768 * 4);
    assert_eq!(b, 8 * 64 * 2048 * 4);
    assert_eq!(c, 0);
}

#[test]
fn cache_size_prefers_the_extended_leaf() {
    let mut p = CpuidProbe::absent();
    p.max_ext = 0x8000_001D;
    p.cache_ext = vec![cache_entry(1, 1, 8, 64, 64, 0)];
    p.cache_legacy = vec![cache_entry(3, 2, 8, 64, 2048, 0)];
    assert_eq!(cache_size(&p, 1, 8), (32768, 0, 0));
    // without the extended range the legacy leaf decides
    p.max_ext = 0;
    assert_eq!(cache_size(&p, 1, 8), (0, 8 * 64 * 2048, 0));
}

#[test]
fn oversized_cache_geometry_saturates_instead_of_wrapping() {
    // the largest geometry the fields can encode exceeds any address space:
    // 1024 ways x 1024 partitions x 4096-byte lines x 2^32 sets
    let huge = leaf(1 | (1 << 5), u32::MAX, u32::MAX, 0);
    let entries = vec![huge];
    let (a, _, _) = cache_size_universal(&entries, 2, 0);
    assert_eq!(a, usize::MAX);
}

#[test]
fn empty_cache_enumeration_reports_all_zero() {
    let p = CpuidProbe::absent();
    assert_eq!(cache_size(&p, 4, 8), (0, 0, 0));
}

#[test]
fn topo_and_caches_combines_both_detectors() {
    let mut p = CpuidProbe::absent();
    p.max_basic = 0x1F;
    p.topo_new = vec![topo_entry(1, 2, 1), topo_entry(2, 8, 0)];
    p.max_ext = 0x8000_001D;
    p.cache_ext = vec![cache_entry(1, 1, 8, 64, 64, 0)];
    let (cores, threads, l1, l2, l3) = topo_and_caches(&p, Vendor::Other);
    assert_eq!((cores, threads), (4, 8));
    assert_eq!((l1, l2, l3), (32768 * 4, 0, 0));
}

#[test]
fn native_topology_counts_cores_and_mask_bits() {
    let entries = vec![
        NativeEntry { is_core: true, mask: 0b11 },
        NativeEntry { is_core: true, mask: 0b1100 },
        NativeEntry { is_core: false, mask: 0xFFFF },
    ];
    assert_eq!(count_native_topology(&entries), (2, 4));
}

#[test]
fn native_topology_of_nothing_is_zero() {
    assert_eq!(count_native_topology(&vec![]), (0, 0));
}
