use cpu_probe::cpu_info::OsSources;
use cpu_probe::{CpuidProbe, Leaf, LinuxCpuInfo, NativeEntry, WindowsCpuInfo};

fn leaf(eax: u32, ebx: u32, ecx: u32, edx: u32) -> Leaf {
    Leaf { eax, ebx, ecx, edx }
}

fn word(bytes: &[u8]) -> u32 {
    u32::from_le_bytes([bytes[0], bytes[1], bytes[2], bytes[3]])
}

fn vendor_leaf(v: &[u8; 12]) -> Leaf {
    leaf(0x1F, word(&v[0..4]), word(&v[8..12]), word(&v[4..8]))
}

/// A host as a contemporary processor would present it.
fn synthetic_probe() -> CpuidProbe {
    let mut p = CpuidProbe::absent();
    p.max_basic = 0x1F;
    p.leaf0 = vendor_leaf(b"GenuineIntel");
    // family 0x6, extended model 0x9, base model 0xE, stepping 0xA,
    // POP_CNT and SSE3 set, SSE and SSE2 set
    p.leaf1 = leaf(
        (0x9 << 16) | (0x6 << 8) | (0xE << 4) | 0xA,
        0,
        (1 << 23) | 1,
        (1 << 25) | (1 << 26),
    );
    // AVX2
    p.leaf7 = leaf(0, 1 << 5, 0, 0);
    // 3100 MHz base, 4200 MHz turbo
    p.freq = leaf(3100, 4200, 0, 0);
    p.max_ext = 0x8000_001D;
    // SMT 2, package 8
    p.topo_new = vec![leaf(1, 2, 1 << 8, 0), leaf(0, 8, 2 << 8, 0)];
    // one 32 KiB level-1 data cache: 8 ways x 64-byte lines x 64 sets
    p.cache_ext = vec![leaf(1 | (1 << 5), (7 << 22) | 63, 63, 0)];
    p
}

fn synthetic_sources() -> OsSources {
    OsSources {
        base_frequency: None,
        max_frequency: None,
        cpuinfo: Some(b"microcode\t: 0xf4\ncpu MHz\t\t: 3100.000\n".to_vec()),
    }
}

#[test]
fn full_probe_fills_every_field() {
    let info = LinuxCpuInfo::from_probe("x86_64".to_string(), &synthetic_probe(), &synthetic_sources());
    let d = info.static_data();
    assert_eq!(d.architecture(), "x86_64");
    assert_eq!(d.vendor(), "GenuineIntel");
    assert_eq!(d.brand(), "");
    assert_eq!(d.family(), 0x6);
    assert_eq!(d.model(), 0x9E);
    assert_eq!(d.stepping(), 0xA);
    assert_eq!(d.flags(), &vec!["POP_CNT", "SSE", "SSE2", "SSE3", "AVX2"]);
    assert_eq!(d.cores(), 4);
    assert_eq!(d.threads(), 8);
    assert_eq!(d.l1_cache(), 32768 * 4);
    assert_eq!(d.l2_cache(), 0);
    assert_eq!(d.l3_cache(), 0);
    assert_eq!(d.clock_speed(), 3100);
    assert_eq!(d.clock_speed_turbo(), 4200);
    assert_eq!(d.microcode_version(), "0x000000F4");
}

#[test]
fn clock_falls_back_to_sources_when_query_reports_zero() {
    let mut probe = synthetic_probe();
    probe.freq = leaf(0, 0, 0, 0);
    let info = LinuxCpuInfo::from_probe("x86_64".to_string(), &probe, &synthetic_sources());
    assert_eq!(info.static_data().clock_speed(), 3100);
    assert_eq!(info.static_data().clock_speed_turbo(), 0);
}

#[test]
fn two_probes_of_identical_data_agree_field_for_field() {
    let a = LinuxCpuInfo::from_probe("x86_64".to_string(), &synthetic_probe(), &synthetic_sources());
    let b = LinuxCpuInfo::from_probe("x86_64".to_string(), &synthetic_probe(), &synthetic_sources());
    let (a, b) = (a.static_data(), b.static_data());
    assert_eq!(a.brand(), b.brand());
    assert_eq!(a.vendor(), b.vendor());
    assert_eq!(a.architecture(), b.architecture());
    assert_eq!(a.family(), b.family());
    assert_eq!(a.model(), b.model());
    assert_eq!(a.stepping(), b.stepping());
    assert_eq!(a.microcode_version(), b.microcode_version());
    assert_eq!(a.l1_cache(), b.l1_cache());
    assert_eq!(a.l2_cache(), b.l2_cache());
    assert_eq!(a.l3_cache(), b.l3_cache());
    assert_eq!(a.cores(), b.cores());
    assert_eq!(a.threads(), b.threads());
    assert_eq!(a.flags(), b.flags());
    assert_eq!(a.clock_speed(), b.clock_speed());
    assert_eq!(a.clock_speed_turbo(), b.clock_speed_turbo());
}

#[test]
fn bare_host_still_reports_one_core() {
    // no extended queries, no OS sources: everything defaults but topology
    let probe = CpuidProbe::absent();
    let sources = OsSources { base_frequency: None, max_frequency: None, cpuinfo: None };
    let info = LinuxCpuInfo::from_probe("x86_64".to_string(), &probe, &sources);
    let d = info.static_data();
    assert_eq!(d.cores(), 1);
    assert!(d.threads() >= 1);
    assert_eq!(d.vendor(), "");
    assert_eq!(d.brand(), "");
    assert_eq!(d.microcode_version(), "");
    assert!(d.flags().is_empty());
    assert_eq!(d.clock_speed(), 0);
    assert_eq!((d.l1_cache(), d.l2_cache(), d.l3_cache()), (0, 0, 0));
}

#[test]
fn native_enumeration_drives_the_windows_snapshot() {
    let mut probe = synthetic_probe();
    probe.topo_new = vec![];
    let topology = Some(vec![
        NativeEntry { is_core: true, mask: 0b11 },
        NativeEntry { is_core: true, mask: 0b1100 },
    ]);
    let info = WindowsCpuInfo::from_probe(
        "x86_64".to_string(),
        &probe,
        &topology,
        Some(2900),
        Some(0xAB),
    );
    let d = info.static_data();
    assert_eq!(d.cores(), 2);
    assert_eq!(d.threads(), 4);
    assert_eq!(d.l1_cache(), 32768 * 2);
    // the dedicated query still wins over the registry value
    assert_eq!(d.clock_speed(), 3100);
    assert_eq!(d.microcode_version(), "0x000000AB");
    assert_eq!(d.vendor(), "GenuineIntel");
}

#[test]
fn failed_native_enumeration_degrades_to_one_core() {
    // no native enumeration at all: the one-core last resort takes over,
    // never a zero-core snapshot
    let mut probe = synthetic_probe();
    probe.freq = leaf(0, 0, 0, 0);
    let info = WindowsCpuInfo::from_probe("x86_64".to_string(), &probe, &None, Some(2900), None);
    let d = info.static_data();
    assert_eq!((d.cores(), d.threads()), (1, 1));
    // cache sizes are aggregated with the degraded counts
    assert_eq!((d.l1_cache(), d.l2_cache(), d.l3_cache()), (32768, 0, 0));
    // the registry fallback still resolves the clock
    assert_eq!(d.clock_speed(), 2900);
    assert_eq!(d.microcode_version(), "");
}

#[test]
fn coreless_native_enumeration_degrades_to_one_core() {
    let mut probe = synthetic_probe();
    // the leaf-1 logical-processor count bounds the degraded threads
    probe.leaf1 = leaf(probe.leaf1.eax, 4 << 16, probe.leaf1.ecx, probe.leaf1.edx);
    let topology = Some(vec![NativeEntry { is_core: false, mask: 0xFF }]);
    let info = WindowsCpuInfo::from_probe("x86_64".to_string(), &probe, &topology, None, None);
    let d = info.static_data();
    assert_eq!((d.cores(), d.threads()), (1, 4));
}
