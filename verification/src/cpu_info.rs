//! The normalized snapshot and the probe pipelines that build it.
//!
//! One pass over the gathered raw data yields one `CpuData`: identity
//! strings, family/model/stepping, capability flags, topology, cache sizes,
//! clocks and microcode. The snapshot is built field by field and then never
//! changed; every field is pinned to a specification function of the raw
//! inputs, so two probes that gathered identical data yield identical
//! snapshots.

use vstd::prelude::*;

use crate::cache::cache_totals;
use crate::clock::{
    base_clock_spec, microcode_chars, microcode_text, format_microcode, microcode_from_cpuinfo,
    resolve_base_clock,
};
use crate::features::{detect_flags, distinct_flags, flags_spec};
use crate::identity::{
    brand_string, brand_text, classify_vendor, effective_family, effective_model, family_of,
    model_of, stepping_field, stepping_of, vendor_of, vendor_string, vendor_text, Vendor,
};
use crate::query::{CpuidProbe, ProbeView};
use crate::topology::{
    count_native_topology, detect_topology, fallback_topology, lemma_native_graceful_degradation,
    native_pair, topology_spec, NativeEntry,
};

verus! {

/// The normalized processor snapshot: the sole output of a probe pass.
/// Its fields stay private: a snapshot exists only as a builder made it,
/// frozen behind the getters, so the invariants the builders establish
/// cannot be broken from outside.
#[derive(Clone, Debug)]
pub struct CpuData {
    brand: String,
    vendor: String,
    arch: String,
    family: u8,
    model: u8,
    stepping: u8,
    microcode: String,
    l1_cache: usize,
    l2_cache: usize,
    l3_cache: usize,
    cores: usize,
    threads: usize,
    flags: Vec<String>,
    clock_speed: u32,
    clock_speed_turbo: u32,
}

/// The mathematical content of a snapshot.
pub ghost struct SnapshotView {
    pub brand: Seq<char>,
    pub vendor: Seq<char>,
    pub arch: Seq<char>,
    pub family: u8,
    pub model: u8,
    pub stepping: u8,
    pub microcode: Seq<char>,
    pub l1_cache: nat,
    pub l2_cache: nat,
    pub l3_cache: nat,
    pub cores: nat,
    pub threads: nat,
    pub flags: Seq<Seq<char>>,
    pub clock_speed: u32,
    pub clock_speed_turbo: u32,
}

impl View for CpuData {
    type V = SnapshotView;

    closed spec fn view(&self) -> SnapshotView {
        SnapshotView {
            brand: self.brand@,
            vendor: self.vendor@,
            arch: self.arch@,
            family: self.family,
            model: self.model,
            stepping: self.stepping,
            microcode: self.microcode@,
            l1_cache: self.l1_cache as nat,
            l2_cache: self.l2_cache as nat,
            l3_cache: self.l3_cache as nat,
            cores: self.cores as nat,
            threads: self.threads as nat,
            flags: self.flags.deep_view(),
            clock_speed: self.clock_speed,
            clock_speed_turbo: self.clock_speed_turbo,
        }
    }
}

impl CpuData {
    /// The structural invariant of a finished snapshot: the architecture
    /// name is present, cores never exceed threads, and no capability flag
    /// occurs twice.
    pub open spec fn wf(&self) -> bool {
        &&& self@.arch.len() > 0
        &&& self@.cores <= self@.threads
        &&& distinct_flags(self@.flags)
    }

    pub fn brand(&self) -> (r: &String)
        ensures
            r@ == self@.brand,
    {
        &self.brand
    }

    pub fn vendor(&self) -> (r: &String)
        ensures
            r@ == self@.vendor,
    {
        &self.vendor
    }

    pub fn architecture(&self) -> (r: &String)
        ensures
            r@ == self@.arch,
    {
        &self.arch
    }

    pub fn family(&self) -> (r: u8)
        ensures
            r == self@.family,
    {
        self.family
    }

    pub fn model(&self) -> (r: u8)
        ensures
            r == self@.model,
    {
        self.model
    }

    pub fn stepping(&self) -> (r: u8)
        ensures
            r == self@.stepping,
    {
        self.stepping
    }

    pub fn microcode_version(&self) -> (r: &String)
        ensures
            r@ == self@.microcode,
    {
        &self.microcode
    }

    pub fn l1_cache(&self) -> (r: usize)
        ensures
            r == self@.l1_cache,
    {
        self.l1_cache
    }

    pub fn l2_cache(&self) -> (r: usize)
        ensures
            r == self@.l2_cache,
    {
        self.l2_cache
    }

    pub fn l3_cache(&self) -> (r: usize)
        ensures
            r == self@.l3_cache,
    {
        self.l3_cache
    }

    pub fn cores(&self) -> (r: usize)
        ensures
            r == self@.cores,
    {
        self.cores
    }

    pub fn threads(&self) -> (r: usize)
        ensures
            r == self@.threads,
    {
        self.threads
    }

    pub fn flags(&self) -> (r: &Vec<String>)
        ensures
            r.deep_view() == self@.flags,
    {
        &self.flags
    }

    pub fn clock_speed(&self) -> (r: u32)
        ensures
            r == self@.clock_speed,
    {
        self.clock_speed
    }

    pub fn clock_speed_turbo(&self) -> (r: u32)
        ensures
            r == self@.clock_speed_turbo,
    {
        self.clock_speed_turbo
    }
}

impl Default for CpuData {
    /// An empty snapshot: every string empty, every count zero.
    fn default() -> (r: CpuData)
        ensures
            r@.brand.len() == 0,
            r@.vendor.len() == 0,
            r@.arch.len() == 0,
            r@.family == 0 && r@.model == 0 && r@.stepping == 0,
            r@.microcode.len() == 0,
            r@.l1_cache == 0 && r@.l2_cache == 0 && r@.l3_cache == 0,
            r@.cores == 0 && r@.threads == 0,
            r@.flags.len() == 0,
            r@.clock_speed == 0 && r@.clock_speed_turbo == 0,
    {
        let r = CpuData {
            brand: String::new(),
            vendor: String::new(),
            arch: String::new(),
            family: 0,
            model: 0,
            stepping: 0,
            microcode: String::new(),
            l1_cache: 0,
            l2_cache: 0,
            l3_cache: 0,
            cores: 0,
            threads: 0,
            flags: Vec::new(),
            clock_speed: 0,
            clock_speed_turbo: 0,
        };
        proof {
            assert(r.flags.deep_view() =~= Seq::<Seq<char>>::empty());
        }
        r
    }
}

/// The OS text sources a host hands in for the clock and microcode
/// fallbacks; a source that could not be read is absent.
pub struct OsSources {
    /// Contents of the base-frequency file, in kHz.
    pub base_frequency: Option<Vec<u8>>,
    /// Contents of the maximum-frequency file, in kHz.
    pub max_frequency: Option<Vec<u8>>,
    /// Contents of the processor-information text.
    pub cpuinfo: Option<Vec<u8>>,
}

/// The mathematical content of the OS sources.
pub ghost struct OsSourcesView {
    pub base_frequency: Option<Seq<u8>>,
    pub max_frequency: Option<Seq<u8>>,
    pub cpuinfo: Option<Seq<u8>>,
}

impl View for OsSources {
    type V = OsSourcesView;

    open spec fn view(&self) -> OsSourcesView {
        OsSourcesView {
            base_frequency: self.base_frequency.deep_view(),
            max_frequency: self.max_frequency.deep_view(),
            cpuinfo: self.cpuinfo.deep_view(),
        }
    }
}

/// Physical cores, logical threads and the three cache sizes, resolved from
/// the gathered query results alone.
pub open spec fn topo_and_caches_spec(p: ProbeView, vendor: Vendor) -> (nat, nat, nat, nat, nat) {
    let pair = topology_spec(p, vendor);
    let caches = cache_totals(p, pair.0 as nat, pair.1 as nat);
    (pair.0 as nat, pair.1 as nat, caches.0, caches.1, caches.2)
}

/// Resolves topology and cache sizes in one step: cores and threads from
/// the layered detector, cache sizes aggregated with those counts.
pub fn topo_and_caches(probe: &CpuidProbe, vendor: Vendor) -> (r: (
    usize,
    usize,
    usize,
    usize,
    usize,
))
    ensures
        r.0 as nat == topo_and_caches_spec(probe@, vendor).0,
        r.1 as nat == topo_and_caches_spec(probe@, vendor).1,
        r.2 as nat == topo_and_caches_spec(probe@, vendor).2,
        r.3 as nat == topo_and_caches_spec(probe@, vendor).3,
        r.4 as nat == topo_and_caches_spec(probe@, vendor).4,
        1 <= r.0 <= r.1,
{
    let pair = detect_topology(probe, vendor);
    let cores: usize = pair.0 as usize;
    let threads: usize = pair.1 as usize;
    let caches = crate::cache::cache_size(probe, cores, threads);
    (cores, threads, caches.0, caches.1, caches.2)
}

/// What a full probe of a host without a native topology facility yields:
/// every field as a function of the gathered raw data.
pub open spec fn snapshot_spec(arch: Seq<char>, p: ProbeView, s: OsSourcesView) -> SnapshotView {
    let vendor = vendor_text(p.leaf0);
    let tc = topo_and_caches_spec(p, vendor_of(vendor));
    SnapshotView {
        brand: brand_text(p.max_ext, p.brand0, p.brand1, p.brand2),
        vendor: vendor,
        arch: arch,
        family: effective_family(p.leaf1.eax),
        model: effective_model(p.leaf1.eax),
        stepping: stepping_field(p.leaf1.eax) as u8,
        microcode: microcode_text(s.cpuinfo),
        l1_cache: tc.2,
        l2_cache: tc.3,
        l3_cache: tc.4,
        cores: tc.0,
        threads: tc.1,
        flags: flags_spec(p.leaf1, p.leaf7),
        clock_speed: base_clock_spec(
            p.freq.eax,
            s.base_frequency,
            s.max_frequency,
            s.cpuinfo,
        ),
        clock_speed_turbo: p.freq.ebx,
    }
}

/// A snapshot built from processor queries and OS text sources alone.
pub struct LinuxCpuInfo(pub CpuData);

impl LinuxCpuInfo {
    /// Builds the snapshot from one gathered probe: identity, flags,
    /// topology, caches, clock and microcode, each pinned to its
    /// specification.
    pub fn from_probe(arch: String, probe: &CpuidProbe, sources: &OsSources) -> (r: LinuxCpuInfo)
        requires
            arch@.len() > 0,
        ensures
            r.0@ == snapshot_spec(arch@, probe@, sources@),
            r.0.wf(),
    {
        let vendor = vendor_string(&probe.leaf0);
        let vendor_kind = classify_vendor(&vendor);
        let brand = brand_string(probe.max_ext, &probe.brand0, &probe.brand1, &probe.brand2);
        let family = family_of(probe.leaf1.eax);
        let model = model_of(probe.leaf1.eax);
        let stepping = stepping_of(probe.leaf1.eax);
        let flags = detect_flags(&probe.leaf1, &probe.leaf7);
        let tc = topo_and_caches(probe, vendor_kind);
        let clock_speed = resolve_base_clock(
            probe.freq.eax,
            &sources.base_frequency,
            &sources.max_frequency,
            &sources.cpuinfo,
        );
        let microcode = microcode_from_cpuinfo(&sources.cpuinfo);
        let data = CpuData {
            brand,
            vendor,
            arch,
            family,
            model,
            stepping,
            microcode,
            l1_cache: tc.2,
            l2_cache: tc.3,
            l3_cache: tc.4,
            cores: tc.0,
            threads: tc.1,
            flags,
            clock_speed,
            clock_speed_turbo: probe.freq.ebx,
        };
        LinuxCpuInfo(data)
    }

    pub fn static_data(&self) -> (r: &CpuData)
        ensures
            r == self.0,
    {
        &self.0
    }
}

/// What a full probe of a host with a native topology facility yields:
/// identity from the queries; topology from the native enumeration where it
/// reports at least one processor core, else degraded to the one-core last
/// resort — never zero cores; cache sizes aggregated with the resolved
/// counts; clock and microcode from registry values.
pub open spec fn native_snapshot_spec(
    arch: Seq<char>,
    p: ProbeView,
    topology: Option<Seq<NativeEntry>>,
    registry_mhz: Option<u32>,
    registry_update: Option<u32>,
) -> SnapshotView {
    let tc = {
        let pair = native_pair(p, topology);
        let caches = cache_totals(p, pair.0, pair.1);
        (pair.0, pair.1, caches.0, caches.1, caches.2)
    };
    SnapshotView {
        brand: brand_text(p.max_ext, p.brand0, p.brand1, p.brand2),
        vendor: vendor_text(p.leaf0),
        arch: arch,
        family: effective_family(p.leaf1.eax),
        model: effective_model(p.leaf1.eax),
        stepping: stepping_field(p.leaf1.eax) as u8,
        microcode: match registry_update {
            Some(v) => microcode_chars(v),
            None => Seq::<char>::empty(),
        },
        l1_cache: tc.2,
        l2_cache: tc.3,
        l3_cache: tc.4,
        cores: tc.0,
        threads: tc.1,
        flags: flags_spec(p.leaf1, p.leaf7),
        clock_speed: if p.freq.eax != 0 {
            p.freq.eax
        } else {
            match registry_mhz {
                Some(v) => v,
                None => 0,
            }
        },
        clock_speed_turbo: p.freq.ebx,
    }
}

/// A snapshot built from processor queries, a platform-native topology
/// enumeration, and registry values.
pub struct WindowsCpuInfo(pub CpuData);

impl WindowsCpuInfo {
    /// Builds the snapshot from one gathered probe. The native enumeration
    /// decides topology; an enumeration that failed or reported no
    /// processor core degrades to the one-core last resort. The thread
    /// tally is clamped to at least the core count, so that the snapshot
    /// invariant holds of every enumeration.
    pub fn from_probe(
        arch: String,
        probe: &CpuidProbe,
        topology: &Option<Vec<NativeEntry>>,
        registry_mhz: Option<u32>,
        registry_update: Option<u32>,
    ) -> (r: WindowsCpuInfo)
        requires
            arch@.len() > 0,
        ensures
            r.0@ == native_snapshot_spec(
                arch@,
                probe@,
                topology.deep_view(),
                registry_mhz,
                registry_update,
            ),
            r.0.wf(),
    {
        let vendor = vendor_string(&probe.leaf0);
        let brand = brand_string(probe.max_ext, &probe.brand0, &probe.brand1, &probe.brand2);
        let family = family_of(probe.leaf1.eax);
        let model = model_of(probe.leaf1.eax);
        let stepping = stepping_of(probe.leaf1.eax);
        let flags = detect_flags(&probe.leaf1, &probe.leaf7);
        let pair: (usize, usize) = match topology {
            Some(entries) => {
                proof {
                    assert(entries.deep_view() =~= entries@);
                }
                let counted = count_native_topology(entries);
                if counted.0 == 0 {
                    let fp = fallback_topology(probe);
                    (fp.0 as usize, fp.1 as usize)
                } else {
                    (counted.0, if counted.1 >= counted.0 {
                        counted.1
                    } else {
                        counted.0
                    })
                }
            },
            None => {
                let fp = fallback_topology(probe);
                (fp.0 as usize, fp.1 as usize)
            },
        };
        let cores: usize = pair.0;
        let threads: usize = pair.1;
        let caches = crate::cache::cache_size(probe, cores, threads);
        let l1: usize = caches.0;
        let l2: usize = caches.1;
        let l3: usize = caches.2;
        proof {
            lemma_native_graceful_degradation(probe@, topology.deep_view());
        }
        let clock_speed: u32 = if probe.freq.eax != 0 {
            probe.freq.eax
        } else {
            match registry_mhz {
                Some(v) => v,
                None => 0,
            }
        };
        let microcode: String = match registry_update {
            Some(v) => format_microcode(v),
            None => String::new(),
        };
        let data = CpuData {
            brand,
            vendor,
            arch,
            family,
            model,
            stepping,
            microcode,
            l1_cache: l1,
            l2_cache: l2,
            l3_cache: l3,
            cores,
            threads,
            flags,
            clock_speed,
            clock_speed_turbo: probe.freq.ebx,
        };
        WindowsCpuInfo(data)
    }

    pub fn static_data(&self) -> (r: &CpuData)
        ensures
            r == self.0,
    {
        &self.0
    }
}

/// Idempotence: two probe passes that gathered identical raw data yield
/// field-for-field identical snapshots, because every field is a function
/// of the gathered data alone.
pub proof fn lemma_probe_idempotent(
    arch1: Seq<char>,
    p1: ProbeView,
    s1: OsSourcesView,
    arch2: Seq<char>,
    p2: ProbeView,
    s2: OsSourcesView,
)
    requires
        arch1 == arch2,
        p1 == p2,
        s1 == s2,
    ensures
        snapshot_spec(arch1, p1, s1) == snapshot_spec(arch2, p2, s2),
{
}

} // verus!
