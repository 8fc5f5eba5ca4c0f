//! Raw query results and the probe record.
//!
//! A processor query takes a primary selector (the leaf) and a secondary
//! selector (the sub-index) and returns four 32-bit result words. On hosts
//! where the query mechanism does not exist every word is zero, and all
//! decoders treat an all-zero result as "feature absent".

use vstd::prelude::*;

verus! {

/// The four 32-bit result words of one processor query.
#[derive(Clone, Copy, Debug, PartialEq, Eq, Structural)]
pub struct Leaf {
    pub eax: u32,
    pub ebx: u32,
    pub ecx: u32,
    pub edx: u32,
}

impl Leaf {
    /// A result with every word zero: what an absent query mechanism yields.
    pub fn zero() -> (r: Leaf)
        ensures
            r == (Leaf { eax: 0, ebx: 0, ecx: 0, edx: 0 }),
    {
        Leaf { eax: 0, ebx: 0, ecx: 0, edx: 0 }
    }
}

/// Everything one pass over the processor-query mechanism yields.
///
/// The sub-indexed leaves (`topo_new`, `topo_old`, `cache_ext`,
/// `cache_legacy`) hold the results for sub-indices 0, 1, 2, ... in order;
/// the gatherer reads ahead at least until the decoder's stop condition, and
/// the decoders stop scanning at the end of the vector in any case.
#[derive(Clone, Debug)]
pub struct CpuidProbe {
    /// Highest supported basic leaf: first word of query(0, 0).
    pub max_basic: u32,
    /// query(0, 0): vendor identification.
    pub leaf0: Leaf,
    /// query(1, 0): family/model/stepping and the first flag words.
    pub leaf1: Leaf,
    /// query(7, 0): extended feature flags.
    pub leaf7: Leaf,
    /// query(0x16, 0): base and turbo frequency in MHz.
    pub freq: Leaf,
    /// Highest supported extended leaf: first word of query(0x8000_0000, 0).
    pub max_ext: u32,
    /// query(0x8000_0002, 0): first third of the brand string.
    pub brand0: Leaf,
    /// query(0x8000_0003, 0): second third of the brand string.
    pub brand1: Leaf,
    /// query(0x8000_0004, 0): last third of the brand string.
    pub brand2: Leaf,
    /// query(0x8000_0008, 0): legacy core-count leaf.
    pub ext8: Leaf,
    /// query(0x1F, 0..): newer extended-topology enumeration.
    pub topo_new: Vec<Leaf>,
    /// query(0x0B, 0..): older extended-topology enumeration.
    pub topo_old: Vec<Leaf>,
    /// query(0x8000_001D, 0..): extended deterministic-cache parameters.
    pub cache_ext: Vec<Leaf>,
    /// query(4, 0..): legacy deterministic-cache parameters.
    pub cache_legacy: Vec<Leaf>,
}

/// The mathematical content of a probe: the same record with every vector
/// replaced by its sequence. Two probes with equal views are
/// indistinguishable to every decoder in this crate.
pub ghost struct ProbeView {
    pub max_basic: u32,
    pub leaf0: Leaf,
    pub leaf1: Leaf,
    pub leaf7: Leaf,
    pub freq: Leaf,
    pub max_ext: u32,
    pub brand0: Leaf,
    pub brand1: Leaf,
    pub brand2: Leaf,
    pub ext8: Leaf,
    pub topo_new: Seq<Leaf>,
    pub topo_old: Seq<Leaf>,
    pub cache_ext: Seq<Leaf>,
    pub cache_legacy: Seq<Leaf>,
}

impl View for CpuidProbe {
    type V = ProbeView;

    open spec fn view(&self) -> ProbeView {
        ProbeView {
            max_basic: self.max_basic,
            leaf0: self.leaf0,
            leaf1: self.leaf1,
            leaf7: self.leaf7,
            freq: self.freq,
            max_ext: self.max_ext,
            brand0: self.brand0,
            brand1: self.brand1,
            brand2: self.brand2,
            ext8: self.ext8,
            topo_new: self.topo_new@,
            topo_old: self.topo_old@,
            cache_ext: self.cache_ext@,
            cache_legacy: self.cache_legacy@,
        }
    }
}

impl CpuidProbe {
    /// A probe from a host with no query mechanism at all: every result zero.
    pub fn absent() -> (r: CpuidProbe)
        ensures
            r@.max_basic == 0,
            r@.max_ext == 0,
            r@.leaf0 == (Leaf { eax: 0, ebx: 0, ecx: 0, edx: 0 }),
            r@.leaf1 == (Leaf { eax: 0, ebx: 0, ecx: 0, edx: 0 }),
            r@.leaf7 == (Leaf { eax: 0, ebx: 0, ecx: 0, edx: 0 }),
            r@.freq == (Leaf { eax: 0, ebx: 0, ecx: 0, edx: 0 }),
            r@.brand0 == (Leaf { eax: 0, ebx: 0, ecx: 0, edx: 0 }),
            r@.brand1 == (Leaf { eax: 0, ebx: 0, ecx: 0, edx: 0 }),
            r@.brand2 == (Leaf { eax: 0, ebx: 0, ecx: 0, edx: 0 }),
            r@.ext8 == (Leaf { eax: 0, ebx: 0, ecx: 0, edx: 0 }),
            r@.topo_new == Seq::<Leaf>::empty(),
            r@.topo_old == Seq::<Leaf>::empty(),
            r@.cache_ext == Seq::<Leaf>::empty(),
            r@.cache_legacy == Seq::<Leaf>::empty(),
    {
        CpuidProbe {
            max_basic: 0,
            leaf0: Leaf::zero(),
            leaf1: Leaf::zero(),
            leaf7: Leaf::zero(),
            freq: Leaf::zero(),
            max_ext: 0,
            brand0: Leaf::zero(),
            brand1: Leaf::zero(),
            brand2: Leaf::zero(),
            ext8: Leaf::zero(),
            topo_new: Vec::new(),
            topo_old: Vec::new(),
            cache_ext: Vec::new(),
            cache_legacy: Vec::new(),
        }
    }
}

} // verus!
