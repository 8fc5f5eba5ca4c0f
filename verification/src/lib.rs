//! Processor identification and topology engine.
//!
//! The crate decodes the bit-packed results of low-level processor queries
//! (a query takes a primary and a secondary 32-bit selector and yields four
//! 32-bit result words) together with a few OS-provided text sources into one
//! normalized, immutable snapshot: vendor and brand strings, family, model
//! and stepping, capability flags, physical-core and logical-thread counts,
//! per-level cache sizes, base and turbo clock, and the microcode revision.
//!
//! The crate itself performs no I/O and issues no processor queries: a host
//! adapter gathers the raw result words and file contents and hands them in
//! as plain values, so that every decoding and reconciliation step here is
//! a pure, verified function of its inputs.

pub mod align;
pub mod arith;
pub mod cache;
pub mod clock;
pub mod cpu_info;
pub mod features;
pub mod identity;
pub mod parse;
pub mod query;
pub mod text;
pub mod topology;

pub use cpu_info::{CpuData, LinuxCpuInfo, OsSources, WindowsCpuInfo};
pub use query::{CpuidProbe, Leaf};
pub use topology::NativeEntry;
