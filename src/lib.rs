//! Mapping of SCAP source data stream documents, and the XCCDF benchmarks
//! they carry, from a namespace-aware element tree into a typed model.
pub mod xml;
pub mod utils;
pub mod xccdf;
pub mod sds;
pub mod laws;
