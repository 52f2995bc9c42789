//! Track-fixture certification, track identity and the per-file digest format of the
//! benchmarker, with their contracts.

pub mod number;
pub mod text;
pub mod track;
pub mod contract;
pub mod digest;
pub mod score;
pub mod pool;
pub mod sidecar_proofs;
