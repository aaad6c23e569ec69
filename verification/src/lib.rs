//! A verified codec for a scene-graph animation format: an owned graph of
//! compositions, layers and parametric curves is flattened into a single
//! pre-sized arena with content-addressed deduplication and a parent
//! back-reference fix-up pass, and an arena produced elsewhere is rebuilt
//! into an owned graph, resolving addresses back into references.

pub mod arena;
pub mod count;
pub mod curve;
pub mod flags;
pub mod flatten;
pub mod laws;
pub mod model;
pub mod scalar;
pub mod unflatten;
