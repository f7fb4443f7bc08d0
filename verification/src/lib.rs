//! A bridge between a dynamically typed scripting language and a statically
//! typed simulation host.
//!
//! Scripts are loaded as source-text assets, executed once when they are
//! attached to an entity, and then re-invoked every simulation tick.  While a
//! script runs it is handed a proxy object that exposes a small, named set of
//! world operations: reading a component, bulk-writing components, spawning an
//! entity and registering a mesh asset.  Every value that crosses the
//! language boundary goes through a strict, tagged marshalling layer.
//!
//! The crate holds the bridge itself: the value marshaller, the world proxy,
//! and the per-entity script lifecycle.  Floating-point scalars are carried
//! as raw IEEE-754 bit patterns; the bridge moves them around but never does
//! arithmetic on them, so their handling is exact.

pub mod engine;
pub mod entity;
pub mod errors;
pub mod mesh;
pub mod transform;
pub mod values;
pub mod world;
