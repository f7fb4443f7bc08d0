use vstd::prelude::*;

verus! {

/// An opaque, copyable identifier for a row of the host's component store.
/// The bridge never interprets the bits; it only passes them through between
/// the script and the host.
#[derive(Clone, Copy, Debug, PartialEq, Eq, Structural)]
pub struct LuaEntity(pub u64);

} // verus!
