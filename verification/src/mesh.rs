use vstd::prelude::*;

use crate::errors::ScriptError;
use crate::values::{key_eq, spec_bag_get, DynValue, PropertyBag, Vector3};

verus! {

/// The geometry a raw mesh holds, as the bridge models it.  The only shape
/// the script-facing `Primitive` constructor can build is a cuboid, given by
/// its half extents.
#[derive(Clone, Copy, Debug, PartialEq, Eq, Structural)]
pub enum MeshData {
    Cuboid { half_size: Vector3 },
}

/// A raw, not-yet-registered mesh.  While a script holds one of these the
/// geometry is still private to the script; registering it copies the
/// geometry into the host's shared asset table and yields a
/// [`LuaMeshHandle`].  Registration copies, so the raw mesh stays usable and
/// later changes to it do not reach the registered copy.
#[derive(Clone, Copy, Debug, PartialEq, Eq, Structural)]
pub struct LuaMesh(pub MeshData);

impl LuaMesh {
    pub fn new(mesh: MeshData) -> (r: LuaMesh)
        ensures
            r.0 == mesh,
    {
        LuaMesh(mesh)
    }
}

/// An opaque handle into the host's shared mesh asset table.  A registered
/// mesh is immutable from the script's point of view; the handle is a
/// distinct type from [`LuaMesh`] and the conversion is one-way.
#[derive(Clone, Copy, Debug, PartialEq, Eq, Structural)]
pub struct LuaMeshHandle(pub u64);

/// What the script-facing `Primitive { ... }` constructor builds: the bag
/// must bind `type` to the string of a supported primitive (only `Cuboid`
/// today) and `half_size` to a 3-vector.  A missing or ill-shaped `type` or
/// `half_size` is a `TypeMismatch`; a well-formed but unsupported name is a
/// `ScriptRuntimeError`.
pub open spec fn spec_primitive_constructor(bag: PropertyBag) -> Result<LuaMesh, ScriptError> {
    match spec_bag_get(bag.entries@, "type"@) {
        Some(DynValue::Str(name)) => if name@ == "Cuboid"@ {
            match spec_bag_get(bag.entries@, "half_size"@) {
                Some(DynValue::Vector(v)) => Ok(LuaMesh(MeshData::Cuboid { half_size: v })),
                _ => Err(ScriptError::TypeMismatch),
            }
        } else {
            Err(ScriptError::ScriptRuntimeError)
        },
        Some(_) => Err(ScriptError::TypeMismatch),
        None => Err(ScriptError::TypeMismatch),
    }
}

/// The `Primitive` constructor the engine injects into every script's
/// global scope.
pub fn primitive_constructor(properties: &PropertyBag) -> (r: Result<LuaMesh, ScriptError>)
    ensures
        r == spec_primitive_constructor(*properties),
{
    match properties.get("type") {
        Some(DynValue::Str(name)) => {
            if key_eq(name, "Cuboid") {
                match properties.get("half_size") {
                    Some(DynValue::Vector(v)) => Ok(
                        LuaMesh(MeshData::Cuboid { half_size: *v }),
                    ),
                    _ => Err(ScriptError::TypeMismatch),
                }
            } else {
                Err(ScriptError::ScriptRuntimeError)
            }
        },
        Some(_) => Err(ScriptError::TypeMismatch),
        None => Err(ScriptError::TypeMismatch),
    }
}

} // verus!
