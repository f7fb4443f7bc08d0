use vstd::prelude::*;

use crate::values::{spec_bag_get, DynValue, PropertyBag, Vector3};

verus! {

/// The host's spatial component, as the bridge models it: a position, a
/// rotation given as Euler angles in the fixed axis order X-Y-Z (radians),
/// and a scale.  Every scalar is the raw bit pattern of a single-precision
/// float.  Composing two rotations is quaternion work that the host's math
/// library does; the bridge itself only stores and marshals the angles, so
/// its handling of them is exact.
#[derive(Clone, Copy, Debug, PartialEq, Eq, Structural)]
pub struct Transform {
    pub position: Vector3,
    pub rotation: Vector3,
    pub scale: Vector3,
}

impl Transform {
    /// The identity transform: position (0,0,0), zero rotation, scale (1,1,1).
    pub open spec fn spec_identity() -> Transform {
        Transform {
            position: Vector3::spec_zero(),
            rotation: Vector3::spec_zero(),
            scale: Vector3::spec_one(),
        }
    }

    pub fn identity() -> (r: Transform)
        ensures
            r == Transform::spec_identity(),
    {
        Transform { position: Vector3::zero(), rotation: Vector3::zero(), scale: Vector3::one() }
    }
}

impl Default for Transform {
    fn default() -> (r: Transform)
        ensures
            r == Transform::spec_identity(),
    {
        Transform::identity()
    }
}

/// The tagged wrapper under which a transform travels through the dynamic
/// language: scripts see its `position`, `rotation` and `scale` accessors
/// rather than raw fields.
#[derive(Clone, Copy, Debug, PartialEq, Eq, Structural)]
pub struct LuaTransform(pub Transform);

impl LuaTransform {
    pub fn position(&self) -> (r: Vector3)
        ensures
            r == self.0.position,
    {
        self.0.position
    }

    /// The rotation as Euler angles in X-Y-Z order, radians.
    pub fn rotation(&self) -> (r: Vector3)
        ensures
            r == self.0.rotation,
    {
        self.0.rotation
    }

    pub fn scale(&self) -> (r: Vector3)
        ensures
            r == self.0.scale,
    {
        self.0.scale
    }
}

/// The value an options bag binds to `key` when that value is a 3-vector;
/// any other binding (or none) falls back to the default.
pub open spec fn spec_vector_or(bag: PropertyBag, key: Seq<char>, dflt: Vector3) -> Vector3 {
    match spec_bag_get(bag.entries@, key) {
        Some(DynValue::Vector(v)) => v,
        _ => dflt,
    }
}

/// What the script-facing `Transform { ... }` constructor builds from an
/// options bag: the recognized keys are `position`, `rotation` (Euler X-Y-Z,
/// radians) and `scale`, each optional and defaulting to the identity; a key
/// bound to anything other than a 3-vector is ignored, as is any
/// unrecognized key.
pub open spec fn spec_transform_constructor(bag: PropertyBag) -> LuaTransform {
    LuaTransform(
        Transform {
            position: spec_vector_or(bag, "position"@, Vector3::spec_zero()),
            rotation: spec_vector_or(bag, "rotation"@, Vector3::spec_zero()),
            scale: spec_vector_or(bag, "scale"@, Vector3::spec_one()),
        },
    )
}

/// The `Transform` constructor the engine injects into every script's global
/// scope.  It never fails: absent or ill-shaped options simply keep their
/// defaults.
pub fn transform_constructor(properties: &PropertyBag) -> (r: LuaTransform)
    ensures
        r == spec_transform_constructor(*properties),
{
    let mut t = Transform::identity();
    match properties.get("position") {
        Some(DynValue::Vector(v)) => {
            t.position = *v;
        },
        _ => {},
    }
    match properties.get("rotation") {
        Some(DynValue::Vector(v)) => {
            t.rotation = *v;
        },
        _ => {},
    }
    match properties.get("scale") {
        Some(DynValue::Vector(v)) => {
            t.scale = *v;
        },
        _ => {},
    }
    LuaTransform(t)
}

/// Constructor-defaults law: the constructor applied to the empty options
/// bag yields the identity transform — position (0,0,0), zero rotation,
/// scale (1,1,1).
pub proof fn lemma_transform_constructor_defaults(bag: PropertyBag)
    requires
        bag.entries@.len() == 0,
    ensures
        spec_transform_constructor(bag).0 == Transform::spec_identity(),
{
}

} // verus!
