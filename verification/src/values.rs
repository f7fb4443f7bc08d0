use vstd::prelude::*;

use crate::entity::LuaEntity;
use crate::errors::ScriptError;
use crate::mesh::{LuaMesh, LuaMeshHandle};
use crate::transform::LuaTransform;

verus! {

/// Bit pattern of the single-precision value 0.0.
pub const F32_ZERO_BITS: u32 = 0x0000_0000;

/// Bit pattern of the single-precision value 1.0.
pub const F32_ONE_BITS: u32 = 0x3F80_0000;

/// A three-component vector of single-precision values, held as raw IEEE-754
/// bit patterns.  The bridge moves these between the script and the host but
/// never does arithmetic on them, so marshalling them is exact.
#[derive(Clone, Copy, Debug, PartialEq, Eq, Structural)]
pub struct Vector3 {
    pub x: u32,
    pub y: u32,
    pub z: u32,
}

impl Vector3 {
    /// The vector (0.0, 0.0, 0.0).
    pub open spec fn spec_zero() -> Vector3 {
        Vector3 { x: F32_ZERO_BITS, y: F32_ZERO_BITS, z: F32_ZERO_BITS }
    }

    /// The vector (1.0, 1.0, 1.0).
    pub open spec fn spec_one() -> Vector3 {
        Vector3 { x: F32_ONE_BITS, y: F32_ONE_BITS, z: F32_ONE_BITS }
    }

    pub fn zero() -> (r: Vector3)
        ensures
            r == Vector3::spec_zero(),
    {
        Vector3 { x: F32_ZERO_BITS, y: F32_ZERO_BITS, z: F32_ZERO_BITS }
    }

    pub fn one() -> (r: Vector3)
        ensures
            r == Vector3::spec_one(),
    {
        Vector3 { x: F32_ONE_BITS, y: F32_ONE_BITS, z: F32_ONE_BITS }
    }
}

/// A value of the dynamic language, restricted to the closed set of tagged
/// shapes the bridge understands.  One variant stands for each host type the
/// marshaller supports, plus the plain scalars and strings that appear inside
/// option tables.
#[derive(Clone, Debug, PartialEq, Eq)]
pub enum DynValue {
    Nil,
    /// A scalar number, as the bit pattern of a single-precision float.
    Number(u32),
    Str(String),
    Vector(Vector3),
    Entity(LuaEntity),
    Transform(LuaTransform),
    Mesh(LuaMesh),
    MeshHandle(LuaMeshHandle),
}

/// An insertion-ordered mapping from name strings to dynamic values: the
/// bridge's model of a script-side table.  Reads return the first entry with
/// a matching key; bulk writes visit the entries in insertion order.
#[derive(Clone, Debug, PartialEq, Eq)]
pub struct PropertyBag {
    pub entries: Vec<(String, DynValue)>,
}

/// The first value bound to `key`, or `None` when no entry has that key.
pub open spec fn spec_bag_get(entries: Seq<(String, DynValue)>, key: Seq<char>) -> Option<
    DynValue,
>
    decreases entries.len(),
{
    if entries.len() == 0 {
        None
    } else if entries[0].0@ == key {
        Some(entries[0].1)
    } else {
        spec_bag_get(entries.drop_first(), key)
    }
}

/// Relies on str's `PartialEq`: two string slices are equal exactly when
/// their character sequences are equal.
#[verifier::external_body]
pub(crate) fn str_eq(a: &str, b: &str) -> (r: bool)
    ensures
        r == (a@ == b@),
{
    a == b
}

/// Compares an owned key against a literal name.
pub(crate) fn key_eq(a: &String, b: &str) -> (r: bool)
    ensures
        r == (a@ == b@),
{
    str_eq(a.as_str(), b)
}

impl PropertyBag {
    pub fn new() -> (r: PropertyBag)
        ensures
            r.entries@ =~= Seq::<(String, DynValue)>::empty(),
    {
        PropertyBag { entries: Vec::new() }
    }

    /// Appends an entry, keeping insertion order.
    pub fn push(&mut self, key: String, value: DynValue)
        ensures
            final(self).entries@ =~= old(self).entries@.push((key, value)),
    {
        self.entries.push((key, value));
    }

    /// Looks a key up, returning the first entry that carries it.
    pub fn get<'a>(&'a self, key: &str) -> (r: Option<&'a DynValue>)
        ensures
            match r {
                Some(v) => spec_bag_get(self.entries@, key@) == Some(*v),
                None => spec_bag_get(self.entries@, key@) is None,
            },
    {
        let n = self.entries.len();
        let mut i: usize = 0;
        proof {
            assert(self.entries@.skip(0) =~= self.entries@);
        }
        while i < n
            invariant
                n == self.entries@.len(),
                i <= n,
                spec_bag_get(self.entries@, key@) == spec_bag_get(
                    self.entries@.skip(i as int),
                    key@,
                ),
            decreases n - i,
        {
            let pair = &self.entries[i];
            proof {
                assert(self.entries@.skip(i as int)[0] == self.entries@[i as int]);
            }
            if key_eq(&pair.0, key) {
                return Some(&self.entries[i].1);
            }
            proof {
                assert(self.entries@.skip(i as int).drop_first() =~= self.entries@.skip(
                    i as int + 1,
                ));
            }
            i = i + 1;
        }
        proof {
            assert(self.entries@.skip(n as int).len() == 0);
        }
        None
    }
}

/// How a 3-vector is handed to the script: the tagged `Vector` shape.
pub open spec fn spec_vector_to_dynamic(v: Vector3) -> DynValue {
    DynValue::Vector(v)
}

pub fn vector_to_dynamic(v: Vector3) -> (r: DynValue)
    ensures
        r == spec_vector_to_dynamic(v),
{
    DynValue::Vector(v)
}

/// Reads a 3-vector back out of a dynamic value; any other shape is a
/// `TypeMismatch`.
pub open spec fn spec_vector_from_dynamic(v: DynValue) -> Result<Vector3, ScriptError> {
    match v {
        DynValue::Vector(x) => Ok(x),
        _ => Err(ScriptError::TypeMismatch),
    }
}

pub fn vector_from_dynamic(v: &DynValue) -> (r: Result<Vector3, ScriptError>)
    ensures
        r == spec_vector_from_dynamic(*v),
{
    match v {
        DynValue::Vector(x) => Ok(*x),
        _ => Err(ScriptError::TypeMismatch),
    }
}

pub open spec fn spec_entity_to_dynamic(e: LuaEntity) -> DynValue {
    DynValue::Entity(e)
}

pub fn entity_to_dynamic(e: LuaEntity) -> (r: DynValue)
    ensures
        r == spec_entity_to_dynamic(e),
{
    DynValue::Entity(e)
}

pub open spec fn spec_entity_from_dynamic(v: DynValue) -> Result<LuaEntity, ScriptError> {
    match v {
        DynValue::Entity(e) => Ok(e),
        _ => Err(ScriptError::TypeMismatch),
    }
}

pub fn entity_from_dynamic(v: &DynValue) -> (r: Result<LuaEntity, ScriptError>)
    ensures
        r == spec_entity_from_dynamic(*v),
{
    match v {
        DynValue::Entity(e) => Ok(*e),
        _ => Err(ScriptError::TypeMismatch),
    }
}

pub open spec fn spec_transform_to_dynamic(t: LuaTransform) -> DynValue {
    DynValue::Transform(t)
}

pub fn transform_to_dynamic(t: LuaTransform) -> (r: DynValue)
    ensures
        r == spec_transform_to_dynamic(t),
{
    DynValue::Transform(t)
}

pub open spec fn spec_transform_from_dynamic(v: DynValue) -> Result<LuaTransform, ScriptError> {
    match v {
        DynValue::Transform(t) => Ok(t),
        _ => Err(ScriptError::TypeMismatch),
    }
}

pub fn transform_from_dynamic(v: &DynValue) -> (r: Result<LuaTransform, ScriptError>)
    ensures
        r == spec_transform_from_dynamic(*v),
{
    match v {
        DynValue::Transform(t) => Ok(*t),
        _ => Err(ScriptError::TypeMismatch),
    }
}

pub open spec fn spec_mesh_to_dynamic(m: LuaMesh) -> DynValue {
    DynValue::Mesh(m)
}

pub fn mesh_to_dynamic(m: LuaMesh) -> (r: DynValue)
    ensures
        r == spec_mesh_to_dynamic(m),
{
    DynValue::Mesh(m)
}

pub open spec fn spec_mesh_from_dynamic(v: DynValue) -> Result<LuaMesh, ScriptError> {
    match v {
        DynValue::Mesh(m) => Ok(m),
        _ => Err(ScriptError::TypeMismatch),
    }
}

pub fn mesh_from_dynamic(v: &DynValue) -> (r: Result<LuaMesh, ScriptError>)
    ensures
        r == spec_mesh_from_dynamic(*v),
{
    match v {
        DynValue::Mesh(m) => Ok(*m),
        _ => Err(ScriptError::TypeMismatch),
    }
}

pub open spec fn spec_mesh_handle_to_dynamic(h: LuaMeshHandle) -> DynValue {
    DynValue::MeshHandle(h)
}

pub fn mesh_handle_to_dynamic(h: LuaMeshHandle) -> (r: DynValue)
    ensures
        r == spec_mesh_handle_to_dynamic(h),
{
    DynValue::MeshHandle(h)
}

pub open spec fn spec_mesh_handle_from_dynamic(v: DynValue) -> Result<LuaMeshHandle, ScriptError> {
    match v {
        DynValue::MeshHandle(h) => Ok(h),
        _ => Err(ScriptError::TypeMismatch),
    }
}

pub fn mesh_handle_from_dynamic(v: &DynValue) -> (r: Result<LuaMeshHandle, ScriptError>)
    ensures
        r == spec_mesh_handle_from_dynamic(*v),
{
    match v {
        DynValue::MeshHandle(h) => Ok(*h),
        _ => Err(ScriptError::TypeMismatch),
    }
}

/// Marshalling round-trip law for 3-vectors: converting a vector to a
/// dynamic value and back preserves it, and any dynamic value the reader
/// accepts is reproduced exactly by the writer.
pub proof fn lemma_vector_round_trip(x: Vector3, v: DynValue)
    ensures
        spec_vector_from_dynamic(spec_vector_to_dynamic(x)) == Ok::<Vector3, ScriptError>(x),
        spec_vector_from_dynamic(v) matches Ok(y) ==> spec_vector_to_dynamic(y) == v,
{
}

/// Marshalling round-trip law for entity handles.
pub proof fn lemma_entity_round_trip(x: LuaEntity, v: DynValue)
    ensures
        spec_entity_from_dynamic(spec_entity_to_dynamic(x)) == Ok::<LuaEntity, ScriptError>(x),
        spec_entity_from_dynamic(v) matches Ok(y) ==> spec_entity_to_dynamic(y) == v,
{
}

/// Marshalling round-trip law for transforms.  The transform's rotation is
/// carried as the same Euler-angle bit patterns in both directions, so the
/// round trip is exact.
pub proof fn lemma_transform_round_trip(x: LuaTransform, v: DynValue)
    ensures
        spec_transform_from_dynamic(spec_transform_to_dynamic(x)) == Ok::<
            LuaTransform,
            ScriptError,
        >(x),
        spec_transform_from_dynamic(v) matches Ok(y) ==> spec_transform_to_dynamic(y) == v,
{
}

/// Marshalling round-trip law for raw meshes.
pub proof fn lemma_mesh_round_trip(x: LuaMesh, v: DynValue)
    ensures
        spec_mesh_from_dynamic(spec_mesh_to_dynamic(x)) == Ok::<LuaMesh, ScriptError>(x),
        spec_mesh_from_dynamic(v) matches Ok(y) ==> spec_mesh_to_dynamic(y) == v,
{
}

/// Marshalling round-trip law for registered mesh handles.
pub proof fn lemma_mesh_handle_round_trip(x: LuaMeshHandle, v: DynValue)
    ensures
        spec_mesh_handle_from_dynamic(spec_mesh_handle_to_dynamic(x)) == Ok::<
            LuaMeshHandle,
            ScriptError,
        >(x),
        spec_mesh_handle_from_dynamic(v) matches Ok(y) ==> spec_mesh_handle_to_dynamic(y) == v,
{
}

} // verus!
