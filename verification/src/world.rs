use vstd::prelude::*;

use crate::engine::{RunState, ScriptComponent, ScriptingState};
use crate::entity::LuaEntity;
use crate::errors::ScriptError;
use crate::mesh::{LuaMesh, LuaMeshHandle, MeshData};
use crate::transform::{LuaTransform, Transform};
use crate::values::{
    key_eq, mesh_from_dynamic, spec_bag_get, spec_mesh_from_dynamic,
    spec_transform_from_dynamic, str_eq, transform_from_dynamic, DynValue, PropertyBag,
    F32_ONE_BITS,
};

verus! {

/// A material in the host's shared asset table.  The bridge only ever
/// creates one kind — an opaque white — whenever a mesh is attached to an
/// entity; the channels are single-precision bit patterns.
#[derive(Clone, Copy, Debug, PartialEq, Eq, Structural)]
pub struct MaterialData {
    pub red: u32,
    pub green: u32,
    pub blue: u32,
    pub alpha: u32,
}

impl MaterialData {
    /// Opaque white: every channel 1.0.
    pub open spec fn spec_white() -> MaterialData {
        MaterialData {
            red: F32_ONE_BITS,
            green: F32_ONE_BITS,
            blue: F32_ONE_BITS,
            alpha: F32_ONE_BITS,
        }
    }

    pub fn white() -> (r: MaterialData)
        ensures
            r == MaterialData::spec_white(),
    {
        MaterialData { red: F32_ONE_BITS, green: F32_ONE_BITS, blue: F32_ONE_BITS, alpha: F32_ONE_BITS }
    }
}

/// One row of the store: an entity together with the components the bridge
/// knows about and the entity's script lifecycle state.
pub struct EntityRecord {
    pub id: u64,
    pub transform: Option<Transform>,
    /// Handle into the store's mesh asset table, once a renderable bundle
    /// has been attached.
    pub mesh: Option<u64>,
    /// Handle into the store's material asset table, set together with
    /// `mesh`.
    pub material: Option<u64>,
    /// Present when external code has attached a script to this entity.
    pub script: Option<ScriptComponent>,
    pub run: RunState,
}

/// The abstract contents of the store, over which the contracts are stated.
#[verifier::ext_equal]
pub ghost struct WorldSnap {
    pub entities: Seq<EntityRecord>,
    pub meshes: Seq<MeshData>,
    pub materials: Seq<MaterialData>,
}

/// The bridge's model of the host's component and asset store: the rows the
/// proxy operations read and write, the shared mesh and material tables,
/// and the process-wide interpreter slot.
///
/// Invariant ([`WorldStore::wf`]): entity identifiers are pairwise distinct
/// and below the spawn counter, so a handle denotes at most one row.
pub struct WorldStore {
    pub entities: Vec<EntityRecord>,
    pub meshes: Vec<MeshData>,
    pub materials: Vec<MaterialData>,
    pub next_entity: u64,
    /// The single interpreter instance.  It is moved out before a batch of
    /// script invocations and moved back in afterwards, so no two phases
    /// ever hold it at once.
    pub interpreter: Option<ScriptingState>,
}

impl View for WorldStore {
    type V = WorldSnap;

    open spec fn view(&self) -> WorldSnap {
        WorldSnap { entities: self.entities@, meshes: self.meshes@, materials: self.materials@ }
    }
}

pub open spec fn spec_has_entity(entities: Seq<EntityRecord>, id: u64) -> bool {
    exists|i: int| 0 <= i < entities.len() && entities[i].id == id
}

/// The row index an entity identifier denotes.  Meaningful only under the
/// store invariant, which makes the index unique.
pub open spec fn spec_index_of(entities: Seq<EntityRecord>, id: u64) -> int {
    choose|i: int| 0 <= i < entities.len() && entities[i].id == id
}

pub open spec fn spec_unique_ids(entities: Seq<EntityRecord>) -> bool {
    forall|i: int, j: int|
        0 <= i < j < entities.len() ==> entities[i].id != entities[j].id
}

/// Under unique identifiers, any row holding `id` is the row
/// `spec_index_of` denotes.
pub proof fn lemma_index_unique(entities: Seq<EntityRecord>, i: int, id: u64)
    requires
        spec_unique_ids(entities),
        0 <= i < entities.len(),
        entities[i].id == id,
    ensures
        spec_has_entity(entities, id),
        spec_index_of(entities, id) == i,
{
    assert(spec_has_entity(entities, id));
    let j = spec_index_of(entities, id);
    assert(0 <= j < entities.len() && entities[j].id == id);
    if i < j {
        assert(entities[i].id != entities[j].id);
    } else if j < i {
        assert(entities[j].id != entities[i].id);
    }
}

/// Pointwise-equal identifiers carry the invariant across a write that
/// touches only other fields.
pub proof fn lemma_wf_from_ids(a: Seq<EntityRecord>, b: Seq<EntityRecord>, bound: u64)
    requires
        a.len() == b.len(),
        forall|i: int| 0 <= i < a.len() ==> a[i].id == b[i].id,
        spec_unique_ids(a),
        forall|i: int| 0 <= i < a.len() ==> a[i].id < bound,
    ensures
        spec_unique_ids(b),
        forall|i: int| 0 <= i < b.len() ==> b[i].id < bound,
{
    assert forall|i: int, j: int| 0 <= i < j < b.len() implies b[i].id != b[j].id by {
        assert(a[i].id == b[i].id);
        assert(a[j].id == b[j].id);
    }
    assert forall|i: int| 0 <= i < b.len() implies b[i].id < bound by {
        assert(a[i].id == b[i].id);
    }
}

/// What reading a component returns.  The readable names are the supported
/// component set {`Transform`, `Mesh`}: a transform comes back as the
/// tagged transform shape, a mesh as the handle of its registered slot.
/// Any other name is `UnknownComponent`; an entity that lacks the named
/// component — or is not in the store at all — yields `MissingComponent`.
pub open spec fn spec_get_component(w: WorldSnap, entity: LuaEntity, name: Seq<char>) -> Result<
    DynValue,
    ScriptError,
> {
    if name != "Transform"@ && name != "Mesh"@ {
        Err(ScriptError::UnknownComponent)
    } else if !spec_has_entity(w.entities, entity.0) {
        Err(ScriptError::MissingComponent)
    } else {
        let rec = w.entities[spec_index_of(w.entities, entity.0)];
        if name == "Transform"@ {
            match rec.transform {
                Some(t) => Ok(DynValue::Transform(LuaTransform(t))),
                None => Err(ScriptError::MissingComponent),
            }
        } else {
            match rec.mesh {
                Some(h) => Ok(DynValue::MeshHandle(LuaMeshHandle(h))),
                None => Err(ScriptError::MissingComponent),
            }
        }
    }
}

/// One bulk-write step on the row at `idx`.  The reserved key `entity` is
/// skipped; `Transform` is an insert-or-replace; `Mesh` registers the raw
/// mesh and a white material into the shared tables and attaches the pair
/// to the row, failing with `MissingComponent` when the row has no
/// transform yet; any other key is `UnknownComponent`.
pub open spec fn spec_apply_entry(
    w: WorldSnap,
    idx: int,
    key: Seq<char>,
    value: DynValue,
) -> Result<WorldSnap, ScriptError> {
    let rec = w.entities[idx];
    if key == "entity"@ {
        Ok(w)
    } else if key == "Transform"@ {
        match spec_transform_from_dynamic(value) {
            Ok(t) => Ok(
                WorldSnap {
                    entities: w.entities.update(
                        idx,
                        EntityRecord {
                            id: rec.id,
                            transform: Some(t.0),
                            mesh: rec.mesh,
                            material: rec.material,
                            script: rec.script,
                            run: rec.run,
                        },
                    ),
                    meshes: w.meshes,
                    materials: w.materials,
                },
            ),
            Err(e) => Err(e),
        }
    } else if key == "Mesh"@ {
        match spec_mesh_from_dynamic(value) {
            Ok(m) => match rec.transform {
                None => Err(ScriptError::MissingComponent),
                Some(_) => Ok(
                    WorldSnap {
                        entities: w.entities.update(
                            idx,
                            EntityRecord {
                                id: rec.id,
                                transform: rec.transform,
                                mesh: Some(w.meshes.len() as u64),
                                material: Some(w.materials.len() as u64),
                                script: rec.script,
                                run: rec.run,
                            },
                        ),
                        meshes: w.meshes.push(m.0),
                        materials: w.materials.push(MaterialData::spec_white()),
                    },
                ),
            },
            Err(e) => Err(e),
        }
    } else {
        Err(ScriptError::UnknownComponent)
    }
}

/// Applying a bag to the row at `idx`, entry by entry in insertion order.
/// The write is apply-then-fail, not atomic: on the first failing entry the
/// store keeps everything the earlier entries already did and the error is
/// reported.
pub open spec fn spec_apply_bag(
    w: WorldSnap,
    idx: int,
    entries: Seq<(String, DynValue)>,
) -> (WorldSnap, Result<(), ScriptError>)
    decreases entries.len(),
{
    if entries.len() == 0 {
        (w, Ok(()))
    } else {
        match spec_apply_entry(w, idx, entries[0].0@, entries[0].1) {
            Ok(w2) => spec_apply_bag(w2, idx, entries.drop_first()),
            Err(e) => (w, Err(e)),
        }
    }
}

/// The whole bulk write: the bag must bind the reserved key `entity` to the
/// target entity's handle (else `TypeMismatch`), the target must be in the
/// store (else `MissingComponent`), and then the entries are applied in
/// insertion order.
pub open spec fn spec_set_components(w: WorldSnap, bag: PropertyBag) -> (WorldSnap, Result<
    (),
    ScriptError,
>) {
    match spec_bag_get(bag.entries@, "entity"@) {
        Some(DynValue::Entity(e)) => if spec_has_entity(w.entities, e.0) {
            spec_apply_bag(w, spec_index_of(w.entities, e.0), bag.entries@)
        } else {
            (w, Err(ScriptError::MissingComponent))
        },
        Some(_) => (w, Err(ScriptError::TypeMismatch)),
        None => (w, Err(ScriptError::TypeMismatch)),
    }
}

impl WorldStore {
    /// The store invariant: entity identifiers are pairwise distinct and
    /// below the spawn counter.
    pub open spec fn wf(self) -> bool {
        &&& spec_unique_ids(self.entities@)
        &&& forall|i: int|
            0 <= i < self.entities@.len() ==> self.entities@[i].id < self.next_entity
    }

    pub fn new() -> (r: WorldStore)
        ensures
            r.wf(),
            r@.entities.len() == 0,
            r@.meshes.len() == 0,
            r@.materials.len() == 0,
            r.next_entity == 0,
            r.interpreter is None,
    {
        WorldStore {
            entities: Vec::new(),
            meshes: Vec::new(),
            materials: Vec::new(),
            next_entity: 0,
            interpreter: None,
        }
    }

    /// The first row holding `id`, if any.
    pub(crate) fn find_entity(&self, id: u64) -> (r: Option<usize>)
        ensures
            match r {
                Some(i) => i < self.entities@.len() && self.entities@[i as int].id == id,
                None => !spec_has_entity(self.entities@, id),
            },
    {
        let n = self.entities.len();
        let mut i: usize = 0;
        while i < n
            invariant
                n == self.entities@.len(),
                i <= n,
                forall|j: int| 0 <= j < i ==> self.entities@[j].id != id,
            decreases n - i,
        {
            if self.entities[i].id == id {
                return Some(i);
            }
            i = i + 1;
        }
        None
    }

    /// Moves the interpreter out of the store for a batch of script
    /// invocations.  The slot is empty afterwards, so no second borrower
    /// can take it until it is put back.
    pub fn take_interpreter(&mut self) -> (r: Option<ScriptingState>)
        ensures
            final(self).interpreter is None,
            r == old(self).interpreter,
            final(self).entities == old(self).entities,
            final(self).meshes == old(self).meshes,
            final(self).materials == old(self).materials,
            final(self).next_entity == old(self).next_entity,
    {
        self.interpreter.take()
    }

    /// Puts the interpreter back after a batch.
    pub fn put_interpreter(&mut self, state: ScriptingState)
        ensures
            final(self).interpreter == Some(state),
            final(self).entities == old(self).entities,
            final(self).meshes == old(self).meshes,
            final(self).materials == old(self).materials,
            final(self).next_entity == old(self).next_entity,
    {
        self.interpreter = Some(state);
    }

    /// Allocates a fresh, component-less entity and returns its handle.
    /// Never fails (short of the spawn counter running out).
    pub fn new_entity(&mut self) -> (r: LuaEntity)
        requires
            old(self).wf(),
            old(self).next_entity < u64::MAX,
        ensures
            final(self).wf(),
            r.0 == old(self).next_entity,
            !spec_has_entity(old(self).entities@, r.0),
            final(self).entities@ =~= old(self).entities@.push(
                EntityRecord {
                    id: r.0,
                    transform: None,
                    mesh: None,
                    material: None,
                    script: None,
                    run: RunState::NotStarted,
                },
            ),
            final(self).next_entity == old(self).next_entity + 1,
            final(self).meshes == old(self).meshes,
            final(self).materials == old(self).materials,
            final(self).interpreter == old(self).interpreter,
    {
        let id = self.next_entity;
        self.next_entity = self.next_entity + 1;
        self.entities.push(
            EntityRecord {
                id,
                transform: None,
                mesh: None,
                material: None,
                script: None,
                run: RunState::NotStarted,
            },
        );
        LuaEntity(id)
    }

    /// Copies the raw mesh's current contents into the shared mesh asset
    /// table and returns the new slot's handle.  The raw mesh stays usable;
    /// because the contents are copied, later changes to it do not reach
    /// the registered slot.
    pub fn add_mesh(&mut self, mesh: &LuaMesh) -> (r: LuaMeshHandle)
        requires
            old(self).wf(),
        ensures
            final(self).wf(),
            r.0 as int == old(self).meshes@.len(),
            final(self).meshes@ =~= old(self).meshes@.push(mesh.0),
            final(self).meshes@[r.0 as int] == mesh.0,
            final(self).entities == old(self).entities,
            final(self).materials == old(self).materials,
            final(self).next_entity == old(self).next_entity,
            final(self).interpreter == old(self).interpreter,
    {
        let handle = self.meshes.len() as u64;
        self.meshes.push(mesh.0);
        LuaMeshHandle(handle)
    }

    /// Reads one named component of an entity, marshalled for the script.
    pub fn get_component(&self, entity: LuaEntity, name: &str) -> (r: Result<
        DynValue,
        ScriptError,
    >)
        requires
            self.wf(),
        ensures
            r == spec_get_component(self@, entity, name@),
    {
        let is_transform = str_eq(name, "Transform");
        let is_mesh = str_eq(name, "Mesh");
        if !is_transform && !is_mesh {
            return Err(ScriptError::UnknownComponent);
        }
        match self.find_entity(entity.0) {
            None => Err(ScriptError::MissingComponent),
            Some(i) => {
                proof {
                    lemma_index_unique(self.entities@, i as int, entity.0);
                }
                if is_transform {
                    match &self.entities[i].transform {
                        Some(t) => Ok(DynValue::Transform(LuaTransform(*t))),
                        None => Err(ScriptError::MissingComponent),
                    }
                } else {
                    match &self.entities[i].mesh {
                        Some(h) => Ok(DynValue::MeshHandle(LuaMeshHandle(*h))),
                        None => Err(ScriptError::MissingComponent),
                    }
                }
            },
        }
    }

    /// Applies a property bag to its target entity, entry by entry in
    /// insertion order; see [`spec_set_components`] for the exact meaning.
    /// The write is apply-then-fail: entries before a failing one stay
    /// applied.
    pub fn set_components(&mut self, properties: &PropertyBag) -> (r: Result<(), ScriptError>)
        requires
            old(self).wf(),
        ensures
            final(self).wf(),
            (final(self)@, r) == spec_set_components(old(self)@, *properties),
            final(self).next_entity == old(self).next_entity,
            final(self).interpreter == old(self).interpreter,
    {
        let target = match properties.get("entity") {
            Some(v) => match v {
                DynValue::Entity(e) => *e,
                _ => {
                    return Err(ScriptError::TypeMismatch);
                },
            },
            None => {
                return Err(ScriptError::TypeMismatch);
            },
        };
        let idx = match self.find_entity(target.0) {
            Some(i) => i,
            None => {
                return Err(ScriptError::MissingComponent);
            },
        };
        proof {
            lemma_index_unique(self.entities@, idx as int, target.0);
            assert(spec_bag_get(properties.entries@, "entity"@) == Some(
                DynValue::Entity(target),
            ));
            assert(spec_has_entity(self@.entities, target.0));
            assert(spec_index_of(self@.entities, target.0) == idx as int);
        }
        let ghost w0 = self@;
        let n = properties.entries.len();
        let mut k: usize = 0;
        proof {
            assert(properties.entries@.skip(0) =~= properties.entries@);
        }
        while k < n
            invariant
                old(self).wf(),
                w0 == old(self)@,
                n == properties.entries@.len(),
                k <= n,
                idx < self.entities@.len(),
                self.entities@.len() == w0.entities.len(),
                forall|i: int|
                    0 <= i < self.entities@.len() ==> self.entities@[i].id == w0.entities[i].id,
                self.next_entity == old(self).next_entity,
                self.interpreter == old(self).interpreter,
                spec_bag_get(properties.entries@, "entity"@) == Some(DynValue::Entity(target)),
                spec_has_entity(w0.entities, target.0),
                spec_index_of(w0.entities, target.0) == idx as int,
                spec_apply_bag(w0, idx as int, properties.entries@) == spec_apply_bag(
                    self@,
                    idx as int,
                    properties.entries@.skip(k as int),
                ),
            decreases n - k,
        {
            let ghost pre = self@;
            let ghost rest = properties.entries@.skip(k as int);
            proof {
                assert(rest[0] == properties.entries@[k as int]);
                assert(rest.drop_first() =~= properties.entries@.skip(k as int + 1));
            }
            let pair = &properties.entries[k];
            if key_eq(&pair.0, "entity") {
                // reserved key: identifies the target, skipped here
            } else if key_eq(&pair.0, "Transform") {
                match transform_from_dynamic(&pair.1) {
                    Ok(t) => {
                        let rec = &mut self.entities[idx];
                        rec.transform = Some(t.0);
                        proof {
                            assert(spec_apply_entry(pre, idx as int, rest[0].0@, rest[0].1)
                                == Ok::<WorldSnap, ScriptError>(self@)) by {
                                assert(self@.entities =~= pre.entities.update(
                                    idx as int,
                                    EntityRecord {
                                        id: pre.entities[idx as int].id,
                                        transform: Some(t.0),
                                        mesh: pre.entities[idx as int].mesh,
                                        material: pre.entities[idx as int].material,
                                        script: pre.entities[idx as int].script,
                                        run: pre.entities[idx as int].run,
                                    },
                                ));
                            }
                        }
                    },
                    Err(e) => {
                        proof {
                            lemma_wf_from_ids(
                                old(self).entities@,
                                self.entities@,
                                old(self).next_entity,
                            );
                        }
                        return Err(e);
                    },
                }
            } else if key_eq(&pair.0, "Mesh") {
                match mesh_from_dynamic(&pair.1) {
                    Ok(m) => {
                        let has_transform = match &self.entities[idx].transform {
                            Some(_) => true,
                            None => false,
                        };
                        if !has_transform {
                            proof {
                                lemma_wf_from_ids(
                                    old(self).entities@,
                                    self.entities@,
                                    old(self).next_entity,
                                );
                            }
                            return Err(ScriptError::MissingComponent);
                        }
                        let mesh_handle = self.meshes.len() as u64;
                        self.meshes.push(m.0);
                        let material_handle = self.materials.len() as u64;
                        self.materials.push(MaterialData::white());
                        let rec = &mut self.entities[idx];
                        rec.mesh = Some(mesh_handle);
                        rec.material = Some(material_handle);
                        proof {
                            assert(spec_apply_entry(pre, idx as int, rest[0].0@, rest[0].1)
                                == Ok::<WorldSnap, ScriptError>(self@)) by {
                                assert(self@.entities =~= pre.entities.update(
                                    idx as int,
                                    EntityRecord {
                                        id: pre.entities[idx as int].id,
                                        transform: pre.entities[idx as int].transform,
                                        mesh: Some(pre.meshes.len() as u64),
                                        material: Some(pre.materials.len() as u64),
                                        script: pre.entities[idx as int].script,
                                        run: pre.entities[idx as int].run,
                                    },
                                ));
                                assert(self@.meshes =~= pre.meshes.push(m.0));
                                assert(self@.materials =~= pre.materials.push(
                                    MaterialData::spec_white(),
                                ));
                            }
                        }
                    },
                    Err(e) => {
                        proof {
                            lemma_wf_from_ids(
                                old(self).entities@,
                                self.entities@,
                                old(self).next_entity,
                            );
                        }
                        return Err(e);
                    },
                }
            } else {
                proof {
                    lemma_wf_from_ids(old(self).entities@, self.entities@, old(self).next_entity);
                }
                return Err(ScriptError::UnknownComponent);
            }
            k = k + 1;
        }
        proof {
            assert(properties.entries@.skip(n as int).len() == 0);
            lemma_wf_from_ids(old(self).entities@, self.entities@, old(self).next_entity);
        }
        Ok(())
    }
}

/// The three names the bulk write treats specially are pairwise distinct.
proof fn lemma_component_keys_distinct()
    ensures
        "Mesh"@ != "entity"@,
        "Mesh"@ != "Transform"@,
        "Transform"@ != "entity"@,
{
    reveal_strlit("Mesh");
    reveal_strlit("entity");
    reveal_strlit("Transform");
    assert("Mesh"@.len() == 4);
    assert("entity"@.len() == 6);
    assert("Transform"@.len() == 9);
}

/// Idempotent-read law: reading a component takes the store by shared
/// reference and its result is a function of the store alone, so two reads
/// in succession with no intervening write return equal values.
pub proof fn lemma_get_component_idempotent(w: WorldSnap, entity: LuaEntity, name: Seq<char>)
    ensures
        spec_get_component(w, entity, name) == spec_get_component(w, entity, name),
{
}

/// Dependency-ordering law, failing half: a bag whose component entry is a
/// mesh, applied to a row that has no transform, fails with
/// `MissingComponent` and leaves the store as it was.
pub proof fn lemma_mesh_needs_transform(w: WorldSnap, idx: int, key: String, m: LuaMesh)
    requires
        0 <= idx < w.entities.len(),
        w.entities[idx].transform is None,
        key@ == "Mesh"@,
    ensures
        spec_apply_bag(w, idx, seq![(key, DynValue::Mesh(m))]) == (
            w,
            Err::<(), ScriptError>(ScriptError::MissingComponent),
        ),
{
    lemma_component_keys_distinct();
    let entries = seq![(key, DynValue::Mesh(m))];
    assert(entries[0].0@ == "Mesh"@);
    assert(spec_apply_entry(w, idx, entries[0].0@, entries[0].1) == Err::<
        WorldSnap,
        ScriptError,
    >(ScriptError::MissingComponent));
}

/// Dependency-ordering law, succeeding half: because a bag is applied in
/// insertion order, a `Transform` entry earlier in the same bag satisfies
/// the `Mesh` entry's dependency, and the whole write succeeds with both
/// the transform and a fresh mesh handle on the row.
pub proof fn lemma_transform_then_mesh(
    w: WorldSnap,
    idx: int,
    key_t: String,
    t: LuaTransform,
    key_m: String,
    m: LuaMesh,
)
    requires
        0 <= idx < w.entities.len(),
        key_t@ == "Transform"@,
        key_m@ == "Mesh"@,
    ensures
        ({
            let r = spec_apply_bag(
                w,
                idx,
                seq![(key_t, DynValue::Transform(t)), (key_m, DynValue::Mesh(m))],
            );
            &&& r.1 is Ok
            &&& r.0.entities[idx].transform == Some(t.0)
            &&& r.0.entities[idx].mesh == Some(w.meshes.len() as u64)
            &&& r.0.meshes =~= w.meshes.push(m.0)
        }),
{
    lemma_component_keys_distinct();
    let entries = seq![(key_t, DynValue::Transform(t)), (key_m, DynValue::Mesh(m))];
    let rec0 = w.entities[idx];
    let rec1 = EntityRecord {
        id: rec0.id,
        transform: Some(t.0),
        mesh: rec0.mesh,
        material: rec0.material,
        script: rec0.script,
        run: rec0.run,
    };
    let w1 = WorldSnap {
        entities: w.entities.update(idx, rec1),
        meshes: w.meshes,
        materials: w.materials,
    };
    assert(entries[0].0@ == "Transform"@);
    assert(spec_apply_entry(w, idx, entries[0].0@, entries[0].1) == Ok::<WorldSnap, ScriptError>(
        w1,
    ));
    let e1 = entries.drop_first();
    assert(e1 =~= seq![(key_m, DynValue::Mesh(m))]);
    assert(e1[0].0@ == "Mesh"@);
    assert(w1.entities[idx] == rec1);
    let rec2 = EntityRecord {
        id: rec1.id,
        transform: rec1.transform,
        mesh: Some(w1.meshes.len() as u64),
        material: Some(w1.materials.len() as u64),
        script: rec1.script,
        run: rec1.run,
    };
    let w2 = WorldSnap {
        entities: w1.entities.update(idx, rec2),
        meshes: w1.meshes.push(m.0),
        materials: w1.materials.push(MaterialData::spec_white()),
    };
    assert(spec_apply_entry(w1, idx, e1[0].0@, e1[0].1) == Ok::<WorldSnap, ScriptError>(w2));
    assert(e1.drop_first().len() == 0);
    assert(spec_apply_bag(w2, idx, e1.drop_first()) == (w2, Ok::<(), ScriptError>(())));
    assert(spec_apply_bag(w1, idx, e1) == (w2, Ok::<(), ScriptError>(())));
    assert(spec_apply_bag(w, idx, entries) == (w2, Ok::<(), ScriptError>(())));
    assert(w2.entities[idx] == rec2);
}

/// Apply-then-fail, in general position: if the first `k` entries of a bag
/// apply cleanly and entry `k` fails, the whole write reports that entry's
/// error and keeps exactly the state the earlier entries produced.
pub proof fn lemma_apply_bag_fails_at(
    w: WorldSnap,
    idx: int,
    entries: Seq<(String, DynValue)>,
    k: int,
)
    requires
        0 <= k < entries.len(),
        spec_apply_bag(w, idx, entries.take(k)).1 is Ok,
    ensures
        ({
            let prefix = spec_apply_bag(w, idx, entries.take(k));
            let step = spec_apply_entry(prefix.0, idx, entries[k].0@, entries[k].1);
            step matches Err(e) ==> spec_apply_bag(w, idx, entries) == (
                prefix.0,
                Err::<(), ScriptError>(e),
            )
        }),
    decreases k,
{
    if k == 0 {
        assert(entries.take(0).len() == 0);
    } else {
        assert(entries.take(k)[0] == entries[0]);
        let step0 = spec_apply_entry(w, idx, entries[0].0@, entries[0].1);
        match step0 {
            Err(_) => {
                assert(spec_apply_bag(w, idx, entries.take(k)).1 is Err);
            },
            Ok(w1) => {
                assert(entries.take(k).drop_first() =~= entries.drop_first().take(k - 1));
                assert(spec_apply_bag(w, idx, entries.take(k)) == spec_apply_bag(
                    w1,
                    idx,
                    entries.drop_first().take(k - 1),
                ));
                assert(entries.drop_first()[k - 1] == entries[k]);
                lemma_apply_bag_fails_at(w1, idx, entries.drop_first(), k - 1);
                assert(spec_apply_bag(w, idx, entries) == spec_apply_bag(
                    w1,
                    idx,
                    entries.drop_first(),
                ));
            },
        }
    }
}

/// Dependency-ordering law in general position: wherever a mesh entry
/// stands in a bag, if the entries before it apply cleanly but leave the
/// row without a transform, the write fails with `MissingComponent` and
/// keeps exactly what the earlier entries did.
pub proof fn lemma_mesh_needs_transform_at(
    w: WorldSnap,
    idx: int,
    entries: Seq<(String, DynValue)>,
    k: int,
)
    requires
        0 <= k < entries.len(),
        entries[k].0@ == "Mesh"@,
        spec_mesh_from_dynamic(entries[k].1) is Ok,
        spec_apply_bag(w, idx, entries.take(k)).1 is Ok,
        spec_apply_bag(w, idx, entries.take(k)).0.entities[idx].transform is None,
    ensures
        spec_apply_bag(w, idx, entries) == (
            spec_apply_bag(w, idx, entries.take(k)).0,
            Err::<(), ScriptError>(ScriptError::MissingComponent),
        ),
{
    lemma_component_keys_distinct();
    lemma_apply_bag_fails_at(w, idx, entries, k);
    let prefix = spec_apply_bag(w, idx, entries.take(k));
    assert(spec_apply_entry(prefix.0, idx, entries[k].0@, entries[k].1) == Err::<
        WorldSnap,
        ScriptError,
    >(ScriptError::MissingComponent));
}

/// Unknown-key law in general position: wherever an unsupported name
/// stands in a bag, if the entries before it apply cleanly the write fails
/// with `UnknownComponent` and keeps exactly what the earlier entries did
/// — the apply-then-fail policy, quantified over the whole bag.
pub proof fn lemma_unknown_key_rejected_at(
    w: WorldSnap,
    idx: int,
    entries: Seq<(String, DynValue)>,
    k: int,
)
    requires
        0 <= k < entries.len(),
        entries[k].0@ != "entity"@,
        entries[k].0@ != "Transform"@,
        entries[k].0@ != "Mesh"@,
        spec_apply_bag(w, idx, entries.take(k)).1 is Ok,
    ensures
        spec_apply_bag(w, idx, entries) == (
            spec_apply_bag(w, idx, entries.take(k)).0,
            Err::<(), ScriptError>(ScriptError::UnknownComponent),
        ),
{
    lemma_apply_bag_fails_at(w, idx, entries, k);
    let prefix = spec_apply_bag(w, idx, entries.take(k));
    assert(spec_apply_entry(prefix.0, idx, entries[k].0@, entries[k].1) == Err::<
        WorldSnap,
        ScriptError,
    >(ScriptError::UnknownComponent));
}

/// Unknown-key law: a bag entry whose name is outside the supported set
/// fails the write with `UnknownComponent`; and because the write is
/// apply-then-fail, an earlier `Transform` entry in the same bag has
/// already been applied and stays applied.
pub proof fn lemma_unknown_key_apply_then_fail(
    w: WorldSnap,
    idx: int,
    key_t: String,
    t: LuaTransform,
    key_u: String,
    v: DynValue,
)
    requires
        0 <= idx < w.entities.len(),
        key_t@ == "Transform"@,
        key_u@ != "entity"@,
        key_u@ != "Transform"@,
        key_u@ != "Mesh"@,
    ensures
        ({
            let r = spec_apply_bag(
                w,
                idx,
                seq![(key_t, DynValue::Transform(t)), (key_u, v)],
            );
            &&& r.1 == Err::<(), ScriptError>(ScriptError::UnknownComponent)
            &&& r.0.entities[idx].transform == Some(t.0)
        }),
{
    lemma_component_keys_distinct();
    let entries = seq![(key_t, DynValue::Transform(t)), (key_u, v)];
    let rec0 = w.entities[idx];
    let rec1 = EntityRecord {
        id: rec0.id,
        transform: Some(t.0),
        mesh: rec0.mesh,
        material: rec0.material,
        script: rec0.script,
        run: rec0.run,
    };
    let w1 = WorldSnap {
        entities: w.entities.update(idx, rec1),
        meshes: w.meshes,
        materials: w.materials,
    };
    assert(entries[0].0@ == "Transform"@);
    assert(spec_apply_entry(w, idx, entries[0].0@, entries[0].1) == Ok::<WorldSnap, ScriptError>(
        w1,
    ));
    let e1 = entries.drop_first();
    assert(e1 =~= seq![(key_u, v)]);
    assert(e1[0].0@ == key_u@);
    assert(spec_apply_entry(w1, idx, e1[0].0@, e1[0].1) == Err::<WorldSnap, ScriptError>(
        ScriptError::UnknownComponent,
    ));
    assert(spec_apply_bag(w1, idx, e1) == (w1, Err::<(), ScriptError>(
        ScriptError::UnknownComponent,
    )));
    assert(spec_apply_bag(w, idx, entries) == (w1, Err::<(), ScriptError>(
        ScriptError::UnknownComponent,
    )));
    assert(w1.entities[idx] == rec1);
}

} // verus!

verus! {

/// The proxy capability object handed to scripts: an exclusive, scoped loan
/// of the world store, constructed fresh inside one entry-point call and
/// dropped with it, so no script can retain world access across calls.
/// Each operation forwards to the store it borrows.
pub struct LuaWorld<'world> {
    pub world: &'world mut WorldStore,
}

impl<'world> LuaWorld<'world> {
    pub fn new(world: &'world mut WorldStore) -> LuaWorld<'world> {
        LuaWorld { world }
    }

    /// Reads one named component of an entity; see
    /// [`WorldStore::get_component`].
    pub fn get_component(&self, entity: LuaEntity, name: &str) -> (r: Result<
        DynValue,
        ScriptError,
    >)
        requires
            self.world.wf(),
        ensures
            r == spec_get_component(old(self.world)@, entity, name@),
    {
        self.world.get_component(entity, name)
    }

    /// Applies a property bag to its target entity; see
    /// [`WorldStore::set_components`].
    pub fn set_components(&mut self, properties: &PropertyBag) -> (r: Result<(), ScriptError>)
        requires
            old(self).world.wf(),
        ensures
            final(self).world.wf(),
            (final(self).world@, r) == spec_set_components(old(self).world@, *properties),
            final(self).world.next_entity == old(self).world.next_entity,
            final(self).world.interpreter == old(self).world.interpreter,
    {
        self.world.set_components(properties)
    }

    /// Registers a raw mesh into the shared asset table; see
    /// [`WorldStore::add_mesh`].
    pub fn add_mesh(&mut self, mesh: &LuaMesh) -> (r: LuaMeshHandle)
        requires
            old(self).world.wf(),
        ensures
            final(self).world.wf(),
            r.0 as int == old(self).world.meshes@.len(),
            final(self).world.meshes@ =~= old(self).world.meshes@.push(mesh.0),
            final(self).world.meshes@[r.0 as int] == mesh.0,
            final(self).world.entities == old(self).world.entities,
            final(self).world.materials == old(self).world.materials,
            final(self).world.next_entity == old(self).world.next_entity,
            final(self).world.interpreter == old(self).world.interpreter,
    {
        self.world.add_mesh(mesh)
    }

    /// Allocates a fresh, component-less entity; see
    /// [`WorldStore::new_entity`].
    pub fn new_entity(&mut self) -> (r: LuaEntity)
        requires
            old(self).world.wf(),
            old(self).world.next_entity < u64::MAX,
        ensures
            final(self).world.wf(),
            r.0 == old(self).world.next_entity,
            !spec_has_entity(old(self).world.entities@, r.0),
            final(self).world.entities@ =~= old(self).world.entities@.push(
                EntityRecord {
                    id: r.0,
                    transform: None,
                    mesh: None,
                    material: None,
                    script: None,
                    run: RunState::NotStarted,
                },
            ),
            final(self).world.next_entity == old(self).world.next_entity + 1,
            final(self).world.meshes == old(self).world.meshes,
            final(self).world.materials == old(self).world.materials,
            final(self).world.interpreter == old(self).world.interpreter,
    {
        self.world.new_entity()
    }
}

} // verus!
