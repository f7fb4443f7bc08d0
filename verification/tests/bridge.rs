use script_bridge::entity::LuaEntity;
use script_bridge::errors::ScriptError;
use script_bridge::mesh::{primitive_constructor, LuaMesh, LuaMeshHandle, MeshData};
use script_bridge::transform::{transform_constructor, LuaTransform, Transform};
use script_bridge::values::{
    entity_from_dynamic, entity_to_dynamic, mesh_from_dynamic, mesh_handle_from_dynamic,
    mesh_handle_to_dynamic, mesh_to_dynamic, transform_from_dynamic, transform_to_dynamic,
    vector_from_dynamic, vector_to_dynamic, DynValue, PropertyBag, Vector3,
};
use script_bridge::world::WorldStore;

fn vec3(x: f32, y: f32, z: f32) -> Vector3 {
    Vector3 { x: x.to_bits(), y: y.to_bits(), z: z.to_bits() }
}

fn sample_transform() -> LuaTransform {
    LuaTransform(Transform {
        position: vec3(1.0, 2.0, 3.0),
        rotation: vec3(0.1, 0.2, 0.3),
        scale: vec3(2.0, 2.0, 2.0),
    })
}

#[test]
fn vector_round_trip() {
    let v = vec3(1.5, -2.25, 0.0);
    assert_eq!(vector_from_dynamic(&vector_to_dynamic(v)), Ok(v));
}

#[test]
fn entity_round_trip() {
    let e = LuaEntity(42);
    assert_eq!(entity_from_dynamic(&entity_to_dynamic(e)), Ok(e));
}

#[test]
fn transform_round_trip() {
    let t = sample_transform();
    assert_eq!(transform_from_dynamic(&transform_to_dynamic(t)), Ok(t));
}

#[test]
fn mesh_round_trip() {
    let m = LuaMesh(MeshData::Cuboid { half_size: vec3(0.5, 0.5, 0.5) });
    assert_eq!(mesh_from_dynamic(&mesh_to_dynamic(m)), Ok(m));
}

#[test]
fn mesh_handle_round_trip() {
    let h = LuaMeshHandle(9);
    assert_eq!(mesh_handle_from_dynamic(&mesh_handle_to_dynamic(h)), Ok(h));
}

#[test]
fn from_dynamic_rejects_wrong_shape() {
    assert_eq!(vector_from_dynamic(&DynValue::Nil), Err(ScriptError::TypeMismatch));
    assert_eq!(
        entity_from_dynamic(&DynValue::Number(1.0f32.to_bits())),
        Err(ScriptError::TypeMismatch)
    );
    assert_eq!(
        transform_from_dynamic(&DynValue::Vector(vec3(0.0, 0.0, 0.0))),
        Err(ScriptError::TypeMismatch)
    );
    assert_eq!(mesh_from_dynamic(&DynValue::Entity(LuaEntity(1))), Err(ScriptError::TypeMismatch));
    assert_eq!(
        mesh_handle_from_dynamic(&DynValue::Mesh(LuaMesh(MeshData::Cuboid {
            half_size: vec3(1.0, 1.0, 1.0),
        }))),
        Err(ScriptError::TypeMismatch)
    );
}

#[test]
fn property_bag_get_returns_first_match() {
    let mut bag = PropertyBag::new();
    bag.push("a".to_string(), DynValue::Number(1.0f32.to_bits()));
    bag.push("b".to_string(), DynValue::Number(2.0f32.to_bits()));
    bag.push("a".to_string(), DynValue::Number(3.0f32.to_bits()));
    assert_eq!(bag.get("a"), Some(&DynValue::Number(1.0f32.to_bits())));
    assert_eq!(bag.get("b"), Some(&DynValue::Number(2.0f32.to_bits())));
    assert_eq!(bag.get("c"), None);
}

#[test]
fn constructor_defaults() {
    let t = transform_constructor(&PropertyBag::new());
    assert_eq!(t.0.position, vec3(0.0, 0.0, 0.0));
    assert_eq!(t.0.rotation, vec3(0.0, 0.0, 0.0));
    assert_eq!(t.0.scale, vec3(1.0, 1.0, 1.0));
    assert_eq!(t.0, Transform::default());
}

#[test]
fn constructor_reads_recognized_keys() {
    let mut bag = PropertyBag::new();
    bag.push("position".to_string(), DynValue::Vector(vec3(1.0, 2.0, 3.0)));
    bag.push("rotation".to_string(), DynValue::Vector(vec3(0.0, 0.5, 0.0)));
    let t = transform_constructor(&bag);
    assert_eq!(t.0.position, vec3(1.0, 2.0, 3.0));
    assert_eq!(t.0.rotation, vec3(0.0, 0.5, 0.0));
    assert_eq!(t.0.scale, vec3(1.0, 1.0, 1.0));
}

#[test]
fn constructor_ignores_ill_shaped_and_unknown_keys() {
    let mut bag = PropertyBag::new();
    bag.push("position".to_string(), DynValue::Number(1.0f32.to_bits()));
    bag.push("color".to_string(), DynValue::Vector(vec3(1.0, 0.0, 0.0)));
    let t = transform_constructor(&bag);
    assert_eq!(t.0, Transform::default());
}

#[test]
fn transform_accessors() {
    let t = sample_transform();
    assert_eq!(t.position(), vec3(1.0, 2.0, 3.0));
    assert_eq!(t.rotation(), vec3(0.1, 0.2, 0.3));
    assert_eq!(t.scale(), vec3(2.0, 2.0, 2.0));
}

#[test]
fn primitive_constructor_builds_cuboid() {
    let mut bag = PropertyBag::new();
    bag.push("type".to_string(), DynValue::Str("Cuboid".to_string()));
    bag.push("half_size".to_string(), DynValue::Vector(vec3(0.5, 1.0, 0.5)));
    assert_eq!(
        primitive_constructor(&bag),
        Ok(LuaMesh(MeshData::Cuboid { half_size: vec3(0.5, 1.0, 0.5) }))
    );
}

#[test]
fn primitive_constructor_rejects_unknown_primitive() {
    let mut bag = PropertyBag::new();
    bag.push("type".to_string(), DynValue::Str("Sphere".to_string()));
    bag.push("half_size".to_string(), DynValue::Vector(vec3(0.5, 0.5, 0.5)));
    assert_eq!(primitive_constructor(&bag), Err(ScriptError::ScriptRuntimeError));
}

#[test]
fn primitive_constructor_rejects_missing_fields() {
    let empty = PropertyBag::new();
    assert_eq!(primitive_constructor(&empty), Err(ScriptError::TypeMismatch));
    let mut no_half_size = PropertyBag::new();
    no_half_size.push("type".to_string(), DynValue::Str("Cuboid".to_string()));
    assert_eq!(primitive_constructor(&no_half_size), Err(ScriptError::TypeMismatch));
}

#[test]
fn get_component_reads_transform() {
    let mut world = WorldStore::new();
    let e = world.new_entity();
    let t = sample_transform();
    let mut bag = PropertyBag::new();
    bag.push("entity".to_string(), DynValue::Entity(e));
    bag.push("Transform".to_string(), DynValue::Transform(t));
    assert_eq!(world.set_components(&bag), Ok(()));
    assert_eq!(world.get_component(e, "Transform"), Ok(DynValue::Transform(t)));
}

#[test]
fn get_component_is_idempotent() {
    let mut world = WorldStore::new();
    let e = world.new_entity();
    let mut bag = PropertyBag::new();
    bag.push("entity".to_string(), DynValue::Entity(e));
    bag.push("Transform".to_string(), DynValue::Transform(sample_transform()));
    world.set_components(&bag).unwrap();
    let first = world.get_component(e, "Transform");
    let second = world.get_component(e, "Transform");
    assert_eq!(first, second);
}

#[test]
fn get_component_reads_mesh_handle() {
    let mut world = WorldStore::new();
    let e = world.new_entity();
    let m = LuaMesh(MeshData::Cuboid { half_size: vec3(0.5, 0.5, 0.5) });
    let mut bag = PropertyBag::new();
    bag.push("entity".to_string(), DynValue::Entity(e));
    bag.push("Transform".to_string(), DynValue::Transform(sample_transform()));
    bag.push("Mesh".to_string(), DynValue::Mesh(m));
    assert_eq!(world.set_components(&bag), Ok(()));
    assert_eq!(
        world.get_component(e, "Mesh"),
        Ok(DynValue::MeshHandle(LuaMeshHandle(0)))
    );
}

#[test]
fn get_component_reports_missing_mesh() {
    let mut world = WorldStore::new();
    let e = world.new_entity();
    assert_eq!(world.get_component(e, "Mesh"), Err(ScriptError::MissingComponent));
    // a transform alone does not make the mesh readable
    let mut bag = PropertyBag::new();
    bag.push("entity".to_string(), DynValue::Entity(e));
    bag.push("Transform".to_string(), DynValue::Transform(sample_transform()));
    world.set_components(&bag).unwrap();
    assert_eq!(world.get_component(e, "Mesh"), Err(ScriptError::MissingComponent));
}

#[test]
fn get_component_rejects_unknown_name() {
    let mut world = WorldStore::new();
    let e = world.new_entity();
    assert_eq!(world.get_component(e, "Sprite"), Err(ScriptError::UnknownComponent));
}

#[test]
fn get_component_reports_missing_component() {
    let mut world = WorldStore::new();
    let e = world.new_entity();
    assert_eq!(world.get_component(e, "Transform"), Err(ScriptError::MissingComponent));
    assert_eq!(
        world.get_component(LuaEntity(99), "Transform"),
        Err(ScriptError::MissingComponent)
    );
}

#[test]
fn set_components_requires_entity_key() {
    let mut world = WorldStore::new();
    let _ = world.new_entity();
    let mut no_entity = PropertyBag::new();
    no_entity.push("Transform".to_string(), DynValue::Transform(sample_transform()));
    assert_eq!(world.set_components(&no_entity), Err(ScriptError::TypeMismatch));
    let mut wrong_type = PropertyBag::new();
    wrong_type.push("entity".to_string(), DynValue::Number(0.0f32.to_bits()));
    assert_eq!(world.set_components(&wrong_type), Err(ScriptError::TypeMismatch));
}

#[test]
fn set_components_rejects_unknown_key_after_applying_earlier_entries() {
    let mut world = WorldStore::new();
    let e = world.new_entity();
    let t = sample_transform();
    let mut bag = PropertyBag::new();
    bag.push("entity".to_string(), DynValue::Entity(e));
    bag.push("Transform".to_string(), DynValue::Transform(t));
    bag.push("Sprite".to_string(), DynValue::Nil);
    assert_eq!(world.set_components(&bag), Err(ScriptError::UnknownComponent));
    // apply-then-fail: the transform written before the unknown key stays
    assert_eq!(world.get_component(e, "Transform"), Ok(DynValue::Transform(t)));
}

#[test]
fn mesh_requires_prior_transform() {
    let mut world = WorldStore::new();
    let e = world.new_entity();
    let m = LuaMesh(MeshData::Cuboid { half_size: vec3(0.5, 0.5, 0.5) });
    let mut bag = PropertyBag::new();
    bag.push("entity".to_string(), DynValue::Entity(e));
    bag.push("Mesh".to_string(), DynValue::Mesh(m));
    assert_eq!(world.set_components(&bag), Err(ScriptError::MissingComponent));
}

#[test]
fn mesh_after_transform_in_same_bag_succeeds() {
    let mut world = WorldStore::new();
    let e = world.new_entity();
    let m = LuaMesh(MeshData::Cuboid { half_size: vec3(0.5, 0.5, 0.5) });
    let mut bag = PropertyBag::new();
    bag.push("entity".to_string(), DynValue::Entity(e));
    bag.push("Transform".to_string(), DynValue::Transform(sample_transform()));
    bag.push("Mesh".to_string(), DynValue::Mesh(m));
    assert_eq!(world.set_components(&bag), Ok(()));
    assert_eq!(world.meshes.len(), 1);
    assert_eq!(world.meshes[0], m.0);
    assert_eq!(world.materials.len(), 1);
}

#[test]
fn set_components_skips_reserved_entity_key() {
    let mut world = WorldStore::new();
    let e = world.new_entity();
    let mut bag = PropertyBag::new();
    bag.push("entity".to_string(), DynValue::Entity(e));
    assert_eq!(world.set_components(&bag), Ok(()));
}

#[test]
fn new_entity_returns_fresh_handles() {
    let mut world = WorldStore::new();
    let a = world.new_entity();
    let b = world.new_entity();
    assert_ne!(a, b);
    assert_eq!(world.entities.len(), 2);
}

#[test]
fn add_mesh_copies_contents() {
    let mut world = WorldStore::new();
    let m = LuaMesh::new(MeshData::Cuboid { half_size: vec3(1.0, 1.0, 1.0) });
    let h = world.add_mesh(&m);
    assert_eq!(h.0, 0);
    // the raw mesh stays usable, and the registered slot holds a copy of
    // what it contained at registration time
    let mut raw = m;
    raw.0 = MeshData::Cuboid { half_size: vec3(9.0, 9.0, 9.0) };
    assert_eq!(world.meshes[0], MeshData::Cuboid { half_size: vec3(1.0, 1.0, 1.0) });
    let h2 = world.add_mesh(&raw);
    assert_eq!(h2.0, 1);
    assert_eq!(world.meshes.len(), 2);
}

#[test]
fn scenario_child_rotation_accumulates() {
    // What the end-to-end script does, driven through the proxy operations:
    // initialize spawns a child and gives it a zeroed transform; every tick
    // the update reads the child's transform, turns it by (0, dt, 0) and
    // writes it back.  Composing rotations about the single Y axis reduces
    // to adding the angles, which the host's math library would do; the
    // test stands in for the interpreter and that library.
    let mut world = WorldStore::new();
    let _parent = world.new_entity();
    let child = world.new_entity();
    let mut opts = PropertyBag::new();
    opts.push("position".to_string(), DynValue::Vector(vec3(0.0, 0.0, 0.0)));
    let t0 = transform_constructor(&opts);
    let mut bag = PropertyBag::new();
    bag.push("entity".to_string(), DynValue::Entity(child));
    bag.push("Transform".to_string(), DynValue::Transform(t0));
    world.set_components(&bag).unwrap();
    let dt = 0.1f32;
    for _ in 0..10 {
        let read = world.get_component(child, "Transform").unwrap();
        let lt = match read {
            DynValue::Transform(lt) => lt,
            other => panic!("expected a transform, got {:?}", other),
        };
        let rot = lt.rotation();
        let turned = Vector3 {
            x: rot.x,
            y: (f32::from_bits(rot.y) + dt).to_bits(),
            z: rot.z,
        };
        let next = LuaTransform(Transform {
            position: lt.0.position,
            rotation: turned,
            scale: lt.0.scale,
        });
        let mut write = PropertyBag::new();
        write.push("entity".to_string(), DynValue::Entity(child));
        write.push("Transform".to_string(), DynValue::Transform(next));
        world.set_components(&write).unwrap();
    }
    let read = world.get_component(child, "Transform").unwrap();
    let lt = match read {
        DynValue::Transform(lt) => lt,
        other => panic!("expected a transform, got {:?}", other),
    };
    let y = f32::from_bits(lt.rotation().y);
    assert!((y - 1.0).abs() < 1e-4, "expected about 1.0 radian, got {}", y);
}
