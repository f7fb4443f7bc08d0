//! End-to-end: real Luau script text driving the bridge.  The test plays
//! the host's role — userdata wrappers, proxy scoping, quaternion math —
//! and everything the script touches goes through the library.

use mlua::{
    FromLua, Function as LuaFunction, Lua, Result as LuaResult, Table as LuaTable,
    UserData as LuaUserData, UserDataFields as LuaUserDataFields,
    UserDataMethods as LuaUserDataMethods, Value as LuaValue, Vector as LuaVector,
};

use script_bridge::engine::{entry_point_check, RunningScript, ScriptingState};
use script_bridge::entity::LuaEntity;
use script_bridge::transform::{transform_constructor, LuaTransform, Transform};
use script_bridge::values::{DynValue, PropertyBag, Vector3};
use script_bridge::world::WorldStore;

#[derive(Clone, Copy)]
struct UdEntity(LuaEntity);

impl LuaUserData for UdEntity {}

impl FromLua for UdEntity {
    fn from_lua(value: LuaValue, _lua: &Lua) -> LuaResult<Self> {
        Ok(*value
            .as_userdata()
            .ok_or_else(|| mlua::Error::RuntimeError("expected an entity".to_string()))?
            .borrow::<Self>()?)
    }
}

#[derive(Clone, Copy)]
struct UdTransform(LuaTransform);

impl FromLua for UdTransform {
    fn from_lua(value: LuaValue, _lua: &Lua) -> LuaResult<Self> {
        Ok(*value
            .as_userdata()
            .ok_or_else(|| mlua::Error::RuntimeError("expected a transform".to_string()))?
            .borrow::<Self>()?)
    }
}

fn to_lua_vector(v: Vector3) -> LuaVector {
    LuaVector::new(f32::from_bits(v.x), f32::from_bits(v.y), f32::from_bits(v.z))
}

fn from_lua_vector(v: LuaVector) -> Vector3 {
    Vector3 { x: v.x().to_bits(), y: v.y().to_bits(), z: v.z().to_bits() }
}

impl LuaUserData for UdTransform {
    fn add_fields<F: LuaUserDataFields<Self>>(fields: &mut F) {
        fields.add_field_method_get("position", |_, this| Ok(to_lua_vector(this.0.position())));
        fields.add_field_method_get("rotation", |_, this| Ok(to_lua_vector(this.0.rotation())));
        fields.add_field_method_get("scale", |_, this| Ok(to_lua_vector(this.0.scale())));
    }

    fn add_methods<M: LuaUserDataMethods<Self>>(methods: &mut M) {
        methods.add_method_mut("rotate", |_, this, vector: LuaVector| {
            let e = this.0.rotation();
            let current = glam::Quat::from_euler(
                glam::EulerRot::XYZ,
                f32::from_bits(e.x),
                f32::from_bits(e.y),
                f32::from_bits(e.z),
            );
            let turn =
                glam::Quat::from_euler(glam::EulerRot::XYZ, vector.x(), vector.y(), vector.z());
            let (x, y, z) = (turn * current).to_euler(glam::EulerRot::XYZ);
            this.0 = LuaTransform(Transform {
                position: this.0 .0.position,
                rotation: Vector3 { x: x.to_bits(), y: y.to_bits(), z: z.to_bits() },
                scale: this.0 .0.scale,
            });
            Ok(*this)
        });
    }
}

fn table_to_bag(table: &LuaTable) -> LuaResult<PropertyBag> {
    let mut bag = PropertyBag::new();
    table.for_each(|key: String, value: LuaValue| {
        let dynamic = match &value {
            LuaValue::Vector(v) => DynValue::Vector(from_lua_vector(*v)),
            LuaValue::UserData(ud) => {
                if let Ok(e) = ud.borrow::<UdEntity>() {
                    DynValue::Entity(e.0)
                } else if let Ok(t) = ud.borrow::<UdTransform>() {
                    DynValue::Transform(t.0)
                } else {
                    return Err(mlua::Error::RuntimeError("unsupported userdata".to_string()));
                }
            },
            _ => return Err(mlua::Error::RuntimeError("unsupported value".to_string())),
        };
        bag.push(key, dynamic);
        Ok(())
    })?;
    Ok(bag)
}

struct UdWorld<'world>(script_bridge::world::LuaWorld<'world>);

impl LuaUserData for UdWorld<'_> {
    fn add_methods<M: LuaUserDataMethods<Self>>(methods: &mut M) {
        methods.add_method(
            "get_component",
            |lua, this, (entity, name): (UdEntity, String)| {
                match this.0.get_component(entity.0, &name) {
                    Ok(DynValue::Transform(t)) => {
                        Ok(LuaValue::UserData(lua.create_userdata(UdTransform(t))?))
                    },
                    Ok(_) => Err(mlua::Error::RuntimeError("unexpected value".to_string())),
                    Err(e) => Err(mlua::Error::RuntimeError(format!("{:?}", e))),
                }
            },
        );

        methods.add_method_mut("set_components", |_, this, properties: LuaTable| {
            let bag = table_to_bag(&properties)?;
            this.0
                .set_components(&bag)
                .map_err(|e| mlua::Error::RuntimeError(format!("{:?}", e)))
        });

        methods.add_method_mut("new_entity", |_, this, ()| {
            if this.0.world.next_entity == u64::MAX {
                return Err(mlua::Error::RuntimeError("entity space exhausted".to_string()));
            }
            Ok(UdEntity(this.0.new_entity()))
        });
    }
}

const SCRIPT: &str = r#"
function _start(entity, world)
    child = world:new_entity()
    world:set_components({
        entity = child,
        Transform = Transform({ position = vector.create(0, 0, 0) }),
    })
end

function _update(entity, world, dt)
    local t = world:get_component(child, "Transform")
    t:rotate(vector.create(0, dt, 0))
    world:set_components({ entity = child, Transform = t })
end
"#;

#[test]
fn luau_script_spawns_and_rotates_child() {
    let mut world = WorldStore::new();
    world.put_interpreter(ScriptingState::new());
    let parent = world.new_entity();

    // the host's one-time setup: inject the Transform constructor
    let state = world.take_interpreter().unwrap();
    let lua = state.lua();
    let ctor = lua
        .create_function(|_lua, properties: LuaTable| {
            let bag = table_to_bag(&properties)?;
            Ok(UdTransform(transform_constructor(&bag)))
        })
        .unwrap();
    lua.globals().set("Transform", ctor).unwrap();

    // attach phase: execute the source in a fresh environment seeded with
    // the globals, check the entry points, invoke initialize once
    let environment = lua.create_table().unwrap();
    lua.globals()
        .for_each(|key: LuaValue, value: LuaValue| environment.set(key, value))
        .unwrap();
    lua.sandbox(true).unwrap();
    lua.load(SCRIPT).set_environment(environment.clone()).exec().unwrap();
    let has_start = environment.contains_key("_start").unwrap();
    let has_update = environment.contains_key("_update").unwrap();
    entry_point_check(has_start, has_update).unwrap();
    let start: LuaFunction = environment.get("_start").unwrap();
    lua.scope(|scope| {
        let proxy = scope.create_userdata(UdWorld(script_bridge::world::LuaWorld::new(&mut world)))?;
        start.call::<()>((UdEntity(parent), proxy))
    })
    .unwrap();
    let running = RunningScript::new(environment);

    // the script spawned one child and zeroed its transform
    assert_eq!(world.entities.len(), 2);
    let child = LuaEntity(world.entities[1].id);
    let read = world.get_component(child, "Transform").unwrap();
    let zero = (0.0f32).to_bits();
    match read {
        DynValue::Transform(t) => {
            assert_eq!(t.position(), Vector3 { x: zero, y: zero, z: zero });
            assert_eq!(t.rotation(), Vector3 { x: zero, y: zero, z: zero });
        },
        other => panic!("expected a transform, got {:?}", other),
    }

    // update phase, ten ticks at dt = 0.1: the captured closure is reused
    let update: LuaFunction = running.environment().get("_update").unwrap();
    for _ in 0..10 {
        lua.scope(|scope| {
            let proxy = scope.create_userdata(UdWorld(script_bridge::world::LuaWorld::new(&mut world)))?;
            update.call::<()>((UdEntity(parent), proxy, 0.1f32))
        })
        .unwrap();
    }
    lua.sandbox(false).unwrap();
    world.put_interpreter(state);

    let read = world.get_component(child, "Transform").unwrap();
    match read {
        DynValue::Transform(t) => {
            let y = f32::from_bits(t.rotation().y);
            assert!((y - 1.0).abs() < 1e-3, "expected about 1.0 radian, got {}", y);
        },
        other => panic!("expected a transform, got {:?}", other),
    }
}
