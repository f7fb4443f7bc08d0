use vstd::prelude::*;

use crate::entity::LuaEntity;
use crate::errors::ScriptError;
use crate::world::{spec_has_entity, spec_index_of, spec_unique_ids, EntityRecord, WorldStore};
use crate::world::lemma_index_unique;

verus! {

// ---------------------------------------------------------------------------
// Trusted declarations for the interpreter crate.
// ---------------------------------------------------------------------------

/// mlua's interpreter state: one Luau virtual machine.  The bridge owns a
/// single instance for the whole process and treats it as an opaque value;
/// every call into it is made by the host glue while it holds the
/// interpreter exclusively.
#[verifier::external_type_specification]
#[verifier::external_body]
pub struct ExLua(mlua::Lua);

/// mlua's reference to an interpreter-side table.  The bridge stores one per
/// running script — the script's environment — and hands it back to the host
/// glue on every tick without ever looking inside.
#[verifier::external_type_specification]
#[verifier::external_body]
pub struct ExTable(mlua::Table);

/// Relies on `mlua::Lua::new`: builds a fresh, empty Luau interpreter.
#[verifier::external_body]
fn new_lua() -> mlua::Lua {
    mlua::Lua::new()
}

// ---------------------------------------------------------------------------
// The engine's own state.
// ---------------------------------------------------------------------------

/// The process-wide scripting state: the single interpreter instance,
/// created once at startup and shared — strictly sequentially — by every
/// script of every entity.
pub struct ScriptingState {
    lua: mlua::Lua,
}

impl ScriptingState {
    /// The interpreter instance this state owns.
    pub closed spec fn spec_lua(self) -> mlua::Lua {
        self.lua
    }

    pub fn new() -> ScriptingState {
        ScriptingState { lua: new_lua() }
    }

    /// The interpreter, for the host glue that executes script code.
    pub fn lua(&self) -> (r: &mlua::Lua)
        ensures
            *r == self.spec_lua(),
    {
        &self.lua
    }
}

/// A versioned reference to loaded script source.  Reloading a script
/// produces a new handle value; it never mutates the text behind an old one.
#[derive(Clone, Copy, Debug, PartialEq, Eq, Structural)]
pub struct AssetHandle(pub u64);

/// A script asset: one UTF-8 source text, decoded verbatim from its file by
/// the external loader.
#[derive(Clone, Debug, PartialEq, Eq)]
pub struct ScriptAsset {
    code: String,
}

impl ScriptAsset {
    /// The source text this asset carries.
    pub closed spec fn spec_code(self) -> Seq<char> {
        self.code@
    }

    pub fn new(code: String) -> (r: ScriptAsset)
        ensures
            r.spec_code() == code@,
    {
        ScriptAsset { code }
    }

    pub fn code(&self) -> (r: &str)
        ensures
            r@ == self.spec_code(),
    {
        self.code.as_str()
    }
}

/// The component external code adds to an entity to attach a script: a
/// reference to the script's source asset, which an external loader resolves
/// asynchronously.
#[derive(Clone, Copy, Debug, PartialEq, Eq, Structural)]
pub struct ScriptComponent {
    pub asset: AssetHandle,
}

impl ScriptComponent {
    pub fn new(asset: AssetHandle) -> (r: ScriptComponent)
        ensures
            r.asset == asset,
    {
        ScriptComponent { asset }
    }
}

/// The record persisted for an entity whose script has started: the
/// environment table that carries the script's globals — among them the two
/// captured entry points — across ticks.  The table is created exactly once,
/// when the script first starts, and reused on every later tick.
pub struct RunningScript {
    environment: mlua::Table,
}

impl RunningScript {
    pub closed spec fn spec_environment(self) -> mlua::Table {
        self.environment
    }

    pub fn new(environment: mlua::Table) -> (r: RunningScript)
        ensures
            r.spec_environment() == environment,
    {
        RunningScript { environment }
    }

    pub fn environment(&self) -> (r: &mlua::Table)
        ensures
            *r == self.spec_environment(),
    {
        &self.environment
    }
}

/// Where an attached script stands in its lifecycle.
pub enum RunState {
    /// Attached but not started: the entity carries a script component whose
    /// asset has not resolved yet, or has not been run.  Retried every tick.
    NotStarted,
    /// Started: the source text ran once, both entry points were found, the
    /// initialize entry point was invoked, and the environment is persisted.
    Running(RunningScript),
    /// A recorded failure: the script observably stops updating, its last
    /// applied world state stays, and other entities keep running.
    Failed(ScriptError),
}

/// Decides whether a freshly executed script satisfies the entry-point
/// contract: both an initialize and a per-tick update binding must exist in
/// its environment, or the whole attach fails with `EntryPointMissing`.
pub fn entry_point_check(has_start: bool, has_update: bool) -> (r: Result<(), ScriptError>)
    ensures
        r is Ok <==> (has_start && has_update),
        r is Err ==> r == Err::<(), ScriptError>(ScriptError::EntryPointMissing),
{
    if has_start && has_update {
        Ok(())
    } else {
        Err(ScriptError::EntryPointMissing)
    }
}

/// The entities the attach phase must try this tick: those that carry a
/// script component but have not started, paired with the asset to poll.
pub open spec fn spec_pending(entities: Seq<EntityRecord>) -> Seq<(u64, AssetHandle)>
    decreases entities.len(),
{
    if entities.len() == 0 {
        Seq::empty()
    } else {
        let prefix = spec_pending(entities.drop_last());
        let e = entities.last();
        match e.script {
            Some(sc) => if e.run is NotStarted {
                prefix.push((e.id, sc.asset))
            } else {
                prefix
            },
            None => prefix,
        }
    }
}

/// The entities the update phase must visit this tick: those whose script
/// is running.
pub open spec fn spec_running_ids(entities: Seq<EntityRecord>) -> Seq<u64>
    decreases entities.len(),
{
    if entities.len() == 0 {
        Seq::empty()
    } else {
        let prefix = spec_running_ids(entities.drop_last());
        let e = entities.last();
        if e.run is Running {
            prefix.push(e.id)
        } else {
            prefix
        }
    }
}

impl WorldStore {
    /// Attaches a script to an entity: the step external code takes to move
    /// an entity from Unattached to Attached-Not-Started.  Returns whether
    /// the entity was found.
    pub fn attach_script(&mut self, entity: LuaEntity, component: ScriptComponent) -> (r: bool)
        requires
            old(self).wf(),
        ensures
            final(self).wf(),
            r == spec_has_entity(old(self).entities@, entity.0),
            !r ==> final(self)@ == old(self)@,
            r ==> ({
                let idx = spec_index_of(old(self).entities@, entity.0);
                let rec = old(self).entities@[idx];
                final(self).entities@ =~= old(self).entities@.update(
                    idx,
                    EntityRecord {
                        id: rec.id,
                        transform: rec.transform,
                        mesh: rec.mesh,
                        material: rec.material,
                        script: Some(component),
                        run: rec.run,
                    },
                )
            }),
            final(self).meshes == old(self).meshes,
            final(self).materials == old(self).materials,
            final(self).next_entity == old(self).next_entity,
            final(self).interpreter == old(self).interpreter,
    {
        match self.find_entity(entity.0) {
            None => false,
            Some(i) => {
                proof {
                    lemma_index_unique(self.entities@, i as int, entity.0);
                }
                let rec = &mut self.entities[i];
                rec.script = Some(component);
                true
            },
        }
    }

    /// Records a successful attach: the entity's script moves to Running
    /// with its persisted environment.  No other row changes.
    pub fn start_running(&mut self, entity: LuaEntity, script: RunningScript)
        requires
            old(self).wf(),
            spec_has_entity(old(self).entities@, entity.0),
        ensures
            final(self).wf(),
            ({
                let idx = spec_index_of(old(self).entities@, entity.0);
                let rec = old(self).entities@[idx];
                final(self).entities@ =~= old(self).entities@.update(
                    idx,
                    EntityRecord {
                        id: rec.id,
                        transform: rec.transform,
                        mesh: rec.mesh,
                        material: rec.material,
                        script: rec.script,
                        run: RunState::Running(script),
                    },
                )
            }),
            final(self).meshes == old(self).meshes,
            final(self).materials == old(self).materials,
            final(self).next_entity == old(self).next_entity,
            final(self).interpreter == old(self).interpreter,
    {
        match self.find_entity(entity.0) {
            None => {
                proof {
                    assert(false);
                }
            },
            Some(i) => {
                proof {
                    lemma_index_unique(self.entities@, i as int, entity.0);
                }
                let rec = &mut self.entities[i];
                rec.run = RunState::Running(script);
            },
        }
    }

    /// Records a failure for one entity: its script is tagged Failed with
    /// the error kind and observably stops updating, while its last applied
    /// world state — and every other entity — is left untouched.  This is
    /// what keeps one failing script from stopping the rest of the batch.
    pub fn record_failure(&mut self, entity: LuaEntity, error: ScriptError)
        requires
            old(self).wf(),
            spec_has_entity(old(self).entities@, entity.0),
        ensures
            final(self).wf(),
            ({
                let idx = spec_index_of(old(self).entities@, entity.0);
                let rec = old(self).entities@[idx];
                final(self).entities@ =~= old(self).entities@.update(
                    idx,
                    EntityRecord {
                        id: rec.id,
                        transform: rec.transform,
                        mesh: rec.mesh,
                        material: rec.material,
                        script: rec.script,
                        run: RunState::Failed(error),
                    },
                )
            }),
            final(self).meshes == old(self).meshes,
            final(self).materials == old(self).materials,
            final(self).next_entity == old(self).next_entity,
            final(self).interpreter == old(self).interpreter,
    {
        match self.find_entity(entity.0) {
            None => {
                proof {
                    assert(false);
                }
            },
            Some(i) => {
                proof {
                    lemma_index_unique(self.entities@, i as int, entity.0);
                }
                let rec = &mut self.entities[i];
                rec.run = RunState::Failed(error);
            },
        }
    }

    /// The persisted record of an entity whose script is running, if it is.
    pub fn running_script(&self, entity: LuaEntity) -> (r: Option<&RunningScript>)
        requires
            self.wf(),
        ensures
            match r {
                Some(rs) => spec_has_entity(self.entities@, entity.0)
                    && self.entities@[spec_index_of(self.entities@, entity.0)].run
                    == RunState::Running(*rs),
                None => !spec_has_entity(self.entities@, entity.0)
                    || !(self.entities@[spec_index_of(self.entities@, entity.0)].run
                    is Running),
            },
    {
        match self.find_entity(entity.0) {
            None => None,
            Some(i) => {
                proof {
                    lemma_index_unique(self.entities@, i as int, entity.0);
                }
                match &self.entities[i].run {
                    RunState::Running(rs) => Some(rs),
                    _ => None,
                }
            },
        }
    }

    /// The attach phase's work list for this tick, in store order.
    pub fn pending_attachments(&self) -> (r: Vec<(u64, AssetHandle)>)
        ensures
            r@ == spec_pending(self.entities@),
    {
        let mut r: Vec<(u64, AssetHandle)> = Vec::new();
        let n = self.entities.len();
        let mut k: usize = 0;
        proof {
            assert(self.entities@.take(0) =~= Seq::<EntityRecord>::empty());
        }
        while k < n
            invariant
                n == self.entities@.len(),
                k <= n,
                r@ == spec_pending(self.entities@.take(k as int)),
            decreases n - k,
        {
            proof {
                assert(self.entities@.take(k as int + 1).drop_last() =~= self.entities@.take(
                    k as int,
                ));
                assert(self.entities@.take(k as int + 1).last() == self.entities@[k as int]);
            }
            let e = &self.entities[k];
            let is_not_started = match &e.run {
                RunState::NotStarted => true,
                _ => false,
            };
            match &e.script {
                Some(sc) => {
                    if is_not_started {
                        r.push((e.id, sc.asset));
                    }
                },
                None => {},
            }
            k = k + 1;
        }
        proof {
            assert(self.entities@.take(n as int) =~= self.entities@);
        }
        r
    }

    /// The update phase's work list for this tick, in store order.
    pub fn running_entities(&self) -> (r: Vec<u64>)
        ensures
            r@ == spec_running_ids(self.entities@),
    {
        let mut r: Vec<u64> = Vec::new();
        let n = self.entities.len();
        let mut k: usize = 0;
        proof {
            assert(self.entities@.take(0) =~= Seq::<EntityRecord>::empty());
        }
        while k < n
            invariant
                n == self.entities@.len(),
                k <= n,
                r@ == spec_running_ids(self.entities@.take(k as int)),
            decreases n - k,
        {
            proof {
                assert(self.entities@.take(k as int + 1).drop_last() =~= self.entities@.take(
                    k as int,
                ));
                assert(self.entities@.take(k as int + 1).last() == self.entities@[k as int]);
            }
            let e = &self.entities[k];
            let is_running = match &e.run {
                RunState::Running(_) => true,
                _ => false,
            };
            if is_running {
                r.push(e.id);
            }
            k = k + 1;
        }
        proof {
            assert(self.entities@.take(n as int) =~= self.entities@);
        }
        r
    }
}

/// Every pair in the pending attach set comes from a row that carries a
/// script component and has not started.
pub proof fn lemma_pending_members(entities: Seq<EntityRecord>, k: int)
    requires
        0 <= k < spec_pending(entities).len(),
    ensures
        exists|i: int|
            0 <= i < entities.len() && entities[i].id == spec_pending(entities)[k].0
                && entities[i].script is Some && entities[i].run is NotStarted,
    decreases entities.len(),
{
    let prefix = spec_pending(entities.drop_last());
    let e = entities.last();
    if e.script is Some && e.run is NotStarted && k == prefix.len() {
        let i = entities.len() - 1;
        assert(entities[i] == e);
        assert(spec_pending(entities)[k].0 == e.id);
    } else {
        lemma_pending_members(entities.drop_last(), k);
        let i = choose|i: int|
            0 <= i < entities.drop_last().len() && entities.drop_last()[i].id == spec_pending(
                entities.drop_last(),
            )[k].0 && entities.drop_last()[i].script is Some && entities.drop_last()[i].run
                is NotStarted;
        assert(entities[i] == entities.drop_last()[i]);
    }
}

/// Every identifier in the update work list comes from a row whose script
/// is running.
pub proof fn lemma_running_ids_members(entities: Seq<EntityRecord>, k: int)
    requires
        0 <= k < spec_running_ids(entities).len(),
    ensures
        exists|i: int|
            0 <= i < entities.len() && entities[i].id == spec_running_ids(entities)[k]
                && entities[i].run is Running,
    decreases entities.len(),
{
    let prefix = spec_running_ids(entities.drop_last());
    let e = entities.last();
    if e.run is Running && k == prefix.len() {
        let i = entities.len() - 1;
        assert(entities[i] == e);
        assert(spec_running_ids(entities)[k] == e.id);
    } else {
        lemma_running_ids_members(entities.drop_last(), k);
        let i = choose|i: int|
            0 <= i < entities.drop_last().len() && entities.drop_last()[i].id == spec_running_ids(
                entities.drop_last(),
            )[k] && entities.drop_last()[i].run is Running;
        assert(entities[i] == entities.drop_last()[i]);
    }
}

/// Failure-isolation law, seen from the work list: an entity whose script
/// has not started, or has been tagged failed, is never in the update work
/// list, so its entry points are not invoked — a failed script observably
/// stops updating while every other entity keeps its place in the list.
pub proof fn lemma_not_running_never_updated(entities: Seq<EntityRecord>, i: int)
    requires
        spec_unique_ids(entities),
        0 <= i < entities.len(),
        !(entities[i].run is Running),
    ensures
        forall|k: int|
            0 <= k < spec_running_ids(entities).len() ==> spec_running_ids(entities)[k]
                != entities[i].id,
{
    assert forall|k: int|
        0 <= k < spec_running_ids(entities).len() implies spec_running_ids(entities)[k]
        != entities[i].id by {
        lemma_running_ids_members(entities, k);
        let j = choose|j: int|
            0 <= j < entities.len() && entities[j].id == spec_running_ids(entities)[k]
                && entities[j].run is Running;
        if spec_running_ids(entities)[k] == entities[i].id {
            if i < j {
                assert(entities[i].id != entities[j].id);
            } else if j < i {
                assert(entities[j].id != entities[i].id);
            }
        }
    }
}

/// Lifecycle-idempotence law: once a script has started — its environment
/// persisted as Running — its entity is never in the pending attach set
/// again, so the engine executes its source text and invokes its
/// initialize entry point at most once, however many ticks elapse.  (An
/// entity whose asset has not loaded is left untouched by the tick, so it
/// simply stays in the pending set and is retried.)
pub proof fn lemma_running_never_pending(entities: Seq<EntityRecord>, i: int)
    requires
        spec_unique_ids(entities),
        0 <= i < entities.len(),
        entities[i].run is Running,
    ensures
        forall|k: int|
            0 <= k < spec_pending(entities).len() ==> spec_pending(entities)[k].0 != entities[i].id,
{
    assert forall|k: int|
        0 <= k < spec_pending(entities).len() implies spec_pending(entities)[k].0 != entities[i].id by {
        lemma_pending_members(entities, k);
        let j = choose|j: int|
            0 <= j < entities.len() && entities[j].id == spec_pending(entities)[k].0
                && entities[j].script is Some && entities[j].run is NotStarted;
        if spec_pending(entities)[k].0 == entities[i].id {
            if i < j {
                assert(entities[i].id != entities[j].id);
            } else if j < i {
                assert(entities[j].id != entities[i].id);
            }
        }
    }
}

} // verus!
