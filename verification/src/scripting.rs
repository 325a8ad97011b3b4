//! Scripting bookkeeping: script sources, script instances with their
//! handles, and the engine's script registry.
//!
//! The script hooks (`on_init`, `on_update`, `on_destroy`) take
//! floating-point time steps and live with the runtime outside this crate;
//! the registry is generic over the script type.

use vstd::prelude::*;

use crate::assets::{prefixed, str_equal};

verus! {

/// Entity handle type
pub type EntityHandle = u32;

/// Script handle for identifying loaded scripts
pub type ScriptHandle = u64;

/// Scripting error types
#[derive(Debug, Clone, PartialEq)]
pub enum ScriptError {
    InvalidScript(String),
    ExecutionError(String),
    RuntimeError(String),
    CompileError(String),
    NotInitialized,
    UnknownLanguage(String),
}

/// The display text of a scripting error.
pub open spec fn script_error_text(e: ScriptError) -> Seq<char> {
    match e {
        ScriptError::InvalidScript(m) => "Invalid script: "@ + m@,
        ScriptError::ExecutionError(m) => "Execution error: "@ + m@,
        ScriptError::RuntimeError(m) => "Runtime error: "@ + m@,
        ScriptError::CompileError(m) => "Compile error: "@ + m@,
        ScriptError::NotInitialized => "Scripting engine not initialized"@,
        ScriptError::UnknownLanguage(m) => "Unknown scripting language: "@ + m@,
    }
}

impl ScriptError {
    /// The display text of the error.
    pub fn message(&self) -> (s: String)
        ensures
            s@ == script_error_text(*self),
    {
        match self {
            ScriptError::InvalidScript(m) => prefixed("Invalid script: ", m),
            ScriptError::ExecutionError(m) => prefixed("Execution error: ", m),
            ScriptError::RuntimeError(m) => prefixed("Runtime error: ", m),
            ScriptError::CompileError(m) => prefixed("Compile error: ", m),
            ScriptError::NotInitialized => String::from_str("Scripting engine not initialized"),
            ScriptError::UnknownLanguage(m) => prefixed("Unknown scripting language: ", m),
        }
    }
}

/// Supported scripting languages
#[derive(Debug, Clone, Copy, PartialEq, Eq, Structural)]
pub enum ScriptLanguage {
    Lua,
    Luau,
    CSharp,
    Python,
    JavaScript,
}

/// Lua/Luau script implementation
pub struct LuaScript {
    pub code: String,
    pub active: bool,
    pub entity: Option<EntityHandle>,
}

impl LuaScript {
    /// An active script not attached to an entity.
    pub fn new(code: String) -> (s: Self)
        ensures
            s.code@ == code@,
            s.active,
            s.entity is None,
    {
        LuaScript { code, active: true, entity: None }
    }

    /// An active script attached to `entity`.
    pub fn with_entity(code: String, entity: EntityHandle) -> (s: Self)
        ensures
            s.code@ == code@,
            s.active,
            s.entity == Some(entity),
    {
        LuaScript { code, active: true, entity: Some(entity) }
    }
}

/// C# script implementation
pub struct CSharpScript {
    pub assembly_path: String,
    pub active: bool,
    pub entity: Option<EntityHandle>,
}

impl CSharpScript {
    /// An active script not attached to an entity.
    pub fn new(assembly_path: String) -> (s: Self)
        ensures
            s.assembly_path@ == assembly_path@,
            s.active,
            s.entity is None,
    {
        CSharpScript { assembly_path, active: true, entity: None }
    }

    /// An active script attached to `entity`.
    pub fn with_entity(assembly_path: String, entity: EntityHandle) -> (s: Self)
        ensures
            s.assembly_path@ == assembly_path@,
            s.active,
            s.entity == Some(entity),
    {
        CSharpScript { assembly_path, active: true, entity: Some(entity) }
    }
}

/// Python script implementation
pub struct PythonScript {
    pub code: String,
    pub active: bool,
    pub entity: Option<EntityHandle>,
}

impl PythonScript {
    /// An active script not attached to an entity.
    pub fn new(code: String) -> (s: Self)
        ensures
            s.code@ == code@,
            s.active,
            s.entity is None,
    {
        PythonScript { code, active: true, entity: None }
    }

    /// An active script attached to `entity`.
    pub fn with_entity(code: String, entity: EntityHandle) -> (s: Self)
        ensures
            s.code@ == code@,
            s.active,
            s.entity == Some(entity),
    {
        PythonScript { code, active: true, entity: Some(entity) }
    }
}

/// JavaScript script implementation
pub struct JavaScriptScript {
    pub code: String,
    pub active: bool,
    pub entity: Option<EntityHandle>,
}

impl JavaScriptScript {
    /// An active script not attached to an entity.
    pub fn new(code: String) -> (s: Self)
        ensures
            s.code@ == code@,
            s.active,
            s.entity is None,
    {
        JavaScriptScript { code, active: true, entity: None }
    }

    /// An active script attached to `entity`.
    pub fn with_entity(code: String, entity: EntityHandle) -> (s: Self)
        ensures
            s.code@ == code@,
            s.active,
            s.entity == Some(entity),
    {
        JavaScriptScript { code, active: true, entity: Some(entity) }
    }
}

/// Script instance: a script attached to an entity under a handle.
pub struct ScriptInstance<S> {
    script: S,
    entity: EntityHandle,
    handle: ScriptHandle,
}

impl<S> ScriptInstance<S> {
    /// The script of the instance.
    pub closed spec fn spec_script(&self) -> S {
        self.script
    }

    /// The entity of the instance.
    pub closed spec fn spec_entity(&self) -> EntityHandle {
        self.entity
    }

    /// The handle of the instance.
    pub closed spec fn spec_handle(&self) -> ScriptHandle {
        self.handle
    }

    /// An instance of `script` on `entity` with handle `handle`.
    pub fn new(script: S, entity: EntityHandle, handle: ScriptHandle) -> (i: Self)
        ensures
            i.spec_script() == script,
            i.spec_entity() == entity,
            i.spec_handle() == handle,
    {
        ScriptInstance { script, entity, handle }
    }

    /// The handle of the instance.
    pub fn handle(&self) -> (h: ScriptHandle)
        ensures
            h == self.spec_handle(),
    {
        self.handle
    }

    /// The entity of the instance.
    pub fn entity(&self) -> (e: EntityHandle)
        ensures
            e == self.spec_entity(),
    {
        self.entity
    }
}

/// The (entity, handle) pairs of a list of instances, in order.
pub open spec fn instance_keys<S>(scripts: Seq<ScriptInstance<S>>) -> Seq<(EntityHandle, ScriptHandle)> {
    scripts.map_values(|i: ScriptInstance<S>| (i.spec_entity(), i.spec_handle()))
}

/// The instances that do not belong to entity `e`, order kept.
pub open spec fn without_entity<S>(scripts: Seq<ScriptInstance<S>>, e: EntityHandle) -> Seq<ScriptInstance<S>>
    decreases scripts.len(),
{
    if scripts.len() == 0 {
        Seq::empty()
    } else {
        let rest = without_entity(scripts.drop_last(), e);
        if scripts.last().spec_entity() != e {
            rest.push(scripts.last())
        } else {
            rest
        }
    }
}

/// The instances other than the one with handle `h`, order kept.
pub open spec fn without_handle<S>(scripts: Seq<ScriptInstance<S>>, h: ScriptHandle) -> Seq<ScriptInstance<S>>
    decreases scripts.len(),
{
    if scripts.len() == 0 {
        Seq::empty()
    } else {
        let rest = without_handle(scripts.drop_last(), h);
        if scripts.last().spec_handle() != h {
            rest.push(scripts.last())
        } else {
            rest
        }
    }
}

/// The language registered under `name`, if any.
pub open spec fn registered_language(index: Seq<(Seq<char>, ScriptLanguage)>, name: Seq<char>) -> Option<ScriptLanguage>
    decreases index.len(),
{
    if index.len() == 0 {
        None
    } else if index.last().0 == name {
        Some(index.last().1)
    } else {
        registered_language(index.drop_last(), name)
    }
}

/// Scripting engine: the registry of script instances.
///
/// Handles are handed out in increasing order from 0 and never reused.
pub struct ScriptingEngine<S> {
    scripts: Vec<ScriptInstance<S>>,
    enabled: bool,
    next_handle: ScriptHandle,
    languages: Vec<(String, ScriptLanguage)>,
}

impl<S> ScriptingEngine<S> {
    /// The script instances, in the order they were added.
    pub closed spec fn instances(&self) -> Seq<ScriptInstance<S>> {
        self.scripts@
    }

    /// Whether the engine is enabled.
    pub closed spec fn spec_enabled(&self) -> bool {
        self.enabled
    }

    /// The handle the next script gets.
    pub closed spec fn spec_next_handle(&self) -> ScriptHandle {
        self.next_handle
    }

    /// The registered languages, in registration order.
    pub closed spec fn languages(&self) -> Seq<(Seq<char>, ScriptLanguage)> {
        self.languages@.map_values(|p: (String, ScriptLanguage)| (p.0@, p.1))
    }

    /// Well-formedness: every handle is below the next one, handles increase
    /// along the list, and each language name is registered once.
    pub closed spec fn wf(&self) -> bool {
        &&& forall|k: int|
            #![trigger self.scripts@[k]]
            0 <= k < self.scripts@.len() ==> self.scripts@[k].handle < self.next_handle
        &&& forall|a: int, b: int|
            #![trigger self.scripts@[a], self.scripts@[b]]
            0 <= a < b < self.scripts@.len() ==> self.scripts@[a].handle < self.scripts@[b].handle
        &&& forall|a: int, b: int|
            #![trigger self.languages@[a], self.languages@[b]]
            0 <= a < b < self.languages@.len() ==> self.languages@[a].0@ != self.languages@[b].0@
    }

    /// An enabled engine with no scripts.
    pub fn new() -> (e: Self)
        ensures
            e.wf(),
            e.instances() == Seq::<ScriptInstance<S>>::empty(),
            e.spec_enabled(),
            e.spec_next_handle() == 0,
            e.languages() == Seq::<(Seq<char>, ScriptLanguage)>::empty(),
    {
        let e = ScriptingEngine { scripts: Vec::new(), enabled: true, next_handle: 0, languages: Vec::new() };
        assert(e.languages() =~= Seq::<(Seq<char>, ScriptLanguage)>::empty());
        e
    }

    /// Whether every script handle has been handed out, so that no further
    /// script can be added.
    pub fn handles_exhausted(&self) -> (b: bool)
        ensures
            b == (self.spec_next_handle() == u64::MAX),
    {
        self.next_handle == u64::MAX
    }

    /// Attach `script` to `entity`; returns the new, unique handle.
    pub fn add_script(&mut self, script: S, entity: EntityHandle) -> (h: ScriptHandle)
        requires
            old(self).wf(),
            old(self).spec_next_handle() < u64::MAX,
        ensures
            final(self).wf(),
            h == old(self).spec_next_handle(),
            final(self).spec_next_handle() == h + 1,
            final(self).instances().len() == old(self).instances().len() + 1,
            final(self).instances().drop_last() == old(self).instances(),
            final(self).instances().last().spec_script() == script,
            final(self).instances().last().spec_entity() == entity,
            final(self).instances().last().spec_handle() == h,
            final(self).spec_enabled() == old(self).spec_enabled(),
            final(self).languages() == old(self).languages(),
    {
        let handle = self.next_handle;
        self.next_handle = self.next_handle + 1;
        let instance = ScriptInstance::new(script, entity, handle);
        self.scripts.push(instance);
        assert(self.scripts@.drop_last() =~= old(self).scripts@);
        handle
    }

    /// Remove every script attached to `entity`, keeping the order of the rest.
    pub fn remove_script(&mut self, entity: EntityHandle)
        requires
            old(self).wf(),
        ensures
            final(self).wf(),
            final(self).instances() == without_entity(old(self).instances(), entity),
            final(self).spec_enabled() == old(self).spec_enabled(),
            final(self).spec_next_handle() == old(self).spec_next_handle(),
            final(self).languages() == old(self).languages(),
    {
        let mut old_scripts: Vec<ScriptInstance<S>> = Vec::new();
        std::mem::swap(&mut old_scripts, &mut self.scripts);
        let ghost all = old_scripts@;
        let mut kept: Vec<ScriptInstance<S>> = Vec::new();
        let mut remaining = old_scripts;
        let ghost n = all.len();
        while remaining.len() > 0
            invariant
                n == all.len(),
                remaining@.len() <= n,
                remaining@ == all.subrange(n - remaining@.len(), n as int),
                kept@ == without_entity(all.subrange(0, n - remaining@.len()), entity),
            decreases remaining@.len(),
        {
            let ghost i = n - remaining@.len();
            let instance = remaining.remove(0);
            assert(instance == all[i]);
            assert(all.subrange(0, i + 1).drop_last() =~= all.subrange(0, i));
            if instance.entity != entity {
                kept.push(instance);
            }
            assert(remaining@ =~= all.subrange(n - remaining@.len(), n as int));
        }
        assert(all.subrange(0, n as int) =~= all);
        proof {
            lemma_without_entity_sub(all, entity);
        }
        self.scripts = kept;
    }

    /// Remove the script with handle `handle`, keeping the order of the rest.
    pub fn remove_script_by_handle(&mut self, handle: ScriptHandle)
        requires
            old(self).wf(),
        ensures
            final(self).wf(),
            final(self).instances() == without_handle(old(self).instances(), handle),
            final(self).spec_enabled() == old(self).spec_enabled(),
            final(self).spec_next_handle() == old(self).spec_next_handle(),
            final(self).languages() == old(self).languages(),
    {
        let mut old_scripts: Vec<ScriptInstance<S>> = Vec::new();
        std::mem::swap(&mut old_scripts, &mut self.scripts);
        let ghost all = old_scripts@;
        let mut kept: Vec<ScriptInstance<S>> = Vec::new();
        let mut remaining = old_scripts;
        let ghost n = all.len();
        while remaining.len() > 0
            invariant
                n == all.len(),
                remaining@.len() <= n,
                remaining@ == all.subrange(n - remaining@.len(), n as int),
                kept@ == without_handle(all.subrange(0, n - remaining@.len()), handle),
            decreases remaining@.len(),
        {
            let ghost i = n - remaining@.len();
            let instance = remaining.remove(0);
            assert(instance == all[i]);
            assert(all.subrange(0, i + 1).drop_last() =~= all.subrange(0, i));
            if instance.handle != handle {
                kept.push(instance);
            }
            assert(remaining@ =~= all.subrange(n - remaining@.len(), n as int));
        }
        assert(all.subrange(0, n as int) =~= all);
        proof {
            lemma_without_handle_sub(all, handle);
        }
        self.scripts = kept;
    }

    /// Number of script instances.
    pub fn len(&self) -> (n: usize)
        ensures
            n == self.instances().len(),
    {
        self.scripts.len()
    }

    /// Mutable access to the script of the instance at position `index`.
    pub fn script_mut(&mut self, index: usize) -> (s: &mut S)
        requires
            old(self).wf(),
            index < old(self).instances().len(),
        ensures
            *s == old(self).instances()[index as int].spec_script(),
            final(self).wf(),
            final(self).instances().len() == old(self).instances().len(),
            final(self).instances()[index as int].spec_script() == *final(s),
            final(self).instances()[index as int].spec_entity() == old(self).instances()[index as int].spec_entity(),
            final(self).instances()[index as int].spec_handle() == old(self).instances()[index as int].spec_handle(),
            forall|j: int| 0 <= j < old(self).instances().len() && j != index ==> #[trigger] final(self).instances()[j]
                == old(self).instances()[j],
            final(self).spec_enabled() == old(self).spec_enabled(),
            final(self).spec_next_handle() == old(self).spec_next_handle(),
            final(self).languages() == old(self).languages(),
    {
        &mut self.scripts[index].script
    }

    /// Drop every script instance.
    pub fn clear_scripts(&mut self)
        requires
            old(self).wf(),
        ensures
            final(self).wf(),
            final(self).instances() == Seq::<ScriptInstance<S>>::empty(),
            final(self).spec_enabled() == old(self).spec_enabled(),
            final(self).spec_next_handle() == old(self).spec_next_handle(),
            final(self).languages() == old(self).languages(),
    {
        self.scripts.clear();
    }

    /// Whether the engine is enabled.
    pub fn is_enabled(&self) -> (b: bool)
        ensures
            b == self.spec_enabled(),
    {
        self.enabled
    }

    /// Enable or disable the engine.
    pub fn set_enabled(&mut self, enabled: bool)
        requires
            old(self).wf(),
        ensures
            final(self).wf(),
            final(self).spec_enabled() == enabled,
            final(self).instances() == old(self).instances(),
            final(self).spec_next_handle() == old(self).spec_next_handle(),
            final(self).languages() == old(self).languages(),
    {
        self.enabled = enabled;
    }

    /// The language registered under `name`, if any.
    pub fn language(&self, name: &str) -> (r: Option<ScriptLanguage>)
        ensures
            r == registered_language(self.languages(), name@),
    {
        let ghost index = self.languages();
        let mut k = self.languages.len();
        assert(index.subrange(0, k as int) =~= index);
        while k > 0
            invariant
                k <= self.languages@.len(),
                index == self.languages(),
                index.len() == self.languages@.len(),
                registered_language(index, name@) == registered_language(index.subrange(0, k as int), name@),
            decreases k,
        {
            let ghost prefix = index.subrange(0, k as int);
            assert(prefix.drop_last() =~= index.subrange(0, k - 1));
            let entry = &self.languages[k - 1];
            assert(prefix.last() == (entry.0@, entry.1));
            if str_equal(entry.0.as_str(), name) {
                return Some(entry.1);
            }
            k = k - 1;
        }
        None
    }

    /// Register a script language under `name`, replacing an earlier registration.
    pub fn register_language(&mut self, name: &str, language: ScriptLanguage)
        requires
            old(self).wf(),
        ensures
            final(self).wf(),
            registered_language(final(self).languages(), name@) == Some(language),
            forall|q: Seq<char>| q != name@ ==> registered_language(final(self).languages(), q)
                == registered_language(old(self).languages(), q),
            final(self).instances() == old(self).instances(),
            final(self).spec_enabled() == old(self).spec_enabled(),
            final(self).spec_next_handle() == old(self).spec_next_handle(),
    {
        let n = self.languages.len();
        let mut k: usize = 0;
        while k < n
            invariant
                n == self.languages@.len(),
                k <= n,
                *self == *old(self),
                old(self).wf(),
                forall|j: int| 0 <= j < k ==> self.languages@[j].0@ != name@,
            decreases n - k,
        {
            if str_equal(self.languages[k].0.as_str(), name) {
                proof {
                    let index = old(self).languages();
                    assert forall|a: int, b: int| 0 <= a < b < index.len() implies index[a].0 != index[b].0 by {
                        assert(index[a].0 == old(self).languages@[a].0@);
                        assert(index[b].0 == old(self).languages@[b].0@);
                    }
                    lemma_language_update(index, k as int, name@, language);
                }
                self.languages.set(k, (name.to_string(), language));
                proof {
                    assert(self.languages() =~= old(self).languages().update(k as int, (name@, language)));
                    assert forall|a: int, b: int|
                        #![trigger self.languages@[a], self.languages@[b]]
                        0 <= a < b < self.languages@.len() implies self.languages@[a].0@ != self.languages@[b].0@ by {
                        assert(self.languages@[a].0@ == old(self).languages@[a].0@);
                        assert(self.languages@[b].0@ == old(self).languages@[b].0@);
                    }
                }
                return;
            }
            k = k + 1;
        }
        self.languages.push((name.to_string(), language));
        proof {
            assert(self.languages() =~= old(self).languages().push((name@, language)));
            assert(self.languages().drop_last() =~= old(self).languages());
            assert forall|a: int, b: int|
                #![trigger self.languages@[a], self.languages@[b]]
                0 <= a < b < self.languages@.len() implies self.languages@[a].0@ != self.languages@[b].0@ by {
                if b == n {
                    assert(old(self).languages@[a] == self.languages@[a]);
                }
            }
        }
    }
}

impl<S> Default for ScriptingEngine<S> {
    fn default() -> (e: Self)
        ensures
            e.wf(),
            e.instances() == Seq::<ScriptInstance<S>>::empty(),
            e.spec_enabled(),
            e.spec_next_handle() == 0,
    {
        ScriptingEngine::new()
    }
}

/// Law: script handles are unique: no two instances of an engine share a
/// handle, and the handle the next `add_script` returns is held by no instance.
pub proof fn law_script_handles_unique<S>(engine: ScriptingEngine<S>)
    requires
        engine.wf(),
    ensures
        forall|a: int, b: int|
            0 <= a < b < engine.instances().len() ==> (#[trigger] engine.instances()[a]).spec_handle()
                != (#[trigger] engine.instances()[b]).spec_handle(),
        forall|k: int|
            0 <= k < engine.instances().len() ==> (#[trigger] engine.instances()[k]).spec_handle()
                != engine.spec_next_handle(),
{
}

/// Dropping the instances of an entity keeps a subsequence: every kept
/// instance occurs in the input list, kept handles keep their relative order,
/// and none belongs to the entity.
pub proof fn lemma_without_entity_sub<S>(all: Seq<ScriptInstance<S>>, e: EntityHandle)
    ensures
        forall|k: int| 0 <= k < without_entity(all, e).len() ==> (#[trigger] without_entity(all, e)[k]).spec_entity() != e,
        forall|k: int| 0 <= k < without_entity(all, e).len() ==> exists|j: int|
            0 <= j < all.len() && all[j] == #[trigger] without_entity(all, e)[k],
        forall|a: int, b: int| 0 <= a < b < without_entity(all, e).len() ==> exists|i: int, j: int|
            0 <= i < j < all.len() && all[i] == #[trigger] without_entity(all, e)[a] && all[j]
                == #[trigger] without_entity(all, e)[b],
        without_entity(all, e).len() <= all.len(),
    decreases all.len(),
{
    if all.len() > 0 {
        lemma_without_entity_sub(all.drop_last(), e);
        let r = without_entity(all.drop_last(), e);
        let w = without_entity(all, e);
        assert forall|k: int| 0 <= k < w.len() implies exists|j: int| 0 <= j < all.len() && all[j] == #[trigger] w[k] by {
            if k < r.len() {
                let j = choose|j: int| 0 <= j < all.drop_last().len() && all.drop_last()[j] == r[k];
                assert(all[j] == all.drop_last()[j]);
            } else {
                assert(all[all.len() - 1] == all.last());
            }
        }
        assert forall|a: int, b: int| 0 <= a < b < w.len() implies exists|i: int, j: int|
            0 <= i < j < all.len() && all[i] == #[trigger] w[a] && all[j] == #[trigger] w[b] by {
            if b < r.len() {
                let (i, j) = choose|i: int, j: int| 0 <= i < j < all.drop_last().len() && all.drop_last()[i] == r[a]
                    && all.drop_last()[j] == r[b];
                assert(all[i] == all.drop_last()[i] && all[j] == all.drop_last()[j]);
            } else {
                let i = choose|i: int| 0 <= i < all.drop_last().len() && all.drop_last()[i] == r[a];
                assert(all[i] == all.drop_last()[i]);
                assert(all[all.len() - 1] == all.last());
            }
        }
    }
}

/// As `lemma_without_entity_sub`, for dropping the instance of a handle.
pub proof fn lemma_without_handle_sub<S>(all: Seq<ScriptInstance<S>>, h: ScriptHandle)
    ensures
        forall|k: int| 0 <= k < without_handle(all, h).len() ==> (#[trigger] without_handle(all, h)[k]).spec_handle() != h,
        forall|k: int| 0 <= k < without_handle(all, h).len() ==> exists|j: int|
            0 <= j < all.len() && all[j] == #[trigger] without_handle(all, h)[k],
        forall|a: int, b: int| 0 <= a < b < without_handle(all, h).len() ==> exists|i: int, j: int|
            0 <= i < j < all.len() && all[i] == #[trigger] without_handle(all, h)[a] && all[j]
                == #[trigger] without_handle(all, h)[b],
        without_handle(all, h).len() <= all.len(),
    decreases all.len(),
{
    if all.len() > 0 {
        lemma_without_handle_sub(all.drop_last(), h);
        let r = without_handle(all.drop_last(), h);
        let w = without_handle(all, h);
        assert forall|k: int| 0 <= k < w.len() implies exists|j: int| 0 <= j < all.len() && all[j] == #[trigger] w[k] by {
            if k < r.len() {
                let j = choose|j: int| 0 <= j < all.drop_last().len() && all.drop_last()[j] == r[k];
                assert(all[j] == all.drop_last()[j]);
            } else {
                assert(all[all.len() - 1] == all.last());
            }
        }
        assert forall|a: int, b: int| 0 <= a < b < w.len() implies exists|i: int, j: int|
            0 <= i < j < all.len() && all[i] == #[trigger] w[a] && all[j] == #[trigger] w[b] by {
            if b < r.len() {
                let (i, j) = choose|i: int, j: int| 0 <= i < j < all.drop_last().len() && all.drop_last()[i] == r[a]
                    && all.drop_last()[j] == r[b];
                assert(all[i] == all.drop_last()[i] && all[j] == all.drop_last()[j]);
            } else {
                let i = choose|i: int| 0 <= i < all.drop_last().len() && all.drop_last()[i] == r[a];
                assert(all[i] == all.drop_last()[i]);
                assert(all[all.len() - 1] == all.last());
            }
        }
    }
}

/// Replacing the entry at position `k` (whose name is `name`) makes `name`
/// look up the new language and leaves other names unchanged, when names are distinct.
proof fn lemma_language_update(index: Seq<(Seq<char>, ScriptLanguage)>, k: int, name: Seq<char>, l: ScriptLanguage)
    requires
        0 <= k < index.len(),
        index[k].0 == name,
        forall|a: int, b: int| 0 <= a < b < index.len() ==> index[a].0 != index[b].0,
    ensures
        registered_language(index.update(k, (name, l)), name) == Some(l),
        forall|q: Seq<char>| q != name ==> registered_language(index.update(k, (name, l)), q) == registered_language(index, q),
    decreases index.len(),
{
    let u = index.update(k, (name, l));
    if k == index.len() - 1 {
        assert(u.drop_last() =~= index.drop_last());
    } else {
        assert(u.drop_last() =~= index.drop_last().update(k, (name, l)));
        assert(index.last().0 != name) by {
            assert(index[index.len() - 1] == index.last());
        }
        lemma_language_update(index.drop_last(), k, name, l);
        assert forall|q: Seq<char>| q != name implies registered_language(u, q) == registered_language(index, q) by {
            assert(u.last() == index.last());
            if index.last().0 != q {
                assert(registered_language(u.drop_last(), q) == registered_language(index.drop_last(), q));
            }
        }
    }
}

/// Law: removing an entity's scripts drops exactly its own instances. What
/// is left is the old list with the instances of that entity filtered out,
/// order kept: every instance of another entity stays.
pub proof fn law_remove_script_keeps_others<S>(scripts: Seq<ScriptInstance<S>>, e: EntityHandle)
    ensures
        without_entity(scripts, e) == scripts.filter(|i: ScriptInstance<S>| i.spec_entity() != e),
        forall|k: int|
            0 <= k < scripts.len() && (#[trigger] scripts[k]).spec_entity() != e ==> without_entity(
                scripts,
                e,
            ).contains(scripts[k]),
    decreases scripts.len(),
{
    reveal(Seq::filter);
    if scripts.len() > 0 {
        let init = scripts.drop_last();
        law_remove_script_keeps_others(init, e);
        let pred = |i: ScriptInstance<S>| i.spec_entity() != e;
        assert(scripts.filter(pred) == if pred(scripts.last()) {
            init.filter(pred).push(scripts.last())
        } else {
            init.filter(pred)
        });
        assert forall|k: int|
            0 <= k < scripts.len() && (#[trigger] scripts[k]).spec_entity() != e implies without_entity(
                scripts,
                e,
            ).contains(scripts[k]) by {
            let rest = without_entity(init, e);
            if k < scripts.len() - 1 {
                assert(init[k] == scripts[k]);
                assert(rest.contains(init[k]));
                let j = choose|j: int| 0 <= j < rest.len() && rest[j] == init[k];
                if scripts.last().spec_entity() != e {
                    assert(rest.push(scripts.last())[j] == scripts[k]);
                }
            } else {
                assert(rest.push(scripts.last())[rest.len() as int] == scripts[k]);
            }
        }
    }
}

/// Law: a language name looks up the language of its last registration, and nothing when none has that name.
pub proof fn law_registered_language_is_last_entry(index: Seq<(Seq<char>, ScriptLanguage)>, key: Seq<char>)
    ensures
        registered_language(index, key) is None <==> forall|k: int| 0 <= k < index.len() ==> (#[trigger] index[k]).0 != key,
        match registered_language(index, key) {
            Some(v) => exists|k: int|
                0 <= k < index.len() && #[trigger] index[k] == (key, v) && forall|j: int|
                    k < j < index.len() ==> (#[trigger] index[j]).0 != key,
            None => true,
        },
    decreases index.len(),
{
    if index.len() > 0 {
        let init = index.drop_last();
        law_registered_language_is_last_entry(init, key);
        let last = index.len() - 1;
        if index.last().0 == key {
            assert(index[last] == (key, index.last().1));
        } else {
            assert forall|k: int| 0 <= k < init.len() implies index[k] == init[k] by {}
            if let Some(v) = registered_language(init, key) {
                let k = choose|k: int|
                    0 <= k < init.len() && #[trigger] init[k] == (key, v) && forall|j: int|
                        k < j < init.len() ==> (#[trigger] init[j]).0 != key;
                assert(index[k] == (key, v));
                assert forall|j: int| k < j < index.len() implies (#[trigger] index[j]).0 != key by {
                    if j < last {
                        assert(init[j].0 != key);
                    }
                }
            } else {
                assert forall|k: int| 0 <= k < index.len() implies (#[trigger] index[k]).0 != key by {
                    if k < last {
                        assert(init[k].0 != key);
                    }
                }
            }
        }
    }
}

/// Law: removing a script by handle drops exactly the instances with that
/// handle. What is left is the old list with them filtered out, order kept.
pub proof fn law_remove_by_handle_keeps_others<S>(scripts: Seq<ScriptInstance<S>>, h: ScriptHandle)
    ensures
        without_handle(scripts, h) == scripts.filter(|i: ScriptInstance<S>| i.spec_handle() != h),
    decreases scripts.len(),
{
    reveal(Seq::filter);
    if scripts.len() > 0 {
        let init = scripts.drop_last();
        law_remove_by_handle_keeps_others(init, h);
        let pred = |i: ScriptInstance<S>| i.spec_handle() != h;
        assert(scripts.filter(pred) == if pred(scripts.last()) {
            init.filter(pred).push(scripts.last())
        } else {
            init.filter(pred)
        });
    }
}

} // verus!
