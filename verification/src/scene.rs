//! Scene management: scene contents and the scene manager's name index.
//!
//! A scene's materials, lights and cameras carry floating-point data; the
//! scene is generic over their types and only stores and indexes them.

use vstd::prelude::*;

use crate::assets::str_equal;

verus! {

/// Entity handle type used throughout the scene system.
pub type EntityHandle = u32;

/// Hierarchy parent component.
#[derive(Debug, Clone)]
pub struct Children {
    pub parent: u32,
    pub children: Vec<u32>,
}

impl Default for Children {
    fn default() -> (c: Children)
        ensures
            c.parent == 0,
            c.children@ == Seq::<u32>::empty(),
    {
        Children { parent: 0, children: Vec::new() }
    }
}

/// Tag component for grouping entities.
#[derive(Debug, Clone)]
pub struct Tag {
    pub tag: String,
}

impl Default for Tag {
    fn default() -> (t: Tag)
        ensures
            t.tag@ == Seq::<char>::empty(),
    {
        Tag { tag: String::new() }
    }
}

/// Scene structure for managing game objects.
#[derive(Debug, Clone)]
pub struct Scene<M, L, C> {
    pub name: String,
    pub entities: Vec<EntityHandle>,
    pub materials: Vec<M>,
    pub lights: Vec<L>,
    pub cameras: Vec<C>,
}

impl<M, L, C> Scene<M, L, C> {
    /// An empty scene named `name`.
    pub fn new(name: String) -> (s: Self)
        ensures
            s.name@ == name@,
            s.entities@ == Seq::<EntityHandle>::empty(),
            s.materials@ == Seq::<M>::empty(),
            s.lights@ == Seq::<L>::empty(),
            s.cameras@ == Seq::<C>::empty(),
    {
        Scene { name, entities: Vec::new(), materials: Vec::new(), lights: Vec::new(), cameras: Vec::new() }
    }

    /// Append an entity.
    pub fn add_entity(&mut self, entity: EntityHandle)
        ensures
            final(self).entities@ == old(self).entities@.push(entity),
            final(self).name == old(self).name,
            final(self).materials == old(self).materials,
            final(self).lights == old(self).lights,
            final(self).cameras == old(self).cameras,
    {
        self.entities.push(entity);
    }

    /// Append a material.
    pub fn add_material(&mut self, material: M)
        ensures
            final(self).materials@ == old(self).materials@.push(material),
            final(self).name == old(self).name,
            final(self).entities == old(self).entities,
            final(self).lights == old(self).lights,
            final(self).cameras == old(self).cameras,
    {
        self.materials.push(material);
    }

    /// Append a light.
    pub fn add_light(&mut self, light: L)
        ensures
            final(self).lights@ == old(self).lights@.push(light),
            final(self).name == old(self).name,
            final(self).entities == old(self).entities,
            final(self).materials == old(self).materials,
            final(self).cameras == old(self).cameras,
    {
        self.lights.push(light);
    }

    /// Append a camera.
    pub fn add_camera(&mut self, camera: C)
        ensures
            final(self).cameras@ == old(self).cameras@.push(camera),
            final(self).name == old(self).name,
            final(self).entities == old(self).entities,
            final(self).materials == old(self).materials,
            final(self).lights == old(self).lights,
    {
        self.cameras.push(camera);
    }

    /// The entity at position `index`, if any.
    pub fn entity(&self, index: usize) -> (r: Option<EntityHandle>)
        ensures
            index < self.entities@.len() ==> r == Some(self.entities@[index as int]),
            index >= self.entities@.len() ==> r is None,
    {
        if index < self.entities.len() {
            Some(self.entities[index])
        } else {
            None
        }
    }

    /// The material at position `index`, if any.
    pub fn material(&self, index: usize) -> (r: Option<&M>)
        ensures
            index < self.materials@.len() ==> (r matches Some(m) && *m == self.materials@[index as int]),
            index >= self.materials@.len() ==> r is None,
    {
        if index < self.materials.len() {
            Some(&self.materials[index])
        } else {
            None
        }
    }

    /// The light at position `index`, if any.
    pub fn light(&self, index: usize) -> (r: Option<&L>)
        ensures
            index < self.lights@.len() ==> (r matches Some(l) && *l == self.lights@[index as int]),
            index >= self.lights@.len() ==> r is None,
    {
        if index < self.lights.len() {
            Some(&self.lights[index])
        } else {
            None
        }
    }

    /// The camera at position `index`, if any.
    pub fn camera(&self, index: usize) -> (r: Option<&C>)
        ensures
            index < self.cameras@.len() ==> (r matches Some(c) && *c == self.cameras@[index as int]),
            index >= self.cameras@.len() ==> r is None,
    {
        if index < self.cameras.len() {
            Some(&self.cameras[index])
        } else {
            None
        }
    }

    /// All cameras, in insertion order.
    pub fn cameras(&self) -> (s: &[C])
        ensures
            s@ == self.cameras@,
    {
        self.cameras.as_slice()
    }
}

impl<M, L, C> Default for Scene<M, L, C> {
    fn default() -> (s: Self)
        ensures
            s.name@ == "Untitled"@,
            s.entities@ == Seq::<EntityHandle>::empty(),
            s.materials@ == Seq::<M>::empty(),
            s.lights@ == Seq::<L>::empty(),
            s.cameras@ == Seq::<C>::empty(),
    {
        Scene::new(String::from_str("Untitled"))
    }
}

/// The handle the name index records for `name`, if any.
pub open spec fn named_handle(index: Seq<(Seq<char>, EntityHandle)>, name: Seq<char>) -> Option<EntityHandle>
    decreases index.len(),
{
    if index.len() == 0 {
        None
    } else if index.last().0 == name {
        Some(index.last().1)
    } else {
        named_handle(index.drop_last(), name)
    }
}

/// Scene manager: the current scene and an index from entity names to handles.
#[derive(Debug, Clone)]
pub struct SceneManager<M, L, C> {
    current_scene: Option<Scene<M, L, C>>,
    /// Entity names with their handles, each name at most once.
    scene_map: Vec<(String, EntityHandle)>,
}

impl<M, L, C> SceneManager<M, L, C> {
    /// The loaded scene, if any.
    pub closed spec fn current(&self) -> Option<Scene<M, L, C>> {
        self.current_scene
    }

    /// The name index, in insertion order.
    pub closed spec fn names(&self) -> Seq<(Seq<char>, EntityHandle)> {
        self.scene_map@.map_values(|p: (String, EntityHandle)| (p.0@, p.1))
    }

    /// Well-formedness: each name indexed once.
    pub closed spec fn wf(&self) -> bool {
        forall|a: int, b: int|
            #![trigger self.scene_map@[a], self.scene_map@[b]]
            0 <= a < b < self.scene_map@.len() ==> self.scene_map@[a].0@ != self.scene_map@[b].0@
    }

    /// A manager with no scene and no names.
    pub fn new() -> (m: Self)
        ensures
            m.wf(),
            m.current() is None,
            m.names() == Seq::<(Seq<char>, EntityHandle)>::empty(),
    {
        let m = SceneManager { current_scene: None, scene_map: Vec::new() };
        assert(m.names() =~= Seq::<(Seq<char>, EntityHandle)>::empty());
        m
    }

    /// Make `scene` the current scene.
    pub fn load(&mut self, scene: Scene<M, L, C>)
        requires
            old(self).wf(),
        ensures
            final(self).wf(),
            final(self).current() == Some(scene),
            final(self).names() == old(self).names(),
    {
        self.current_scene = Some(scene);
    }

    /// The current scene, if any.
    pub fn current_scene(&self) -> (r: Option<&Scene<M, L, C>>)
        ensures
            r matches Some(s) ==> self.current() == Some(*s),
            r is None ==> self.current() is None,
    {
        match &self.current_scene {
            Some(s) => Some(s),
            None => None,
        }
    }

    /// Mutable access to the current scene, if any.
    pub fn current_scene_mut(&mut self) -> (r: Option<&mut Scene<M, L, C>>)
        requires
            old(self).wf(),
        ensures
            final(self).wf(),
            final(self).names() == old(self).names(),
            r is Some <==> old(self).current() is Some,
            r matches Some(s) ==> old(self).current() == Some(*s) && final(self).current() == Some(*final(s)),
            r is None ==> final(self).current() is None,
    {
        match &mut self.current_scene {
            Some(s) => Some(s),
            None => None,
        }
    }

    /// Drop the current scene.
    pub fn unload(&mut self)
        requires
            old(self).wf(),
        ensures
            final(self).wf(),
            final(self).current() is None,
            final(self).names() == old(self).names(),
    {
        self.current_scene = None;
    }

    /// The handle indexed for `name`, if any.
    pub fn get_entity(&self, name: &str) -> (r: Option<EntityHandle>)
        ensures
            r == named_handle(self.names(), name@),
    {
        let ghost index = self.names();
        let mut k = self.scene_map.len();
        assert(index.subrange(0, k as int) =~= index);
        while k > 0
            invariant
                k <= self.scene_map@.len(),
                index == self.names(),
                index.len() == self.scene_map@.len(),
                named_handle(index, name@) == named_handle(index.subrange(0, k as int), name@),
            decreases k,
        {
            let ghost prefix = index.subrange(0, k as int);
            assert(prefix.drop_last() =~= index.subrange(0, k - 1));
            let entry = &self.scene_map[k - 1];
            assert(prefix.last() == (entry.0@, entry.1));
            if str_equal(entry.0.as_str(), name) {
                return Some(entry.1);
            }
            k = k - 1;
        }
        None
    }

    /// Index `name` to `handle`, replacing an earlier handle of that name.
    pub fn add_entity(&mut self, name: String, handle: EntityHandle)
        requires
            old(self).wf(),
        ensures
            final(self).wf(),
            final(self).current() == old(self).current(),
            named_handle(final(self).names(), name@) == Some(handle),
            forall|q: Seq<char>| q != name@ ==> named_handle(final(self).names(), q) == named_handle(old(self).names(), q),
    {
        let n = self.scene_map.len();
        let mut k: usize = 0;
        while k < n
            invariant
                n == self.scene_map@.len(),
                k <= n,
                *self == *old(self),
                old(self).wf(),
                forall|j: int| 0 <= j < k ==> self.scene_map@[j].0@ != name@,
            decreases n - k,
        {
            if str_equal(self.scene_map[k].0.as_str(), name.as_str()) {
                let ghost name_view = name@;
                proof {
                    let index = old(self).names();
                    assert forall|a: int, b: int| 0 <= a < b < index.len() implies index[a].0 != index[b].0 by {
                        assert(index[a].0 == old(self).scene_map@[a].0@);
                        assert(index[b].0 == old(self).scene_map@[b].0@);
                    }
                    lemma_named_update(index, k as int, name_view, handle);
                }
                self.scene_map.set(k, (name, handle));
                proof {
                    assert(self.names() =~= old(self).names().update(k as int, (name_view, handle)));
                    assert forall|a: int, b: int|
                        #![trigger self.scene_map@[a], self.scene_map@[b]]
                        0 <= a < b < self.scene_map@.len() implies self.scene_map@[a].0@ != self.scene_map@[b].0@ by {
                        assert(self.scene_map@[a].0@ == old(self).scene_map@[a].0@);
                        assert(self.scene_map@[b].0@ == old(self).scene_map@[b].0@);
                    }
                }
                return;
            }
            k = k + 1;
        }
        let ghost name_view = name@;
        self.scene_map.push((name, handle));
        proof {
            assert(self.names() =~= old(self).names().push((name_view, handle)));
            assert(self.names().drop_last() =~= old(self).names());
            assert forall|a: int, b: int|
                #![trigger self.scene_map@[a], self.scene_map@[b]]
                0 <= a < b < self.scene_map@.len() implies self.scene_map@[a].0@ != self.scene_map@[b].0@ by {
                if b == n {
                    assert(old(self).scene_map@[a] == self.scene_map@[a]);
                }
            }
        }
    }
}

impl<M, L, C> Default for SceneManager<M, L, C> {
    fn default() -> (m: Self)
        ensures
            m.wf(),
            m.current() is None,
            m.names() == Seq::<(Seq<char>, EntityHandle)>::empty(),
    {
        SceneManager::new()
    }
}

/// Replacing the entry at position `k` (whose name is `name`) makes `name`
/// look up the new handle and leaves other names unchanged, when names are distinct.
proof fn lemma_named_update(index: Seq<(Seq<char>, EntityHandle)>, k: int, name: Seq<char>, h: EntityHandle)
    requires
        0 <= k < index.len(),
        index[k].0 == name,
        forall|a: int, b: int| 0 <= a < b < index.len() ==> index[a].0 != index[b].0,
    ensures
        named_handle(index.update(k, (name, h)), name) == Some(h),
        forall|q: Seq<char>| q != name ==> named_handle(index.update(k, (name, h)), q) == named_handle(index, q),
    decreases index.len(),
{
    let u = index.update(k, (name, h));
    if k == index.len() - 1 {
        assert(u.drop_last() =~= index.drop_last());
    } else {
        assert(u.drop_last() =~= index.drop_last().update(k, (name, h)));
        assert(index.last().0 != name) by {
            assert(index[index.len() - 1] == index.last());
        }
        lemma_named_update(index.drop_last(), k, name, h);
        assert forall|q: Seq<char>| q != name implies named_handle(u, q) == named_handle(index, q) by {
            assert(u.last() == index.last());
            if index.last().0 != q {
                assert(named_handle(u.drop_last(), q) == named_handle(index.drop_last(), q));
            }
        }
    }
}

/// Law: after `add_entity(name, h)`, `get_entity(name)` yields `h`, and a
/// later `add_entity` of the same name replaces it.
pub proof fn law_named_lookup(index: Seq<(Seq<char>, EntityHandle)>, name: Seq<char>, h: EntityHandle)
    ensures
        named_handle(index.push((name, h)), name) == Some(h),
{
}

/// Law: a name looks up the handle of its last entry in the name index, and nothing when no entry has that name.
pub proof fn law_named_handle_is_last_entry(index: Seq<(Seq<char>, EntityHandle)>, key: Seq<char>)
    ensures
        named_handle(index, key) is None <==> forall|k: int| 0 <= k < index.len() ==> (#[trigger] index[k]).0 != key,
        match named_handle(index, key) {
            Some(v) => exists|k: int|
                0 <= k < index.len() && #[trigger] index[k] == (key, v) && forall|j: int|
                    k < j < index.len() ==> (#[trigger] index[j]).0 != key,
            None => true,
        },
    decreases index.len(),
{
    if index.len() > 0 {
        let init = index.drop_last();
        law_named_handle_is_last_entry(init, key);
        let last = index.len() - 1;
        if index.last().0 == key {
            assert(index[last] == (key, index.last().1));
        } else {
            assert forall|k: int| 0 <= k < init.len() implies index[k] == init[k] by {}
            if let Some(v) = named_handle(init, key) {
                let k = choose|k: int|
                    0 <= k < init.len() && #[trigger] init[k] == (key, v) && forall|j: int|
                        k < j < init.len() ==> (#[trigger] init[j]).0 != key;
                assert(index[k] == (key, v));
                assert forall|j: int| k < j < index.len() implies (#[trigger] index[j]).0 != key by {
                    if j < last {
                        assert(init[j].0 != key);
                    }
                }
            } else {
                assert forall|k: int| 0 <= k < index.len() implies (#[trigger] index[k]).0 != key by {
                    if k < last {
                        assert(init[k].0 != key);
                    }
                }
            }
        }
    }
}

} // verus!
