//! Plugin registry: loading by path, unloading, and the initialization order.

use vstd::prelude::*;

use crate::assets::str_equal;

verus! {

/// The character sequences of a list of strings.
pub open spec fn string_views(v: Seq<String>) -> Seq<Seq<char>> {
    v.map_values(|s: String| s@)
}

/// Plugin error types
#[derive(Debug, Clone, PartialEq, Eq)]
pub enum PluginError {
    NotFound,
    AlreadyLoaded,
    InvalidPath,
    LoadFailed,
    Incompatible,
    Other(String),
}

/// The display text of a plugin error.
pub open spec fn plugin_error_text(e: PluginError) -> Seq<char> {
    match e {
        PluginError::NotFound => "Plugin not found"@,
        PluginError::AlreadyLoaded => "Plugin already loaded"@,
        PluginError::InvalidPath => "Invalid plugin path"@,
        PluginError::LoadFailed => "Failed to load plugin"@,
        PluginError::Incompatible => "Plugin incompatible"@,
        PluginError::Other(m) => m@,
    }
}

impl PluginError {
    /// The display text of the error.
    pub fn message(&self) -> (s: String)
        ensures
            s@ == plugin_error_text(*self),
    {
        match self {
            PluginError::NotFound => String::from_str("Plugin not found"),
            PluginError::AlreadyLoaded => String::from_str("Plugin already loaded"),
            PluginError::InvalidPath => String::from_str("Invalid plugin path"),
            PluginError::LoadFailed => String::from_str("Failed to load plugin"),
            PluginError::Incompatible => String::from_str("Plugin incompatible"),
            PluginError::Other(m) => m.clone(),
        }
    }
}

/// The file stem of a path (its last component without the extension), as
/// computed by `std::path::Path::file_stem`, when it exists and is valid UTF-8.
/// Its value depends on the path separator rules of the target the crate is
/// built for (`/` on Unix; `/` and `\` on Windows).
pub uninterp spec fn file_stem_of(path: Seq<char>) -> Option<Seq<char>>;

/// Calls `std::path::Path::file_stem` on `path` and converts the stem to a
/// `String`. The result is named `file_stem_of(path)`.
#[verifier::external_body]
fn path_file_stem(path: &str) -> (r: Option<String>)
    ensures
        r matches Some(s) ==> file_stem_of(path@) == Some(s@),
        r is None ==> file_stem_of(path@) is None,
{
    match std::path::Path::new(path).file_stem() {
        Some(stem) => match stem.to_str() {
            Some(s) => Some(s.to_string()),
            None => None,
        },
        None => None,
    }
}

/// The plugin that loading a path creates: named after the path's file stem,
/// version "1.0.0", no dependencies, and hooks that do nothing.
pub struct DummyPlugin {
    name: String,
}

impl DummyPlugin {
    /// The name of the plugin.
    pub closed spec fn spec_name(&self) -> Seq<char> {
        self.name@
    }

    /// A plugin named `name`.
    pub fn new(name: &str) -> (p: DummyPlugin)
        ensures
            p.spec_name() == name@,
    {
        DummyPlugin { name: name.to_string() }
    }

    /// The name of the plugin.
    pub fn name(&self) -> (n: &str)
        ensures
            n@ == self.spec_name(),
    {
        self.name.as_str()
    }

    /// The version of the plugin.
    pub fn version(&self) -> (v: &'static str)
        ensures
            v@ == "1.0.0"@,
    {
        "1.0.0"
    }

    /// The names of the plugins this one depends on: none.
    pub fn dependencies(&self) -> (d: Vec<String>)
        ensures
            d@.len() == 0,
    {
        Vec::new()
    }

    /// Whether the plugin can be reloaded while running: no.
    pub fn hot_reloadable(&self) -> (b: bool)
        ensures
            !b,
    {
        false
    }
}

/// Plugin manager: the loaded plugins, in load order, and the plugin search paths.
pub struct PluginManager {
    plugins: Vec<DummyPlugin>,
    plugin_paths: Vec<String>,
    loaded_order: Vec<String>,
}

impl PluginManager {
    /// The names of the loaded plugins, in load order.
    pub closed spec fn names(&self) -> Seq<Seq<char>> {
        self.plugins@.map_values(|p: DummyPlugin| p.name@)
    }

    /// The registered search paths, in order.
    pub closed spec fn paths(&self) -> Seq<Seq<char>> {
        self.plugin_paths@.map_values(|p: String| p@)
    }

    /// Well-formedness: names are distinct, and the load order lists them.
    pub closed spec fn wf(&self) -> bool {
        &&& self.names().no_duplicates()
        &&& self.loaded_order@.len() == self.plugins@.len()
        &&& forall|k: int|
            #![trigger self.loaded_order@[k]]
            0 <= k < self.loaded_order@.len() ==> self.loaded_order@[k]@ == self.plugins@[k].name@
    }

    /// A manager with no plugins and no search paths.
    pub fn new() -> (m: PluginManager)
        ensures
            m.wf(),
            m.names() == Seq::<Seq<char>>::empty(),
            m.paths() == Seq::<Seq<char>>::empty(),
    {
        let m = PluginManager { plugins: Vec::new(), plugin_paths: Vec::new(), loaded_order: Vec::new() };
        assert(m.names() =~= Seq::<Seq<char>>::empty());
        assert(m.paths() =~= Seq::<Seq<char>>::empty());
        m
    }

    /// Register a search path.
    pub fn add_plugin_path(&mut self, path: String)
        requires
            old(self).wf(),
        ensures
            final(self).wf(),
            final(self).paths() == old(self).paths().push(path@),
            final(self).names() == old(self).names(),
    {
        let ghost pv = path@;
        self.plugin_paths.push(path);
        assert(self.paths() =~= old(self).paths().push(pv));
    }

    /// Position of the plugin named `name`, if loaded.
    fn position(&self, name: &str) -> (r: Option<usize>)
        requires
            self.wf(),
        ensures
            r matches Some(k) ==> k < self.names().len() && self.names()[k as int] == name@,
            r is None ==> !self.names().contains(name@),
    {
        let mut k: usize = 0;
        while k < self.plugins.len()
            invariant
                k <= self.plugins@.len(),
                forall|j: int| 0 <= j < k ==> self.names()[j] != name@,
            decreases self.plugins@.len() - k,
        {
            if str_equal(self.plugins[k].name.as_str(), name) {
                return Some(k);
            }
            k = k + 1;
        }
        None
    }

    /// Load the plugin at `path`: a plugin named after the file stem of the
    /// path is added at the end of the load order. Fails with `InvalidPath`
    /// when the path has no (UTF-8) file stem, and with `AlreadyLoaded` when a
    /// plugin of that name is loaded.
    pub fn load_plugin(&mut self, path: &str) -> (r: Result<String, PluginError>)
        requires
            old(self).wf(),
        ensures
            final(self).wf(),
            final(self).paths() == old(self).paths(),
            file_stem_of(path@) is None ==> (r == Err::<String, PluginError>(PluginError::InvalidPath)
                && final(self).names() == old(self).names()),
            file_stem_of(path@) is Some && old(self).names().contains(file_stem_of(path@)->0) ==> (r == Err::<
                String,
                PluginError,
            >(PluginError::AlreadyLoaded) && final(self).names() == old(self).names()),
            file_stem_of(path@) is Some && !old(self).names().contains(file_stem_of(path@)->0) ==> (r matches Ok(s)
                && s@ == file_stem_of(path@)->0 && final(self).names() == old(self).names().push(
                file_stem_of(path@)->0,
            )),
    {
        let name = match path_file_stem(path) {
            Some(n) => n,
            None => {
                return Err(PluginError::InvalidPath);
            },
        };
        if self.position(name.as_str()).is_some() {
            return Err(PluginError::AlreadyLoaded);
        }
        let plugin = DummyPlugin::new(name.as_str());
        self.plugins.push(plugin);
        self.loaded_order.push(name.clone());
        proof {
            assert(self.names() =~= old(self).names().push(name@));
            assert forall|a: int, b: int|
                0 <= a < self.names().len() && 0 <= b < self.names().len() && a != b implies self.names()[a]
                != self.names()[b] by {
                if a == old(self).names().len() as int {
                    assert(old(self).names().contains(self.names()[b]) || b == a);
                } else if b == old(self).names().len() as int {
                    assert(old(self).names()[a] == self.names()[a]);
                }
            }
        }
        Ok(name)
    }

    /// Unload the plugin named `name`; `NotFound` when it is not loaded.
    pub fn unload_plugin(&mut self, name: &str) -> (r: Result<(), PluginError>)
        requires
            old(self).wf(),
        ensures
            final(self).wf(),
            final(self).paths() == old(self).paths(),
            !old(self).names().contains(name@) ==> (r == Err::<(), PluginError>(PluginError::NotFound)
                && final(self).names() == old(self).names()),
            old(self).names().contains(name@) ==> (r is Ok && final(self).names() == old(self).names().remove(
                old(self).names().index_of(name@),
            )),
    {
        let k = match self.position(name) {
            Some(k) => k,
            None => {
                return Err(PluginError::NotFound);
            },
        };
        proof {
            old(self).names().index_of_first_ensures(name@);
            assert(old(self).names().index_of(name@) == k as int) by {
                assert(old(self).names()[k as int] == name@);
                let i = old(self).names().index_of(name@);
                if i != k as int {
                    assert(old(self).names()[i] == name@);
                }
            }
        }
        self.plugins.remove(k);
        self.loaded_order.remove(k);
        proof {
            assert(self.names() =~= old(self).names().remove(k as int));
            assert forall|a: int, b: int|
                0 <= a < self.names().len() && 0 <= b < self.names().len() && a != b implies self.names()[a]
                != self.names()[b] by {
                let oa = if a < k { a } else { a + 1 };
                let ob = if b < k { b } else { b + 1 };
                assert(self.names()[a] == old(self).names()[oa]);
                assert(self.names()[b] == old(self).names()[ob]);
            }
            assert forall|j: int|
                #![trigger self.loaded_order@[j]]
                0 <= j < self.loaded_order@.len() implies self.loaded_order@[j]@ == self.plugins@[j].name@ by {
                let oj = if j < k { j } else { j + 1 };
                assert(self.loaded_order@[j] == old(self).loaded_order@[oj]);
                assert(self.plugins@[j] == old(self).plugins@[oj]);
            }
        }
        Ok(())
    }

    /// The plugin named `name`, if loaded.
    pub fn get_plugin(&self, name: &str) -> (r: Option<&DummyPlugin>)
        requires
            self.wf(),
        ensures
            r matches Some(p) ==> p.spec_name() == name@,
            r is None <==> !self.names().contains(name@),
    {
        match self.position(name) {
            Some(k) => Some(&self.plugins[k]),
            None => None,
        }
    }

    /// Mutable access to the plugin named `name`, if loaded.
    pub fn get_plugin_mut(&mut self, name: &str) -> (r: Option<&mut DummyPlugin>)
        requires
            old(self).wf(),
        ensures
            r matches Some(p) ==> p.spec_name() == name@,
            r is None <==> !old(self).names().contains(name@),
            r is None ==> final(self).names() == old(self).names() && final(self).wf(),
            r matches Some(p) ==> {
                &&& final(self).names() == old(self).names().update(
                    old(self).names().index_of(name@),
                    final(p).spec_name(),
                )
                &&& (final(p).spec_name() == name@ ==> final(self).wf())
            },
            final(self).paths() == old(self).paths(),
    {
        match self.position(name) {
            Some(k) => {
                proof {
                    old(self).names().index_of_first_ensures(name@);
                    let i = old(self).names().index_of(name@);
                    assert(i == k as int) by {
                        if i != k as int {
                            assert(old(self).names()[i] == old(self).names()[k as int]);
                        }
                    }
                }
                Some(&mut self.plugins[k])
            },
            None => None,
        }
    }

    /// The names of the loaded plugins, in load order.
    pub fn loaded_order(&self) -> (s: &[String])
        requires
            self.wf(),
        ensures
            s@.len() == self.names().len(),
            forall|k: int| 0 <= k < s@.len() ==> (#[trigger] s@[k])@ == self.names()[k],
    {
        self.loaded_order.as_slice()
    }

    /// The names of the loaded plugins.
    pub fn plugin_names(&self) -> (v: Vec<String>)
        requires
            self.wf(),
        ensures
            string_views(v@) == self.names(),
    {
        let mut v: Vec<String> = Vec::new();
        let mut k: usize = 0;
        while k < self.plugins.len()
            invariant
                k <= self.plugins@.len(),
                string_views(v@) == self.names().subrange(0, k as int),
                v@.len() == k,
            decreases self.plugins@.len() - k,
        {
            let c = self.plugins[k].name.clone();
            assert(c@ == self.names()[k as int]);
            let ghost before = v@;
            v.push(c);
            assert(v@ == before.push(c));
            assert forall|j: int| 0 <= j < k + 1 implies #[trigger] string_views(v@)[j]
                == self.names().subrange(0, k + 1)[j] by {
                if j < k {
                    assert(v@[j] == before[j]);
                    assert(string_views(before)[j] == self.names().subrange(0, k as int)[j]);
                }
            }
            assert(string_views(v@) =~= self.names().subrange(0, k + 1));
            k = k + 1;
        }
        assert(self.names().subrange(0, k as int) =~= self.names());
        v
    }

    /// The order in which plugins are initialized: repeatedly, every plugin
    /// not yet initialized whose dependencies all are, in load order, until a
    /// pass makes no progress. Loaded plugins have no dependencies, so this
    /// is every plugin, in load order.
    pub fn initialization_order(&self) -> (order: Vec<String>)
        requires
            self.wf(),
        ensures
            string_views(order@) == self.names(),
    {
        let n = self.plugins.len();
        let mut initialized: Vec<String> = Vec::new();
        loop
            invariant
                n == self.plugins@.len(),
                self.wf(),
                initialized@.len() == 0 || string_views(initialized@) == self.names(),
            ensures
                string_views(initialized@) == self.names(),
            decreases n - initialized@.len(), if initialized@.len() == 0 { 1int } else { 0int },
        {
            let mut progress = false;
            let start_empty = initialized.len() == 0;
            let mut k: usize = 0;
            while k < n
                invariant
                    n == self.plugins@.len(),
                    k <= n,
                    self.wf(),
                    start_empty ==> string_views(initialized@) == self.names().subrange(0, k as int),
                    start_empty ==> (progress <==> k > 0),
                    !start_empty ==> string_views(initialized@) == self.names() && !progress,
                decreases n - k,
            {
                let plugin = &self.plugins[k];
                let pending = !contains_name(&initialized, plugin.name.as_str());
                if pending {
                    let deps = plugin.dependencies();
                    let mut can_init = true;
                    let mut d: usize = 0;
                    while d < deps.len()
                        invariant
                            d <= deps@.len(),
                            deps@.len() == 0,
                            can_init,
                        decreases deps@.len() - d,
                    {
                        if !contains_name(&initialized, deps[d].as_str()) {
                            can_init = false;
                        }
                        d = d + 1;
                    }
                    if can_init {
                        proof {
                            if !start_empty {
                                assert(string_views(initialized@).contains(self.names()[k as int]));
                            }
                        }
                        let c = plugin.name.clone();
                        assert(c@ == self.names()[k as int]);
                        let ghost before = initialized@;
                        initialized.push(c);
                        assert(initialized@ == before.push(c));
                        progress = true;
                        proof {
                            if start_empty {
                                assert(string_views(initialized@) =~= self.names().subrange(0, k + 1));
                            }
                        }
                    }
                } else {
                    proof {
                        if start_empty {
                            lemma_prefix_excludes(self.names(), k as int);
                            let w = string_views(initialized@);
                            assert(w.contains(self.names()[k as int]));
                        }
                    }
                }
                k = k + 1;
            }
            proof {
                if start_empty {
                    assert(self.names().subrange(0, n as int) =~= self.names());
                }
            }
            if !progress {
                break;
            }
        }
        initialized
    }

    /// Forget every plugin.
    pub fn clear(&mut self)
        requires
            old(self).wf(),
        ensures
            final(self).wf(),
            final(self).names() == Seq::<Seq<char>>::empty(),
            final(self).paths() == old(self).paths(),
    {
        self.plugins.clear();
        self.loaded_order.clear();
        assert(self.names() =~= Seq::<Seq<char>>::empty());
    }
}

impl Default for PluginManager {
    fn default() -> (m: PluginManager)
        ensures
            m.wf(),
            m.names() == Seq::<Seq<char>>::empty(),
            m.paths() == Seq::<Seq<char>>::empty(),
    {
        PluginManager::new()
    }
}

/// Whether `names` holds `name`.
fn contains_name(names: &Vec<String>, name: &str) -> (b: bool)
    ensures
        b == string_views(names@).contains(name@),
{
    let mut k: usize = 0;
    while k < names.len()
        invariant
            k <= names@.len(),
            forall|j: int| 0 <= j < k ==> names@[j]@ != name@,
        decreases names@.len() - k,
    {
        if str_equal(names[k].as_str(), name) {
            assert(string_views(names@)[k as int] == name@);
            return true;
        }
        k = k + 1;
    }
    proof {
        let w = string_views(names@);
        if w.contains(name@) {
            let j = choose|j: int| 0 <= j < w.len() && #[trigger] w[j] == name@;
            assert(names@[j]@ == name@);
        }
    }
    false
}

/// Law: unloading a plugin right after loading it under a fresh name
/// restores the list of loaded plugins.
pub proof fn law_load_then_unload_restores(names: Seq<Seq<char>>, name: Seq<char>)
    requires
        !names.contains(name),
    ensures
        names.push(name).contains(name),
        names.push(name).remove(names.push(name).index_of(name)) == names,
{
    let all = names.push(name);
    assert(all[names.len() as int] == name);
    all.index_of_first_ensures(name);
    let i = all.index_of(name);
    assert(i == names.len()) by {
        if i < names.len() {
            assert(names[i] == all[i]);
            assert(names.contains(name));
        }
    }
    assert(all.remove(i) =~= names);
}

/// In a list of distinct names, the name at position `k` is not among the first `k`.
proof fn lemma_prefix_excludes(names: Seq<Seq<char>>, k: int)
    requires
        names.no_duplicates(),
        0 <= k < names.len(),
    ensures
        !names.subrange(0, k).contains(names[k]),
{
    if names.subrange(0, k).contains(names[k]) {
        let j = choose|j: int| 0 <= j < k && names.subrange(0, k)[j] == names[k];
        assert(names[j] == names[k]);
    }
}

} // verus!
