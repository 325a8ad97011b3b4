//! Asset registry — handles, raw asset bytes, and the path index.

use vstd::prelude::*;

use std::collections::HashMap;
use vstd::std_specs::iter::IteratorSpec;
use std::time::{Duration, SystemTime};

verus! {

broadcast use vstd::std_specs::hash::group_hash_axioms;

/// `std::time::SystemTime`, carried through opaquely.
#[verifier::external_type_specification]
#[verifier::external_body]
pub struct ExSystemTime(SystemTime);

/// Calls `std::time::SystemTime::now()`. Nothing is stated of the result: it
/// is the clock of the machine at the time of the call.
#[verifier::external_body]
pub(crate) fn system_time_now() -> SystemTime {
    SystemTime::now()
}

/// `std::time::UNIX_EPOCH`.
#[verifier::external_body]
pub(crate) fn unix_epoch() -> SystemTime {
    std::time::UNIX_EPOCH
}

/// Calls `SystemTime::duration_since(t, earlier)`, keeping the duration when
/// `t` is not before `earlier`. Nothing is stated of the result: times are
/// opaque here.
#[verifier::external_body]
pub(crate) fn duration_since(t: SystemTime, earlier: SystemTime) -> Option<Duration> {
    match t.duration_since(earlier) {
        Ok(d) => Some(d),
        Err(_) => None,
    }
}

/// Calls `Duration::as_nanos`. Nothing is stated of the result: `d` is
/// opaque here.
#[verifier::external_body]
pub(crate) fn duration_as_nanos(d: Duration) -> u128 {
    d.as_nanos()
}

/// `n` as an `i128`, or `i128::MAX` when it is larger.
fn saturated_i128(n: u128) -> (r: i128)
    ensures
        r == (if n <= i128::MAX { n as int } else { i128::MAX as int }),
{
    if n <= 0x7fff_ffff_ffff_ffff_ffff_ffff_ffff_ffffu128 {
        n as i128
    } else {
        i128::MAX
    }
}

/// The machine clock's time in nanoseconds from the Unix epoch (negative
/// before it, saturating at the bounds of `i128`).
fn clock_nanos() -> i128 {
    let now = system_time_now();
    let epoch = unix_epoch();
    match duration_since(now, epoch) {
        Some(d) => saturated_i128(duration_as_nanos(d)),
        None => match duration_since(epoch, now) {
            Some(d) => 0 - saturated_i128(duration_as_nanos(d)),
            None => 0,
        },
    }
}

/// Whether the two strings hold the same characters.
pub(crate) fn str_equal(a: &str, b: &str) -> (r: bool)
    ensures
        r == (a@ == b@),
{
    let n = a.unicode_len();
    if n != b.unicode_len() {
        return false;
    }
    let mut i: usize = 0;
    while i < n
        invariant
            n == a@.len(),
            n == b@.len(),
            i <= n,
            forall|j: int| 0 <= j < i ==> a@[j] == b@[j],
        decreases n - i,
    {
        if a.get_char(i) != b.get_char(i) {
            return false;
        }
        i = i + 1;
    }
    assert(a@ =~= b@);
    true
}

/// `prefix` followed by `msg`.
pub(crate) fn prefixed(prefix: &str, msg: &String) -> (s: String)
    ensures
        s@ == prefix@ + msg@,
{
    let mut s = String::from_str(prefix);
    s.append(msg.as_str());
    s
}

/// Trait for deserializing assets from raw data.
pub trait FromBytes: Sized {
    fn from_bytes(data: &[u8]) -> Result<Self, AssetError>;
}

/// Error type for asset operations.
#[derive(Debug, Clone)]
pub enum AssetError {
    IOError(String),
    ParseError(String),
    NotFound(String),
    Locked,
    Other(String),
}

/// The display text of an asset error.
pub open spec fn asset_error_text(e: AssetError) -> Seq<char> {
    match e {
        AssetError::IOError(m) => "IO error: "@ + m@,
        AssetError::ParseError(m) => "Parse error: "@ + m@,
        AssetError::NotFound(m) => "Asset not found: "@ + m@,
        AssetError::Locked => "Asset is locked"@,
        AssetError::Other(m) => "Error: "@ + m@,
    }
}

impl AssetError {
    /// The display text of the error.
    pub fn message(&self) -> (s: String)
        ensures
            s@ == asset_error_text(*self),
    {
        match self {
            AssetError::IOError(m) => prefixed("IO error: ", m),
            AssetError::ParseError(m) => prefixed("Parse error: ", m),
            AssetError::NotFound(m) => prefixed("Asset not found: ", m),
            AssetError::Locked => String::from_str("Asset is locked"),
            AssetError::Other(m) => prefixed("Error: ", m),
        }
    }
}

/// Asset handle for referencing loaded assets.
#[derive(Debug, Clone, Copy, PartialEq, Eq, Structural, Hash, PartialOrd, Ord)]
pub struct AssetHandle {
    id: u64,
    version: u32,
}

impl AssetHandle {
    /// The id of the handle.
    pub closed spec fn spec_id(self) -> u64 {
        self.id
    }

    /// The version of the handle.
    pub closed spec fn spec_version(self) -> u32 {
        self.version
    }

    /// The handle with id `id` and version 0.
    pub closed spec fn spec_new(id: u64) -> AssetHandle {
        AssetHandle { id, version: 0 }
    }

    /// The handle with id `id` and version 0.
    pub fn new(id: u64) -> (h: AssetHandle)
        ensures
            h == AssetHandle::spec_new(id),
            h.spec_id() == id,
            h.spec_version() == 0,
    {
        AssetHandle { id, version: 0 }
    }

    /// The id of the handle.
    pub fn id(&self) -> (i: u64)
        ensures
            i == self.spec_id(),
    {
        self.id
    }

    /// The version of the handle.
    pub fn version(&self) -> (v: u32)
        ensures
            v == self.spec_version(),
    {
        self.version
    }
}

impl Default for AssetHandle {
    fn default() -> (h: AssetHandle)
        ensures
            h == AssetHandle::spec_new(0),
    {
        AssetHandle { id: 0, version: 0 }
    }
}

/// Asset entry in the registry.
struct AssetEntry {
    data: Vec<u8>,
    path: String,
    modified: i128,
}

/// Asset manager: a registry of raw asset data, keyed by handle, with an
/// index from file path to handle.
///
/// Handles are handed out with increasing ids starting at 1 and are never
/// reused.
pub struct AssetManager {
    /// Assets registry (handle id -> entry)
    assets: HashMap<u64, AssetEntry>,
    /// Path to asset handle mapping, each path at most once
    path_map: Vec<(String, AssetHandle)>,
    /// Asset type names (handle id -> name)
    asset_types: HashMap<u64, &'static str>,
    /// Next available ID
    next_id: u64,
}

/// The abstract state of an asset registry.
pub struct AssetsView {
    /// Raw bytes of each loaded asset, by handle id.
    pub data: Map<u64, Seq<u8>>,
    /// Path (or name) recorded for each loaded asset, by handle id.
    pub paths: Map<u64, Seq<char>>,
    /// The path index: each indexed path with its handle, in insertion order.
    pub path_index: Seq<(Seq<char>, AssetHandle)>,
    /// The id the next new asset gets.
    pub next_id: u64,
}

/// The handle the path index records for `path`, if any.
pub open spec fn indexed_handle(index: Seq<(Seq<char>, AssetHandle)>, path: Seq<char>) -> Option<AssetHandle>
    decreases index.len(),
{
    if index.len() == 0 {
        None
    } else if index.last().0 == path {
        Some(index.last().1)
    } else {
        indexed_handle(index.drop_last(), path)
    }
}

/// The path index without the entries of the id of `handle`, order kept.
pub open spec fn index_without(index: Seq<(Seq<char>, AssetHandle)>, handle: AssetHandle) -> Seq<(Seq<char>, AssetHandle)>
    decreases index.len(),
{
    if index.len() == 0 {
        Seq::empty()
    } else {
        let rest = index_without(index.drop_last(), handle);
        if index.last().1.spec_id() != handle.spec_id() {
            rest.push(index.last())
        } else {
            rest
        }
    }
}

impl AssetManager {
    /// The abstract state of the registry.
    pub closed spec fn view(&self) -> AssetsView {
        AssetsView {
            data: self.assets@.map_values(|e: AssetEntry| e.data@),
            paths: self.assets@.map_values(|e: AssetEntry| e.path@),
            path_index: self.path_map@.map_values(|p: (String, AssetHandle)| (p.0@, p.1)),
            next_id: self.next_id,
        }
    }

    /// The time recorded for each loaded asset's data, in nanoseconds from
    /// the Unix epoch, by handle id.
    pub closed spec fn times(&self) -> Map<u64, i128> {
        self.assets@.map_values(|e: AssetEntry| e.modified)
    }

    /// The type name recorded for each asset, by handle id.
    pub closed spec fn types(&self) -> Map<u64, &'static str> {
        self.asset_types@
    }

    /// Well-formedness: ids below `next_id`, handles of version 0, each path
    /// indexed once and only for a loaded asset.
    pub closed spec fn wf(&self) -> bool {
        &&& self.next_id >= 1
        &&& forall|id: u64| #[trigger] self.assets@.contains_key(id) ==> id < self.next_id
        &&& forall|id: u64| #[trigger] self.asset_types@.contains_key(id) ==> self.assets@.contains_key(id)
        &&& forall|k: int|
            #![trigger self.path_map@[k]]
            0 <= k < self.path_map@.len() ==> {
                &&& self.path_map@[k].1.version == 0
                &&& self.assets@.contains_key(self.path_map@[k].1.id)
            }
        &&& forall|a: int, b: int|
            #![trigger self.path_map@[a], self.path_map@[b]]
            0 <= a < b < self.path_map@.len() ==> self.path_map@[a].0@ != self.path_map@[b].0@
    }

    /// An empty registry; the first handle will have id 1.
    pub fn new() -> (m: AssetManager)
        ensures
            m.wf(),
            m@.data == Map::<u64, Seq<u8>>::empty(),
            m@.paths == Map::<u64, Seq<char>>::empty(),
            m@.path_index == Seq::<(Seq<char>, AssetHandle)>::empty(),
            m@.next_id == 1,
            m.times() == Map::<u64, i128>::empty(),
            m.types() == Map::<u64, &'static str>::empty(),
    {
        let m = AssetManager {
            assets: HashMap::new(),
            path_map: Vec::new(),
            asset_types: HashMap::new(),
            next_id: 1,
        };
        assert(m@.data =~= Map::<u64, Seq<u8>>::empty());
        assert(m@.paths =~= Map::<u64, Seq<char>>::empty());
        assert(m@.path_index =~= Seq::<(Seq<char>, AssetHandle)>::empty());
        assert(m.times() =~= Map::<u64, i128>::empty());
        m
    }

    /// Generate a new unique asset handle.
    fn next_handle(&mut self) -> (h: AssetHandle)
        requires
            old(self).next_id < u64::MAX,
        ensures
            h == AssetHandle::spec_new(old(self).next_id),
            final(self).next_id == old(self).next_id + 1,
            final(self).assets@ == old(self).assets@,
            final(self).path_map@ == old(self).path_map@,
            final(self).asset_types@ == old(self).asset_types@,
    {
        let id = self.next_id;
        self.next_id = self.next_id + 1;
        AssetHandle::new(id)
    }

    /// Whether every handle id has been handed out, so that no further
    /// asset can be registered.
    pub fn ids_exhausted(&self) -> (b: bool)
        ensures
            b == (self@.next_id == u64::MAX),
    {
        self.next_id == u64::MAX
    }

    /// Register raw data under a fresh handle, recording `name` as its path.
    pub fn load_from_bytes(&mut self, data: Vec<u8>, name: &str) -> (h: AssetHandle)
        requires
            old(self).wf(),
            old(self)@.next_id < u64::MAX,
        ensures
            final(self).wf(),
            h == AssetHandle::spec_new(old(self)@.next_id),
            h.spec_id() == old(self)@.next_id,
            h.spec_version() == 0,
            !old(self)@.data.contains_key(h.spec_id()),
            final(self)@.data == old(self)@.data.insert(h.spec_id(), data@),
            final(self)@.data.len() == old(self)@.data.len() + 1,
            changed_by(old(self)@, AssetChange::Load, final(self)@),
            final(self).types() == old(self).types(),
            final(self)@.paths == old(self)@.paths.insert(h.spec_id(), name@),
            final(self)@.path_index == old(self)@.path_index,
            final(self)@.next_id == old(self)@.next_id + 1,
            final(self).times().dom() == old(self).times().dom().insert(h.spec_id()),
            forall|id: u64| id != h.spec_id() && #[trigger] old(self).times().contains_key(id) ==> final(self).times()[id]
                == old(self).times()[id],
    {
        let handle = self.next_handle();
        let entry = AssetEntry { data, path: name.to_string(), modified: clock_nanos() };
        self.assets.insert(handle.id, entry);
        proof {
            assert(self@.data =~= old(self)@.data.insert(handle.spec_id(), entry.data@));
            assert(self@.paths =~= old(self)@.paths.insert(handle.spec_id(), name@));
            assert(old(self)@.data.dom() =~= old(self).assets@.dom());
            assert(old(self).assets@.dom().finite());
            lemma_insert_len(old(self)@.data, handle.spec_id(), entry.data@);
        }
        handle
    }

    /// The handle indexed for `path`, if the path was loaded before.
    pub fn handle_for_path(&self, path: &str) -> (r: Option<AssetHandle>)
        requires
            self.wf(),
        ensures
            r == indexed_handle(self@.path_index, path@),
    {
        let ghost index = self@.path_index;
        let mut k = self.path_map.len();
        assert(index.subrange(0, k as int) =~= index);
        while k > 0
            invariant
                k <= self.path_map@.len(),
                index == self@.path_index,
                index.len() == self.path_map@.len(),
                indexed_handle(index, path@) == indexed_handle(index.subrange(0, k as int), path@),
            decreases k,
        {
            let ghost prefix = index.subrange(0, k as int);
            assert(prefix.drop_last() =~= index.subrange(0, k - 1));
            let entry = &self.path_map[k - 1];
            assert(prefix.last() == (entry.0@, entry.1));
            if str_equal(entry.0.as_str(), path) {
                return Some(entry.1);
            }
            k = k - 1;
        }
        None
    }

    /// Register the contents of file `path` under a fresh handle and index the
    /// path to it (replacing an older entry of the same path).
    pub fn insert_file(&mut self, path: String, data: Vec<u8>) -> (h: AssetHandle)
        requires
            old(self).wf(),
            old(self)@.next_id < u64::MAX,
        ensures
            final(self).wf(),
            h == AssetHandle::spec_new(old(self)@.next_id),
            h.spec_id() == old(self)@.next_id,
            h.spec_version() == 0,
            !old(self)@.data.contains_key(h.spec_id()),
            final(self)@.data == old(self)@.data.insert(h.spec_id(), data@),
            final(self)@.data.len() == old(self)@.data.len() + 1,
            changed_by(old(self)@, AssetChange::Load, final(self)@),
            final(self).types() == old(self).types(),
            final(self)@.paths == old(self)@.paths.insert(h.spec_id(), path@),
            final(self)@.next_id == old(self)@.next_id + 1,
            final(self).times().dom() == old(self).times().dom().insert(h.spec_id()),
            forall|id: u64| id != h.spec_id() && #[trigger] old(self).times().contains_key(id) ==> final(self).times()[id]
                == old(self).times()[id],
            indexed_handle(final(self)@.path_index, path@) == Some(h),
            forall|q: Seq<char>| q != path@ ==> indexed_handle(final(self)@.path_index, q)
                == indexed_handle(old(self)@.path_index, q),
    {
        let handle = self.next_handle();
        let ghost path_view = path@;
        let entry = AssetEntry { data, path: path.clone(), modified: clock_nanos() };
        self.assets.insert(handle.id, entry);
        proof {
            assert(self@.data =~= old(self)@.data.insert(handle.spec_id(), entry.data@));
            assert(self@.paths =~= old(self)@.paths.insert(handle.spec_id(), path_view));
            assert(old(self)@.data.dom() =~= old(self).assets@.dom());
            assert(old(self).assets@.dom().finite());
            lemma_insert_len(old(self)@.data, handle.spec_id(), entry.data@);
        }
        self.index_path(path, handle);
        handle
    }

    /// Point the path index entry of `path` at `handle`.
    fn index_path(&mut self, path: String, handle: AssetHandle)
        requires
            old(self).wf(),
            handle.version == 0,
            old(self).assets@.contains_key(handle.id),
        ensures
            final(self).wf(),
            final(self).assets@ == old(self).assets@,
            final(self).next_id == old(self).next_id,
            final(self).asset_types@ == old(self).asset_types@,
            indexed_handle(final(self)@.path_index, path@) == Some(handle),
            forall|q: Seq<char>| q != path@ ==> indexed_handle(final(self)@.path_index, q)
                == indexed_handle(old(self)@.path_index, q),
    {
        let n = self.path_map.len();
        let mut k: usize = 0;
        while k < n
            invariant
                n == self.path_map@.len(),
                k <= n,
                *self == *old(self),
                old(self).wf(),
                handle.version == 0,
                old(self).assets@.contains_key(handle.id),
                forall|j: int| 0 <= j < k ==> self.path_map@[j].0@ != path@,
            decreases n - k,
        {
            if str_equal(self.path_map[k].0.as_str(), path.as_str()) {
                let ghost path_view = path@;
                proof {
                    let index = old(self)@.path_index;
                    assert forall|a: int, b: int| 0 <= a < b < index.len() implies index[a].0 != index[b].0 by {
                        assert(index[a].0 == old(self).path_map@[a].0@);
                        assert(index[b].0 == old(self).path_map@[b].0@);
                    }
                    assert(index[k as int].0 == path_view);
                    lemma_index_update(index, k as int, path_view, handle);
                }
                self.path_map.set(k, (path, handle));
                proof {
                    assert(self@.path_index =~= old(self)@.path_index.update(k as int, (path_view, handle)));
                    assert forall|a: int, b: int|
                        #![trigger self.path_map@[a], self.path_map@[b]]
                        0 <= a < b < self.path_map@.len() implies self.path_map@[a].0@ != self.path_map@[b].0@ by {
                        assert(self.path_map@[a].0@ == old(self).path_map@[a].0@);
                        assert(self.path_map@[b].0@ == old(self).path_map@[b].0@);
                    }
                }
                return;
            }
            k = k + 1;
        }
        let ghost path_view = path@;
        self.path_map.push((path, handle));
        proof {
            assert(self@.path_index =~= old(self)@.path_index.push((path_view, handle)));
            assert forall|a: int, b: int|
                #![trigger self.path_map@[a], self.path_map@[b]]
                0 <= a < b < self.path_map@.len() implies self.path_map@[a].0@ != self.path_map@[b].0@ by {
                if b == n {
                    assert(old(self).path_map@[a] == self.path_map@[a]);
                }
            }
            lemma_index_push(old(self)@.path_index, path_view, handle);
        }
    }

    /// Get the raw bytes of an asset.
    pub fn get_raw(&self, handle: AssetHandle) -> (r: Option<Vec<u8>>)
        requires
            self.wf(),
        ensures
            r matches Some(d) ==> self@.data.contains_key(handle.spec_id()) && d@ == self@.data[handle.spec_id()],
            r is None ==> !self@.data.contains_key(handle.spec_id()),
    {
        match self.assets.get(&handle.id) {
            Some(e) => Some(e.data.clone()),
            None => None,
        }
    }

    /// Deserialize an asset from its raw data; `NotFound` when the handle is not loaded.
    pub fn get<T: FromBytes>(&self, handle: AssetHandle) -> (r: Result<T, AssetError>)
        requires
            self.wf(),
        ensures
            !self@.data.contains_key(handle.spec_id()) ==> (r matches Err(AssetError::NotFound(m)) && m@
                == "Handle not found"@),
            self@.data.contains_key(handle.spec_id()) ==> exists|d: &[u8]|
                d@ == self@.data[handle.spec_id()] && call_ensures(T::from_bytes, (d,), r),
    {
        match self.assets.get(&handle.id) {
            Some(e) => T::from_bytes(e.data.as_slice()),
            None => Err(AssetError::NotFound(String::from_str("Handle not found"))),
        }
    }

    /// Check if an asset is loaded.
    pub fn is_loaded(&self, handle: AssetHandle) -> (b: bool)
        requires
            self.wf(),
        ensures
            b == self@.data.contains_key(handle.spec_id()),
    {
        self.assets.contains_key(&handle.id)
    }

    /// Get the number of loaded assets.
    pub fn len(&self) -> (n: usize)
        requires
            self.wf(),
        ensures
            n == self@.data.len(),
            self@.data.dom().finite(),
    {
        proof {
            assert(self@.data.dom() =~= self.assets@.dom());
        }
        self.assets.len()
    }

    /// True when no asset is loaded.
    pub fn is_empty(&self) -> (b: bool)
        requires
            self.wf(),
        ensures
            b == (self@.data.len() == 0),
    {
        proof {
            assert(self@.data.dom() =~= self.assets@.dom());
            if self.assets@.is_empty() {
                assert(self.assets@.dom() =~= Set::<u64>::empty());
            } else {
                let k = self.assets@.dom().choose();
                assert(self.assets@.dom().contains(k));
            }
        }
        self.assets.is_empty()
    }

    /// Unload an asset: its data, its path index entries and its type record
    /// go. Returns `false` when the handle was not loaded.
    pub fn unload(&mut self, handle: AssetHandle) -> (r: bool)
        requires
            old(self).wf(),
        ensures
            final(self).wf(),
            r == old(self)@.data.contains_key(handle.spec_id()),
            final(self)@.data == old(self)@.data.remove(handle.spec_id()),
            final(self)@.data.len() == old(self)@.data.len() - (if r { 1int } else { 0int }),
            changed_by(old(self)@, AssetChange::Unload(handle.spec_id()), final(self)@),
            final(self)@.paths == old(self)@.paths.remove(handle.spec_id()),
            final(self)@.next_id == old(self)@.next_id,
            r ==> final(self)@.path_index == index_without(old(self)@.path_index, handle),
            !r ==> final(self)@.path_index == old(self)@.path_index,
            r ==> final(self).types() == old(self).types().remove(handle.spec_id()),
            !r ==> final(self).types() == old(self).types(),
            final(self).times() == old(self).times().remove(handle.spec_id()),
    {
        proof {
            assert(old(self)@.data.dom() =~= old(self).assets@.dom());
            if old(self)@.data.contains_key(handle.spec_id()) {
                assert(old(self)@.data.remove(handle.spec_id()).dom() =~= old(self)@.data.dom().remove(handle.spec_id()));
            } else {
                assert(old(self)@.data.remove(handle.spec_id()) =~= old(self)@.data);
            }
        }
        if self.assets.remove(&handle.id).is_some() {
            let mut kept: Vec<(String, AssetHandle)> = Vec::new();
            let n = self.path_map.len();
            let mut k: usize = 0;
            while k < n
                invariant
                    n == self.path_map@.len(),
                    self.path_map@ == old(self).path_map@,
                    k <= n,
                    kept@.map_values(|p: (String, AssetHandle)| (p.0@, p.1)) == index_without(
                        old(self)@.path_index.subrange(0, k as int),
                        handle,
                    ),
                decreases n - k,
            {
                let ghost prefix = old(self)@.path_index.subrange(0, k + 1);
                assert(prefix.drop_last() =~= old(self)@.path_index.subrange(0, k as int));
                let entry = &self.path_map[k];
                if entry.1.id != handle.id {
                    let ghost before = kept@;
                    kept.push((entry.0.clone(), entry.1));
                    assert(kept@.map_values(|p: (String, AssetHandle)| (p.0@, p.1)) =~= before.map_values(
                        |p: (String, AssetHandle)| (p.0@, p.1),
                    ).push(prefix.last()));
                }
                k = k + 1;
            }
            assert(old(self)@.path_index.subrange(0, n as int) =~= old(self)@.path_index);
            self.path_map = kept;
            self.asset_types.remove(&handle.id);
            proof {
                assert(self@.data =~= old(self)@.data.remove(handle.spec_id()));
                assert(self@.paths =~= old(self)@.paths.remove(handle.spec_id()));
                let index = old(self)@.path_index;
                assert forall|a: int, b: int| 0 <= a < b < index.len() implies index[a].0 != index[b].0 by {
                    assert(index[a].0 == old(self).path_map@[a].0@);
                    assert(index[b].0 == old(self).path_map@[b].0@);
                }
                lemma_index_without_wf(index, handle);
                assert forall|k: int|
                    #![trigger self.path_map@[k]]
                    0 <= k < self.path_map@.len() implies {
                        &&& self.path_map@[k].1.version == 0
                        &&& self.assets@.contains_key(self.path_map@[k].1.id)
                    } by {
                    assert(self@.path_index[k] == (self.path_map@[k].0@, self.path_map@[k].1));
                    let j = choose|j: int| 0 <= j < index.len() && index[j] == self@.path_index[k];
                    assert(index[j] == (old(self).path_map@[j].0@, old(self).path_map@[j].1));
                }
                assert forall|a: int, b: int|
                    #![trigger self.path_map@[a], self.path_map@[b]]
                    0 <= a < b < self.path_map@.len() implies self.path_map@[a].0@ != self.path_map@[b].0@ by {
                    assert(self@.path_index[a].0 == self.path_map@[a].0@);
                    assert(self@.path_index[b].0 == self.path_map@[b].0@);
                }
            }
            true
        } else {
            proof {
                assert(self@.data =~= old(self)@.data.remove(handle.spec_id()));
                assert(self@.paths =~= old(self)@.paths.remove(handle.spec_id()));
            }
            false
        }
    }

    /// Get the path of an asset.
    pub fn path(&self, handle: AssetHandle) -> (r: Option<&str>)
        requires
            self.wf(),
        ensures
            r matches Some(p) ==> self@.paths.contains_key(handle.spec_id()) && p@ == self@.paths[handle.spec_id()],
            r is None ==> !self@.paths.contains_key(handle.spec_id()),
    {
        match self.assets.get(&handle.id) {
            Some(e) => Some(e.path.as_str()),
            None => None,
        }
    }

    /// Get the type name recorded for an asset.
    pub fn asset_type(&self, handle: AssetHandle) -> (r: Option<&'static str>)
        ensures
            r matches Some(t) ==> self.types().contains_key(handle.spec_id()) && t == self.types()[handle.spec_id()],
            r is None ==> !self.types().contains_key(handle.spec_id()),
            self.wf() && !self@.data.contains_key(handle.spec_id()) ==> r is None,
    {
        match self.asset_types.get(&handle.id) {
            Some(t) => Some(*t),
            None => None,
        }
    }

    /// The time the data of an asset was last set, in nanoseconds from the
    /// Unix epoch.
    pub fn modified(&self, handle: AssetHandle) -> (r: Option<i128>)
        requires
            self.wf(),
        ensures
            r is Some <==> self@.data.contains_key(handle.spec_id()),
            r matches Some(t) ==> self.times().contains_key(handle.spec_id()) && t == self.times()[handle.spec_id()],
    {
        match self.assets.get(&handle.id) {
            Some(e) => Some(e.modified),
            None => None,
        }
    }

    /// Whether the file of a loaded asset changed on disk: its time there,
    /// `on_disk`, is later than the time recorded for the asset's data
    /// (both in nanoseconds from the Unix epoch). `false` for a handle that
    /// is not loaded.
    pub fn changed_on_disk(&self, handle: AssetHandle, on_disk: i128) -> (b: bool)
        requires
            self.wf(),
        ensures
            b == (self@.data.contains_key(handle.spec_id()) && on_disk > self.times()[handle.spec_id()]),
    {
        match self.assets.get(&handle.id) {
            Some(e) => on_disk > e.modified,
            None => false,
        }
    }

    /// The handles of all loaded assets, each once (in no particular order).
    pub fn handles(&self) -> (v: Vec<AssetHandle>)
        requires
            self.wf(),
        ensures
            forall|h: AssetHandle| #[trigger] v@.contains(h) ==> self@.data.contains_key(h.spec_id()),
            forall|id: u64| #[trigger] self@.data.contains_key(id) ==> v@.contains(AssetHandle::spec_new(id)),
            v@.no_duplicates(),
    {
        let mut v: Vec<AssetHandle> = Vec::new();
        let ghost keys = vstd::std_specs::hash::spec_keys_iter(&self.assets).remaining().unref();
        proof {
            vstd::std_specs::hash::axiom_spec_keys_iter(&self.assets);
        }
        for id in it: self.assets.keys()
            invariant
                keys.to_set() == self.assets@.dom(),
                keys.no_duplicates(),
                it.seq().unref() == keys,
                v@.len() == it.index(),
                forall|k: int| 0 <= k < v@.len() ==> v@[k] == AssetHandle::spec_new(keys[k]),
        {
            v.push(AssetHandle::new(*id));
        }
        proof {
            assert forall|h: AssetHandle| #[trigger] v@.contains(h) implies self@.data.contains_key(h.spec_id()) by {
                let k = choose|k: int| 0 <= k < v@.len() && v@[k] == h;
                assert(keys.to_set().contains(keys[k]));
            }
            assert forall|id: u64| #[trigger] self@.data.contains_key(id) implies v@.contains(
                AssetHandle::spec_new(id),
            ) by {
                assert(self.assets@.dom().contains(id));
                assert(keys.to_set().contains(id));
                let k = choose|k: int| 0 <= k < keys.len() && keys[k] == id;
                assert(v@[k] == AssetHandle::spec_new(id));
            }
            assert forall|a: int, b: int| 0 <= a < v@.len() && 0 <= b < v@.len() && a != b implies v@[a]
                != v@[b] by {
                assert(keys[a] != keys[b]);
            }
        }
        v
    }

    /// Replace the data of a loaded asset (after its file changed on disk)
    /// and record the time of the change, `modified`, in nanoseconds from the
    /// Unix epoch. Returns `false`, changing nothing,
    /// when the handle is not loaded.
    pub fn reload(&mut self, handle: AssetHandle, data: Vec<u8>, modified: i128) -> (r: bool)
        requires
            old(self).wf(),
        ensures
            final(self).wf(),
            r == old(self)@.data.contains_key(handle.spec_id()),
            r ==> final(self)@.data == old(self)@.data.insert(handle.spec_id(), data@),
            !r ==> final(self)@.data == old(self)@.data,
            changed_by(old(self)@, AssetChange::Reload(handle.spec_id()), final(self)@),
            final(self)@.paths == old(self)@.paths,
            final(self)@.path_index == old(self)@.path_index,
            final(self)@.next_id == old(self)@.next_id,
            r ==> final(self).times() == old(self).times().insert(handle.spec_id(), modified),
            final(self).types() == old(self).types(),
            !r ==> final(self).times() == old(self).times(),
    {
        match self.assets.remove(&handle.id) {
            Some(e) => {
                let ghost data_view = data@;
                let entry = AssetEntry { data, path: e.path, modified };
                self.assets.insert(handle.id, entry);
                proof {
                    assert(self@.data =~= old(self)@.data.insert(handle.spec_id(), data_view));
                    assert(self@.paths =~= old(self)@.paths);
                    assert(self@.data.dom() =~= old(self)@.data.dom());
                    assert(self@.data.remove(handle.spec_id()) =~= old(self)@.data.remove(handle.spec_id()));
                }
                true
            },
            None => {
                proof {
                    assert(self.assets@ =~= old(self).assets@);
                }
                false
            },
        }
    }
}

impl Default for AssetManager {
    fn default() -> (m: AssetManager)
        ensures
            m.wf(),
            m@.data == Map::<u64, Seq<u8>>::empty(),
            m@.paths == Map::<u64, Seq<char>>::empty(),
            m@.path_index == Seq::<(Seq<char>, AssetHandle)>::empty(),
            m@.next_id == 1,
    {
        AssetManager::new()
    }
}

/// Law: asset handles are never reused: the id the next load hands out
/// belongs to no loaded asset and to no path in the index.
pub proof fn law_next_handle_fresh(m: AssetManager)
    requires
        m.wf(),
    ensures
        !m@.data.contains_key(m@.next_id),
        forall|k: int| 0 <= k < m@.path_index.len() ==> (#[trigger] m@.path_index[k]).1.spec_id() != m@.next_id,
{
    assert forall|k: int| 0 <= k < m@.path_index.len() implies (#[trigger] m@.path_index[k]).1.spec_id()
        != m@.next_id by {
        assert(m@.path_index[k].1 == m.path_map@[k].1);
        assert(m.assets@.contains_key(m.path_map@[k].1.id));
    }
}

/// A change made to an asset registry through its public methods.
pub enum AssetChange {
    /// A new asset was registered (`load_from_bytes` or `insert_file`).
    Load,
    /// `unload` was called with the handle of this id.
    Unload(u64),
    /// `reload` was called with the handle of this id.
    Reload(u64),
}

/// Whether the registry `v` became `w` by `change`, as far as the bytes of
/// the loaded assets and the id counter go.
pub open spec fn changed_by(v: AssetsView, change: AssetChange, w: AssetsView) -> bool {
    match change {
        AssetChange::Load => w.data == v.data.insert(v.next_id, w.data[v.next_id]) && w.next_id == v.next_id + 1,
        AssetChange::Unload(id) => w.data == v.data.remove(id) && w.next_id == v.next_id,
        AssetChange::Reload(id) => w.data.dom() == v.data.dom() && w.data.remove(id) == v.data.remove(id)
            && w.next_id == v.next_id,
    }
}

/// Whether, in the run of `changes` (with `views[k]` the registry before the
/// `k`-th change), some change before position `n` loaded the id `id` and
/// no later change before `n` unloaded it.
pub open spec fn issued_and_kept(views: Seq<AssetsView>, changes: Seq<AssetChange>, id: u64, n: int) -> bool {
    exists|i: int|
        #![trigger changes[i]]
        0 <= i < n && changes[i] is Load && views[i].next_id == id && forall|j: int|
            #![trigger changes[j]]
            i < j < n ==> changes[j] != AssetChange::Unload(id)
}

/// A run of changes from a registry with nothing loaded: `views[k]` is the
/// registry before change `k` and `views[k + 1]` the one after it.
pub open spec fn is_run(views: Seq<AssetsView>, changes: Seq<AssetChange>) -> bool {
    &&& views.len() == changes.len() + 1
    &&& views[0].data.dom() == Set::<u64>::empty()
    &&& forall|k: int| 0 <= k < changes.len() ==> changed_by(views[k], #[trigger] changes[k], views[k + 1])
}

/// In a run from an empty registry, every loaded id is below the counter.
proof fn lemma_run_ids_below_counter(views: Seq<AssetsView>, changes: Seq<AssetChange>, n: int)
    requires
        is_run(views, changes),
        0 <= n <= changes.len(),
    ensures
        forall|id: u64| #[trigger] views[n].data.contains_key(id) ==> id < views[n].next_id,
    decreases n,
{
    if n > 0 {
        lemma_run_ids_below_counter(views, changes, n - 1);
        let c = changes[n - 1];
        assert(changed_by(views[n - 1], c, views[n]));
        assert forall|id: u64| #[trigger] views[n].data.contains_key(id) implies id < views[n].next_id by {
            match c {
                AssetChange::Load => {
                    if id != views[n - 1].next_id {
                        assert(views[n - 1].data.contains_key(id));
                    }
                },
                AssetChange::Unload(u) => {
                    assert(views[n - 1].data.contains_key(id));
                },
                AssetChange::Reload(u) => {
                    assert(views[n - 1].data.dom().contains(id));
                },
            }
        }
    }
}

/// The loaded ids after the first `n` changes of a run are those issued and
/// not unloaded since.
proof fn lemma_run_loaded_ids(views: Seq<AssetsView>, changes: Seq<AssetChange>, n: int)
    requires
        is_run(views, changes),
        0 <= n <= changes.len(),
    ensures
        forall|id: u64| #[trigger] views[n].data.contains_key(id) <==> issued_and_kept(views, changes, id, n),
    decreases n,
{
    if n == 0 {
        assert forall|id: u64| #[trigger] views[n].data.contains_key(id) <==> issued_and_kept(views, changes, id, n) by {
            assert(!views[0].data.dom().contains(id));
        }
    } else {
        lemma_run_loaded_ids(views, changes, n - 1);
        let c = changes[n - 1];
        let v = views[n - 1];
        let w = views[n];
        assert(changed_by(v, c, w));
        assert forall|id: u64| #[trigger] views[n].data.contains_key(id) <==> issued_and_kept(views, changes, id, n) by {
            if w.data.contains_key(id) {
                let fresh = c is Load && id == v.next_id;
                if fresh {
                    assert(forall|j: int| #![trigger changes[j]] n - 1 < j < n ==> changes[j] != AssetChange::Unload(id));
                    assert(changes[n - 1] is Load);
                } else {
                    assert(v.data.contains_key(id)) by {
                        match c {
                            AssetChange::Load => {},
                            AssetChange::Unload(u) => {},
                            AssetChange::Reload(u) => {
                                assert(v.data.dom().contains(id));
                            },
                        }
                    }
                    assert(issued_and_kept(views, changes, id, n - 1));
                    let i = choose|i: int|
                        #![trigger changes[i]]
                        0 <= i < n - 1 && changes[i] is Load && views[i].next_id == id && forall|j: int|
                            #![trigger changes[j]]
                            i < j < n - 1 ==> changes[j] != AssetChange::Unload(id);
                    assert(changes[n - 1] != AssetChange::Unload(id)) by {
                        if c == AssetChange::Unload(id) {
                            assert(!w.data.contains_key(id));
                        }
                    }
                    assert(forall|j: int| #![trigger changes[j]] i < j < n ==> changes[j] != AssetChange::Unload(id));
                    assert(changes[i] is Load);
                }
            }
            if issued_and_kept(views, changes, id, n) {
                let i = choose|i: int|
                    #![trigger changes[i]]
                    0 <= i < n && changes[i] is Load && views[i].next_id == id && forall|j: int|
                        #![trigger changes[j]]
                        i < j < n ==> changes[j] != AssetChange::Unload(id);
                if i == n - 1 {
                    assert(w.data.contains_key(v.next_id));
                } else {
                    assert(forall|j: int| #![trigger changes[j]] i < j < n - 1 ==> changes[j] != AssetChange::Unload(id));
                    assert(changes[i] is Load);
                    assert(issued_and_kept(views, changes, id, n - 1));
                    assert(v.data.contains_key(id));
                    assert(changes[n - 1] != AssetChange::Unload(id));
                    match c {
                        AssetChange::Load => {},
                        AssetChange::Unload(u) => {
                            assert(u != id);
                        },
                        AssetChange::Reload(u) => {
                            assert(w.data.dom().contains(id));
                        },
                    }
                }
            }
        }
    }
}

/// Law: handles that exist are exactly those issued and not unloaded since.
/// In any run of loads, unloads and reloads from a registry with nothing
/// loaded, an id is loaded at the end exactly when a load issued it (it was
/// the counter before that load) and no later unload named it.
pub proof fn law_loaded_ids_history(views: Seq<AssetsView>, changes: Seq<AssetChange>)
    requires
        is_run(views, changes),
    ensures
        forall|id: u64| #[trigger] views.last().data.contains_key(id) <==> issued_and_kept(views, changes, id, changes.len() as int),
{
    lemma_run_loaded_ids(views, changes, changes.len() as int);
}

/// The number of assets a run's first `n` changes leave loaded, counted step
/// by step: a load adds one, an unload of a loaded id takes one away (that
/// is, an unload that returns `true`), and anything else adds nothing.
pub open spec fn net_loaded(views: Seq<AssetsView>, changes: Seq<AssetChange>, n: int) -> int
    decreases n,
{
    if n <= 0 {
        0
    } else {
        net_loaded(views, changes, n - 1) + match changes[n - 1] {
            AssetChange::Load => 1int,
            AssetChange::Unload(id) => if views[n - 1].data.contains_key(id) {
                -1int
            } else {
                0int
            },
            AssetChange::Reload(_) => 0int,
        }
    }
}

/// In a run from an empty registry, the loaded ids stay finite and their
/// number is the count of loads less the unloads that found their id.
proof fn lemma_run_count(views: Seq<AssetsView>, changes: Seq<AssetChange>, n: int)
    requires
        is_run(views, changes),
        0 <= n <= changes.len(),
    ensures
        views[n].data.dom().finite(),
        views[n].data.len() == net_loaded(views, changes, n),
    decreases n,
{
    if n == 0 {
        assert(views[0].data.dom() =~= Set::<u64>::empty());
    } else {
        lemma_run_count(views, changes, n - 1);
        lemma_run_ids_below_counter(views, changes, n - 1);
        let c = changes[n - 1];
        let v = views[n - 1];
        let w = views[n];
        assert(changed_by(v, c, w));
        match c {
            AssetChange::Load => {
                assert(!v.data.dom().contains(v.next_id));
                assert(w.data.dom() =~= v.data.dom().insert(v.next_id));
            },
            AssetChange::Unload(id) => {
                assert(w.data.dom() =~= v.data.dom().remove(id));
            },
            AssetChange::Reload(id) => {
                assert(w.data.dom() =~= v.data.dom());
            },
        }
    }
}

/// Law: the number of loaded assets (what `len` gives) after any run of
/// changes from an empty registry is the number of loads less the number of
/// unloads that returned `true`.
pub proof fn law_count_after_changes(views: Seq<AssetsView>, changes: Seq<AssetChange>)
    requires
        is_run(views, changes),
    ensures
        views.last().data.dom().finite(),
        views.last().data.len() == net_loaded(views, changes, changes.len() as int),
{
    lemma_run_count(views, changes, changes.len() as int);
}

/// A load's bytes stay what it stored, and stay loaded, through later changes
/// that neither unload nor reload its id.
proof fn lemma_run_load_kept(views: Seq<AssetsView>, changes: Seq<AssetChange>, i: int, n: int)
    requires
        is_run(views, changes),
        0 <= i < n <= changes.len(),
        changes[i] is Load,
        forall|j: int|
            #![trigger changes[j]]
            i < j < n ==> changes[j] != AssetChange::Unload(views[i].next_id) && changes[j] != AssetChange::Reload(
                views[i].next_id,
            ),
    ensures
        views[n].data.contains_key(views[i].next_id),
        views[n].data[views[i].next_id] == views[i + 1].data[views[i].next_id],
    decreases n - i,
{
    let id = views[i].next_id;
    if n == i + 1 {
        assert(changed_by(views[i], changes[i], views[i + 1]));
        assert(views[i + 1].data.contains_key(id));
    } else {
        lemma_run_load_kept(views, changes, i, n - 1);
        lemma_run_ids_below_counter(views, changes, n - 1);
        let c = changes[n - 1];
        let v = views[n - 1];
        let w = views[n];
        assert(changed_by(v, c, w));
        assert(c != AssetChange::Unload(id) && c != AssetChange::Reload(id));
        assert(v.data.contains_key(id));
        match c {
            AssetChange::Load => {
                assert(id < v.next_id);
            },
            AssetChange::Unload(u) => {},
            AssetChange::Reload(u) => {
                assert(w.data.remove(u).contains_key(id));
                assert(w.data.remove(u)[id] == v.data.remove(u)[id]);
            },
        }
    }
}

/// Law: a load is read back. In any run of changes from a registry with
/// nothing loaded, the bytes a load stored under its new id are the bytes
/// held for that id at the end, as long as no later change unloaded or
/// reloaded it.
pub proof fn law_load_read_back(views: Seq<AssetsView>, changes: Seq<AssetChange>, i: int)
    requires
        is_run(views, changes),
        0 <= i < changes.len(),
        changes[i] is Load,
        forall|j: int|
            #![trigger changes[j]]
            i < j < changes.len() ==> changes[j] != AssetChange::Unload(views[i].next_id) && changes[j]
                != AssetChange::Reload(views[i].next_id),
    ensures
        views.last().data.contains_key(views[i].next_id),
        views.last().data[views[i].next_id] == views[i + 1].data[views[i].next_id],
{
    lemma_run_load_kept(views, changes, i, changes.len() as int);
}

/// Law: unloading a handle drops exactly its own path entries. The index
/// left is the old one with the entries of that handle's id filtered out,
/// order kept; so every path that named another handle still names it, and
/// no path names the unloaded one.
pub proof fn law_unload_drops_only_its_paths(
    index: Seq<(Seq<char>, AssetHandle)>,
    handle: AssetHandle,
    q: Seq<char>,
)
    ensures
        index_without(index, handle) == index.filter(
            |p: (Seq<char>, AssetHandle)| p.1.spec_id() != handle.spec_id(),
        ),
        match indexed_handle(index, q) {
            Some(h2) => h2.spec_id() != handle.spec_id() ==> indexed_handle(index_without(index, handle), q)
                == Some(h2),
            None => true,
        },
        match indexed_handle(index_without(index, handle), q) {
            Some(h2) => h2.spec_id() != handle.spec_id(),
            None => true,
        },
    decreases index.len(),
{
    reveal(Seq::filter);
    if index.len() > 0 {
        let init = index.drop_last();
        law_unload_drops_only_its_paths(init, handle, q);
        let pred = |p: (Seq<char>, AssetHandle)| p.1.spec_id() != handle.spec_id();
        assert(index.filter(pred) == if pred(index.last()) {
            init.filter(pred).push(index.last())
        } else {
            init.filter(pred)
        });
        let rest = index_without(init, handle);
        if index.last().1.spec_id() != handle.spec_id() {
            assert(index_without(index, handle) == rest.push(index.last()));
            assert(rest.push(index.last()).drop_last() =~= rest);
        }
    }
}

/// Law: the registry's invariant, as callers may use it. Every loaded id is
/// below the next id; every handle in the path index is of version 0 and
/// names a loaded asset; a type name is recorded only for a loaded asset.
pub proof fn law_registry_invariant(m: AssetManager)
    requires
        m.wf(),
    ensures
        m@.next_id >= 1,
        forall|id: u64| #[trigger] m@.data.contains_key(id) ==> id < m@.next_id,
        forall|k: int|
            0 <= k < m@.path_index.len() ==> (#[trigger] m@.path_index[k]).1.spec_version() == 0
                && m@.data.contains_key(m@.path_index[k].1.spec_id()),
        forall|id: u64| #[trigger] m.types().contains_key(id) ==> m@.data.contains_key(id),
        m@.data.dom() == m@.paths.dom(),
{
    assert forall|k: int| 0 <= k < m@.path_index.len() implies (#[trigger] m@.path_index[k]).1.spec_version() == 0
        && m@.data.contains_key(m@.path_index[k].1.spec_id()) by {
        assert(m@.path_index[k].1 == m.path_map@[k].1);
    }
    assert(m@.data.dom() =~= m@.paths.dom());
}

/// Adding a fresh key to a finite map grows it by one.
proof fn lemma_insert_len<V>(m: Map<u64, V>, k: u64, v: V)
    requires
        m.dom().finite(),
        !m.contains_key(k),
    ensures
        m.insert(k, v).len() == m.len() + 1,
{
    assert(m.insert(k, v).dom() =~= m.dom().insert(k));
}

/// Pointing the entry at position `k` to `(path, h)` makes `path` look up `h`
/// and leaves other paths unchanged, when paths are distinct.
proof fn lemma_index_update(index: Seq<(Seq<char>, AssetHandle)>, k: int, path: Seq<char>, h: AssetHandle)
    requires
        0 <= k < index.len(),
        index[k].0 == path,
        forall|a: int, b: int| 0 <= a < b < index.len() ==> index[a].0 != index[b].0,
    ensures
        indexed_handle(index.update(k, (path, h)), path) == Some(h),
        forall|q: Seq<char>| q != path ==> indexed_handle(index.update(k, (path, h)), q) == indexed_handle(index, q),
    decreases index.len(),
{
    let u = index.update(k, (path, h));
    if k == index.len() - 1 {
        assert(u.drop_last() =~= index.drop_last());
    } else {
        assert(u.drop_last() =~= index.drop_last().update(k, (path, h)));
        assert(index.last().0 != path) by {
            assert(index[k].0 == path);
            assert(index[index.len() - 1] == index.last());
        }
        lemma_index_update(index.drop_last(), k, path, h);
        assert forall|q: Seq<char>| q != path implies indexed_handle(u, q) == indexed_handle(index, q) by {
            assert(u.last() == index.last());
            if index.last().0 != q {
                assert(indexed_handle(u.drop_last(), q) == indexed_handle(index.drop_last(), q));
            }
        }
    }
}

/// Appending `(path, h)` makes `path` look up `h` and leaves other paths unchanged.
proof fn lemma_index_push(index: Seq<(Seq<char>, AssetHandle)>, path: Seq<char>, h: AssetHandle)
    ensures
        indexed_handle(index.push((path, h)), path) == Some(h),
        forall|q: Seq<char>| q != path ==> indexed_handle(index.push((path, h)), q) == indexed_handle(index, q),
{
    assert(index.push((path, h)).drop_last() =~= index);
}

/// Dropping the entries of a handle keeps entries of the index only, none of
/// that handle's id, and keeps paths distinct.
proof fn lemma_index_without_wf(index: Seq<(Seq<char>, AssetHandle)>, h: AssetHandle)
    requires
        forall|a: int, b: int| 0 <= a < b < index.len() ==> index[a].0 != index[b].0,
    ensures
        forall|k: int| 0 <= k < index_without(index, h).len() ==> exists|j: int|
            0 <= j < index.len() && index[j] == #[trigger] index_without(index, h)[k],
        forall|k: int| 0 <= k < index_without(index, h).len() ==> (#[trigger] index_without(index, h)[k]).1.spec_id() != h.spec_id(),
        forall|a: int, b: int| 0 <= a < b < index_without(index, h).len() ==> index_without(index, h)[a].0 != index_without(index, h)[b].0,
    decreases index.len(),
{
    if index.len() > 0 {
        lemma_index_without_wf(index.drop_last(), h);
        let r = index_without(index.drop_last(), h);
        assert forall|k: int| 0 <= k < index_without(index, h).len() implies exists|j: int|
            0 <= j < index.len() && index[j] == #[trigger] index_without(index, h)[k] by {
            if k < r.len() {
                let j = choose|j: int| 0 <= j < index.drop_last().len() && index.drop_last()[j] == r[k];
                assert(index[j] == index.drop_last()[j]);
            } else {
                assert(index[index.len() - 1] == index.last());
            }
        }
        let w = index_without(index, h);
        assert forall|a: int, b: int| 0 <= a < b < w.len() implies w[a].0 != w[b].0 by {
            if b >= r.len() {
                let j = choose|j: int| 0 <= j < index.drop_last().len() && index.drop_last()[j] == r[a];
                assert(index[j] == r[a]);
                assert(w[b] == index.last());
                assert(index[index.len() - 1] == index.last());
            } else {
                assert(w[a] == r[a] && w[b] == r[b]);
            }
        }
    }
}

/// Law: a path looks up the handle of its last entry in the path index, and nothing when no entry has that path.
pub proof fn law_indexed_handle_is_last_entry(index: Seq<(Seq<char>, AssetHandle)>, key: Seq<char>)
    ensures
        indexed_handle(index, key) is None <==> forall|k: int| 0 <= k < index.len() ==> (#[trigger] index[k]).0 != key,
        match indexed_handle(index, key) {
            Some(v) => exists|k: int|
                0 <= k < index.len() && #[trigger] index[k] == (key, v) && forall|j: int|
                    k < j < index.len() ==> (#[trigger] index[j]).0 != key,
            None => true,
        },
    decreases index.len(),
{
    if index.len() > 0 {
        let init = index.drop_last();
        law_indexed_handle_is_last_entry(init, key);
        let last = index.len() - 1;
        if index.last().0 == key {
            assert(index[last] == (key, index.last().1));
        } else {
            assert forall|k: int| 0 <= k < init.len() implies index[k] == init[k] by {}
            if let Some(v) = indexed_handle(init, key) {
                let k = choose|k: int|
                    0 <= k < init.len() && #[trigger] init[k] == (key, v) && forall|j: int|
                        k < j < init.len() ==> (#[trigger] init[j]).0 != key;
                assert(index[k] == (key, v));
                assert forall|j: int| k < j < index.len() implies (#[trigger] index[j]).0 != key by {
                    if j < last {
                        assert(init[j].0 != key);
                    }
                }
            } else {
                assert forall|k: int| 0 <= k < index.len() implies (#[trigger] index[k]).0 != key by {
                    if k < last {
                        assert(init[k].0 != key);
                    }
                }
            }
        }
    }
}

} // verus!
