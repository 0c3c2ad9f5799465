//! Bookkeeping of loaded resources: each resource gets a stable unique id
//! from a slot map, and the path it was loaded from resolves to that id.
//!
//! The resources themselves (GPU textures, fonts, rendered SVGs) live with
//! the renderer; this storage holds, for each, the token the renderer knows
//! it by.
use vstd::prelude::*;

#[allow(unused_imports)]
use slotmap::Key;
use slotmap::{DefaultKey, KeyData, SlotMap};

verus! {

/// A slot map from `DefaultKey` to resource tokens. Verus cannot declare
/// `slotmap::SlotMap` itself (its `K: Key` bound names an outside trait), so
/// the map is held here, out of Verus's sight; the functions below are the
/// only ones that touch it.
#[verifier::external_body]
pub struct SlotTable {
    inner: SlotMap<DefaultKey, u64>,
}

/// Bit 32 of a key's integer form: the low bit of its version, which is odd
/// for every key a slot map hands out.
pub open spec fn is_key_form(k: u64) -> bool {
    k & 0x1_0000_0000u64 != 0
}

/// The contents of a slot map, each key taken by its integer form
/// (`KeyData::as_ffi`).
pub uninterp spec fn slot_contents(m: SlotTable) -> Map<u64, u64>;

/// Every key in the contents has an odd version, and there are finitely many.
pub open spec fn slot_contents_wf(c: Map<u64, u64>) -> bool {
    &&& c.dom().finite()
    &&& forall|k: u64| #[trigger] c.dom().contains(k) ==> is_key_form(k)
}

/// `SlotMap::new`: an empty slot map.
#[verifier::external_body]
fn slots_new() -> (r: SlotTable)
    ensures
        slot_contents(r).dom().is_empty(),
{
    SlotTable { inner: SlotMap::new() }
}

/// `SlotMap::insert`: stores `value` under a key that the map does not hold
/// and gives back that key's integer form. The key's slot is either a free
/// slot (whose version is made odd, so no held key names it) or a new slot.
/// It panics only when the map holds `u32::MAX - 1` values and has no free
/// slot, which the requirement leaves out.
#[verifier::external_body]
fn slots_insert(m: &mut SlotTable, value: u64) -> (k: u64)
    requires
        slot_contents_wf(slot_contents(*old(m))),
        slot_contents(*old(m)).len() < 4294967294,
    ensures
        !slot_contents(*old(m)).dom().contains(k),
        is_key_form(k),
        slot_contents(*final(m)) == slot_contents(*old(m)).insert(k, value),
        slot_contents_wf(slot_contents(*final(m))),
{
    m.inner.insert(value).data().as_ffi()
}

/// `SlotMap::remove` on the key whose integer form is `k`: gives back the
/// value held under it, if any, and no longer holds it.
#[verifier::external_body]
fn slots_remove(m: &mut SlotTable, k: u64) -> (r: Option<u64>)
    requires
        slot_contents_wf(slot_contents(*old(m))),
        is_key_form(k),
    ensures
        r == (if slot_contents(*old(m)).dom().contains(k) {
            Some(slot_contents(*old(m))[k])
        } else {
            None::<u64>
        }),
        slot_contents(*final(m)) == slot_contents(*old(m)).remove(k),
        slot_contents_wf(slot_contents(*final(m))),
{
    m.inner.remove(DefaultKey::from(KeyData::from_ffi(k)))
}

/// `SlotMap::get` on the key whose integer form is `k`.
#[verifier::external_body]
fn slots_get(m: &SlotTable, k: u64) -> (r: Option<u64>)
    requires
        is_key_form(k),
    ensures
        r == (if slot_contents(*m).dom().contains(k) {
            Some(slot_contents(*m)[k])
        } else {
            None::<u64>
        }),
{
    m.inner.get(DefaultKey::from(KeyData::from_ffi(k))).copied()
}

/// `SlotMap::get_mut` on the key whose integer form is `k`: when the map
/// holds the key, `value` is written into its slot and the value that was
/// there is given back; otherwise the map is left as it is.
#[verifier::external_body]
fn slots_replace(m: &mut SlotTable, k: u64, value: u64) -> (r: Option<u64>)
    requires
        slot_contents_wf(slot_contents(*old(m))),
        is_key_form(k),
    ensures
        r == (if slot_contents(*old(m)).dom().contains(k) {
            Some(slot_contents(*old(m))[k])
        } else {
            None::<u64>
        }),
        slot_contents(*final(m)) == (if slot_contents(*old(m)).dom().contains(k) {
            slot_contents(*old(m)).insert(k, value)
        } else {
            slot_contents(*old(m))
        }),
        slot_contents_wf(slot_contents(*final(m))),
{
    match m.inner.get_mut(DefaultKey::from(KeyData::from_ffi(k))) {
        Some(slot) => Some(std::mem::replace(slot, value)),
        None => None,
    }
}

/// `SlotMap::len`: the number of values the map holds.
#[verifier::external_body]
fn slots_len(m: &SlotTable) -> (n: usize)
    ensures
        n == slot_contents(*m).len(),
{
    m.inner.len()
}

/// The id of a stored resource: the integer form of its slot-map key.
#[derive(Debug, Clone, Copy, PartialEq, Eq, Hash)]
pub struct ResourceId {
    ffi: u64,
}

impl View for ResourceId {
    type V = u64;

    closed spec fn view(&self) -> u64 {
        self.ffi
    }
}

impl ResourceId {
    #[verifier::type_invariant]
    spec fn key_form(self) -> bool {
        is_key_form(self.ffi)
    }

    /// The id whose integer form is `value`, its version made odd as
    /// `KeyData::from_ffi` makes it.
    pub fn from_ffi(value: u64) -> (r: ResourceId)
        ensures
            r@ == value | 0x1_0000_0000u64,
    {
        let ffi = value | 0x1_0000_0000u64;
        assert(ffi & 0x1_0000_0000u64 != 0) by (bit_vector)
            requires
                ffi == value | 0x1_0000_0000u64,
        ;
        ResourceId { ffi }
    }

    /// The integer form of the id.
    pub fn as_ffi(&self) -> (r: u64)
        ensures
            r == self@,
            is_key_form(r),
    {
        proof {
            use_type_invariant(self);
        }
        self.ffi
    }
}

/// A path a resource was loaded from, and its id.
pub struct LoadedEntry {
    pub path: String,
    pub id: ResourceId,
}


/// No path occurs twice.
pub open spec fn unique_paths(s: Seq<LoadedEntry>) -> bool {
    forall|i: int, j: int|
        0 <= i < s.len() && 0 <= j < s.len() && i != j ==> #[trigger] s[i].path@ != #[trigger] s[j].path@
}

/// The path-to-id map that a list of entries holds.
pub open spec fn entries_map(s: Seq<LoadedEntry>) -> Map<Seq<char>, u64> {
    Map::new(
        |p: Seq<char>| exists|i: int| 0 <= i < s.len() && #[trigger] s[i].path@ == p,
        |p: Seq<char>| s[choose|i: int| 0 <= i < s.len() && #[trigger] s[i].path@ == p].id@,
    )
}

/// With unique paths, the map sends each entry's path to its id.
pub proof fn lemma_entries_map_at(s: Seq<LoadedEntry>, i: int)
    requires
        unique_paths(s),
        0 <= i < s.len(),
    ensures
        entries_map(s).dom().contains(s[i].path@),
        entries_map(s)[s[i].path@] == s[i].id@,
{
    let p = s[i].path@;
    assert(s[i].path@ == p);
    let j = choose|j: int| 0 <= j < s.len() && #[trigger] s[j].path@ == p;
    if j != i {
        assert(s[j].path@ != s[i].path@);
    }
}

/// Resources of one type: an id for each, and the path each was loaded from.
pub struct TypedResourceStorage {
    loaded: Vec<LoadedEntry>,
    resources: SlotTable,
}

impl TypedResourceStorage {
    /// The path each resource was loaded from, sent to its id.
    pub closed spec fn paths(&self) -> Map<Seq<char>, u64> {
        entries_map(self.loaded@)
    }

    /// The resource token stored under each id.
    pub closed spec fn resources(&self) -> Map<u64, u64> {
        slot_contents(self.resources)
    }

    pub closed spec fn wf(&self) -> bool {
        &&& unique_paths(self.loaded@)
        &&& slot_contents_wf(slot_contents(self.resources))
    }

    /// An empty storage.
    pub fn new() -> (r: TypedResourceStorage)
        ensures
            r.wf(),
            r.paths().dom().is_empty(),
            r.resources().dom().is_empty(),
    {
        let r = TypedResourceStorage { loaded: Vec::new(), resources: slots_new() };
        assert(r.paths().dom() =~= Set::empty());
        r
    }

    /// The number of stored resources is finite, and every id is in key form.
    pub proof fn lemma_wf(&self)
        requires
            self.wf(),
        ensures
            self.resources().dom().finite(),
            forall|k: u64| #[trigger] self.resources().dom().contains(k) ==> is_key_form(k),
    {
    }

    /// Where the entry for `path` stands in the list, if there is one.
    fn position(&self, path: &String) -> (r: Option<usize>)
        requires
            self.wf(),
        ensures
            match r {
                Some(i) => i < self.loaded@.len() && self.loaded@[i as int].path@ == path@,
                None => !self.paths().dom().contains(path@),
            },
    {
        let mut i: usize = 0;
        while i < self.loaded.len()
            invariant
                0 <= i <= self.loaded@.len(),
                forall|j: int| 0 <= j < i ==> #[trigger] self.loaded@[j].path@ != path@,
            decreases self.loaded@.len() - i,
        {
            if self.loaded[i].path.eq(path) {
                return Some(i);
            }
            i = i + 1;
        }
        None
    }

    /// Stores `resource`, loaded from `path`, under a new id, and makes
    /// `path` resolve to that id. A path that resolved to another id before
    /// now resolves to the new one.
    pub fn add(&mut self, path: String, resource: u64) -> (id: ResourceId)
        requires
            old(self).wf(),
            old(self).resources().len() < 4294967294,
        ensures
            final(self).wf(),
            !old(self).resources().dom().contains(id@),
            final(self).resources() == old(self).resources().insert(id@, resource),
            final(self).paths() == old(self).paths().insert(path@, id@),
    {
        let k = slots_insert(&mut self.resources, resource);
        let id = ResourceId { ffi: k };
        let ghost old_loaded = self.loaded@;
        let ghost p = path@;
        match self.position(&path) {
            Some(i) => {
                self.loaded.set(i, LoadedEntry { path, id });
                proof {
                    let s = self.loaded@;
                    assert(unique_paths(s)) by {
                        assert forall|a: int, b: int|
                            0 <= a < s.len() && 0 <= b < s.len() && a != b implies #[trigger] s[a].path@
                            != #[trigger] s[b].path@ by {
                            assert(old_loaded[a].path@ != old_loaded[b].path@ || a == b);
                            if a == i {
                                assert(old_loaded[i as int].path@ == p);
                            }
                            if b == i {
                                assert(old_loaded[i as int].path@ == p);
                            }
                        }
                    }
                    assert forall|q: Seq<char>| #[trigger] entries_map(s).dom().contains(q) <==> entries_map(old_loaded).insert(p, id@).dom().contains(q) by {
                        if entries_map(s).dom().contains(q) {
                            let j = choose|j: int| 0 <= j < s.len() && #[trigger] s[j].path@ == q;
                            if j != i {
                                assert(old_loaded[j].path@ == q);
                            }
                        }
                        if entries_map(old_loaded).dom().contains(q) {
                            let j = choose|j: int| 0 <= j < old_loaded.len() && #[trigger] old_loaded[j].path@ == q;
                            assert(s[j].path@ == q);
                        }
                        if q == p {
                            assert(s[i as int].path@ == q);
                        }
                    }
                    assert forall|q: Seq<char>| #[trigger] entries_map(s).dom().contains(q) implies entries_map(s)[q] == entries_map(old_loaded).insert(p, id@)[q] by {
                        let j = choose|j: int| 0 <= j < s.len() && #[trigger] s[j].path@ == q;
                        lemma_entries_map_at(s, j);
                        if j != i {
                            lemma_entries_map_at(old_loaded, j);
                        }
                    }
                    assert(entries_map(s) =~= entries_map(old_loaded).insert(p, id@));
                }
            },
            None => {
                self.loaded.push(LoadedEntry { path, id });
                proof {
                    let s = self.loaded@;
                    let n = old_loaded.len() as int;
                    assert(unique_paths(s)) by {
                        assert forall|a: int, b: int|
                            0 <= a < s.len() && 0 <= b < s.len() && a != b implies #[trigger] s[a].path@
                            != #[trigger] s[b].path@ by {
                            if a < n && b < n {
                                assert(old_loaded[a].path@ != old_loaded[b].path@);
                            } else if a < n {
                                assert(old_loaded[a].path@ == s[a].path@);
                                assert(!entries_map(old_loaded).dom().contains(p));
                            } else {
                                assert(old_loaded[b].path@ == s[b].path@);
                                assert(!entries_map(old_loaded).dom().contains(p));
                            }
                        }
                    }
                    assert forall|q: Seq<char>| #[trigger] entries_map(s).dom().contains(q) <==> entries_map(old_loaded).insert(p, id@).dom().contains(q) by {
                        if entries_map(s).dom().contains(q) {
                            let j = choose|j: int| 0 <= j < s.len() && #[trigger] s[j].path@ == q;
                            if j < n {
                                assert(old_loaded[j].path@ == q);
                            }
                        }
                        if entries_map(old_loaded).dom().contains(q) {
                            let j = choose|j: int| 0 <= j < old_loaded.len() && #[trigger] old_loaded[j].path@ == q;
                            assert(s[j].path@ == q);
                        }
                        if q == p {
                            assert(s[n].path@ == q);
                        }
                    }
                    assert forall|q: Seq<char>| #[trigger] entries_map(s).dom().contains(q) implies entries_map(s)[q] == entries_map(old_loaded).insert(p, id@)[q] by {
                        let j = choose|j: int| 0 <= j < s.len() && #[trigger] s[j].path@ == q;
                        lemma_entries_map_at(s, j);
                        if j < n {
                            lemma_entries_map_at(old_loaded, j);
                        }
                    }
                    assert(entries_map(s) =~= entries_map(old_loaded).insert(p, id@));
                }
            },
        }
        id
    }

    /// Removes the resource stored under `id`, and every path that resolved
    /// to it.
    pub fn remove(&mut self, id: ResourceId)
        requires
            old(self).wf(),
        ensures
            final(self).wf(),
            final(self).resources() == old(self).resources().remove(id@),
            final(self).paths() == old(self).paths().restrict(
                old(self).paths().dom().filter(|p: Seq<char>| old(self).paths()[p] != id@),
            ),
    {
        let k = id.as_ffi();
        let _ = slots_remove(&mut self.resources, k);
        let ghost old_loaded = self.loaded@;
        let mut kept: Vec<LoadedEntry> = Vec::new();
        let ghost mut origin: Seq<int> = Seq::empty();
        let mut i: usize = 0;
        while i < self.loaded.len()
            invariant
                self.loaded@ == old_loaded,
                unique_paths(old_loaded),
                0 <= i <= old_loaded.len(),
                kept@.len() == origin.len(),
                forall|j: int|
                    0 <= j < origin.len() ==> 0 <= #[trigger] origin[j] < i && kept@[j]
                        == old_loaded[origin[j]] && old_loaded[origin[j]].id@ != k,
                forall|j1: int, j2: int|
                    0 <= j1 < j2 < origin.len() ==> #[trigger] origin[j1] < #[trigger] origin[j2],
                forall|a: int|
                    0 <= a < i && #[trigger] old_loaded[a].id@ != k ==> exists|j: int|
                        0 <= j < origin.len() && #[trigger] origin[j] == a,
            decreases old_loaded.len() - i,
        {
            let entry_id = self.loaded[i].id;
            if entry_id.as_ffi() != k {
                let path = self.loaded[i].path.clone();
                kept.push(LoadedEntry { path, id: entry_id });
                proof {
                    let prev = origin;
                    origin = origin.push(i as int);
                    assert forall|a: int|
                        0 <= a < i + 1 && #[trigger] old_loaded[a].id@ != k implies exists|j: int|
                        0 <= j < origin.len() && #[trigger] origin[j] == a by {
                        if a == i {
                            assert(origin[prev.len() as int] == a);
                        } else {
                            let j = choose|j: int| 0 <= j < prev.len() && #[trigger] prev[j] == a;
                            assert(origin[j] == a);
                        }
                    }
                }
            }
            i = i + 1;
        }
        let ghost s = kept@;
        proof {
            assert(unique_paths(s)) by {
                assert forall|a: int, b: int|
                    0 <= a < s.len() && 0 <= b < s.len() && a != b implies #[trigger] s[a].path@
                    != #[trigger] s[b].path@ by {
                    if a < b {
                        assert(origin[a] < origin[b]);
                    } else {
                        assert(origin[b] < origin[a]);
                    }
                    assert(old_loaded[origin[a]].path@ != old_loaded[origin[b]].path@);
                }
            }
        }
        self.loaded = kept;
        proof {
            let om = entries_map(old_loaded);
            let target = om.restrict(om.dom().filter(|p: Seq<char>| om[p] != k));
            assert forall|q: Seq<char>| #[trigger] entries_map(s).dom().contains(q) <==> target.dom().contains(q) by {
                if entries_map(s).dom().contains(q) {
                    let j = choose|j: int| 0 <= j < s.len() && #[trigger] s[j].path@ == q;
                    assert(old_loaded[origin[j]] == s[j]);
                    lemma_entries_map_at(old_loaded, origin[j]);
                }
                if target.dom().contains(q) {
                    let a = choose|a: int| 0 <= a < old_loaded.len() && #[trigger] old_loaded[a].path@ == q;
                    lemma_entries_map_at(old_loaded, a);
                    assert(old_loaded[a].id@ != k);
                    let j = choose|j: int| 0 <= j < origin.len() && #[trigger] origin[j] == a;
                    assert(s[j].path@ == q);
                }
            }
            assert forall|q: Seq<char>| #[trigger] entries_map(s).dom().contains(q) implies entries_map(s)[q] == target[q] by {
                let j = choose|j: int| 0 <= j < s.len() && #[trigger] s[j].path@ == q;
                lemma_entries_map_at(s, j);
                assert(old_loaded[origin[j]] == s[j]);
                lemma_entries_map_at(old_loaded, origin[j]);
            }
            assert(entries_map(s) =~= target);
        }
    }

    /// The id that `path` resolves to, if any.
    pub fn get_resource_id_by_path(&self, path: &str) -> (r: Option<ResourceId>)
        requires
            self.wf(),
        ensures
            match r {
                Some(id) => self.paths().dom().contains(path@) && id@ == self.paths()[path@],
                None => !self.paths().dom().contains(path@),
            },
    {
        let key = path.to_owned();
        match self.position(&key) {
            Some(i) => {
                proof {
                    lemma_entries_map_at(self.loaded@, i as int);
                }
                Some(self.loaded[i].id)
            },
            None => None,
        }
    }

    /// The number of stored resources.
    pub fn len(&self) -> (n: usize)
        ensures
            n == self.resources().len(),
    {
        slots_len(&self.resources)
    }

    /// Puts `resource` in place of the token stored under `id`, giving back
    /// the token it replaces; when nothing is stored under `id`, nothing
    /// changes and `None` comes back. Paths are not touched.
    pub fn replace_resource(&mut self, id: ResourceId, resource: u64) -> (r: Option<u64>)
        requires
            old(self).wf(),
        ensures
            final(self).wf(),
            r == (if old(self).resources().dom().contains(id@) {
                Some(old(self).resources()[id@])
            } else {
                None::<u64>
            }),
            final(self).resources() == (if old(self).resources().dom().contains(id@) {
                old(self).resources().insert(id@, resource)
            } else {
                old(self).resources()
            }),
            final(self).paths() == old(self).paths(),
    {
        let k = id.as_ffi();
        slots_replace(&mut self.resources, k, resource)
    }

    /// The resource token stored under `id`, if any.
    pub fn get_resource(&self, id: ResourceId) -> (r: Option<u64>)
        ensures
            r == (if self.resources().dom().contains(id@) {
                Some(self.resources()[id@])
            } else {
                None::<u64>
            }),
    {
        slots_get(&self.resources, id.as_ffi())
    }

    /// The resource token stored under `id`, which must be stored.
    pub fn get_loaded(&self, id: ResourceId) -> (r: u64)
        requires
            self.resources().dom().contains(id@),
        ensures
            r == self.resources()[id@],
    {
        match slots_get(&self.resources, id.as_ffi()) {
            Some(v) => v,
            None => 0,
        }
    }
}


/// A typed reference to a stored resource.
pub struct Handle<R> {
    resource: ResourceId,
    _phantom: std::marker::PhantomData<R>,
}

impl<R> Handle<R> {
    /// The id the handle refers to.
    pub closed spec fn spec_id(&self) -> ResourceId {
        self.resource
    }

    /// A handle to the resource stored under `id`.
    pub fn new(id: ResourceId) -> (r: Handle<R>)
        ensures
            r.spec_id() == id,
    {
        Handle { resource: id, _phantom: std::marker::PhantomData }
    }

    /// The id the handle refers to.
    pub fn id(&self) -> (r: ResourceId)
        ensures
            r == self.spec_id(),
    {
        self.resource
    }
}

impl<R> Clone for Handle<R> {
    fn clone(&self) -> (r: Handle<R>)
        ensures
            r.spec_id() == self.spec_id(),
    {
        Handle { resource: self.resource, _phantom: std::marker::PhantomData }
    }
}


/// The sizes of a rendered SVG.
#[derive(Debug, Clone, Copy, PartialEq, Eq)]
pub struct SvgParams {
    pub width: u32,
    pub height: u32,
}

/// After `add(path, resource)` gives `id`: the path resolves to `id`, `id`
/// holds the resource, and every other path and id reads as before.
pub proof fn law_read_after_add(
    before: TypedResourceStorage,
    after: TypedResourceStorage,
    path: Seq<char>,
    resource: u64,
    id: u64,
)
    requires
        !before.resources().dom().contains(id),
        after.resources() == before.resources().insert(id, resource),
        after.paths() == before.paths().insert(path, id),
    ensures
        after.paths().dom().contains(path) && after.paths()[path] == id,
        after.resources().dom().contains(id) && after.resources()[id] == resource,
        forall|q: Seq<char>|
            q != path ==> (#[trigger] after.paths().dom().contains(q)
                == before.paths().dom().contains(q) && (after.paths().dom().contains(q)
                ==> after.paths()[q] == before.paths()[q])),
        forall|k: u64|
            k != id ==> (#[trigger] after.resources().dom().contains(k)
                == before.resources().dom().contains(k) && (after.resources().dom().contains(k)
                ==> after.resources()[k] == before.resources()[k])),
{
}

/// Removing the id that `add` just gave back leaves the stored resources as
/// they were before the add, and the added path no longer resolves; after
/// any `remove(id)`, no path resolves to `id`.
pub proof fn law_remove_undoes_add(
    before: TypedResourceStorage,
    added: TypedResourceStorage,
    after: TypedResourceStorage,
    path: Seq<char>,
    resource: u64,
    id: u64,
)
    requires
        !before.resources().dom().contains(id),
        added.resources() == before.resources().insert(id, resource),
        added.paths() == before.paths().insert(path, id),
        after.resources() == added.resources().remove(id),
        after.paths() == added.paths().restrict(
            added.paths().dom().filter(|p: Seq<char>| added.paths()[p] != id),
        ),
    ensures
        after.resources() == before.resources(),
        !after.paths().dom().contains(path),
        forall|q: Seq<char>| #[trigger] after.paths().dom().contains(q) ==> after.paths()[q] != id,
{
    assert(after.resources() =~= before.resources());
}

} // verus!
