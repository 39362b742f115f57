//! The per-entity instance buffer cache and its mark-and-sweep eviction.
//!
//! Entities are keyed by their 64-bit identity. Each entry holds the instance
//! data last staged for the entity, the bind group built from the data last
//! uploaded, and this frame's uniform offsets and visibility.

use vstd::prelude::*;

use crate::bytes::le_bytes_of;
use crate::cuboids::{cuboids_le_bytes, cuboids_words, Cuboid};

verus! {

#[verifier::external_type_specification]
#[verifier::external_body]
#[verifier::reject_recursive_types(K)]
#[verifier::reject_recursive_types(V)]
#[verifier::reject_recursive_types(S)]
pub struct ExAHashMap<K, V, S>(ahash::AHashMap<K, V, S>);

#[verifier::external_type_specification]
#[verifier::external_body]
pub struct ExRandomState(ahash::RandomState);

/// The map type behind the cache.
pub type EntryMap = ahash::AHashMap<u64, BufferCacheEntry>;

/// What an entry map holds, key by key.
pub uninterp spec fn entries_of(m: EntryMap) -> Map<u64, BufferCacheEntry>;

/// Relies on `ahash::AHashMap::new`: a map with no entries.
#[verifier::external_body]
fn entries_new() -> (r: EntryMap)
    ensures
        forall|k: u64| !entries_of(r).contains_key(k),
{
    ahash::AHashMap::new()
}

/// Relies on `ahash::AHashMap::get`: the value under `k`, if any.
#[verifier::external_body]
fn entries_get(m: &EntryMap, k: u64) -> (r: Option<
    &BufferCacheEntry,
>)
    ensures
        match r {
            Some(v) => entries_of(*m).contains_key(k) && *v == entries_of(*m)[k],
            None => !entries_of(*m).contains_key(k),
        },
{
    m.get(&k)
}

/// Relies on `ahash::AHashMap::insert`: `v` is stored under `k`, and the value
/// it replaces is returned.
#[verifier::external_body]
fn entries_insert(m: &mut EntryMap, k: u64, v: BufferCacheEntry)
    -> (r: Option<BufferCacheEntry>)
    ensures
        entries_of(*final(m)) == entries_of(*old(m)).insert(k, v),
        r == (if entries_of(*old(m)).contains_key(k) {
            Some(entries_of(*old(m))[k])
        } else {
            None
        }),
{
    m.insert(k, v)
}

/// Relies on `ahash::AHashMap::remove`: the entry under `k` leaves the map and
/// its value is returned.
#[verifier::external_body]
fn entries_remove(m: &mut EntryMap, k: u64) -> (r: Option<
    BufferCacheEntry,
>)
    ensures
        entries_of(*final(m)) == entries_of(*old(m)).remove(k),
        r == (if entries_of(*old(m)).contains_key(k) {
            Some(entries_of(*old(m))[k])
        } else {
            None
        }),
{
    m.remove(&k)
}

/// Relies on `HashMap::keys` (through `AHashMap`'s `Deref`): every key of the
/// map once, in an order that is not specified.
#[verifier::external_body]
fn entries_keys(m: &EntryMap) -> (r: Vec<u64>)
    ensures
        r@.no_duplicates(),
        forall|k: u64| r@.contains(k) <==> entries_of(*m).contains_key(k),
{
    m.keys().copied().collect()
}

/// The GPU side of an entry: its instance data and what the draw binds.
pub struct GpuCuboidBuffers {
    /// The instance data last staged for upload.
    pub instances: Vec<Cuboid>,
    /// The bind group of the uploaded instance buffer; `None` until the staged
    /// data has been uploaded.
    pub bind_group: Option<u64>,
    /// Byte offset of this frame's transform record.
    pub transform_index: u32,
    /// Byte offset of this frame's material record.
    pub material_index: u32,
}

/// One entity's cache entry.
pub struct BufferCacheEntry {
    pub buffers: GpuCuboidBuffers,
    /// The bits of the entity's world position, as three `f32`.
    pub position: [u32; 3],
    /// Staged data waits for upload.
    pub dirty: bool,
    /// The entity is visible this frame.
    pub enabled: bool,
    /// The entity was seen during this frame's extraction.
    pub keep_alive: bool,
    /// The instance data that the bind group was built from.
    pub bound: Ghost<Seq<Cuboid>>,
}

impl BufferCacheEntry {
    /// An entry is non-empty, and its bind group, when it has one, was built
    /// from its current data; it lacks one exactly while it is dirty.
    pub open spec fn wf(&self) -> bool {
        &&& self.buffers.instances@.len() > 0
        &&& self.dirty <==> self.buffers.bind_group is None
        &&& self.buffers.bind_group is Some ==> self.bound@ == self.buffers.instances@
    }

    /// This entry with its liveness mark set to `alive`.
    pub open spec fn with_keep_alive(self, alive: bool) -> BufferCacheEntry {
        BufferCacheEntry { keep_alive: alive, ..self }
    }

    pub fn position(&self) -> (r: [u32; 3])
        ensures
            r == self.position,
    {
        self.position
    }

    pub fn buffers(&self) -> (r: &GpuCuboidBuffers)
        ensures
            *r == self.buffers,
    {
        &self.buffers
    }

    pub fn is_enabled(&self) -> (r: bool)
        ensures
            r == self.enabled,
    {
        self.enabled
    }

    pub fn is_dirty(&self) -> (r: bool)
        ensures
            r == self.dirty,
    {
        self.dirty
    }

    pub fn is_kept_alive(&self) -> (r: bool)
        ensures
            r == self.keep_alive,
    {
        self.keep_alive
    }

    /// The bytes to upload for this entry's instance buffer.
    pub fn instance_bytes(&self) -> (r: Vec<u8>)
        ensures
            r@ == le_bytes_of(cuboids_words(self.buffers.instances@)),
    {
        cuboids_le_bytes(&self.buffers.instances)
    }

    pub fn num_cuboids(&self) -> (r: usize)
        ensures
            r == self.buffers.instances@.len(),
    {
        self.buffers.instances.len()
    }
}

/// Whether `e` is what an upsert makes of `prev` (the entry before, if any)
/// with instance data `instances` that changed or not since last frame.
pub open spec fn upserted(
    prev: Option<BufferCacheEntry>,
    e: BufferCacheEntry,
    instances: Seq<Cuboid>,
    changed: bool,
    position: [u32; 3],
    enabled: bool,
    material_index: u32,
    transform_index: u32,
) -> bool {
    let replace = changed || prev is None;
    &&& e.buffers.instances@ == (if replace {
        instances
    } else {
        prev->Some_0.buffers.instances@
    })
    &&& e.buffers.bind_group == (if replace {
        None
    } else {
        prev->Some_0.buffers.bind_group
    })
    &&& !replace ==> e.bound == prev->Some_0.bound
    &&& e.dirty == (replace || prev->Some_0.dirty)
    &&& e.buffers.transform_index == transform_index
    &&& e.buffers.material_index == material_index
    &&& e.position == position
    &&& e.enabled == enabled
    &&& e.keep_alive
}

/// The cache after a sweep of `m`: entries not kept alive are gone, and the
/// mark is cleared on the others.
pub open spec fn swept(m: Map<u64, BufferCacheEntry>) -> Map<u64, BufferCacheEntry> {
    Map::new(|k: u64| m.contains_key(k) && m[k].keep_alive, |k: u64| m[k].with_keep_alive(false))
}

/// In a well-formed cache, no clean entry is bound to stale data: an entry
/// that is not dirty has a bind group, built from exactly its current
/// instance data; and an entry with a bind group is not dirty.
pub proof fn lemma_clean_entries_bound_to_current_data(cache: &BufferCache)
    requires
        cache.wf(),
    ensures
        forall|k: u64|
            #![trigger cache@[k]]
            cache@.contains_key(k) && !cache@[k].dirty ==> cache@[k].buffers.bind_group is Some
                && cache@[k].bound@ == cache@[k].buffers.instances@,
        forall|k: u64|
            #![trigger cache@[k]]
            cache@.contains_key(k) && cache@[k].buffers.bind_group is Some ==> !cache@[k].dirty,
{
}

/// `most` is the largest number of cuboids held by an entry of `m`, or 0
/// when `m` is empty.
pub open spec fn is_max_num_cuboids(m: Map<u64, BufferCacheEntry>, most: nat) -> bool {
    &&& forall|k: u64| m.contains_key(k) ==> (#[trigger] m[k]).buffers.instances@.len() <= most
    &&& most == 0 || exists|k: u64| m.contains_key(k) && (#[trigger] m[k]).buffers.instances@.len() == most
}

/// Maps each entity to its [`BufferCacheEntry`].
pub struct BufferCache {
    entries: EntryMap,
}

/// Another name for [`BufferCache`].
pub type CuboidBufferCache = BufferCache;

impl View for BufferCache {
    type V = Map<u64, BufferCacheEntry>;

    closed spec fn view(&self) -> Map<u64, BufferCacheEntry> {
        entries_of(self.entries)
    }
}

impl BufferCache {
    pub open spec fn wf(&self) -> bool {
        forall|k: u64| self@.contains_key(k) ==> (#[trigger] self@[k]).wf()
    }

    pub fn new() -> (r: BufferCache)
        ensures
            r.wf(),
            r@ == Map::<u64, BufferCacheEntry>::empty(),
    {
        let r = BufferCache { entries: entries_new() };
        assert(r@ =~= Map::<u64, BufferCacheEntry>::empty());
        r
    }

    /// The entities that have an entry, each once.
    pub fn entities(&self) -> (r: Vec<u64>)
        ensures
            r@.no_duplicates(),
            forall|k: u64| r@.contains(k) <==> self@.contains_key(k),
    {
        entries_keys(&self.entries)
    }

    pub fn get(&self, entity: u64) -> (r: Option<&BufferCacheEntry>)
        ensures
            match r {
                Some(e) => self@.contains_key(entity) && *e == self@[entity],
                None => !self@.contains_key(entity),
            },
    {
        entries_get(&self.entries, entity)
    }

    pub fn contains(&self, entity: u64) -> (r: bool)
        ensures
            r == self@.contains_key(entity),
    {
        entries_get(&self.entries, entity).is_some()
    }

    /// Inserts an entry for `entity`, or refreshes the one it has.
    ///
    /// New data (`changed`, or no entry yet) replaces the instance buffer as a
    /// whole, drops its bind group and marks the entry dirty; otherwise the
    /// buffer and its upload state stay. Either way the entry takes this
    /// frame's offsets, position and visibility, and is marked alive.
    pub fn insert(
        &mut self,
        entity: u64,
        instances: Vec<Cuboid>,
        changed: bool,
        position: [u32; 3],
        enabled: bool,
        material_index: u32,
        transform_index: u32,
    )
        requires
            old(self).wf(),
            instances@.len() > 0,
        ensures
            final(self).wf(),
            final(self)@.dom() == old(self)@.dom().insert(entity),
            forall|k: u64| k != entity && old(self)@.contains_key(k) ==> final(self)@[k] == old(self)@[k],
            upserted(
                if old(self)@.contains_key(entity) { Some(old(self)@[entity]) } else { None },
                final(self)@[entity],
                instances@,
                changed,
                position,
                enabled,
                material_index,
                transform_index,
            ),
    {
        let prev = entries_remove(&mut self.entries, entity);
        let e = match prev {
            Some(p) => {
                if changed {
                    BufferCacheEntry {
                        buffers: GpuCuboidBuffers {
                            instances,
                            bind_group: None,
                            transform_index,
                            material_index,
                        },
                        position,
                        dirty: true,
                        enabled,
                        keep_alive: true,
                        bound: p.bound,
                    }
                } else {
                    BufferCacheEntry {
                        buffers: GpuCuboidBuffers {
                            instances: p.buffers.instances,
                            bind_group: p.buffers.bind_group,
                            transform_index,
                            material_index,
                        },
                        position,
                        dirty: p.dirty,
                        enabled,
                        keep_alive: true,
                        bound: p.bound,
                    }
                }
            },
            None => BufferCacheEntry {
                buffers: GpuCuboidBuffers {
                    instances,
                    bind_group: None,
                    transform_index,
                    material_index,
                },
                position,
                dirty: true,
                enabled,
                keep_alive: true,
                bound: Ghost(Seq::empty()),
            },
        };
        entries_insert(&mut self.entries, entity, e);
        proof {
            assert(self@.dom() =~= old(self)@.dom().insert(entity));
        }
    }

    /// Marks the entry of `entity` alive for this frame; `false` when it has
    /// none.
    pub fn keep_alive(&mut self, entity: u64) -> (r: bool)
        requires
            old(self).wf(),
        ensures
            final(self).wf(),
            r == old(self)@.contains_key(entity),
            r ==> final(self)@ == old(self)@.insert(entity, old(self)@[entity].with_keep_alive(true)),
            !r ==> final(self)@ == old(self)@,
    {
        match entries_remove(&mut self.entries, entity) {
            Some(e) => {
                let e2 = BufferCacheEntry { keep_alive: true, ..e };
                entries_insert(&mut self.entries, entity, e2);
                proof {
                    assert(self@ =~= old(self)@.insert(entity, old(self)@[entity].with_keep_alive(true)));
                }
                true
            },
            None => {
                proof {
                    assert(self@ =~= old(self)@);
                }
                false
            },
        }
    }

    /// Shows or hides the entry of `entity` without touching its buffers;
    /// `false` when it has none.
    pub fn set_enabled(&mut self, entity: u64, enabled: bool) -> (r: bool)
        requires
            old(self).wf(),
        ensures
            final(self).wf(),
            r == old(self)@.contains_key(entity),
            r ==> final(self)@ == old(self)@.insert(
                entity,
                BufferCacheEntry { enabled, ..old(self)@[entity] },
            ),
            !r ==> final(self)@ == old(self)@,
    {
        match entries_remove(&mut self.entries, entity) {
            Some(e) => {
                let e2 = BufferCacheEntry { enabled, ..e };
                entries_insert(&mut self.entries, entity, e2);
                proof {
                    assert(self@ =~= old(self)@.insert(entity, BufferCacheEntry { enabled, ..old(self)@[entity] }));
                }
                true
            },
            None => {
                proof {
                    assert(self@ =~= old(self)@);
                }
                false
            },
        }
    }

    /// Records that the staged data of `entity` was uploaded and bound as
    /// `bind_group`: the entry is clean. `false` when it has no entry.
    pub fn complete_upload(&mut self, entity: u64, bind_group: u64) -> (r: bool)
        requires
            old(self).wf(),
        ensures
            final(self).wf(),
            r == old(self)@.contains_key(entity),
            !r ==> final(self)@ == old(self)@,
            r ==> final(self)@.dom() == old(self)@.dom(),
            r ==> forall|k: u64| k != entity && old(self)@.contains_key(k) ==> final(self)@[k] == old(self)@[k],
            r ==> {
                let o = old(self)@[entity];
                let n = final(self)@[entity];
                &&& !n.dirty
                &&& n.buffers.bind_group == Some(bind_group)
                &&& n.bound@ == o.buffers.instances@
                &&& n.buffers.instances == o.buffers.instances
                &&& n.buffers.transform_index == o.buffers.transform_index
                &&& n.buffers.material_index == o.buffers.material_index
                &&& n.position == o.position
                &&& n.enabled == o.enabled
                &&& n.keep_alive == o.keep_alive
            },
    {
        match entries_remove(&mut self.entries, entity) {
            Some(e) => {
                let ghost data = e.buffers.instances@;
                let e2 = BufferCacheEntry {
                    buffers: GpuCuboidBuffers { bind_group: Some(bind_group), ..e.buffers },
                    dirty: false,
                    bound: Ghost(data),
                    ..e
                };
                entries_insert(&mut self.entries, entity, e2);
                proof {
                    assert(self@.dom() =~= old(self)@.dom());
                }
                true
            },
            None => {
                proof {
                    assert(self@ =~= old(self)@);
                }
                false
            },
        }
    }

    /// Removes every entry not marked alive since the last sweep, then clears
    /// the mark on the entries that stay.
    pub fn cull_entities(&mut self)
        requires
            old(self).wf(),
        ensures
            final(self).wf(),
            final(self)@ == swept(old(self)@),
    {
        let keys = entries_keys(&self.entries);
        let ghost start = self@;
        let n = keys.len();
        let mut i: usize = 0;
        proof {
            assert forall|j: int| 0 <= j < n implies start.contains_key(#[trigger] keys@[j]) by {
                assert(keys@.contains(keys@[j]));
            }
        }
        while i < n
            invariant
                n == keys@.len(),
                i <= n,
                keys@.no_duplicates(),
                forall|k: u64| keys@.contains(k) <==> start.contains_key(k),
                forall|k: u64| start.contains_key(k) ==> (#[trigger] start[k]).wf(),
                forall|j: int|
                    i <= j < n ==> self@.contains_key(#[trigger] keys@[j]) && self@[keys@[j]]
                        == start[keys@[j]],
                forall|j: int|
                    0 <= j < i ==> (self@.contains_key(#[trigger] keys@[j]) == swept(
                        start,
                    ).contains_key(keys@[j]) && (self@.contains_key(keys@[j]) ==> self@[keys@[j]]
                        == swept(start)[keys@[j]])),
                forall|k: u64| !keys@.contains(k) ==> !self@.contains_key(k),
            decreases n - i,
        {
            let k = keys[i];
            let ghost before = self@;
            let removed = entries_remove(&mut self.entries, k);
            match removed {
                Some(e) => {
                    if e.keep_alive {
                        let e2 = BufferCacheEntry { keep_alive: false, ..e };
                        entries_insert(&mut self.entries, k, e2);
                    }
                },
                None => {},
            }
            proof {
                assert forall|j: int| 0 <= j < n && j != i implies #[trigger] keys@[j] != k by {}
                assert forall|j: int| 0 <= j < n && j != i implies (self@.contains_key(
                    #[trigger] keys@[j],
                ) == before.contains_key(keys@[j]) && (self@.contains_key(keys@[j])
                    ==> self@[keys@[j]] == before[keys@[j]])) by {}
                assert forall|kk: u64| !keys@.contains(kk) implies !self@.contains_key(kk) by {
                    if kk == k {
                        assert(keys@.contains(k));
                    }
                }
            }
            i = i + 1;
        }
        proof {
            assert forall|k: u64| #[trigger] swept(start).contains_key(k) <==> self@.contains_key(
                k,
            ) by {
                if keys@.contains(k) {
                    let j = choose|j: int| 0 <= j < n && keys@[j] == k;
                }
            }
            assert forall|k: u64| self@.contains_key(k) implies self@[k] == swept(start)[k]
                && (#[trigger] self@[k]).wf() by {
                if !keys@.contains(k) {
                    assert(!self@.contains_key(k));
                }
                let j = choose|j: int| 0 <= j < n && keys@[j] == k;
            }
            assert(self@ =~= swept(start));
        }
    }

    /// The entities whose staged data waits for upload, each once.
    pub fn dirty_entities(&self) -> (r: Vec<u64>)
        ensures
            r@.no_duplicates(),
            forall|k: u64| r@.contains(k) <==> (self@.contains_key(k) && self@[k].dirty),
    {
        let keys = entries_keys(&self.entries);
        let mut out: Vec<u64> = Vec::new();
        let mut i: usize = 0;
        while i < keys.len()
            invariant
                i <= keys@.len(),
                keys@.no_duplicates(),
                forall|k: u64| keys@.contains(k) <==> self@.contains_key(k),
                out@.no_duplicates(),
                forall|k: u64|
                    out@.contains(k) <==> (exists|j: int| 0 <= j < i && keys@[j] == k)
                        && self@.contains_key(k) && self@[k].dirty,
            decreases keys@.len() - i,
        {
            let k = keys[i];
            assert(keys@.contains(k));
            match entries_get(&self.entries, k) {
                Some(e) => {
                    let ghost prev = out@;
                    if e.dirty {
                        proof {
                            assert forall|j: int| 0 <= j < i implies keys@[j] != k by {}
                            assert(!prev.contains(k));
                        }
                        out.push(k);
                        proof {
                            assert forall|kk: u64| #[trigger] out@.contains(kk) <==> prev.contains(kk) || kk == k by {
                                if kk == k {
                                    assert(out@[out@.len() - 1] == k);
                                }
                                if out@.contains(kk) && kk != k {
                                    let p = choose|p: int| 0 <= p < out@.len() && out@[p] == kk;
                                    assert(prev[p] == kk);
                                }
                                if prev.contains(kk) {
                                    let p = choose|p: int| 0 <= p < prev.len() && prev[p] == kk;
                                    assert(out@[p] == kk);
                                }
                            }
                        }
                    }
                    proof {
                        assert forall|kk: u64| out@.contains(kk) <==> (exists|j: int| 0 <= j < i + 1 && keys@[j] == kk)
                            && self@.contains_key(kk) && self@[kk].dirty by {
                            if kk == k {
                                assert(keys@[i as int] == k);
                            }
                            if exists|j: int| 0 <= j < i + 1 && keys@[j] == kk {
                                let j = choose|j: int| 0 <= j < i + 1 && keys@[j] == kk;
                                if j < i {
                                    assert(exists|j: int| 0 <= j < i && keys@[j] == kk);
                                }
                            }
                        }
                    }
                },
                None => {},
            }
            i = i + 1;
        }
        proof {
            assert forall|k: u64| out@.contains(k) <==> (self@.contains_key(k) && self@[k].dirty) by {
                if self@.contains_key(k) {
                    assert(keys@.contains(k));
                    let j = choose|j: int| 0 <= j < keys@.len() && keys@[j] == k;
                }
            }
        }
        out
    }

    /// The largest number of cuboids held by one entry; 0 when the cache is
    /// empty.
    pub fn max_num_cuboids(&self) -> (r: usize)
        ensures
            is_max_num_cuboids(self@, r as nat),
    {
        let keys = entries_keys(&self.entries);
        let mut best: usize = 0;
        let mut i: usize = 0;
        while i < keys.len()
            invariant
                i <= keys@.len(),
                forall|k: u64| keys@.contains(k) <==> self@.contains_key(k),
                forall|j: int| 0 <= j < i ==> self@[#[trigger] keys@[j]].buffers.instances@.len() <= best,
                best == 0 || exists|k: u64| self@.contains_key(k) && (#[trigger] self@[k]).buffers.instances@.len() == best,
            decreases keys@.len() - i,
        {
            let k = keys[i];
            assert(keys@.contains(k));
            match entries_get(&self.entries, k) {
                Some(e) => {
                    let c = e.buffers.instances.len();
                    if c > best {
                        best = c;
                    }
                },
                None => {},
            }
            i = i + 1;
        }
        proof {
            assert forall|k: u64| self@.contains_key(k) implies (#[trigger] self@[k]).buffers.instances@.len() <= best by {
                assert(keys@.contains(k));
                let j = choose|j: int| 0 <= j < keys@.len() && keys@[j] == k;
            }
        }
        best
    }
}

} // verus!
