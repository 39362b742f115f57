//! The per-frame protocol: extract the scene into the cache, decide what to
//! upload, queue the visible entries and build each draw's bindings.
//!
//! The host runs, once per frame and in this order: [`extract_cuboids`];
//! the uploads named by [`BufferCache::dirty_entities`], each followed by
//! [`BufferCache::complete_upload`]; [`prepare_index_buffer`];
//! [`queue_cuboids`] for each view; and [`draw_cuboids`] for each queued
//! entity.

use vstd::prelude::*;

use crate::cache::{is_max_num_cuboids, upserted, BufferCache, BufferCacheEntry};
use crate::cuboids::Cuboid;
use crate::index_buffer::{grown_capacity, CuboidsIndexBuffer, MAX_INDEXED_CUBOIDS, NUM_CUBE_INDICES};
use crate::material::{CuboidMaterial, CuboidMaterialId, CuboidMaterialMap};
use crate::uniforms::{offsets_fit, DynamicUniformArray};

verus! {

/// One entity as the scene shows it this frame.
pub struct ExtractedCuboids<T> {
    pub entity: u64,
    pub instances: Vec<Cuboid>,
    /// The instance list was added or changed since the last frame.
    pub changed: bool,
    /// Computed visibility; an entity without one is visible.
    pub visible: Option<bool>,
    pub material_id: CuboidMaterialId,
    /// The bits of the world position, as three `f32`.
    pub position: [u32; 3],
    /// The world transform record pushed to the transform uniforms.
    pub transform: T,
}

/// Why a frame's extraction was refused.
#[derive(Clone, Copy, Debug, PartialEq, Eq)]
pub enum ExtractError {
    /// The material table is empty: nothing can be drawn.
    EmptyMaterialMap,
    /// The entity names a material the table does not have.
    MaterialOutOfRange(u64),
}

/// The entity takes part in the frame: it has instances.
pub open spec fn is_live<T>(item: ExtractedCuboids<T>) -> bool {
    item.instances@.len() > 0
}

pub open spec fn visibility<T>(item: ExtractedCuboids<T>) -> bool {
    match item.visible {
        Some(v) => v,
        None => true,
    }
}

/// The item names a material among the first `n`, or has no instances.
pub open spec fn material_ok<T>(item: ExtractedCuboids<T>, n: nat) -> bool {
    is_live(item) ==> item.material_id.0 < n
}

/// No entity appears twice.
pub open spec fn distinct_entities<T>(items: Seq<ExtractedCuboids<T>>) -> bool {
    forall|i: int, j: int|
        0 <= i < j < items.len() ==> (#[trigger] items[i]).entity != (#[trigger] items[j]).entity
}

/// `e` is the entity of a live item.
pub open spec fn live_in<T>(items: Seq<ExtractedCuboids<T>>, e: u64) -> bool {
    exists|i: int| 0 <= i < items.len() && (#[trigger] items[i]).entity == e && is_live(items[i])
}

/// The transforms of the live items, in order.
pub open spec fn live_transforms<T>(items: Seq<ExtractedCuboids<T>>) -> Seq<T>
    decreases items.len(),
{
    if items.len() == 0 {
        Seq::empty()
    } else if is_live(items.last()) {
        live_transforms(items.drop_last()).push(items.last().transform)
    } else {
        live_transforms(items.drop_last())
    }
}

/// The slot of item `i`'s transform: the number of live items before it.
pub open spec fn transform_slot<T>(items: Seq<ExtractedCuboids<T>>, i: int) -> nat {
    live_transforms(items.take(i)).len()
}

/// No entry is marked alive: the state between two frames.
pub open spec fn all_swept(m: Map<u64, BufferCacheEntry>) -> bool {
    forall|k: u64| m.contains_key(k) ==> !(#[trigger] m[k]).keep_alive
}

/// `after` is the cache that a successful extraction of `items` makes of
/// `before`, with materials and transforms `material_stride` and
/// `transform_stride` bytes apart.
pub open spec fn extracted<T>(
    before: Map<u64, BufferCacheEntry>,
    items: Seq<ExtractedCuboids<T>>,
    material_stride: u32,
    transform_stride: u32,
    after: Map<u64, BufferCacheEntry>,
) -> bool {
    &&& forall|e: u64| #[trigger] after.contains_key(e) <==> live_in(items, e)
    &&& all_swept(after)
    &&& forall|i: int|
        0 <= i < items.len() && is_live(#[trigger] items[i]) ==> upserted(
            if before.contains_key(items[i].entity) {
                Some(before[items[i].entity])
            } else {
                None
            },
            after[items[i].entity].with_keep_alive(true),
            items[i].instances@,
            items[i].changed,
            items[i].position,
            visibility(items[i]),
            (items[i].material_id.0 * material_stride) as u32,
            (transform_slot(items, i) * transform_stride) as u32,
        )
}

proof fn lemma_live_transforms_take<T>(items: Seq<ExtractedCuboids<T>>, i: int)
    requires
        0 <= i < items.len(),
    ensures
        live_transforms(items.take(i + 1)) == if is_live(items[i]) {
            live_transforms(items.take(i)).push(items[i].transform)
        } else {
            live_transforms(items.take(i))
        },
        transform_slot(items, i) <= i,
{
    assert(items.take(i + 1).drop_last() =~= items.take(i));
    lemma_live_transforms_len(items.take(i));
}

proof fn lemma_live_transforms_len<T>(items: Seq<ExtractedCuboids<T>>)
    ensures
        live_transforms(items).len() <= items.len(),
    decreases items.len(),
{
    if items.len() > 0 {
        lemma_live_transforms_len(items.drop_last());
    }
}

/// The first live item that names a missing material, if any.
fn find_bad_material<T>(items: &Vec<ExtractedCuboids<T>>, n: usize) -> (r: Option<usize>)
    ensures
        match r {
            Some(i) => i < items@.len() && !material_ok(items@[i as int], n as nat) && forall|j: int|
                0 <= j < i ==> material_ok(#[trigger] items@[j], n as nat),
            None => forall|j: int| 0 <= j < items@.len() ==> material_ok(#[trigger] items@[j], n as nat),
        },
{
    let mut i: usize = 0;
    while i < items.len()
        invariant
            i <= items@.len(),
            forall|j: int| 0 <= j < i ==> material_ok(#[trigger] items@[j], n as nat),
        decreases items@.len() - i,
    {
        if items[i].instances.len() > 0 && items[i].material_id.0 >= n {
            return Some(i);
        }
        i = i + 1;
    }
    None
}

/// Extracts one frame into the cache.
///
/// The transform uniforms are cleared, then, unless the material table is
/// empty or a live entity names a material it lacks, the material uniforms
/// are rebuilt from the table; each entity with instances gets its entry
/// inserted or refreshed, with the offset of its material and of its
/// transform, pushed in entity order; and the cache is swept, so that exactly
/// the entities with instances keep an entry. On an error the cache and the
/// material uniforms stay as they were.
pub fn extract_cuboids<T>(
    items: Vec<ExtractedCuboids<T>>,
    materials: &CuboidMaterialMap,
    material_uniforms: &mut DynamicUniformArray<CuboidMaterial>,
    transform_uniforms: &mut DynamicUniformArray<T>,
    cache: &mut BufferCache,
) -> (r: Result<(), ExtractError>)
    requires
        old(cache).wf(),
        all_swept(old(cache)@),
        distinct_entities(items@),
        offsets_fit(materials@.len(), old(material_uniforms).spec_stride()),
        offsets_fit(items@.len(), old(transform_uniforms).spec_stride()),
    ensures
        final(cache).wf(),
        final(material_uniforms).spec_stride() == old(material_uniforms).spec_stride(),
        final(transform_uniforms).spec_stride() == old(transform_uniforms).spec_stride(),
        r == Err::<(), ExtractError>(ExtractError::EmptyMaterialMap) <==> materials@.len() == 0,
        match r {
            Ok(()) => {
                &&& forall|i: int| 0 <= i < items@.len() ==> material_ok(#[trigger] items@[i], materials@.len())
                &&& final(material_uniforms).spec_values() == materials@
                &&& final(transform_uniforms).spec_values() == live_transforms(items@)
                &&& extracted(
                    old(cache)@,
                    items@,
                    old(material_uniforms).spec_stride(),
                    old(transform_uniforms).spec_stride(),
                    final(cache)@,
                )
            },
            Err(ExtractError::EmptyMaterialMap) => {
                &&& final(cache)@ == old(cache)@
                &&& *final(material_uniforms) == *old(material_uniforms)
                &&& final(transform_uniforms).spec_values().len() == 0
            },
            Err(ExtractError::MaterialOutOfRange(e)) => {
                &&& materials@.len() > 0
                &&& exists|i: int|
                    0 <= i < items@.len() && (#[trigger] items@[i]).entity == e && !material_ok(
                        items@[i],
                        materials@.len(),
                    ) && forall|j: int| 0 <= j < i ==> material_ok(#[trigger] items@[j], materials@.len())
                &&& final(cache)@ == old(cache)@
                &&& *final(material_uniforms) == *old(material_uniforms)
                &&& final(transform_uniforms).spec_values().len() == 0
            },
        },
{
    transform_uniforms.clear();
    if materials.is_empty() {
        return Err(ExtractError::EmptyMaterialMap);
    }
    match find_bad_material(&items, materials.len()) {
        Some(i) => {
            return Err(ExtractError::MaterialOutOfRange(items[i].entity));
        },
        None => {},
    }
    let offsets = materials.write_uniforms(material_uniforms);
    let ghost all = items@;
    let ghost start = cache@;
    let ghost mstride = old(material_uniforms).spec_stride();
    let ghost tstride = transform_uniforms.spec_stride();
    let ghost mut k: int = 0;
    assert(all.take(0) =~= Seq::<ExtractedCuboids<T>>::empty());
    for item in it: items.into_iter()
        invariant
            it.seq() == all,
            k == it.index(),
            k <= all.len(),
            cache.wf(),
            distinct_entities(all),
            all_swept(start),
            forall|j: int| 0 <= j < all.len() ==> material_ok(#[trigger] all[j], materials@.len()),
            offsets@.len() == materials@.len(),
            forall|j: int| 0 <= j < offsets@.len() ==> offsets@[j] == j * mstride,
            offsets_fit(all.len(), tstride),
            transform_uniforms.spec_stride() == tstride,
            transform_uniforms.spec_values() == live_transforms(all.take(k)),
            forall|e: u64|
                #[trigger] cache@.contains_key(e) <==> (start.contains_key(e) || live_in(
                    all.take(k),
                    e,
                )),
            forall|e: u64|
                start.contains_key(e) && !live_in(all.take(k), e) ==> #[trigger] cache@[e]
                    == start[e],
            forall|i: int|
                0 <= i < k && is_live(#[trigger] all[i]) ==> upserted(
                    if start.contains_key(all[i].entity) {
                        Some(start[all[i].entity])
                    } else {
                        None
                    },
                    cache@[all[i].entity],
                    all[i].instances@,
                    all[i].changed,
                    all[i].position,
                    visibility(all[i]),
                    (all[i].material_id.0 * mstride) as u32,
                    (transform_slot(all, i) * tstride) as u32,
                ),
    {
        proof {
            lemma_live_transforms_take(all, k);
            assert(all[k] == item);
            assert(all.take(k + 1).take(k) =~= all.take(k));
        }
        if item.instances.len() > 0 {
            let ghost slot = transform_slot(all, k);
            proof {
                let s = tstride as int;
                assert((slot + 1) * s <= all.len() * s) by (nonlinear_arith)
                    requires
                        slot + 1 <= all.len(),
                        s >= 0,
                ;
            }
            let enabled = match item.visible {
                Some(v) => v,
                None => true,
            };
            let material_index = offsets[item.material_id.0];
            let entity = item.entity;
            let ghost before = cache@;
            let transform_index = transform_uniforms.push(item.transform);
            cache.insert(
                entity,
                item.instances,
                item.changed,
                item.position,
                enabled,
                material_index,
                transform_index,
            );
            proof {
                assert(transform_uniforms.spec_values() =~= live_transforms(all.take(k + 1)));
                assert forall|e: u64|
                    #[trigger] cache@.contains_key(e) <==> (start.contains_key(e) || live_in(
                        all.take(k + 1),
                        e,
                    )) by {
                    if live_in(all.take(k), e) {
                        let j = choose|j: int|
                            0 <= j < k && (#[trigger] all.take(k)[j]).entity == e && is_live(
                                all.take(k)[j],
                            );
                        assert(all.take(k + 1)[j] == all.take(k)[j]);
                    }
                    if live_in(all.take(k + 1), e) && e != entity {
                        let j = choose|j: int|
                            0 <= j < k + 1 && (#[trigger] all.take(k + 1)[j]).entity == e
                                && is_live(all.take(k + 1)[j]);
                        assert(j != k);
                        assert(all.take(k)[j] == all.take(k + 1)[j]);
                    }
                    if e == entity {
                        assert(all.take(k + 1)[k] == all[k]);
                    }
                }
                assert forall|e: u64|
                    start.contains_key(e) && !live_in(all.take(k + 1), e) implies #[trigger] cache@[e]
                        == start[e] by {
                    if e == entity {
                        assert(all.take(k + 1)[k] == all[k]);
                    }
                    if live_in(all.take(k), e) {
                        let j = choose|j: int|
                            0 <= j < k && (#[trigger] all.take(k)[j]).entity == e && is_live(
                                all.take(k)[j],
                            );
                        assert(all.take(k + 1)[j] == all.take(k)[j]);
                    }
                }
                assert(!live_in(all.take(k), entity)) by {
                    if live_in(all.take(k), entity) {
                        let j = choose|j: int|
                            0 <= j < k && (#[trigger] all.take(k)[j]).entity == entity
                                && is_live(all.take(k)[j]);
                        assert(all.take(k)[j] == all[j]);
                        assert(all[j].entity != all[k].entity);
                    }
                }
                assert(before.contains_key(entity) == start.contains_key(entity));
                assert(start.contains_key(entity) ==> before[entity] == start[entity]);
                assert(material_index == (all[k].material_id.0 * mstride) as u32);
                assert(transform_index == (transform_slot(all, k) * tstride) as u32);
                assert forall|i: int|
                    0 <= i < k + 1 && is_live(#[trigger] all[i]) implies upserted(
                        if start.contains_key(all[i].entity) {
                            Some(start[all[i].entity])
                        } else {
                            None
                        },
                        cache@[all[i].entity],
                        all[i].instances@,
                        all[i].changed,
                        all[i].position,
                        visibility(all[i]),
                        (all[i].material_id.0 * mstride) as u32,
                        (transform_slot(all, i) * tstride) as u32,
                    ) by {
                    if i < k {
                        assert(all[i].entity != all[k].entity);
                        assert(all.take(k)[i] == all[i]);
                        assert(live_in(all.take(k), all[i].entity));
                        assert(before.contains_key(all[i].entity));
                    }
                }
            }
        } else {
            proof {
                assert forall|e: u64| live_in(all.take(k + 1), e) == live_in(
                    all.take(k),
                    e,
                ) by {
                    if live_in(all.take(k + 1), e) {
                        let j = choose|j: int|
                            0 <= j < k + 1 && (#[trigger] all.take(k + 1)[j]).entity == e
                                && is_live(all.take(k + 1)[j]);
                        assert(j != k);
                        assert(all.take(k)[j] == all.take(k + 1)[j]);
                    }
                    if live_in(all.take(k), e) {
                        let j = choose|j: int|
                            0 <= j < k && (#[trigger] all.take(k)[j]).entity == e && is_live(
                                all.take(k)[j],
                            );
                        assert(all.take(k + 1)[j] == all.take(k)[j]);
                    }
                }
            }
        }
        proof {
            k = k + 1;
        }
    }
    let ghost staged = cache@;
    cache.cull_entities();
    proof {
        assert(all.take(k) =~= all);
        assert forall|e: u64| #[trigger] cache@.contains_key(e) <==> live_in(all, e) by {
            if live_in(all, e) {
                let i = choose|i: int| 0 <= i < all.len() && (#[trigger] all[i]).entity == e && is_live(all[i]);
                assert(staged[all[i].entity].keep_alive);
            }
        }
        assert forall|i: int| 0 <= i < all.len() && is_live(#[trigger] all[i]) implies cache@[all[i].entity].with_keep_alive(true)
            == staged[all[i].entity] by {
            assert(staged[all[i].entity].keep_alive);
            assert(cache@[all[i].entity].with_keep_alive(true) == staged[all[i].entity]);
        }
    }
    Ok(())
}

/// Cache liveness over a run of frames: after each frame's sweep, an entity
/// has an entry exactly when it had instances in that frame. So an entity
/// with instances in every frame keeps its entry throughout, and one whose
/// instances are empty, or that is gone, in some frame has none after it.
pub proof fn lemma_cache_liveness<T>(
    caches: Seq<Map<u64, BufferCacheEntry>>,
    frames: Seq<Seq<ExtractedCuboids<T>>>,
    material_strides: Seq<u32>,
    transform_strides: Seq<u32>,
    e: u64,
)
    requires
        caches.len() == frames.len() + 1,
        material_strides.len() == frames.len(),
        transform_strides.len() == frames.len(),
        forall|f: int|
            0 <= f < frames.len() ==> extracted(
                caches[f],
                #[trigger] frames[f],
                material_strides[f],
                transform_strides[f],
                caches[f + 1],
            ),
    ensures
        forall|f: int| 0 <= f < frames.len() ==> (caches[f + 1].contains_key(e) <==> live_in(#[trigger] frames[f], e)),
        (forall|f: int| 0 <= f < frames.len() ==> live_in(#[trigger] frames[f], e)) ==> forall|f: int|
            1 <= f < caches.len() ==> #[trigger] caches[f].contains_key(e),
{
    assert forall|f: int| 0 <= f < frames.len() implies (caches[f + 1].contains_key(e) <==> live_in(#[trigger] frames[f], e)) by {
        assert(extracted(caches[f], frames[f], material_strides[f], transform_strides[f], caches[f + 1]));
    }
    if forall|f: int| 0 <= f < frames.len() ==> live_in(#[trigger] frames[f], e) {
        assert forall|f: int| 1 <= f < caches.len() implies #[trigger] caches[f].contains_key(e) by {
            assert(live_in(frames[f - 1], e));
            assert(extracted(caches[f - 1], frames[f - 1], material_strides[f - 1], transform_strides[f - 1], caches[f]));
        }
    }
}

/// A draw queued for a view; its depth key comes from `position`.
#[derive(Clone, Copy, Debug)]
pub struct QueuedCuboids {
    pub entity: u64,
    /// The bits of the entry's world position, as three `f32`.
    pub position: [u32; 3],
}

/// The draws queued for a view that shows `visible`, in that order: one for
/// each entity that has an entry and is enabled.
pub open spec fn queued(cache: Map<u64, BufferCacheEntry>, visible: Seq<u64>) -> Seq<QueuedCuboids>
    decreases visible.len(),
{
    if visible.len() == 0 {
        Seq::empty()
    } else {
        let rest = queued(cache, visible.drop_last());
        let e = visible.last();
        if cache.contains_key(e) && cache[e].enabled {
            rest.push(QueuedCuboids { entity: e, position: cache[e].position })
        } else {
            rest
        }
    }
}

/// Queues the cached, enabled entities among a view's `visible_entities`.
/// Entities without an entry are skipped.
pub fn queue_cuboids(cache: &BufferCache, visible_entities: &Vec<u64>) -> (r: Vec<QueuedCuboids>)
    ensures
        r@ == queued(cache@, visible_entities@),
{
    let mut out: Vec<QueuedCuboids> = Vec::new();
    let mut i: usize = 0;
    assert(visible_entities@.take(0) =~= Seq::<u64>::empty());
    while i < visible_entities.len()
        invariant
            i <= visible_entities@.len(),
            out@ == queued(cache@, visible_entities@.take(i as int)),
        decreases visible_entities@.len() - i,
    {
        let e = visible_entities[i];
        proof {
            assert(visible_entities@.take(i as int + 1).drop_last() =~= visible_entities@.take(
                i as int,
            ));
        }
        match cache.get(e) {
            Some(entry) => {
                if entry.enabled {
                    out.push(QueuedCuboids { entity: e, position: entry.position });
                }
            },
            None => {},
        }
        i = i + 1;
    }
    assert(visible_entities@.take(i as int) =~= visible_entities@);
    out
}

/// What one draw binds and issues.
#[derive(Clone, Copy, Debug, PartialEq, Eq)]
pub struct DrawCuboids {
    /// The bind group of the entity's instance buffer.
    pub instance_bind_group: u64,
    /// Dynamic offset into the material uniforms.
    pub material_offset: u32,
    /// Dynamic offset into the transform uniforms.
    pub transform_offset: u32,
    /// Indices to draw from the shared index buffer: 18 per cuboid.
    pub index_count: u32,
}

/// Builds the draw of `entity`'s entry. `None`, and nothing is drawn, when it
/// has no entry, when its data is not uploaded yet, or when the index buffer
/// is too small for it.
pub fn draw_cuboids(cache: &BufferCache, index_buffer: &CuboidsIndexBuffer, entity: u64) -> (r:
    Option<DrawCuboids>)
    requires
        cache.wf(),
        index_buffer.wf(),
    ensures
        r is Some <==> (cache@.contains_key(entity) && cache@[entity].buffers.bind_group is Some
            && cache@[entity].buffers.instances@.len() <= index_buffer.spec_capacity()),
        r matches Some(d) ==> {
            let e = cache@[entity];
            &&& e.buffers.bind_group == Some(d.instance_bind_group)
            &&& !e.dirty
            &&& e.bound@ == e.buffers.instances@
            &&& d.material_offset == e.buffers.material_index
            &&& d.transform_offset == e.buffers.transform_index
            &&& d.index_count == 18 * e.buffers.instances@.len()
        },
{
    match cache.get(entity) {
        None => None,
        Some(entry) => match entry.buffers.bind_group {
            None => None,
            Some(bind_group) => {
                let n = entry.buffers.instances.len();
                if n > index_buffer.capacity() {
                    None
                } else {
                    assert(n <= MAX_INDEXED_CUBOIDS);
                    Some(
                        DrawCuboids {
                            instance_bind_group: bind_group,
                            material_offset: entry.buffers.material_index,
                            transform_offset: entry.buffers.transform_index,
                            index_count: (n * NUM_CUBE_INDICES) as u32,
                        },
                    )
                }
            },
        },
    }
}

/// Grows the index buffer to the largest entry, up to
/// [`MAX_INDEXED_CUBOIDS`]. Returns whether it grew, in which case it must be
/// uploaded again.
pub fn prepare_index_buffer(cache: &BufferCache, index_buffer: &mut CuboidsIndexBuffer) -> (grew:
    bool)
    requires
        old(index_buffer).wf(),
    ensures
        final(index_buffer).wf(),
        exists|most: nat|
            is_max_num_cuboids(cache@, most) && final(index_buffer).spec_capacity() == grown_capacity(
                old(index_buffer).spec_capacity(),
                if most > MAX_INDEXED_CUBOIDS {
                    MAX_INDEXED_CUBOIDS as nat
                } else {
                    most
                },
            ),
        grew == (final(index_buffer).spec_capacity() > old(index_buffer).spec_capacity()),
{
    let most = cache.max_num_cuboids();
    let wanted = if most > MAX_INDEXED_CUBOIDS {
        MAX_INDEXED_CUBOIDS
    } else {
        most
    };
    index_buffer.ensure_capacity(wanted)
}

} // verus!
