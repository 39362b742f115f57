use bevy_aabb_instancing::{
    draw_cuboids, extract_cuboids, prepare_index_buffer, queue_cuboids, BufferCache, Cuboid,
    CuboidMaterial, CuboidMaterialId, CuboidMaterialMap, CuboidsIndexBuffer, DynamicUniformArray,
    ExtractError, ExtractedCuboids,
};

/// The renderer's per-frame state, as a host keeps it.
struct World {
    cache: BufferCache,
    materials: CuboidMaterialMap,
    material_uniforms: DynamicUniformArray<CuboidMaterial>,
    transform_uniforms: DynamicUniformArray<u64>,
    index_buffer: CuboidsIndexBuffer,
    uploads: usize,
    next_bind_group: u64,
}

impl World {
    fn new() -> World {
        World {
            cache: BufferCache::new(),
            materials: CuboidMaterialMap::default(),
            material_uniforms: DynamicUniformArray::new(256),
            transform_uniforms: DynamicUniformArray::new(256),
            index_buffer: CuboidsIndexBuffer::new(),
            uploads: 0,
            next_bind_group: 100,
        }
    }

    fn extract(&mut self, items: Vec<ExtractedCuboids<u64>>) -> Result<(), ExtractError> {
        extract_cuboids(
            items,
            &self.materials,
            &mut self.material_uniforms,
            &mut self.transform_uniforms,
            &mut self.cache,
        )
    }

    fn prepare(&mut self) {
        for e in self.cache.dirty_entities() {
            let bytes = self.cache.get(e).unwrap().instance_bytes();
            assert_eq!(bytes.len(), 32 * self.cache.get(e).unwrap().num_cuboids());
            self.uploads += 1;
            self.next_bind_group += 1;
            assert!(self.cache.complete_upload(e, self.next_bind_group));
        }
        prepare_index_buffer(&self.cache, &mut self.index_buffer);
    }

    fn frame(&mut self, items: Vec<ExtractedCuboids<u64>>) {
        self.extract(items).unwrap();
        self.prepare();
    }
}

fn cuboids(n: usize) -> Vec<Cuboid> {
    (0..n as u32).map(|i| Cuboid::new([i, i, i], [i + 1, i + 1, i + 1], i)).collect()
}

fn item(entity: u64, n: usize, changed: bool, transform: u64) -> ExtractedCuboids<u64> {
    ExtractedCuboids {
        entity,
        instances: cuboids(n),
        changed,
        visible: None,
        material_id: CuboidMaterialId(0),
        position: [1.0f32.to_bits(), 2.0f32.to_bits(), 3.0f32.to_bits()],
        transform,
    }
}

#[test]
fn entity_with_100_cuboids_gets_one_clean_enabled_entry() {
    let mut w = World::new();
    w.frame(vec![item(7, 100, true, 1)]);
    assert_eq!(w.cache.entities(), vec![7]);
    let e = w.cache.get(7).unwrap();
    assert!(e.is_enabled());
    assert!(!e.is_dirty());
    assert!(!e.is_kept_alive());
    assert_eq!(e.num_cuboids(), 100);
    assert_eq!(e.buffers().instances.len(), 100);
    assert_eq!(e.buffers().bind_group, Some(101));
    assert_eq!(e.position(), [1.0f32.to_bits(), 2.0f32.to_bits(), 3.0f32.to_bits()]);
    assert_eq!(w.uploads, 1);
    assert_eq!(w.index_buffer.capacity(), 100);
}

#[test]
fn entity_emptied_on_frame_two_is_evicted() {
    let mut w = World::new();
    w.frame(vec![item(7, 3, true, 1)]);
    assert!(w.cache.contains(7));
    w.frame(vec![item(7, 0, true, 1)]);
    assert!(!w.cache.contains(7));
    assert!(w.cache.get(7).is_none());
}

#[test]
fn entity_gone_on_frame_two_is_evicted_and_others_stay() {
    let mut w = World::new();
    w.frame(vec![item(1, 2, true, 1), item(2, 2, true, 2)]);
    w.frame(vec![item(2, 2, false, 2)]);
    assert!(!w.cache.contains(1));
    assert!(w.cache.contains(2));
    for _ in 0..3 {
        w.frame(vec![item(2, 2, false, 2)]);
        assert!(w.cache.contains(2));
    }
}

#[test]
fn unchanged_data_is_not_uploaded_again_but_transform_is_refreshed() {
    let mut w = World::new();
    w.frame(vec![item(9, 1, true, 50), item(7, 4, true, 60)]);
    assert_eq!(w.uploads, 2);
    assert_eq!(w.cache.get(7).unwrap().buffers().transform_index, 256);
    let bound = w.cache.get(7).unwrap().buffers().bind_group;
    assert!(bound.is_some());
    w.extract(vec![item(7, 4, false, 61)]).unwrap();
    assert!(w.cache.dirty_entities().is_empty());
    w.prepare();
    assert_eq!(w.uploads, 2);
    let e = w.cache.get(7).unwrap();
    assert_eq!(e.buffers().transform_index, 0);
    assert_eq!(w.transform_uniforms.values(), &vec![61]);
    assert_eq!(e.buffers().bind_group, bound);
}

#[test]
fn changed_data_replaces_the_buffer_and_needs_upload() {
    let mut w = World::new();
    w.frame(vec![item(7, 4, true, 1)]);
    w.extract(vec![item(7, 6, true, 1)]).unwrap();
    let e = w.cache.get(7).unwrap();
    assert!(e.is_dirty());
    assert_eq!(e.buffers().bind_group, None);
    assert_eq!(e.num_cuboids(), 6);
    assert_eq!(draw_cuboids(&w.cache, &w.index_buffer, 7), None);
    w.prepare();
    assert_eq!(w.uploads, 2);
    assert!(!w.cache.get(7).unwrap().is_dirty());
}

#[test]
fn unchanged_flag_on_a_new_entity_still_stages_its_data() {
    let mut w = World::new();
    w.extract(vec![item(5, 2, false, 1)]).unwrap();
    let e = w.cache.get(5).unwrap();
    assert!(e.is_dirty());
    assert_eq!(e.num_cuboids(), 2);
}

#[test]
fn pending_upload_survives_an_unchanged_frame() {
    let mut w = World::new();
    w.extract(vec![item(5, 2, true, 1)]).unwrap();
    w.extract(vec![item(5, 2, false, 1)]).unwrap();
    assert_eq!(w.cache.dirty_entities(), vec![5]);
}

#[test]
fn empty_material_table_is_refused() {
    let mut w = World::new();
    w.frame(vec![item(1, 1, true, 1)]);
    w.materials.clear();
    let r = w.extract(vec![item(1, 1, false, 1)]);
    assert_eq!(r, Err(ExtractError::EmptyMaterialMap));
    assert!(w.transform_uniforms.is_empty());
    assert!(w.cache.contains(1));
    assert_eq!(w.material_uniforms.len(), 1);
}

#[test]
fn missing_material_is_refused_before_any_change() {
    let mut w = World::new();
    let mut bad = item(4, 1, true, 1);
    bad.material_id = CuboidMaterialId(3);
    let mut fine_but_empty = item(5, 0, true, 1);
    fine_but_empty.material_id = CuboidMaterialId(8);
    let r = w.extract(vec![fine_but_empty, item(2, 1, true, 1), bad]);
    assert_eq!(r, Err(ExtractError::MaterialOutOfRange(4)));
    assert!(w.cache.entities().is_empty());
    assert!(w.material_uniforms.is_empty());
}

#[test]
fn material_offsets_follow_material_ids() {
    let mut w = World::new();
    w.materials.push(CuboidMaterial::default());
    w.materials.push(CuboidMaterial::default());
    let mut a = item(1, 1, true, 1);
    a.material_id = CuboidMaterialId(2);
    w.frame(vec![a, item(2, 1, true, 2)]);
    assert_eq!(w.cache.get(1).unwrap().buffers().material_index, 512);
    assert_eq!(w.cache.get(2).unwrap().buffers().material_index, 0);
    assert_eq!(w.material_uniforms.len(), 3);
}

#[test]
fn transforms_are_pushed_for_entities_with_instances_only() {
    let mut w = World::new();
    w.frame(vec![item(1, 1, true, 10), item(2, 0, true, 20), item(3, 1, true, 30)]);
    assert_eq!(w.transform_uniforms.values(), &vec![10, 30]);
    assert_eq!(w.cache.get(3).unwrap().buffers().transform_index, 256);
}

#[test]
fn queue_keeps_view_order_and_skips_hidden_and_unknown() {
    let mut w = World::new();
    let mut hidden = item(2, 1, true, 2);
    hidden.visible = Some(false);
    let mut shown = item(3, 1, true, 3);
    shown.visible = Some(true);
    shown.position = [9, 9, 9];
    w.frame(vec![item(1, 1, true, 1), hidden, shown]);
    let q = queue_cuboids(&w.cache, &vec![3, 2, 42, 1]);
    assert_eq!(q.len(), 2);
    assert_eq!(q[0].entity, 3);
    assert_eq!(q[0].position, [9, 9, 9]);
    assert_eq!(q[1].entity, 1);
    assert!(queue_cuboids(&w.cache, &Vec::new()).is_empty());
}

#[test]
fn set_enabled_toggles_queueing_only() {
    let mut w = World::new();
    w.frame(vec![item(1, 1, true, 1)]);
    assert!(w.cache.set_enabled(1, false));
    assert!(queue_cuboids(&w.cache, &vec![1]).is_empty());
    assert!(!w.cache.get(1).unwrap().is_dirty());
    assert!(w.cache.set_enabled(1, true));
    assert_eq!(queue_cuboids(&w.cache, &vec![1]).len(), 1);
    assert!(!w.cache.set_enabled(77, true));
}

#[test]
fn draw_binds_the_entry_and_counts_indices() {
    let mut w = World::new();
    w.frame(vec![item(1, 3, true, 1), item(2, 5, true, 2)]);
    let d = draw_cuboids(&w.cache, &w.index_buffer, 2).unwrap();
    assert_eq!(d.index_count, 90);
    assert_eq!(d.transform_offset, 256);
    assert_eq!(d.material_offset, 0);
    assert_eq!(Some(d.instance_bind_group), w.cache.get(2).unwrap().buffers().bind_group);
    assert_eq!(draw_cuboids(&w.cache, &w.index_buffer, 1).unwrap().index_count, 54);
    assert_eq!(draw_cuboids(&w.cache, &w.index_buffer, 99), None);
}

#[test]
fn draw_is_skipped_while_the_index_buffer_is_too_small() {
    let mut w = World::new();
    w.extract(vec![item(1, 3, true, 1)]).unwrap();
    let e = w.cache.dirty_entities()[0];
    w.cache.complete_upload(e, 5);
    assert_eq!(draw_cuboids(&w.cache, &w.index_buffer, 1), None);
    assert!(prepare_index_buffer(&w.cache, &mut w.index_buffer));
    assert!(draw_cuboids(&w.cache, &w.index_buffer, 1).is_some());
    assert!(!prepare_index_buffer(&w.cache, &mut w.index_buffer));
}

#[test]
fn keep_alive_and_cull_by_hand() {
    let mut w = World::new();
    w.frame(vec![item(1, 1, true, 1), item(2, 1, true, 2)]);
    assert!(w.cache.keep_alive(2));
    assert!(w.cache.get(2).unwrap().is_kept_alive());
    assert!(!w.cache.keep_alive(3));
    w.cache.cull_entities();
    assert_eq!(w.cache.entities(), vec![2]);
    assert!(!w.cache.get(2).unwrap().is_kept_alive());
    w.cache.cull_entities();
    assert!(w.cache.entities().is_empty());
}

#[test]
fn complete_upload_without_entry_is_refused() {
    let mut cache = BufferCache::new();
    assert!(!cache.complete_upload(3, 1));
    assert!(cache.entities().is_empty());
    assert_eq!(cache.max_num_cuboids(), 0);
}

#[test]
fn insert_by_hand_then_refresh() {
    let mut cache = BufferCache::new();
    cache.insert(8, cuboids(2), true, [0, 0, 0], true, 0, 0);
    assert_eq!(cache.max_num_cuboids(), 2);
    cache.complete_upload(8, 1);
    cache.insert(8, cuboids(5), false, [1, 1, 1], false, 256, 512);
    let e = cache.get(8).unwrap();
    assert_eq!(e.num_cuboids(), 2);
    assert!(!e.is_dirty());
    assert!(!e.is_enabled());
    assert_eq!(e.buffers().material_index, 256);
    assert_eq!(e.buffers().transform_index, 512);
    assert_eq!(e.position(), [1, 1, 1]);
}
