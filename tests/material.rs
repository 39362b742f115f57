use bevy_aabb_instancing::material::COLOR_MODE_SCALAR_HUE;
use bevy_aabb_instancing::{
    CuboidMaterial, CuboidMaterialId, CuboidMaterialMap, DynamicUniformArray, ScalarHueOptions,
};

#[test]
fn default_material_values() {
    let m = CuboidMaterial::default();
    assert_eq!(m.color_mode, 0);
    assert_eq!(m.wireframe, 0);
    assert_eq!(f32::from_bits(m.emissive_gain[0]), 30.0);
    let s = ScalarHueOptions::default();
    assert_eq!(f32::from_bits(s.min_visible), 0.0);
    assert_eq!(f32::from_bits(s.max_visible), 1000.0);
    assert_eq!(f32::from_bits(s.clamp_max), 1000.0);
    assert_eq!(f32::from_bits(s.hue_zero), 240.0);
    assert_eq!(f32::from_bits(s.hue_slope), -300.0);
    assert_eq!(f32::from_bits(s.lightness), 0.5);
    assert_eq!(f32::from_bits(s.saturation), 1.0);
}

#[test]
fn default_map_holds_id_zero() {
    let map = CuboidMaterialMap::default();
    assert_eq!(map.len(), 1);
    assert!(!map.is_empty());
    assert_eq!(map.get(CuboidMaterialId(0)).color_mode, 0);
}

#[test]
fn push_returns_consecutive_ids_and_get_mut_edits_in_place() {
    let mut map = CuboidMaterialMap::default();
    let mut scalar = CuboidMaterial::default();
    scalar.color_mode = COLOR_MODE_SCALAR_HUE;
    let id1 = map.push(scalar);
    let id2 = map.push(CuboidMaterial::default());
    assert_eq!(id1, CuboidMaterialId(1));
    assert_eq!(id2, CuboidMaterialId(2));
    assert_eq!(map.get(id1).color_mode, COLOR_MODE_SCALAR_HUE);
    map.get_mut(id2).wireframe = 1;
    assert_eq!(map.get(id2).wireframe, 1);
    assert_eq!(map.get(id1).wireframe, 0);
}

#[test]
fn clear_empties_the_table() {
    let mut map = CuboidMaterialMap::default();
    map.clear();
    assert!(map.is_empty());
    assert_eq!(map.len(), 0);
}

#[test]
fn write_uniforms_gives_offsets_in_push_order() {
    let mut map = CuboidMaterialMap::default();
    for i in 0..4u32 {
        let mut m = CuboidMaterial::default();
        m.wireframe = i + 10;
        map.push(m);
    }
    let mut uniforms = DynamicUniformArray::new(256);
    uniforms.push(CuboidMaterial::default());
    let offsets = map.write_uniforms(&mut uniforms);
    assert_eq!(offsets, vec![0, 256, 512, 768, 1024]);
    assert_eq!(uniforms.len(), 5);
    for i in 1..5 {
        assert_eq!(uniforms.values()[i].wireframe, i as u32 + 9);
    }
    // The table itself is unchanged by the write.
    for i in 1..5usize {
        assert_eq!(map.get(CuboidMaterialId(i)).wireframe, i as u32 + 9);
    }
    let again = map.write_uniforms(&mut uniforms);
    assert_eq!(again, offsets);
    assert_eq!(uniforms.len(), 5);
}

#[test]
fn uniform_array_push_and_clear() {
    let mut u: DynamicUniformArray<u8> = DynamicUniformArray::new(64);
    assert!(u.is_empty());
    assert_eq!(u.push(1), 0);
    assert_eq!(u.push(2), 64);
    assert_eq!(u.push(3), 128);
    assert_eq!(u.stride(), 64);
    u.clear();
    assert!(u.is_empty());
    assert_eq!(u.push(9), 0);
}
