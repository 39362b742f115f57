//! The material registry: shading options shared by every entity that
//! names them, synced to a dynamic uniform array once per frame.

use vstd::prelude::*;

use crate::uniforms::{offsets_fit, uniform_offsets, DynamicUniformArray};

verus! {

/// Selects how a cuboid's `color` word is read by the shader.
pub type ColorMode = u32;

/// "Manual" coloring: `color` holds RGBA.
pub const COLOR_MODE_RGB: ColorMode = 0;

/// "Automatic" coloring: `color` holds the bits of an `f32` scalar, mapped to
/// a hue by [`ScalarHueOptions`].
pub const COLOR_MODE_SCALAR_HUE: ColorMode = 1;

/// Bits of `0.0f32`.
pub const F32_ZERO: u32 = 0x0000_0000;
/// Bits of `0.5f32`.
pub const F32_HALF: u32 = 0x3f00_0000;
/// Bits of `1.0f32`.
pub const F32_ONE: u32 = 0x3f80_0000;
/// Bits of `30.0f32`.
pub const F32_THIRTY: u32 = 0x41f0_0000;
/// Bits of `240.0f32`.
pub const F32_240: u32 = 0x4370_0000;
/// Bits of `-300.0f32`.
pub const F32_MINUS_300: u32 = 0xc396_0000;
/// Bits of `1000.0f32`.
pub const F32_1000: u32 = 0x447a_0000;

/// Denotes which [`CuboidMaterial`] to use when rendering cuboids. When a
/// material is modified, all entities naming its id are affected.
#[derive(Clone, Copy, Debug, PartialEq, Eq, Hash)]
pub struct CuboidMaterialId(pub usize);

/// Controls for coloring scalar values held in `cuboid.color`. Every field
/// holds the bits of an `f32`.
///
/// The hue is `(360 + hue_zero + s * hue_slope) % 360`, where `s` is the
/// scalar clamped to `[clamp_min, clamp_max]` and scaled to `[0, 1]`.
#[derive(Clone, Copy, Debug)]
pub struct ScalarHueOptions {
    /// Cuboids with a scalar below this are clipped.
    pub min_visible: u32,
    /// Cuboids with a scalar above this are clipped.
    pub max_visible: u32,
    pub clamp_min: u32,
    pub clamp_max: u32,
    pub hue_zero: u32,
    pub hue_slope: u32,
    pub lightness: u32,
    pub saturation: u32,
}

impl ScalarHueOptions {
    /// Visible range `[0, 1000]`, clamped to `[0, 1000]`, hue from 240
    /// with slope -300, lightness 0.5, saturation 1.
    pub fn default() -> (r: ScalarHueOptions)
        ensures
            r.min_visible == F32_ZERO,
            r.max_visible == F32_1000,
            r.clamp_min == F32_ZERO,
            r.clamp_max == F32_1000,
            r.hue_zero == F32_240,
            r.hue_slope == F32_MINUS_300,
            r.lightness == F32_HALF,
            r.saturation == F32_ONE,
    {
        ScalarHueOptions {
            min_visible: F32_ZERO,
            max_visible: F32_1000,
            clamp_min: F32_ZERO,
            clamp_max: F32_1000,
            hue_zero: F32_240,
            hue_slope: F32_MINUS_300,
            lightness: F32_HALF,
            saturation: F32_ONE,
        }
    }
}

/// Shading options, constant for each draw call.
#[derive(Clone, Copy, Debug)]
pub struct CuboidMaterial {
    pub color_mode: ColorMode,
    /// Nonzero: only cuboid edges are shaded.
    pub wireframe: u32,
    pub scalar_hue: ScalarHueOptions,
    /// The bits of the `f32` factors that multiply an emissive cuboid's color.
    pub emissive_gain: [u32; 3],
}

impl CuboidMaterial {
    /// RGB mode, no wireframe, default scalar options, emissive gain 30.
    pub fn default() -> (r: CuboidMaterial)
        ensures
            r.color_mode == COLOR_MODE_RGB,
            r.wireframe == 0,
            r.scalar_hue.max_visible == F32_1000,
            r.scalar_hue.hue_zero == F32_240,
            r.emissive_gain@ == seq![F32_THIRTY, F32_THIRTY, F32_THIRTY],
    {
        let r = CuboidMaterial {
            color_mode: COLOR_MODE_RGB,
            wireframe: 0,
            scalar_hue: ScalarHueOptions::default(),
            emissive_gain: [F32_THIRTY, F32_THIRTY, F32_THIRTY],
        };
        assert(r.emissive_gain@ =~= seq![F32_THIRTY, F32_THIRTY, F32_THIRTY]);
        r
    }
}

/// An append-only table of materials, indexed by [`CuboidMaterialId`].
#[derive(Clone, Debug)]
pub struct CuboidMaterialMap {
    materials: Vec<CuboidMaterial>,
}

impl View for CuboidMaterialMap {
    type V = Seq<CuboidMaterial>;

    closed spec fn view(&self) -> Seq<CuboidMaterial> {
        self.materials@
    }
}

impl CuboidMaterialMap {
    /// A table holding one default material, under id 0.
    pub fn default() -> (r: CuboidMaterialMap)
        ensures
            r@.len() == 1,
            r@[0].color_mode == COLOR_MODE_RGB,
            r@[0].wireframe == 0,
    {
        let mut materials: Vec<CuboidMaterial> = Vec::new();
        materials.push(CuboidMaterial::default());
        CuboidMaterialMap { materials }
    }

    pub fn len(&self) -> (r: usize)
        ensures
            r == self@.len(),
    {
        self.materials.len()
    }

    pub fn is_empty(&self) -> (r: bool)
        ensures
            r == (self@.len() == 0),
    {
        self.materials.len() == 0
    }

    /// Removes every material; ids handed out before are no longer valid.
    pub fn clear(&mut self)
        ensures
            final(self)@ == Seq::<CuboidMaterial>::empty(),
    {
        self.materials.clear();
    }

    pub fn get(&self, id: CuboidMaterialId) -> (r: &CuboidMaterial)
        requires
            id.0 < self@.len(),
        ensures
            *r == self@[id.0 as int],
    {
        &self.materials[id.0]
    }

    pub fn get_mut(&mut self, id: CuboidMaterialId) -> (r: &mut CuboidMaterial)
        requires
            id.0 < old(self)@.len(),
        ensures
            *r == old(self)@[id.0 as int],
            final(self)@ == old(self)@.update(id.0 as int, *final(r)),
    {
        &mut self.materials[id.0]
    }

    /// Appends `material`; its id is the table's length before the call.
    pub fn push(&mut self, material: CuboidMaterial) -> (id: CuboidMaterialId)
        ensures
            final(self)@ == old(self)@.push(material),
            id.0 == old(self)@.len(),
    {
        let id = CuboidMaterialId(self.materials.len());
        self.materials.push(material);
        id
    }

    /// Rebuilds `uniforms` from the whole table, in table order, and returns
    /// the byte offset of each material, indexed by id.
    pub fn write_uniforms(&self, uniforms: &mut DynamicUniformArray<CuboidMaterial>) -> (offsets:
        Vec<u32>)
        requires
            offsets_fit(self@.len(), old(uniforms).spec_stride()),
        ensures
            final(uniforms).spec_values() == self@,
            final(uniforms).spec_stride() == old(uniforms).spec_stride(),
            offsets@.len() == self@.len(),
            forall|i: int|
                0 <= i < offsets@.len() ==> offsets@[i] == uniform_offsets(
                    self@.len(),
                    old(uniforms).spec_stride(),
                )[i],
    {
        uniforms.clear();
        let mut offsets: Vec<u32> = Vec::new();
        let n = self.materials.len();
        let mut i: usize = 0;
        while i < n
            invariant
                n == self@.len(),
                i <= n,
                offsets_fit(n as nat, old(uniforms).spec_stride()),
                uniforms.spec_stride() == old(uniforms).spec_stride(),
                uniforms.spec_values() == self@.take(i as int),
                offsets@.len() == i,
                forall|j: int| 0 <= j < i ==> offsets@[j] == j * old(uniforms).spec_stride(),
            decreases n - i,
        {
            proof {
                let s = uniforms.spec_stride() as int;
                assert((i as int + 1) * s <= (n as int) * s) by (nonlinear_arith)
                    requires
                        i < n,
                        s >= 0,
                ;
            }
            let offset = uniforms.push(self.materials[i]);
            offsets.push(offset);
            assert(self@.take(i as int).push(self@[i as int]) =~= self@.take(i as int + 1));
            i = i + 1;
        }
        assert(self@.take(n as int) =~= self@);
        offsets
    }
}

/// Another name for [`CuboidMaterialMap`].
pub type ColorOptionsMap = CuboidMaterialMap;

/// Another name for [`CuboidMaterialId`].
pub type ColorOptionsId = CuboidMaterialId;

/// Another name for [`CuboidMaterial`].
pub type ColorOptions = CuboidMaterial;

/// Another name for [`ScalarHueOptions`].
pub type ScalarHueColorOptions = ScalarHueOptions;

} // verus!
