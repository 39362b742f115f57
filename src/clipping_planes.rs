//! Aggregation of the frame's clipping planes into one bounded GPU record.

use vstd::prelude::*;

verus! {

/// The clipping shader costs `O(planes * cuboids)`, so planes are capped.
pub const MAX_CLIPPING_PLANES: usize = 16;

/// Bits of `f32::INFINITY`.
pub const F32_INFINITY: u32 = 0x7f80_0000;

/// The range of signed distances from a plane that is not clipped. Both
/// bounds hold the bits of an `f32`.
#[derive(Clone, Copy, Debug)]
pub struct ClippingPlaneRange {
    /// The minimum signed distance from a visible cuboid's centroid to the plane.
    pub min_sdist: u32,
    /// The maximum signed distance from a visible cuboid's centroid to the plane.
    pub max_sdist: u32,
}

impl ClippingPlaneRange {
    /// From distance 0 to infinity: everything in front of the plane.
    pub fn default() -> (r: ClippingPlaneRange)
        ensures
            r.min_sdist == 0,
            r.max_sdist == F32_INFINITY,
    {
        ClippingPlaneRange { min_sdist: 0, max_sdist: F32_INFINITY }
    }
}

/// One plane as the shader reads it: the bits of its origin, unit normal and
/// range, all `f32`.
#[derive(Clone, Copy, Debug)]
pub struct GpuClippingPlaneRange {
    pub origin: [u32; 3],
    pub unit_normal: [u32; 3],
    pub min_sdist: u32,
    pub max_sdist: u32,
}

impl GpuClippingPlaneRange {
    /// The plane through `origin` with normal `unit_normal`, both taken from
    /// the plane entity's world transform, keeping `range`.
    pub fn new(range: &ClippingPlaneRange, origin: [u32; 3], unit_normal: [u32; 3]) -> (r:
        GpuClippingPlaneRange)
        ensures
            r.origin == origin,
            r.unit_normal == unit_normal,
            r.min_sdist == range.min_sdist,
            r.max_sdist == range.max_sdist,
    {
        GpuClippingPlaneRange {
            origin,
            unit_normal,
            min_sdist: range.min_sdist,
            max_sdist: range.max_sdist,
        }
    }

    /// The all-zero record that fills unused slots.
    pub open spec fn spec_zero() -> GpuClippingPlaneRange {
        GpuClippingPlaneRange {
            origin: [0u32, 0u32, 0u32],
            unit_normal: [0u32, 0u32, 0u32],
            min_sdist: 0,
            max_sdist: 0,
        }
    }

    pub fn zero() -> (r: GpuClippingPlaneRange)
        ensures
            r == GpuClippingPlaneRange::spec_zero(),
    {
        GpuClippingPlaneRange {
            origin: [0u32, 0u32, 0u32],
            unit_normal: [0u32, 0u32, 0u32],
            min_sdist: 0,
            max_sdist: 0,
        }
    }
}

/// The frame's planes: the first `num_ranges` slots are used.
#[derive(Clone, Copy, Debug)]
pub struct GpuClippingPlaneRanges {
    pub ranges: [GpuClippingPlaneRange; MAX_CLIPPING_PLANES],
    pub num_ranges: u32,
}

/// The aggregated planes and whether any plane was dropped for want of room.
#[derive(Clone, Copy, Debug)]
pub struct ExtractedClippingPlanes {
    pub planes: GpuClippingPlaneRanges,
    /// Some planes were left out; this warrants one warning for the frame.
    pub overflowed: bool,
}

/// Collects the frame's planes in the order given, keeping the first
/// [`MAX_CLIPPING_PLANES`] and dropping the rest. Unused slots are zero.
pub fn extract_clipping_planes(planes: &Vec<GpuClippingPlaneRange>) -> (r: ExtractedClippingPlanes)
    ensures
        r.planes.num_ranges == if planes@.len() < MAX_CLIPPING_PLANES {
            planes@.len()
        } else {
            MAX_CLIPPING_PLANES as nat
        },
        forall|i: int| 0 <= i < r.planes.num_ranges ==> r.planes.ranges@[i] == planes@[i],
        forall|i: int|
            r.planes.num_ranges <= i < MAX_CLIPPING_PLANES ==> r.planes.ranges@[i]
                == GpuClippingPlaneRange::spec_zero(),
        r.overflowed == (planes@.len() > MAX_CLIPPING_PLANES),
{
    let mut out = GpuClippingPlaneRanges {
        ranges: [GpuClippingPlaneRange::zero(); MAX_CLIPPING_PLANES],
        num_ranges: 0,
    };
    let mut i: usize = 0;
    while i < planes.len() && i < MAX_CLIPPING_PLANES
        invariant
            i <= planes@.len(),
            i <= MAX_CLIPPING_PLANES,
            out.num_ranges == i,
            forall|j: int| 0 <= j < i ==> out.ranges@[j] == planes@[j],
            forall|j: int|
                i <= j < MAX_CLIPPING_PLANES ==> out.ranges@[j] == GpuClippingPlaneRange::spec_zero(),
        decreases MAX_CLIPPING_PLANES - i,
    {
        out.ranges[i] = planes[i];
        out.num_ranges = out.num_ranges + 1;
        i = i + 1;
    }
    ExtractedClippingPlanes { planes: out, overflowed: planes.len() > MAX_CLIPPING_PLANES }
}

} // verus!
