//! Render many axis-aligned boxes with a vertex pulling, instanced renderer.
//!
//! This crate holds the renderer's bookkeeping: the cuboid record and its
//! byte layout, the material registry and its uniform table, the bounded
//! clipping-plane aggregation, the per-entity instance buffer cache with its
//! mark-and-sweep eviction, the shared index buffer, and the per-frame
//! extract, prepare, queue and draw decisions. Floating-point values (corner
//! coordinates, material parameters, plane ranges) are carried as their
//! IEEE-754 bit patterns: the library moves them to the GPU unchanged and
//! never computes with them.

pub mod bytes;
pub mod cuboids;
pub mod material;
pub mod uniforms;
pub mod cache;
pub mod index_buffer;
pub mod clipping_planes;
pub mod frame;

pub use cache::{BufferCache, BufferCacheEntry, CuboidBufferCache, GpuCuboidBuffers};
pub use clipping_planes::{
    extract_clipping_planes, ClippingPlaneRange, ExtractedClippingPlanes, GpuClippingPlaneRange,
    GpuClippingPlaneRanges, MAX_CLIPPING_PLANES,
};
pub use cuboids::{Cuboid, Cuboids};
pub use frame::{
    draw_cuboids, extract_cuboids, prepare_index_buffer, queue_cuboids, DrawCuboids,
    ExtractError, ExtractedCuboids, QueuedCuboids,
};
pub use index_buffer::CuboidsIndexBuffer;
pub use material::{
    ColorOptions, ColorOptionsId, ColorOptionsMap, CuboidMaterial, CuboidMaterialId,
    CuboidMaterialMap, ScalarHueColorOptions, ScalarHueOptions,
};
pub use uniforms::DynamicUniformArray;
