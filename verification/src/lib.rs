//! A tile-based rasterizer for anisotropic Gaussian primitives projected
//! from 3D ("Gaussian splatting"), together with its gradient pass.
//!
//! Given a set of Gaussian primitives and a camera, the forward entry point
//! produces a rendered image; given an image-space loss gradient, the
//! backward entry point produces the gradients of that loss with respect to
//! every primitive parameter.  The pipeline runs projection, a global depth
//! sort, a tile-intersection expansion, a prefix-sum allocation, a second
//! sort keyed by tile, per-tile binning, front-to-back alpha compositing,
//! and an exactly mirrored back-to-front gradient pass.
//!
//! All numeric work is done in 32.32 fixed point, so every stage is exact,
//! deterministic and fully specified; the ordering and partition invariants
//! of the pipeline (depth order of the compact list, the bin table
//! partitioning the sorted intersection list, the transmittance recursion
//! of the compositor) are stated as contracts and proved.

pub mod fixed;
pub mod sort;
pub mod scan;
pub mod sh;
pub mod types;
pub mod project;
pub mod tiles;
pub mod raster;
pub mod render;
pub mod backward;
pub mod interface;
