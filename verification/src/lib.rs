//! Windowed, multi-resolution read access to multi-band rasters.
//!
//! A [`Raster`] gathers band groups of different native resolutions over one
//! geographic extent. A [`View`] of it puts the selected bands on one common
//! pixel grid, and reading the view fills a dense buffer in which every band
//! is resampled to that grid by nearest-neighbour block replication.
use vstd::prelude::*;

pub mod band;
pub mod bounds;
pub mod buffer;
pub mod crs_geo;
pub mod errors;
pub mod file;
pub mod geometry;
pub mod indexes;
pub mod intersection;
pub mod memory;
pub mod metadata;
pub mod numeric;
pub mod raster;
pub mod sensors;
mod sharing;
pub mod transforms;
pub mod view;

pub use crate::bounds::{Bounds, ViewBounds};
pub use crate::buffer::Buffer;
pub use crate::crs_geo::CrsGeometry;
pub use crate::indexes::Indexes;
pub use crate::raster::Raster;
pub use crate::view::read::SendSyncView;
pub use crate::view::View;

verus! {

/// The element types that a band can hold: plain numbers with a zero, free
/// to copy and to hand to other threads.
///
/// The integer types of up to 64 bits are element types. A type of the
/// caller's becomes one by giving its zero.
pub trait DataType: Copy + Send + Sync + std::fmt::Debug {
    /// The zero of the type, which fresh buffers are filled with.
    open spec fn zero_value() -> Self {
        arbitrary()
    }

    fn zero() -> (z: Self)
        ensures
            z == Self::zero_value(),
    ;
}

impl DataType for i8 {
    open spec fn zero_value() -> Self {
        0i8
    }

    fn zero() -> (z: Self) {
        0i8
    }
}

impl DataType for u8 {
    open spec fn zero_value() -> Self {
        0u8
    }

    fn zero() -> (z: Self) {
        0u8
    }
}

impl DataType for u16 {
    open spec fn zero_value() -> Self {
        0u16
    }

    fn zero() -> (z: Self) {
        0u16
    }
}

impl DataType for i16 {
    open spec fn zero_value() -> Self {
        0i16
    }

    fn zero() -> (z: Self) {
        0i16
    }
}

impl DataType for u32 {
    open spec fn zero_value() -> Self {
        0u32
    }

    fn zero() -> (z: Self) {
        0u32
    }
}

impl DataType for i32 {
    open spec fn zero_value() -> Self {
        0i32
    }

    fn zero() -> (z: Self) {
        0i32
    }
}

impl DataType for u64 {
    open spec fn zero_value() -> Self {
        0u64
    }

    fn zero() -> (z: Self) {
        0u64
    }
}

impl DataType for i64 {
    open spec fn zero_value() -> Self {
        0i64
    }

    fn zero() -> (z: Self) {
        0i64
    }
}

} // verus!
