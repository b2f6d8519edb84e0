//! A group of bands that share one resolution and origin.
use vstd::prelude::*;
use crate::band::{BandInfo, BandReader};
use crate::metadata::Metadata;
use crate::raster::band::RasterBand;
use crate::transforms::GeoReadTransform;
use crate::DataType;

verus! {

/// What the bands of a group have in common: a description, the transform
/// from geographic space to the group's native pixel space, and metadata.
pub struct RasterGroupInfo {
    pub description: String,
    pub transform: GeoReadTransform,
    pub metadata: Metadata,
}

/// The bands that share one `RasterGroupInfo`.
pub struct RasterGroup<T: DataType, I: BandInfo, R: BandReader<T>> {
    pub info: RasterGroupInfo,
    pub bands: Vec<RasterBand<T, I, R>>,
}

} // verus!
