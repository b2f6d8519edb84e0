//! The sensors whose products the library knows by name.
use vstd::prelude::*;

pub mod sentinel2;

pub use crate::sensors::sentinel2::Sentinel2;

verus! {

/// A sensor: the metadata that its products carry, and the driver that
/// reads them.
pub trait Sensor {
    type RasterMetadata: Send + Sync;

    type BandMetadata: Default + Send + Sync;

    /// Short name of the GDAL driver for the sensor's products.
    const GDAL_DRIVER_NAME: &'static str;
}

} // verus!
