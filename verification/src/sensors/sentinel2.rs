//! Sentinel-2 products.
use vstd::prelude::*;
use vstd::view::View as _;
use crate::metadata::Metadata;
use crate::sensors::Sensor;

verus! {

/// The Sentinel-2 sensor.
#[derive(Debug)]
pub struct Sentinel2;

impl Sensor for Sentinel2 {
    type RasterMetadata = RasterMetadata;

    type BandMetadata = BandMetadata;

    const GDAL_DRIVER_NAME: &'static str = "Sentinel2";
}

/// The metadata of a Sentinel-2 product.
pub struct RasterMetadata(pub Metadata);

impl RasterMetadata {
    /// The metadata of a product with the given description, without any
    /// entry.
    pub fn new(description: String) -> (r: Self)
        ensures
            r.0@ == Map::<Seq<char>, Seq<char>>::empty(),
            r.0.spec_description() == description@,
    {
        Self(Metadata::new(description))
    }
}

/// The metadata of a band of a Sentinel-2 product.
pub struct BandMetadata(pub Metadata);

impl BandMetadata {
    /// The metadata of a band with the given description, without any
    /// entry.
    pub fn new(description: String) -> (r: Self)
        ensures
            r.0@ == Map::<Seq<char>, Seq<char>>::empty(),
            r.0.spec_description() == description@,
    {
        Self(Metadata::new(description))
    }
}

impl Default for BandMetadata {
    /// Metadata with an empty description and no entry.
    fn default() -> (r: Self)
        ensures
            r.0@ == Map::<Seq<char>, Seq<char>>::empty(),
            r.0.spec_description() == Seq::<char>::empty(),
    {
        Self(Metadata::default())
    }
}

} // verus!
