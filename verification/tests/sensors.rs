use rusterio::sensors::sentinel2::{BandMetadata, RasterMetadata};
use rusterio::sensors::{Sensor, Sentinel2};

#[test]
fn sentinel2_names_its_driver() {
    assert_eq!(Sentinel2::GDAL_DRIVER_NAME, "Sentinel2");
}

#[test]
fn sentinel2_metadata_start_empty() {
    let raster = RasterMetadata::new("S2B_MSIL2A".to_string());
    assert_eq!(raster.0.description(), "S2B_MSIL2A");
    assert!(raster.0.get("FOOTPRINT").is_err());
    let mut band = BandMetadata::new("B4".to_string());
    band.0.insert("WAVELENGTH".to_string(), "665".to_string());
    assert_eq!(band.0.get("WAVELENGTH").unwrap(), "665");
    let default: <Sentinel2 as Sensor>::BandMetadata = Default::default();
    assert_eq!(default.0.description(), "");
}
