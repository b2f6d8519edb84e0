use rusterio::errors::RusterioError;
use rusterio::metadata::Metadata;

#[test]
fn metadata_holds_what_was_inserted() {
    let mut metadata = Metadata::new("band 4".to_string());
    assert_eq!(metadata.description(), "band 4");
    metadata.insert("BANDNAME".to_string(), "B4".to_string());
    metadata.insert("WAVELENGTH".to_string(), "665".to_string());
    assert_eq!(metadata.get("BANDNAME").unwrap(), "B4");
    assert_eq!(metadata.get("WAVELENGTH").unwrap(), "665");
}

#[test]
fn a_later_value_replaces_an_earlier_one() {
    let mut metadata = Metadata::new(String::new());
    metadata.insert("KEY".to_string(), "first".to_string());
    metadata.insert("KEY".to_string(), "second".to_string());
    assert_eq!(metadata.get("KEY").unwrap(), "second");
}

#[test]
fn a_missing_key_is_reported_with_the_object() {
    let mut metadata = Metadata::new("scene".to_string());
    metadata.insert("A".to_string(), "1".to_string());
    assert_eq!(
        metadata.get("B").unwrap_err(),
        RusterioError::MetadataKeyNotFound {
            object_desc: "scene".to_string(),
            key: "B".to_string()
        }
    );
}

#[test]
fn default_metadata_are_empty() {
    let metadata = Metadata::default();
    assert_eq!(metadata.description(), "");
    assert!(metadata.get("anything").is_err());
}
