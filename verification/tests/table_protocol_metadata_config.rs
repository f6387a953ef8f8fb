use delta_table_creation::schema::{DataType, PrimitiveType, StructField, StructType};
use delta_table_creation::table_features::TableFeature;
use delta_table_creation::table_properties::PropertyMap;
use delta_table_creation::table_protocol_metadata_config::TableProtocolMetadataConfig;
use delta_table_creation::table_transformation::pipeline::TransformationPipeline;

fn props(pairs: &[(&str, &str)]) -> PropertyMap {
    let mut map = PropertyMap::new();
    for (k, v) in pairs {
        map.insert(k.to_string(), v.to_string());
    }
    map
}

fn integer() -> DataType {
    DataType::Primitive(PrimitiveType::Integer)
}

fn string() -> DataType {
    DataType::Primitive(PrimitiveType::String)
}

fn test_schema() -> StructType {
    StructType::new_unchecked(vec![StructField::new("id", integer(), false)])
}

#[test]
fn test_try_from_creates_bare_protocol() {
    let properties = props(&[("myapp.version", "1.0"), ("custom.property", "value")]);
    let config = TableProtocolMetadataConfig::new(test_schema(), vec![], properties).unwrap();

    assert_eq!(config.protocol.min_reader_version(), 3);
    assert_eq!(config.protocol.min_writer_version(), 7);
    assert!(config.protocol.reader_features().unwrap().is_empty());
    assert!(config.protocol.writer_features().unwrap().is_empty());
}

#[test]
fn test_try_from_passes_all_properties_through() {
    let properties = props(&[
        ("myapp.version", "1.0"),
        ("delta.feature.deletionVectors", "supported"),
        ("delta.minReaderVersion", "3"),
        ("custom.property", "value"),
    ]);
    let config = TableProtocolMetadataConfig::new(test_schema(), vec![], properties).unwrap();

    assert_eq!(config.metadata.configuration().len(), 4);
    assert_eq!(config.metadata.configuration().get("myapp.version"), Some("1.0"));
    assert_eq!(
        config.metadata.configuration().get("delta.feature.deletionVectors"),
        Some("supported")
    );
    assert_eq!(config.metadata.configuration().get("delta.minReaderVersion"), Some("3"));
}

#[test]
fn test_try_from_with_partition_columns() {
    let schema = StructType::new_unchecked(vec![
        StructField::new("id", integer(), false),
        StructField::new("region", string(), false),
    ]);
    let config =
        TableProtocolMetadataConfig::new(schema, vec!["region".to_string()], PropertyMap::new())
            .unwrap();

    assert_eq!(config.metadata.partition_columns(), &["region".to_string()]);
}

#[test]
fn test_apply_transforms_with_no_signals() {
    let properties = props(&[("myapp.version", "1.0")]);
    let config =
        TableProtocolMetadataConfig::new(test_schema(), vec![], properties.clone()).unwrap();

    let output = TransformationPipeline::apply_transforms(config, &properties).unwrap();

    assert!(output.config.protocol.writer_features().unwrap().is_empty());
    assert_eq!(output.config.metadata.configuration().get("myapp.version"), Some("1.0"));
}

#[test]
fn the_clock_dates_a_new_table() {
    let config =
        TableProtocolMetadataConfig::new(test_schema(), vec![], PropertyMap::new()).unwrap();
    // Later than the start of 2020.
    assert!(config.metadata.created_time() > 1_577_836_800_000);
}

#[test]
fn only_domain_metadata_can_be_asked_for() {
    assert!(TableProtocolMetadataConfig::is_delta_feature_allowed(&TableFeature::DomainMetadata));
    assert!(!TableProtocolMetadataConfig::is_delta_feature_allowed(&TableFeature::ColumnMapping));
    assert!(!TableProtocolMetadataConfig::is_delta_feature_allowed(&TableFeature::Unknown(
        "domainMetadata".to_string()
    )));
}

#[test]
fn properties_are_allowed_by_their_names() {
    let allowed = [
        "myapp.version",
        "delta",
        "deltas.x",
        "",
        "delta.feature.anything",
        "delta.feature.",
        "delta.minReaderVersion",
        "delta.minWriterVersion",
    ];
    for key in allowed {
        assert!(TableProtocolMetadataConfig::is_delta_property_allowed(key), "{}", key);
    }
    let refused = ["delta.", "delta.appendOnly", "delta.minReaderVersion2", "delta.feature"];
    for key in refused {
        assert!(!TableProtocolMetadataConfig::is_delta_property_allowed(key), "{}", key);
    }
}
