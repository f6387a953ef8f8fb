use delta_table_creation::error::DeltaError;
use delta_table_creation::schema::{
    DataType, PrimitiveType, SchemaRef, StructField, StructType,
};
use delta_table_creation::table_properties::{
    PropertyMap, MIN_READER_VERSION_PROP, MIN_WRITER_VERSION_PROP,
};
use delta_table_creation::table_protocol_metadata_config::TableProtocolMetadataConfig;
use delta_table_creation::transaction::create_table::{
    create_table, delta_log_url, ensure_table_does_not_exist, CreateTableTransactionBuilder,
    LogListing,
};
use std::sync::Arc;

fn plain_schema() -> StructType {
    StructType::new_unchecked(vec![StructField::new(
        "id",
        DataType::Primitive(PrimitiveType::Integer),
        false,
    )])
}

fn test_schema() -> SchemaRef {
    Arc::new(plain_schema())
}

fn props(pairs: &[(&str, &str)]) -> PropertyMap {
    let mut map = PropertyMap::new();
    for (k, v) in pairs {
        map.insert(k.to_string(), v.to_string());
    }
    map
}

#[test]
fn test_basic_builder_creation() {
    let schema = test_schema();
    let builder =
        CreateTableTransactionBuilder::new("/path/to/table", schema.clone(), "TestApp/1.0");

    assert_eq!(builder.path(), "/path/to/table");
    assert_eq!(builder.engine_info(), "TestApp/1.0");
    assert!(builder.table_properties().is_empty());
}

#[test]
fn test_nested_path_builder_creation() {
    let schema = test_schema();
    let builder =
        CreateTableTransactionBuilder::new("/path/to/table/nested", schema.clone(), "TestApp/1.0");

    assert_eq!(builder.path(), "/path/to/table/nested");
}

#[test]
fn test_with_table_properties() {
    let schema = test_schema();

    let builder = CreateTableTransactionBuilder::new("/path/to/table", schema, "TestApp/1.0")
        .with_table_properties(&[("key1", "value1")]);

    assert_eq!(builder.table_properties().get("key1"), Some("value1"));
}

#[test]
fn test_with_multiple_table_properties() {
    let schema = test_schema();

    let builder = CreateTableTransactionBuilder::new("/path/to/table", schema, "TestApp/1.0")
        .with_table_properties(&[("key1", "value1")])
        .with_table_properties(&[("key2", "value2")]);

    assert_eq!(builder.table_properties().get("key1"), Some("value1"));
    assert_eq!(builder.table_properties().get("key2"), Some("value2"));
}

#[test]
fn test_table_creation_config_parsing() {
    // Empty properties are allowed.
    let properties = PropertyMap::new();
    let config = TableProtocolMetadataConfig::new(plain_schema(), vec![], properties).unwrap();
    assert!(config.metadata.configuration().is_empty());
    assert_eq!(config.protocol.min_reader_version(), 3);
    assert_eq!(config.protocol.min_writer_version(), 7);
    assert!(config.protocol.reader_features().unwrap().is_empty());
    assert!(config.protocol.writer_features().unwrap().is_empty());

    // Properties of applications are passed through.
    let properties = props(&[("myapp.version", "1.0"), ("custom.setting", "value")]);
    let config = TableProtocolMetadataConfig::new(plain_schema(), vec![], properties).unwrap();
    assert_eq!(config.metadata.configuration().get("myapp.version"), Some("1.0"));
    assert_eq!(config.metadata.configuration().get("custom.setting"), Some("value"));

    // So are requests, which only transforms carry out.
    let properties = props(&[
        (MIN_READER_VERSION_PROP, "3"),
        (MIN_WRITER_VERSION_PROP, "7"),
        ("myapp.version", "1.0"),
    ]);
    let config = TableProtocolMetadataConfig::new(plain_schema(), vec![], properties).unwrap();
    assert_eq!(config.protocol.min_reader_version(), 3);
    assert_eq!(config.protocol.min_writer_version(), 7);
    assert!(config.metadata.configuration().contains_key(MIN_READER_VERSION_PROP));
    assert!(config.metadata.configuration().contains_key(MIN_WRITER_VERSION_PROP));
    assert_eq!(config.metadata.configuration().get("myapp.version"), Some("1.0"));
}

fn empty_log() -> LogListing<()> {
    Ok(None)
}

fn build_message(pairs: &[(&str, &str)]) -> String {
    let builder = create_table("/t", test_schema(), "App").with_table_properties(pairs);
    match builder.build("file:///t/", empty_log()) {
        Err(DeltaError::Generic(message)) => message,
        other => panic!("{:?}", other),
    }
}

#[test]
fn later_properties_overwrite_earlier_ones() {
    let builder = create_table("/t", test_schema(), "App")
        .with_table_properties(&[("a", "1"), ("b", "2"), ("a", "3")])
        .with_table_properties(&[("b", "4")]);
    assert_eq!(builder.table_properties().len(), 2);
    assert_eq!(builder.table_properties().get("a"), Some("3"));
    assert_eq!(builder.table_properties().get("b"), Some("4"));
    assert_eq!(builder.table_properties().get("c"), None);
}

#[test]
fn a_built_transaction_holds_the_table() {
    let transaction = create_table("/tmp/my_table", test_schema(), "MyApp/1.0")
        .with_table_properties(&[
            ("myapp.version", "1.0"),
            ("delta.minReaderVersion", "3"),
            ("delta.feature.domainMetadata", "supported"),
            ("delta.minWriterVersion", "+07"),
            ("custom", "x"),
        ])
        .build("file:///tmp/my_table/", empty_log())
        .unwrap();
    assert_eq!(transaction.table_url, "file:///tmp/my_table/");
    assert_eq!(transaction.log_root, "file:///tmp/my_table/_delta_log/");
    assert_eq!(transaction.engine_info, "MyApp/1.0");
    assert_eq!(transaction.protocol.min_reader_version(), 3);
    assert_eq!(transaction.protocol.min_writer_version(), 7);
    assert!(transaction.protocol.reader_features().unwrap().is_empty());
    let writers = transaction.protocol.writer_features().unwrap();
    assert_eq!(writers.len(), 1);
    assert_eq!(writers[0].as_ref(), "domainMetadata");
    let configuration = transaction.metadata.configuration();
    assert_eq!(configuration.len(), 2);
    assert_eq!(configuration.get("myapp.version"), Some("1.0"));
    assert_eq!(configuration.get("custom"), Some("x"));
    assert!(transaction.metadata.partition_columns().is_empty());
    assert_eq!(transaction.metadata.schema().fields.len(), 1);
    assert!(transaction.domain_metadata.is_empty());
}

#[test]
fn the_log_is_below_the_table() {
    assert_eq!(delta_log_url("s3://bucket/a/b/").unwrap(), "s3://bucket/a/b/_delta_log/");
    // Without a slash at the end the last part of the path is replaced.
    assert_eq!(delta_log_url("s3://bucket/a/b").unwrap(), "s3://bucket/a/_delta_log/");
    for bad in ["no url", "mailto:x@example.com"] {
        match delta_log_url(bad) {
            Err(DeltaError::InvalidUrl(text)) => assert_eq!(text, bad),
            other => panic!("{:?}", other),
        }
    }
}

#[test]
fn a_bad_location_is_the_first_error() {
    let builder = create_table("/t", Arc::new(StructType::new_unchecked(vec![])), "App");
    let r = builder.build::<()>("no url", Err(DeltaError::Storage("down".to_string())));
    assert!(matches!(r, Err(DeltaError::InvalidUrl(_))));
}

#[test]
fn an_existing_table_is_not_created_again() {
    let listed: LogListing<u8> = Ok(Some(Ok(1)));
    match ensure_table_does_not_exist(listed, "/path/to/table") {
        Err(DeltaError::Generic(m)) => assert_eq!(m, "Table already exists at path: /path/to/table"),
        other => panic!("{:?}", other),
    }
    let r = create_table("/t", test_schema(), "App").build("file:///t/", Ok(Some(Ok(()))));
    match r {
        Err(DeltaError::Generic(m)) => assert_eq!(m, "Table already exists at path: /t"),
        other => panic!("{:?}", other),
    }
}

#[test]
fn a_missing_log_means_that_there_is_no_table() {
    let missing = || DeltaError::FileNotFound("x".to_string());
    assert!(ensure_table_does_not_exist::<u8>(Ok(None), "/t").is_ok());
    assert!(ensure_table_does_not_exist::<u8>(Ok(Some(Err(missing()))), "/t").is_ok());
    assert!(ensure_table_does_not_exist::<u8>(Err(missing()), "/t").is_ok());
}

#[test]
fn other_storage_errors_are_passed_on() {
    let denied = || DeltaError::Storage("denied".to_string());
    for listing in [Ok(Some(Err(denied()))), Err(denied())] {
        match ensure_table_does_not_exist::<u8>(listing, "/t") {
            Err(DeltaError::Storage(m)) => assert_eq!(m, "denied"),
            other => panic!("{:?}", other),
        }
    }
}

#[test]
fn a_schema_needs_fields() {
    let builder = create_table("/t", Arc::new(StructType::new_unchecked(vec![])), "App")
        .with_table_properties(&[("delta.appendOnly", "true")]);
    match builder.build("file:///t/", empty_log()) {
        Err(DeltaError::Generic(m)) => assert_eq!(m, "Schema cannot be empty"),
        other => panic!("{:?}", other),
    }
}

#[test]
fn refused_properties_are_named() {
    assert_eq!(
        build_message(&[("a", "b"), ("delta.appendOnly", "true"), ("delta.minReaderVersion", "x")]),
        "Property 'delta.appendOnly' is not supported during CREATE TABLE. Only delta.feature.* \
         signals and delta.minReaderVersion/delta.minWriterVersion are allowed."
    );
}

#[test]
fn refused_versions_are_named() {
    assert_eq!(
        build_message(&[("delta.minReaderVersion", "2")]),
        "Invalid value '2' for delta.minReaderVersion. Only '3' is supported for CREATE TABLE."
    );
    assert_eq!(
        build_message(&[("delta.minWriterVersion", "006")]),
        "Invalid value '6' for delta.minWriterVersion. Only '7' is supported for CREATE TABLE."
    );
    for value in ["three", "", "256", "-3", " 3", "3.0", "+"] {
        assert_eq!(
            build_message(&[("delta.minReaderVersion", value)]),
            format!("Invalid value '{}' for delta.minReaderVersion. Must be an integer.", value)
        );
        assert_eq!(
            build_message(&[("delta.minWriterVersion", value)]),
            format!("Invalid value '{}' for delta.minWriterVersion. Must be an integer.", value)
        );
    }
    assert_eq!(
        build_message(&[("delta.minReaderVersion", "1"), ("delta.minWriterVersion", "x")]),
        "Invalid value 'x' for delta.minWriterVersion. Must be an integer."
    );
}

#[test]
fn refused_signals_are_named() {
    assert_eq!(
        build_message(&[("delta.feature.domainMetadata", "enabled")]),
        "Invalid value 'enabled' for 'delta.feature.domainMetadata'. Only 'supported' is allowed."
    );
    assert_eq!(
        build_message(&[("delta.feature.magic", "supported")]),
        "Unknown table feature 'magic'. Cannot create table with unsupported features."
    );
    assert_eq!(
        build_message(&[("delta.feature.deletionVectors", "supported")]),
        "Enabling feature 'deletionVectors' is not supported during CREATE TABLE"
    );
}

#[test]
fn the_clock_decides_last_before_the_transforms() {
    let clock = || Err(DeltaError::Generic("clock".to_string()));
    let builder = || create_table("/t", test_schema(), "App");
    let root = || Ok("file:///t/_delta_log/".to_string());
    let bad = builder()
        .with_table_properties(&[("delta.x", "y")])
        .build_with("file:///t/", root(), empty_log(), clock());
    assert!(matches!(bad, Err(DeltaError::Generic(m)) if m == "clock"));
    let good = builder().build_with("file:///t/", root(), empty_log(), Ok(77)).unwrap();
    assert_eq!(good.metadata.created_time(), 77);
}

#[test]
fn two_calls_set_what_one_call_sets() {
    let twice = create_table("/t", test_schema(), "App")
        .with_table_properties(&[("a", "1"), ("b", "2")])
        .with_table_properties(&[("c", "3"), ("a", "4")]);
    let once = create_table("/t", test_schema(), "App").with_table_properties(&[
        ("a", "1"),
        ("b", "2"),
        ("c", "3"),
        ("a", "4"),
    ]);
    let (x, y) = (twice.table_properties(), once.table_properties());
    assert_eq!(x.len(), 3);
    assert_eq!(x.len(), y.len());
    for i in 0..x.len() {
        assert_eq!(x.key_at(i), y.key_at(i));
        assert_eq!(x.value_at(i), y.value_at(i));
    }
    assert_eq!(x.get("a"), Some("4"));
}

#[test]
fn the_order_of_properties_does_not_matter() {
    let pairs = [
        ("delta.feature.domainMetadata", "supported"),
        ("app", "1"),
        ("delta.minWriterVersion", "7"),
    ];
    for order in [[0, 1, 2], [0, 2, 1], [1, 0, 2], [1, 2, 0], [2, 0, 1], [2, 1, 0]] {
        let shuffled: Vec<(&str, &str)> = order.iter().map(|i| pairs[*i]).collect();
        let made = create_table("/t", test_schema(), "App")
            .with_table_properties(&shuffled)
            .build("file:///t/", empty_log())
            .unwrap();
        assert_eq!(made.protocol.writer_features().unwrap().len(), 1);
        assert_eq!(made.metadata.configuration().len(), 1);
        assert_eq!(made.metadata.configuration().get("app"), Some("1"));
    }
}

#[test]
fn properties_of_applications_are_always_allowed() {
    let pairs = [("", ""), ("delta", "x"), ("Delta.appendOnly", "y"), (" delta.a", "z")];
    let made = create_table("/t", test_schema(), "App")
        .with_table_properties(&pairs)
        .build("file:///t/", empty_log())
        .unwrap();
    for (key, value) in pairs {
        assert_eq!(made.metadata.configuration().get(key), Some(value));
    }
    assert!(made.protocol.writer_features().unwrap().is_empty());
}
