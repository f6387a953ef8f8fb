use delta_table_creation::actions::Protocol;
use delta_table_creation::clustering::CLUSTERING_DOMAIN_NAME;
use delta_table_creation::error::DeltaError;
use delta_table_creation::schema::{ColumnName, DataType, PrimitiveType, StructField, StructType};
use delta_table_creation::table_features::TableFeature;
use delta_table_creation::table_properties::PropertyMap;
use delta_table_creation::table_protocol_metadata_config::TableProtocolMetadataConfig;
use delta_table_creation::table_transformation::pipeline::TransformationPipeline;
use delta_table_creation::table_transformation::transforms::{
    ClusteringTransform, DeltaPropertyValidationTransform, DomainMetadataTransform,
    FeatureSignalTransform, PartitioningTransform, ProtocolVersionTransform, Transform,
};
use delta_table_creation::table_transformation::{
    ProtocolMetadataTransform, TransformDependency, TransformId,
};
use std::sync::Arc;

fn props(pairs: &[(&str, &str)]) -> PropertyMap {
    let mut map = PropertyMap::new();
    for (k, v) in pairs {
        map.insert(k.to_string(), v.to_string());
    }
    map
}

fn config(pairs: &[(&str, &str)]) -> TableProtocolMetadataConfig {
    let field = |name: &str| {
        StructField::new(name, DataType::Primitive(PrimitiveType::Integer), true)
    };
    let schema = StructType::new_unchecked(vec![field("id"), field("region"), field("day")]);
    TableProtocolMetadataConfig::created_at(Arc::new(schema), vec![], props(pairs), Ok(5)).unwrap()
}

fn top_level(names: &[&str]) -> Vec<ColumnName> {
    names.iter().map(|n| ColumnName::top_level(n)).collect()
}

fn nested(parts: &[&str]) -> ColumnName {
    ColumnName::new(parts.iter().map(|p| p.to_string()).collect())
}

fn message<T>(r: Result<T, DeltaError>) -> String {
    match r {
        Err(DeltaError::Generic(m)) => m,
        Err(other) => panic!("{:?}", other),
        Ok(_) => panic!("accepted"),
    }
}

fn writer_features(config: &TableProtocolMetadataConfig) -> Vec<String> {
    let list = config.protocol.writer_features().unwrap();
    list.iter().map(|f| f.as_ref().to_string()).collect()
}

fn reader_features(config: &TableProtocolMetadataConfig) -> Vec<String> {
    let list = config.protocol.reader_features().unwrap();
    list.iter().map(|f| f.as_ref().to_string()).collect()
}

#[test]
fn transforms_name_themselves() {
    let expected = [
        (
            Transform::DeltaPropertyValidation(DeltaPropertyValidationTransform),
            TransformId::DeltaPropertyValidation,
            "DeltaPropertyValidation: validates delta.* properties",
        ),
        (
            Transform::ProtocolVersion(ProtocolVersionTransform),
            TransformId::ProtocolVersion,
            "ProtocolVersion: sets version from properties or defaults",
        ),
        (
            Transform::FeatureSignals(FeatureSignalTransform),
            TransformId::FeatureSignals,
            "FeatureSignals: processes delta.feature.* signals",
        ),
        (
            Transform::DomainMetadata(DomainMetadataTransform),
            TransformId::DomainMetadata,
            "DomainMetadata: enables domain metadata feature",
        ),
        (
            Transform::Partitioning(PartitioningTransform::new(vec![])),
            TransformId::Partitioning,
            "Partitioning: sets partition columns",
        ),
        (
            Transform::Clustering(ClusteringTransform::new(vec![])),
            TransformId::Clustering,
            "Clustering: enables clustered table",
        ),
    ];
    for (transform, id, name) in &expected {
        assert_eq!(transform.id(), *id);
        assert_eq!(transform.name(), *name);
        let needs = transform.dependencies();
        if *id == TransformId::Clustering {
            let required = TransformDependency::TransformRequired(TransformId::DomainMetadata);
            assert_eq!(needs, vec![required]);
        } else {
            assert!(needs.is_empty());
        }
    }
}

#[test]
fn signals_are_parsed_with_their_keys() {
    let signals = FeatureSignalTransform::parse_feature_signals(&props(&[
        ("a", "b"),
        ("delta.feature.columnMapping", "supported"),
        ("delta.feature.domainMetadata", "supported"),
    ]))
    .unwrap();
    let seen: Vec<(&str, &str)> = signals.iter().map(|s| (s.0.as_ref(), s.1.as_str())).collect();
    assert_eq!(
        seen,
        vec![
            ("columnMapping", "delta.feature.columnMapping"),
            ("domainMetadata", "delta.feature.domainMetadata"),
        ]
    );
    let r = FeatureSignalTransform::parse_feature_signals(&props(&[
        ("delta.feature.domainMetadata", "Supported"),
        ("delta.feature.x", "supported"),
    ]));
    assert_eq!(
        message(r),
        "Invalid value 'Supported' for 'delta.feature.domainMetadata'. Only 'supported' is allowed."
    );
    let r = FeatureSignalTransform::parse_feature_signals(&props(&[("delta.feature.", "supported")]));
    assert_eq!(
        message(r),
        "Unknown table feature ''. Cannot create table with unsupported features."
    );
}

#[test]
fn signals_leave_the_metadata_and_reach_the_protocol() {
    let output = FeatureSignalTransform
        .apply(config(&[
            ("delta.feature.deletionVectors", "supported"),
            ("keep", "me"),
            ("delta.feature.domainMetadata", "supported"),
        ]))
        .unwrap();
    assert_eq!(writer_features(&output.config), vec!["deletionVectors", "domainMetadata"]);
    assert_eq!(reader_features(&output.config), vec!["deletionVectors"]);
    assert_eq!(output.config.metadata.configuration().len(), 1);
    assert_eq!(output.config.metadata.configuration().get("keep"), Some("me"));
    assert!(output.domain_metadata.is_empty());

    let again = FeatureSignalTransform.apply(output.config).unwrap();
    assert_eq!(writer_features(&again.config), vec!["deletionVectors", "domainMetadata"]);
    assert_eq!(again.config.metadata.configuration().len(), 1);
}

#[test]
fn a_listed_feature_is_not_listed_twice() {
    let signalled = FeatureSignalTransform
        .apply(config(&[("delta.feature.domainMetadata", "supported")]))
        .unwrap();
    let output = DomainMetadataTransform.apply(signalled.config).unwrap();
    assert_eq!(writer_features(&output.config), vec!["domainMetadata"]);
    assert!(reader_features(&output.config).is_empty());
}

#[test]
fn refused_features_fail_the_check_only() {
    let signalled = config(&[("delta.feature.columnMapping", "supported")]);
    assert_eq!(
        message(FeatureSignalTransform.validate_preconditions(&signalled)),
        "Enabling feature 'columnMapping' is not supported during CREATE TABLE"
    );
    assert!(FeatureSignalTransform.apply(signalled).is_ok());
}

#[test]
fn version_requests_do_not_stay() {
    let output = ProtocolVersionTransform
        .apply(config(&[
            ("delta.minReaderVersion", "3"),
            ("x", "y"),
            ("delta.minWriterVersion", "7"),
        ]))
        .unwrap();
    assert_eq!(output.config.protocol.min_reader_version(), 3);
    assert_eq!(output.config.protocol.min_writer_version(), 7);
    assert_eq!(output.config.metadata.configuration().len(), 1);
    assert_eq!(output.config.metadata.configuration().get("x"), Some("y"));
    // The check accepts everything; only applying fails.
    let bad = config(&[("delta.minWriterVersion", "5")]);
    assert!(ProtocolVersionTransform.validate_preconditions(&bad).is_ok());
    assert_eq!(
        message(ProtocolVersionTransform.apply(bad)),
        "Invalid value '5' for delta.minWriterVersion. Only '7' is supported for CREATE TABLE."
    );
}

#[test]
fn validation_changes_nothing() {
    let checked = config(&[("delta.appendOnly", "true"), ("a", "b")]);
    assert!(DeltaPropertyValidationTransform.validate_preconditions(&checked).is_err());
    let output = DeltaPropertyValidationTransform.apply(checked).unwrap();
    assert_eq!(output.config.metadata.configuration().len(), 2);
    assert_eq!(output.config.metadata.created_time(), 5);
}

#[test]
fn partition_columns_are_set() {
    let transform = PartitioningTransform::new(top_level(&["region", "day"]));
    let before = config(&[]);
    assert!(transform.validate_preconditions(&before).is_ok());
    let output = transform.apply(before).unwrap();
    assert_eq!(
        output.config.metadata.partition_columns(),
        &["region".to_string(), "day".to_string()]
    );
    assert!(writer_features(&output.config).is_empty());
}

#[test]
fn partition_columns_are_checked() {
    let nested_column = PartitioningTransform::new(vec![nested(&["a b", "c"])]);
    assert_eq!(
        message(nested_column.validate_preconditions(&config(&[]))),
        "Partition column '`a b`.c' must be a top-level column, not a nested path"
    );
    let absent = PartitioningTransform::new(top_level(&["id", "nope"]));
    assert_eq!(
        message(absent.validate_preconditions(&config(&[]))),
        "Partition column 'nope' not found in schema"
    );
    let empty = PartitioningTransform::new(vec![nested(&[])]);
    assert_eq!(
        message(empty.validate_preconditions(&config(&[]))),
        "Partition column '' must be a top-level column, not a nested path"
    );
}

#[test]
fn clustering_columns_are_checked() {
    let many = ClusteringTransform::new(top_level(&["a", "b", "c", "d", "e"]));
    assert_eq!(
        message(many.validate_preconditions(&config(&[]))),
        "Clustering supports at most 4 columns, but 5 were specified"
    );
    let nested_column = ClusteringTransform::new(vec![nested(&["x", "9", "`"])]);
    assert_eq!(
        message(nested_column.validate_preconditions(&config(&[]))),
        "Clustering column 'x.`9`.````' must be a top-level column, not a nested path"
    );
    let absent = ClusteringTransform::new(top_level(&["ID"]));
    assert_eq!(
        message(absent.validate_preconditions(&config(&[]))),
        "Clustering column 'ID' not found in schema"
    );
}

#[test]
fn clustering_writes_domain_metadata() {
    let transform = ClusteringTransform::new(top_level(&["id", "day"]));
    let output = transform.apply(config(&[])).unwrap();
    assert_eq!(writer_features(&output.config), vec!["clustering"]);
    assert_eq!(output.domain_metadata.len(), 1);
    assert_eq!(output.domain_metadata[0].domain(), CLUSTERING_DOMAIN_NAME);
    assert_eq!(
        output.domain_metadata[0].configuration(),
        r#"{"clusteringColumns":[["id"],["day"]]}"#
    );
    let again = transform.apply(output.config).unwrap();
    assert_eq!(writer_features(&again.config), vec!["clustering"]);
}

#[test]
fn features_need_a_protocol_that_lists_them() {
    let TableProtocolMetadataConfig { metadata, .. } = config(&[]);
    let protocol = Protocol::try_new(1, 2, None, None).unwrap();
    let r = DomainMetadataTransform.apply(TableProtocolMetadataConfig { protocol, metadata });
    assert!(matches!(r, Err(DeltaError::InvalidProtocol(_))));
}

#[test]
fn lists_and_versions_must_fit() {
    assert!(matches!(
        Protocol::try_new(3, 7, None, Some(vec![])),
        Err(DeltaError::InvalidProtocol(_))
    ));
    assert!(matches!(
        Protocol::try_new(3, 6, Some(vec![]), Some(vec![])),
        Err(DeltaError::InvalidProtocol(_))
    ));
    let protocol = Protocol::try_new(3, 7, Some(vec![]), Some(vec![])).unwrap();
    assert!(matches!(protocol.with_versions(2, 7), Err(DeltaError::InvalidProtocol(_))));
    let protocol = Protocol::try_new(1, 7, None, Some(vec![])).unwrap();
    assert!(matches!(
        protocol.with_feature(TableFeature::ColumnMapping),
        Err(DeltaError::InvalidProtocol(_))
    ));
}

#[test]
fn reader_features_are_writer_features() {
    let lists = |readers: Vec<TableFeature>, writers: Vec<TableFeature>| {
        Protocol::try_new(3, 7, Some(readers), Some(writers))
    };
    assert!(lists(vec![TableFeature::V2Checkpoint], vec![TableFeature::V2Checkpoint]).is_ok());
    match lists(vec![TableFeature::DomainMetadata], vec![TableFeature::V2Checkpoint]) {
        Err(DeltaError::InvalidProtocol(m)) => {
            assert_eq!(m, "Every reader feature must be listed as a writer feature");
        }
        other => panic!("{:?}", other),
    }
    let TableProtocolMetadataConfig { metadata, .. } = config(&[]);
    let protocol = lists(vec![], vec![TableFeature::AppendOnly]).unwrap();
    let before = TableProtocolMetadataConfig { protocol, metadata };
    let output = DomainMetadataTransform.apply(before).unwrap();
    assert_eq!(writer_features(&output.config), vec!["appendOnly", "domainMetadata"]);
    let again = DomainMetadataTransform.apply(output.config).unwrap();
    assert_eq!(writer_features(&again.config), vec!["appendOnly", "domainMetadata"]);
}

fn clustering(names: &[&str]) -> Transform {
    Transform::Clustering(ClusteringTransform::new(top_level(names)))
}

fn ids(transforms: Vec<Transform>) -> Vec<TransformId> {
    let order = TransformationPipeline::order_by_dependencies(transforms).unwrap();
    order.iter().map(|t| t.id()).collect()
}

#[test]
fn dependencies_come_first() {
    assert_eq!(
        ids(vec![
            clustering(&["id"]),
            Transform::ProtocolVersion(ProtocolVersionTransform),
            Transform::DomainMetadata(DomainMetadataTransform),
            Transform::FeatureSignals(FeatureSignalTransform),
        ]),
        vec![
            TransformId::ProtocolVersion,
            TransformId::DomainMetadata,
            TransformId::Clustering,
            TransformId::FeatureSignals,
        ]
    );
    // What is not selected cannot come first.
    assert_eq!(
        ids(vec![clustering(&["id"]), Transform::ProtocolVersion(ProtocolVersionTransform)]),
        vec![TransformId::Clustering, TransformId::ProtocolVersion]
    );
    assert!(ids(vec![]).is_empty());
}

#[test]
fn a_clustering_run_enables_both_features() {
    let transforms =
        vec![clustering(&["id"]), Transform::DomainMetadata(DomainMetadataTransform)];
    let output = TransformationPipeline::run(transforms, config(&[("a", "b")])).unwrap();
    assert_eq!(writer_features(&output.config), vec!["domainMetadata", "clustering"]);
    assert_eq!(output.config.metadata.configuration().get("a"), Some("b"));
    assert_eq!(output.domain_metadata.len(), 1);
}

#[test]
fn the_first_error_ends_a_run() {
    let transforms = vec![
        Transform::ProtocolVersion(ProtocolVersionTransform),
        clustering(&["nope"]),
        Transform::DeltaPropertyValidation(DeltaPropertyValidationTransform),
    ];
    let r = TransformationPipeline::run(transforms, config(&[("delta.appendOnly", "true")]));
    assert_eq!(message(r), "Clustering column 'nope' not found in schema");
}

#[test]
fn domain_metadata_of_a_run_is_collected() {
    let transforms = vec![clustering(&["id"]), clustering(&["day"])];
    let output = TransformationPipeline::run(transforms, config(&[])).unwrap();
    let texts: Vec<&str> = output.domain_metadata.iter().map(|d| d.configuration()).collect();
    assert_eq!(
        texts,
        vec![r#"{"clusteringColumns":[["id"]]}"#, r#"{"clusteringColumns":[["day"]]}"#]
    );
}

#[test]
fn feature_names_stand_for_features() {
    let readers = [
        "catalogManaged",
        "catalogOwned-preview",
        "columnMapping",
        "deletionVectors",
        "timestampNtz",
        "typeWidening",
        "typeWidening-preview",
        "v2Checkpoint",
        "vacuumProtocolCheck",
        "variantType",
        "variantType-preview",
        "variantShredding-preview",
    ];
    let writers = [
        "appendOnly",
        "invariants",
        "checkConstraints",
        "changeDataFeed",
        "generatedColumns",
        "identityColumns",
        "inCommitTimestamp",
        "rowTracking",
        "domainMetadata",
        "icebergCompatV1",
        "icebergCompatV2",
        "clustering",
    ];
    for (names, for_readers) in [(readers, true), (writers, false)] {
        for name in names {
            let feature = TableFeature::from_name(name);
            assert!(feature.is_known(), "{}", name);
            assert_eq!(feature.as_ref(), name);
            assert_eq!(feature.is_reader_writer(), for_readers, "{}", name);
            assert!(feature.same(&feature.clone()));
        }
    }
    for name in ["", "DomainMetadata", "domainMetadata ", "magic"] {
        let feature = TableFeature::from_name(name);
        assert!(matches!(&feature, TableFeature::Unknown(n) if n == name));
        assert!(!feature.is_reader_writer());
    }
}
