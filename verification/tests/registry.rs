use delta_table_creation::schema::{
    ArrayType, ColumnName, DataType, MapType, PrimitiveType, StructField, StructType,
};
use delta_table_creation::table_features::TableFeature;
use delta_table_creation::table_properties::{Entries, PropertyMap};
use delta_table_creation::table_transformation::registry::{
    schema_contains_type, transform_registry, DataLayoutKind, SchemaTypeCheck, TransformContext,
    TransformFactory, TransformRegistry, TransformTrigger,
};
use delta_table_creation::table_transformation::transforms::{
    ClusteringTransform, DomainMetadataTransform, FeatureSignalTransform, ProtocolVersionTransform,
    Transform, TransformView,
};
use delta_table_creation::table_transformation::{ProtocolMetadataTransform, TransformId};

fn props(pairs: &[(&str, &str)]) -> PropertyMap {
    let mut map = PropertyMap::new();
    for (k, v) in pairs {
        map.insert(k.to_string(), v.to_string());
    }
    map
}

fn selected(pairs: &[(&str, &str)]) -> Vec<TransformId> {
    let transforms = transform_registry().select_transforms_to_trigger(&props(pairs)).unwrap();
    transforms.iter().map(|t| t.id()).collect()
}

fn primitive(p: PrimitiveType) -> DataType {
    DataType::Primitive(p)
}

#[test]
fn test_always_triggers_select_core_transforms() {
    let props = PropertyMap::new();

    let transforms = transform_registry().select_transforms_to_trigger(&props).unwrap();

    assert!(transforms.len() >= 2);
    assert!(transforms.iter().any(|t| t.id() == TransformId::DeltaPropertyValidation));
    assert!(transforms.iter().any(|t| t.id() == TransformId::ProtocolVersion));
}

#[test]
fn test_feature_signal_trigger() {
    let mut props = PropertyMap::new();
    props.insert("delta.feature.deletionVectors".to_string(), "supported".to_string());

    let transforms = transform_registry().select_transforms_to_trigger(&props).unwrap();

    assert!(transforms.iter().any(|t| t.id() == TransformId::FeatureSignals));
}

#[test]
fn test_no_feature_signal_when_absent() {
    let props = PropertyMap::new();

    let transforms = transform_registry().select_transforms_to_trigger(&props).unwrap();

    assert!(!transforms.iter().any(|t| t.id() == TransformId::FeatureSignals));
}

#[test]
fn test_schema_contains_type_simple() {
    let schema = StructType::new_unchecked(vec![
        StructField::new("id", primitive(PrimitiveType::Integer), false),
        StructField::new("name", primitive(PrimitiveType::String), true),
    ]);

    assert!(schema_contains_type(&schema, &primitive(PrimitiveType::Integer)));
    assert!(schema_contains_type(&schema, &primitive(PrimitiveType::String)));
    assert!(!schema_contains_type(&schema, &primitive(PrimitiveType::Boolean)));
}

#[test]
fn test_schema_contains_type_nested() {
    let inner = StructType::new_unchecked(vec![StructField::new(
        "value",
        primitive(PrimitiveType::Double),
        false,
    )]);
    let schema = StructType::new_unchecked(vec![
        StructField::new("id", primitive(PrimitiveType::Integer), false),
        StructField::new("nested", DataType::Struct(Box::new(inner)), true),
    ]);

    assert!(schema_contains_type(&schema, &primitive(PrimitiveType::Integer)));
    assert!(schema_contains_type(&schema, &primitive(PrimitiveType::Double)));
    assert!(!schema_contains_type(&schema, &primitive(PrimitiveType::String)));
}

fn array(element_type: DataType) -> DataType {
    DataType::Array(Box::new(ArrayType { element_type, contains_null: true }))
}

fn map(key_type: DataType, value_type: DataType) -> DataType {
    DataType::Mapping(Box::new(MapType { key_type, value_type, value_contains_null: false }))
}

fn schema_of(data_type: DataType) -> StructType {
    StructType::new_unchecked(vec![StructField::new("c", data_type, true)])
}

#[test]
fn types_are_found_in_arrays_and_maps() {
    let ntz = primitive(PrimitiveType::TimestampNtz);
    let text = || primitive(PrimitiveType::String);
    let time = || primitive(PrimitiveType::TimestampNtz);
    assert!(schema_contains_type(&schema_of(array(time())), &ntz));
    assert!(schema_contains_type(&schema_of(map(time(), text())), &ntz));
    assert!(schema_contains_type(&schema_of(map(text(), time())), &ntz));
    let inner = || DataType::Struct(Box::new(schema_of(time())));
    assert!(schema_contains_type(&schema_of(array(inner())), &ntz));
    assert!(schema_contains_type(&schema_of(map(inner(), text())), &ntz));
    assert!(schema_contains_type(&schema_of(map(text(), inner())), &ntz));
    assert!(!schema_contains_type(&schema_of(map(text(), array(text()))), &ntz));
}

#[test]
fn types_are_found_at_any_level() {
    let ntz = primitive(PrimitiveType::TimestampNtz);
    let time = || primitive(PrimitiveType::TimestampNtz);
    let text = || primitive(PrimitiveType::String);
    assert!(schema_contains_type(&schema_of(array(array(time()))), &ntz));
    assert!(schema_contains_type(&schema_of(map(text(), array(time()))), &ntz));
    let inner = DataType::Struct(Box::new(schema_of(time())));
    assert!(schema_contains_type(&schema_of(array(map(text(), array(inner)))), &ntz));
}

#[test]
fn compound_types_compare_part_by_part() {
    let text = || primitive(PrimitiveType::String);
    let decimal = |scale: u8| primitive(PrimitiveType::Decimal { precision: 10, scale });
    assert!(schema_contains_type(&schema_of(array(array(text()))), &array(text())));
    assert!(!schema_contains_type(&schema_of(array(text())), &array(array(text()))));
    assert!(schema_contains_type(&schema_of(decimal(2)), &decimal(2)));
    assert!(!schema_contains_type(&schema_of(decimal(2)), &decimal(3)));
    let record = |name: &str| {
        DataType::Struct(Box::new(StructType::new_unchecked(vec![StructField::new(
            name,
            primitive(PrimitiveType::Long),
            true,
        )])))
    };
    assert!(schema_contains_type(&schema_of(array(record("a"))), &record("a")));
    assert!(!schema_contains_type(&schema_of(array(record("a"))), &record("b")));
    assert!(!schema_contains_type(&StructType::new_unchecked(vec![]), &text()));
}

#[test]
fn built_in_selections() {
    let core = vec![TransformId::DeltaPropertyValidation, TransformId::ProtocolVersion];
    assert_eq!(selected(&[("a", "b")]), core);
    let mut with_signals = core.clone();
    with_signals.push(TransformId::FeatureSignals);
    assert_eq!(selected(&[("delta.feature.columnMapping", "supported")]), with_signals);
    assert_eq!(selected(&[("delta.feature.domainMetadata", "no")]), with_signals);
    with_signals.push(TransformId::DomainMetadata);
    assert_eq!(selected(&[("delta.feature.domainMetadata", "supported")]), with_signals);
}

enum Made {
    Clustering,
    DomainMetadata,
    Version,
    Signals,
    Nothing,
}

impl TransformFactory for Made {
    // Only contracts speak of this function; nothing calls it.
    fn product(&self, _properties: Entries) -> Option<TransformView> {
        unreachable!()
    }

    fn create(&self, _context: &TransformContext<'_>) -> Option<Transform> {
        match self {
            Made::Clustering => Some(Transform::Clustering(ClusteringTransform::new(vec![
                ColumnName::top_level("id"),
            ]))),
            Made::DomainMetadata => Some(Transform::DomainMetadata(DomainMetadataTransform)),
            Made::Version => Some(Transform::ProtocolVersion(ProtocolVersionTransform)),
            Made::Signals => Some(Transform::FeatureSignals(FeatureSignalTransform)),
            Made::Nothing => None,
        }
    }
}

fn ids(registry: &TransformRegistry<Made>, pairs: &[(&str, &str)]) -> Vec<TransformId> {
    let transforms = registry.select_transforms_to_trigger(&props(pairs)).unwrap();
    transforms.iter().map(|t| t.id()).collect()
}

#[test]
fn a_dependency_is_selected_with_what_needs_it() {
    let mut registry = TransformRegistry::new();
    registry.register_feature_transform(
        TransformId::DomainMetadata,
        TableFeature::DomainMetadata,
        TransformTrigger::FeatureSignal(TableFeature::DomainMetadata),
        Made::DomainMetadata,
    );
    registry.register_builder_transform(
        TransformId::Clustering,
        TransformTrigger::Property("cluster"),
        Made::Clustering,
    );
    assert_eq!(ids(&registry, &[]), vec![]);
    assert_eq!(
        ids(&registry, &[("cluster", "yes")]),
        vec![TransformId::Clustering, TransformId::DomainMetadata]
    );
    assert_eq!(
        ids(&registry, &[("cluster", "yes"), ("delta.feature.domainMetadata", "supported")]),
        vec![TransformId::DomainMetadata, TransformId::Clustering]
    );
}

#[test]
fn a_transform_is_selected_once() {
    let mut registry = TransformRegistry::new();
    for trigger in [TransformTrigger::Always, TransformTrigger::Property("p")] {
        registry.register_builder_transform(TransformId::ProtocolVersion, trigger, Made::Version);
    }
    assert_eq!(ids(&registry, &[("p", "")]), vec![TransformId::ProtocolVersion]);
}

#[test]
fn triggers_and_factories_can_decline() {
    let mut registry = TransformRegistry::new();
    registry.register_builder_transform(
        TransformId::Partitioning,
        TransformTrigger::Always,
        Made::Nothing,
    );
    registry.register_builder_transform(
        TransformId::ProtocolVersion,
        TransformTrigger::SchemaType(SchemaTypeCheck::ContainsType(primitive(
            PrimitiveType::TimestampNtz,
        ))),
        Made::Version,
    );
    registry.register_builder_transform(
        TransformId::ProtocolVersion,
        TransformTrigger::DataLayout(DataLayoutKind::Clustered),
        Made::Version,
    );
    registry.register_builder_transform(
        TransformId::FeatureSignals,
        TransformTrigger::FeatureSignalsPresent,
        Made::Signals,
    );
    assert_eq!(ids(&registry, &[("x", "y")]), vec![]);
    assert_eq!(ids(&registry, &[("delta.feature.", "y")]), vec![TransformId::FeatureSignals]);
}

#[test]
fn a_dependency_that_nothing_makes_is_left_out() {
    let properties = PropertyMap::new();
    let context = TransformContext::new(&properties);
    let registry: TransformRegistry<Made> = TransformRegistry::new();
    let mut transforms = vec![Transform::Clustering(ClusteringTransform::new(vec![]))];
    let mut included_ids = vec![TransformId::Clustering];
    registry.resolve_transform_dependencies(&context, &mut transforms, &mut included_ids);
    assert_eq!(transforms.len(), 1);
    assert_eq!(included_ids, vec![TransformId::Clustering]);

    let mut declining = TransformRegistry::new();
    declining.register_builder_transform(
        TransformId::DomainMetadata,
        TransformTrigger::Property("never"),
        Made::Nothing,
    );
    declining.register_builder_transform(
        TransformId::Clustering,
        TransformTrigger::Always,
        Made::Clustering,
    );
    assert_eq!(ids(&declining, &[]), vec![TransformId::Clustering]);
}

#[test]
fn triggers_are_cloned_part_by_part() {
    let properties = props(&[("p", ""), ("delta.feature.rowTracking", "supported")]);
    let triggers = [
        (TransformTrigger::Always, true),
        (TransformTrigger::FeatureSignal(TableFeature::RowTracking), true),
        (TransformTrigger::FeatureSignal(TableFeature::ColumnMapping), false),
        (TransformTrigger::Property("p"), true),
        (TransformTrigger::Property("q"), false),
        (TransformTrigger::DataLayout(DataLayoutKind::Partitioned), false),
        (TransformTrigger::FeatureSignalsPresent, true),
    ];
    for (trigger, fires) in &triggers {
        assert_eq!(trigger.is_triggered(&properties), *fires);
        assert_eq!(trigger.clone().is_triggered(&properties), *fires);
    }
    let record = DataType::Struct(Box::new(schema_of(map(
        primitive(PrimitiveType::Date),
        array(primitive(PrimitiveType::Binary)),
    ))));
    let check = SchemaTypeCheck::ContainsType(record.clone());
    match TransformTrigger::SchemaType(check).clone() {
        TransformTrigger::SchemaType(SchemaTypeCheck::ContainsType(copy)) => {
            assert!(copy.same(&record));
        }
        other => panic!("{:?}", other),
    }
}
