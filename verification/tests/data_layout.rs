use delta_table_creation::error::DeltaError;
use delta_table_creation::schema::{ColumnName, DataType, PrimitiveType, StructField, StructType};
use delta_table_creation::table_properties::PropertyMap;
use delta_table_creation::table_protocol_metadata_config::TableProtocolMetadataConfig;
use delta_table_creation::table_transformation::transforms::{
    ClusteringTransform, PartitioningTransform,
};
use delta_table_creation::table_transformation::ProtocolMetadataTransform;
use delta_table_creation::transaction::data_layout::{DataLayout, MAX_CLUSTERING_COLUMNS};

fn shown(columns: &[ColumnName]) -> Vec<Vec<String>> {
    columns.iter().map(|c| c.path().clone()).collect()
}

fn message(r: Result<DataLayout, DeltaError>) -> String {
    match r {
        Err(DeltaError::Generic(m)) => m,
        other => panic!("{:?}", other),
    }
}

#[test]
fn the_default_layout_is_unorganized() {
    let layout = DataLayout::default();
    assert!(matches!(layout, DataLayout::Unorganized));
    assert!(!layout.is_partitioned());
    assert!(!layout.is_clustered());
}

#[test]
fn partitioned_layouts_keep_their_columns() {
    let layout = DataLayout::partitioned(&["date", "region"]).unwrap();
    assert!(layout.is_partitioned());
    assert!(!layout.is_clustered());
    match layout {
        DataLayout::Partitioned { columns } => {
            assert_eq!(shown(&columns), vec![vec!["date"], vec!["region"]]);
        }
        other => panic!("{:?}", other),
    }
    assert_eq!(
        message(DataLayout::partitioned(&[])),
        "Partitioned layout requires at least one column"
    );
    // There is no limit on partition columns, and a dot does not make a path.
    let many = DataLayout::partitioned(&["a.b", "c", "d", "e", "f"]).unwrap();
    match many {
        DataLayout::Partitioned { columns } => {
            assert_eq!(columns.len(), 5);
            assert_eq!(shown(&columns)[0], vec!["a.b"]);
        }
        other => panic!("{:?}", other),
    }
}

#[test]
fn clustered_layouts_are_limited() {
    assert_eq!(MAX_CLUSTERING_COLUMNS, 4);
    let layout = DataLayout::clustered(&["id", "timestamp", "a", "b"]).unwrap();
    assert!(layout.is_clustered());
    assert!(!layout.is_partitioned());
    match layout {
        DataLayout::Clustered { columns } => {
            assert_eq!(shown(&columns), vec![vec!["id"], vec!["timestamp"], vec!["a"], vec!["b"]]);
        }
        other => panic!("{:?}", other),
    }
    assert_eq!(
        message(DataLayout::clustered(&[])),
        "Clustered layout requires at least one column"
    );
    assert_eq!(
        message(DataLayout::clustered(&["a", "b", "c", "d", "e"])),
        "Clustered layout supports at most 4 columns, got 5"
    );
    assert_eq!(
        message(DataLayout::clustered(&["x"; 120])),
        "Clustered layout supports at most 4 columns, got 120"
    );
}

#[test]
fn column_names_are_shown_with_quotes_where_needed() {
    let shown = |parts: &[&str]| {
        ColumnName::new(parts.iter().map(|p| p.to_string()).collect()).display()
    };
    assert_eq!(shown(&["a_1", "B"]), "a_1.B");
    assert_eq!(shown(&["a.b"]), "`a.b`");
    assert_eq!(shown(&["1a", "", "x`y"]), "`1a`.``.`x``y`");
    assert_eq!(shown(&["\u{e9}"]), "`\u{e9}`");
    assert_eq!(shown(&[]), "");
}

#[test]
fn the_columns_of_layouts_pass_the_checks_of_transforms() {
    let field = |name: &str| StructField::new(name, DataType::Primitive(PrimitiveType::Date), true);
    let schema = StructType::new_unchecked(vec![field("a"), field("b.c")]);
    let config =
        TableProtocolMetadataConfig::new(schema, vec![], PropertyMap::new()).unwrap();
    for (names, accepted) in [(["a", "b.c"], true), (["b.c", "b"], false)] {
        match DataLayout::clustered(&names).unwrap() {
            DataLayout::Clustered { columns } => {
                let transform = ClusteringTransform::new(columns);
                assert_eq!(transform.validate_preconditions(&config).is_ok(), accepted);
            }
            other => panic!("{:?}", other),
        }
        match DataLayout::partitioned(&names).unwrap() {
            DataLayout::Partitioned { columns } => {
                let transform = PartitioningTransform::new(columns);
                assert_eq!(transform.validate_preconditions(&config).is_ok(), accepted);
            }
            other => panic!("{:?}", other),
        }
    }
}

#[test]
fn layouts_are_cloned_with_their_columns() {
    assert!(matches!(DataLayout::default().clone(), DataLayout::Unorganized));
    match DataLayout::clustered(&["a", "b"]).unwrap().clone() {
        DataLayout::Clustered { columns } => {
            assert_eq!(shown(&columns), vec![vec!["a"], vec!["b"]]);
        }
        other => panic!("{:?}", other),
    }
    match DataLayout::partitioned(&["c"]).unwrap().clone() {
        DataLayout::Partitioned { columns } => assert_eq!(shown(&columns), vec![vec!["c"]]),
        other => panic!("{:?}", other),
    }
}
