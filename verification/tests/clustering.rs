use delta_table_creation::clustering::{
    get_clustering_columns, parse_clustering_columns, ClusteringDomainMetadata, Decoded,
};
use delta_table_creation::error::DeltaError;
use delta_table_creation::schema::ColumnName;

/// Reads the one field that matters and ignores the others.
fn decode(text: &str) -> Decoded {
    let value: serde_json::Value = serde_json::from_str(text).map_err(|e| e.to_string())?;
    let field = match value.get("clusteringColumns") {
        Some(field) => field.clone(),
        None => return Err("missing field `clusteringColumns`".to_string()),
    };
    let clustering_columns = serde_json::from_value(field).map_err(|e| e.to_string())?;
    Ok(ClusteringDomainMetadata { clustering_columns })
}

fn shown(columns: Vec<ColumnName>) -> Vec<Vec<String>> {
    columns.iter().map(|c| c.path().clone()).collect()
}

fn check_parse(json: &str, expected: Vec<Vec<&str>>) {
    let columns = parse_clustering_columns(json, &decode).unwrap();
    assert_eq!(shown(columns), expected);
}

#[test]
fn test_parse_clustering_columns_simple() {
    check_parse(
        r#"{"clusteringColumns": [["col1"], ["col2"]]}"#,
        vec![vec!["col1"], vec!["col2"]],
    );
}

#[test]
fn test_parse_clustering_columns_empty() {
    check_parse(r#"{"clusteringColumns": []}"#, vec![]);
}

#[test]
fn test_parse_clustering_columns_nested() {
    check_parse(
        r#"{"clusteringColumns": [["id"], ["user", "address", "city"], ["a", "b", "c", "d", "e"]]}"#,
        vec![vec!["id"], vec!["user", "address", "city"], vec!["a", "b", "c", "d", "e"]],
    );
}

#[test]
fn test_parse_clustering_columns_special_characters() {
    check_parse(
        r#"{"clusteringColumns": [["col.with.dot"], ["`backticks`", "nested"]]}"#,
        vec![vec!["col.with.dot"], vec!["`backticks`", "nested"]],
    );
}

#[test]
fn test_parse_clustering_columns_tolerates_unknown_fields() {
    check_parse(
        r#"{"clusteringColumns": [["col1"]], "foo": "bar", "futureField": 123}"#,
        vec![vec!["col1"]],
    );
}

#[test]
fn malformed_configurations_are_errors() {
    for json in ["", "{}", "[", r#"{"clusteringColumns": ["a"]}"#] {
        let reason = match decode(json) {
            Err(reason) => reason,
            Ok(_) => panic!("decoded"),
        };
        match parse_clustering_columns(json, &decode) {
            Err(DeltaError::MalformedJson(e)) => assert_eq!(e, reason),
            other => panic!("{:?}", other),
        }
    }
}

#[test]
fn a_scan_decides_whether_there_are_columns() {
    assert!(matches!(get_clustering_columns(Ok(None), &decode), Ok(None)));
    let failed = get_clustering_columns(Err(DeltaError::Storage("gone".to_string())), &decode);
    assert!(matches!(failed, Err(DeltaError::Storage(m)) if m == "gone"));
    let found = r#"{"clusteringColumns":[["a"],["b","c"]]}"#.to_string();
    let columns = get_clustering_columns(Ok(Some(found)), &decode).unwrap().unwrap();
    assert_eq!(shown(columns), vec![vec!["a"], vec!["b", "c"]]);
    let bad = get_clustering_columns(Ok(Some("nonsense".to_string())), &decode);
    assert!(matches!(bad, Err(DeltaError::MalformedJson(_))));
}

#[test]
fn columns_are_read_back() {
    let columns: Vec<Vec<String>> = vec![
        vec!["plain".to_string()],
        vec!["quote \" and \\ slash".to_string(), "\u{e9}\n".to_string()],
        vec![],
    ];
    let text = ClusteringDomainMetadata { clustering_columns: columns.clone() }.to_json().unwrap();
    assert_eq!(
        text,
        "{\"clusteringColumns\":[[\"plain\"],[\"quote \\\" and \\\\ slash\",\"\u{e9}\\n\"],[]]}"
    );
    let read = parse_clustering_columns(&text, &decode).unwrap();
    assert_eq!(shown(read), columns);
}

#[test]
fn no_columns_are_an_empty_array() {
    let text = ClusteringDomainMetadata { clustering_columns: vec![] }.to_json().unwrap();
    assert_eq!(text, r#"{"clusteringColumns":[]}"#);
}
