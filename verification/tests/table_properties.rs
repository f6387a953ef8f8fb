use delta_table_creation::clock::{current_time_ms, timestamp_ms, timestamp_of};
use delta_table_creation::error::DeltaError;
use delta_table_creation::schema::{DataType, PrimitiveType, StructField, StructType};
use delta_table_creation::table_properties::PropertyMap;
use std::time::{Duration, UNIX_EPOCH};

fn pairs(map: &PropertyMap) -> Vec<(String, String)> {
    (0..map.len()).map(|i| (map.key_at(i).to_string(), map.value_at(i).to_string())).collect()
}

fn entry(k: &str, v: &str) -> (String, String) {
    (k.to_string(), v.to_string())
}

#[test]
fn properties_are_put_found_and_removed() {
    let mut map = PropertyMap::new();
    assert!(map.is_empty());
    for (k, v) in [("a", "1"), ("b", "2"), ("c", "3"), ("b", "4")] {
        map.insert(k.to_string(), v.to_string());
    }
    assert_eq!(pairs(&map), vec![entry("a", "1"), entry("b", "4"), entry("c", "3")]);
    assert_eq!(map.get("b"), Some("4"));
    assert_eq!(map.get("B"), None);
    assert!(map.contains_key("c"));
    let copy = map.clone();
    map.remove("b");
    map.remove("missing");
    assert_eq!(pairs(&map), vec![entry("a", "1"), entry("c", "3")]);
    assert!(!map.contains_key("b"));
    assert_eq!(copy.len(), 3);
}

#[test]
fn fields_are_found_by_name() {
    let field = |name: &str, t: PrimitiveType| StructField::new(name, DataType::Primitive(t), true);
    let schema = StructType::new_unchecked(vec![
        field("a", PrimitiveType::Long),
        field("b", PrimitiveType::Date),
        field("b", PrimitiveType::Byte),
    ]);
    let found = schema.field("b").unwrap();
    assert!(found.data_type.same(&DataType::Primitive(PrimitiveType::Date)));
    assert!(schema.field("c").is_none());
    assert!(schema.same(&schema));
    assert!(!schema.same(&StructType::new_unchecked(vec![])));
}

#[test]
fn clock_readings_fit_in_64_bits() {
    assert_eq!(timestamp_ms(0).unwrap(), 0);
    assert_eq!(timestamp_ms(i64::MAX as u128).unwrap(), i64::MAX);
    match timestamp_ms(i64::MAX as u128 + 1) {
        Err(DeltaError::Generic(m)) => {
            assert_eq!(m, "The current timestamp exceeds the range of 64-bit milliseconds");
        }
        other => panic!("{:?}", other),
    }
    let first = current_time_ms().unwrap();
    let second = current_time_ms().unwrap();
    assert!(first > 1_577_836_800_000 && second > 1_577_836_800_000);
}

#[test]
fn clock_readings_become_timestamps() {
    assert_eq!(timestamp_of(Ok(Duration::from_micros(1_234_567))).unwrap(), 1234);
    assert_eq!(timestamp_of(Ok(Duration::new(0, 999_999))).unwrap(), 0);
    match timestamp_of(Ok(Duration::MAX)) {
        Err(DeltaError::Generic(m)) => {
            assert_eq!(m, "The current timestamp exceeds the range of 64-bit milliseconds");
        }
        other => panic!("{:?}", other),
    }
    let before_epoch = UNIX_EPOCH.duration_since(UNIX_EPOCH + Duration::from_secs(1));
    match timestamp_of(before_epoch) {
        Err(DeltaError::Generic(m)) => assert_eq!(m, "The system clock is before the Unix epoch"),
        other => panic!("{:?}", other),
    }
}
