use embucket::column_info::ColumnInfo;
use embucket::types::{DataType, Field, TimeUnit};
use std::collections::HashMap;

fn field(t: DataType, nullable: bool) -> Field {
    Field::new("test_field".to_string(), t, nullable)
}

#[test]
fn test_column_info_from_field() {
    let column_info = ColumnInfo::from_field(&field(DataType::Int8, false));
    assert_eq!(column_info.name, "test_field");
    assert_eq!(column_info.column_type, "fixed");
    assert!(!column_info.nullable);

    let column_info = ColumnInfo::from_field(&field(DataType::Decimal128(1, 2), true));
    assert_eq!(column_info.name, "test_field");
    assert_eq!(column_info.column_type, "fixed");
    assert_eq!(column_info.precision.unwrap(), 1);
    assert_eq!(column_info.scale.unwrap(), 2);
    assert!(column_info.nullable);

    let column_info = ColumnInfo::from_field(&field(DataType::Boolean, false));
    assert_eq!(column_info.name, "test_field");
    assert_eq!(column_info.column_type, "boolean");

    let column_info = ColumnInfo::from_field(&field(DataType::Time32(TimeUnit::Second), false));
    assert_eq!(column_info.name, "test_field");
    assert_eq!(column_info.column_type, "time");
    assert_eq!(column_info.precision.unwrap(), 0);
    assert_eq!(column_info.scale.unwrap(), 9);

    let column_info = ColumnInfo::from_field(&field(DataType::Date32, false));
    assert_eq!(column_info.name, "test_field");
    assert_eq!(column_info.column_type, "date");

    let units = [(TimeUnit::Second, 0), (TimeUnit::Millisecond, 3), (TimeUnit::Microsecond, 6), (TimeUnit::Nanosecond, 9)];
    for (unit, scale) in units {
        let column_info = ColumnInfo::from_field(&field(DataType::Timestamp(unit, None), false));
        assert_eq!(column_info.name, "test_field");
        assert_eq!(column_info.column_type, "timestamp_ntz");
        assert_eq!(column_info.precision.unwrap(), 0);
        assert_eq!(column_info.scale.unwrap(), scale);
    }

    let column_info = ColumnInfo::from_field(&field(DataType::Binary, false));
    assert_eq!(column_info.name, "test_field");
    assert_eq!(column_info.column_type, "binary");
    assert_eq!(column_info.byte_length.unwrap(), 8_388_608);
    assert_eq!(column_info.length.unwrap(), 8_388_608);

    // Any other type
    let column_info = ColumnInfo::from_field(&field(DataType::Utf8View, false));
    assert_eq!(column_info.name, "test_field");
    assert_eq!(column_info.column_type, "text");
    assert_eq!(column_info.byte_length, None);
    assert_eq!(column_info.length, None);

    let floats = [(DataType::Float16, 16, true), (DataType::Float32, 16, true), (DataType::Float64, 16, true), (DataType::Float64, 17, false)];
    for (float_datatype, scale, outcome) in floats {
        let column_info = ColumnInfo::from_field(&field(float_datatype, false));
        assert_eq!(column_info.name, "test_field");
        assert_eq!(column_info.column_type, "real");
        assert_eq!(column_info.precision.unwrap(), 38);
        if outcome {
            assert_eq!(column_info.scale.unwrap(), scale);
        } else {
            assert_ne!(column_info.scale.unwrap(), scale);
        }
    }
}

#[test]
fn test_to_metadata() {
    let column_info = ColumnInfo {
        name: "test_field".to_string(),
        database: "test_db".to_string(),
        schema: "test_schema".to_string(),
        table: "test_table".to_string(),
        nullable: false,
        column_type: "fixed".to_string(),
        byte_length: Some(8_388_608),
        length: Some(8_388_608),
        scale: Some(0),
        precision: Some(38),
        collation: None,
    };
    let metadata: HashMap<String, String> = column_info.to_metadata().into_iter().collect();
    assert_eq!(metadata.get("logicalType"), Some(&"FIXED".to_string()));
    assert_eq!(metadata.get("precision"), Some(&"38".to_string()));
    assert_eq!(metadata.get("scale"), Some(&"0".to_string()));
    assert_eq!(metadata.get("charLength"), Some(&"8388608".to_string()));
}

#[test]
fn metadata_defaults_for_unknown_precision_and_length() {
    let info = ColumnInfo::from_field(&field(DataType::Utf8, true));
    let metadata = info.to_metadata();
    let keys: Vec<&str> = metadata.iter().map(|(k, _)| k.as_str()).collect();
    assert_eq!(keys, vec!["logicalType", "precision", "scale", "charLength"]);
    assert_eq!(metadata[0].1, "TEXT");
}
