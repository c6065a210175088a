use embucket::column_info::ColumnInfo;
use embucket::convert::{convert_record_batches, first_non_empty_type, Config, DataSerializationFormat, FormatParseError, QueryResult};
use embucket::temporal::{convert_time, convert_timestamp_to_struct};
use embucket::types::{Column, ColumnData, DataType, Field, RecordBatch, TimeUnit};

fn ints(data_type: DataType, v: Vec<Option<i64>>) -> Column {
    Column { data_type, data: ColumnData::Ints(v) }
}

fn texts_of(c: &Column) -> Vec<Option<String>> {
    match &c.data {
        ColumnData::Texts(t) => t.clone(),
        other => panic!("expected text, got {other:?}"),
    }
}

fn ints_of(c: &Column) -> Vec<Option<i64>> {
    match &c.data {
        ColumnData::Ints(t) => t.clone(),
        other => panic!("expected integers, got {other:?}"),
    }
}

#[test]
fn test_first_non_empty_type() {
    let int_array = ints(DataType::Int32, vec![Some(1), None, Some(34)]);
    let float_array = Column { data_type: DataType::Float64, data: ColumnData::Opaque(3, 2) };
    let type_ids = vec![0_i8, 1, 0];
    let children = vec![int_array, float_array];
    let result = first_non_empty_type(&type_ids, &children);
    assert!(result.is_some());
    let (data_type, k) = result.unwrap();
    assert_eq!(data_type, DataType::Int32);
    assert_eq!(children[k].data.num_rows(), 3);
}

#[test]
fn test_convert_timestamp_to_struct() {
    let cases = [
        (TimeUnit::Second, Some(1_627_846_261), "1627846261", 1_627_846_261),
        (TimeUnit::Millisecond, Some(1_627_846_261_233), "1627846261.233", 1_627_846_261_233),
        (TimeUnit::Microsecond, Some(1_627_846_261_233_222), "1627846261.233222", 1_627_846_261_233_222),
        (TimeUnit::Nanosecond, Some(1_627_846_261_233_222_111), "1627846261.233222111", 1_627_846_261_233_222_111),
    ];
    for (unit, timestamp, expected_json, expected_arrow) in &cases {
        let column = || ints(DataType::Timestamp(*unit, None), vec![*timestamp, None]);
        let result = convert_timestamp_to_struct(column(), *unit, DataSerializationFormat::Json);
        assert_eq!(result.data_type, DataType::Utf8);
        let string_array = texts_of(&result);
        assert_eq!(string_array.len(), 2);
        assert_eq!(string_array[0].as_deref(), Some(*expected_json));
        assert!(string_array[1].is_none());
        let result = convert_timestamp_to_struct(column(), *unit, DataSerializationFormat::Arrow);
        assert_eq!(result.data_type, DataType::Int64);
        let int_array = ints_of(&result);
        assert_eq!(int_array.len(), 2);
        assert_eq!(int_array[0], Some(*expected_arrow));
        assert!(int_array[1].is_none());
    }
}

const TIME_12_54_33_NS: i64 = 46_473_000_000_000;

#[test]
fn test_convert_time() {
    let cases = [
        (TimeUnit::Second, TIME_12_54_33_NS / 1_000_000_000, "46473.000", 46_473i64),
        (TimeUnit::Millisecond, (TIME_12_54_33_NS + 333_000_000) / 1_000_000, "46473.333", 46_473_333i64),
        (TimeUnit::Millisecond, TIME_12_54_33_NS / 1_000_000, "46473.000", 46_473_000i64),
        (TimeUnit::Microsecond, (TIME_12_54_33_NS + 333_000) / 1_000, "46473.000333", 46_473_000_333i64),
        (TimeUnit::Microsecond, TIME_12_54_33_NS / 1_000, "46473.000000", 46_473_000_000i64),
        (TimeUnit::Nanosecond, TIME_12_54_33_NS + 333, "46473.000000333", 46_473_000_000_333i64),
        (TimeUnit::Nanosecond, TIME_12_54_33_NS, "46473.000000000", 46_473_000_000_000i64),
    ];
    for (unit, timestamp, expected_json, expected_arrow) in &cases {
        let data_type = match unit {
            TimeUnit::Second | TimeUnit::Millisecond => DataType::Time32(*unit),
            _ => DataType::Time64(*unit),
        };
        let column = || ints(data_type.clone(), vec![Some(*timestamp), None]);
        let result = convert_time(column(), *unit, DataSerializationFormat::Json);
        let string_array = texts_of(&result);
        assert_eq!(string_array.len(), 2);
        assert_eq!(string_array[0].as_deref(), Some(*expected_json));
        assert!(string_array[1].is_none());
        let result = convert_time(column(), *unit, DataSerializationFormat::Arrow);
        let int_array = ints_of(&result);
        assert_eq!(int_array.len(), 2);
        assert_eq!(int_array[0], Some(*expected_arrow));
        assert!(int_array[1].is_none());
    }
}

fn mixed_result() -> QueryResult {
    let schema = vec![
        Field::new("int_col".to_string(), DataType::Int32, false),
        Field::new("ts_col".to_string(), DataType::Timestamp(TimeUnit::Second, None), true),
        Field::new("binary_view".to_string(), DataType::BinaryView, true),
        Field::new("binary_view".to_string(), DataType::Utf8View, true),
        Field::new("boolean".to_string(), DataType::Boolean, true),
    ];
    let columns = vec![
        ints(DataType::Int32, vec![Some(1), Some(2), Some(3)]),
        ints(DataType::Timestamp(TimeUnit::Second, None), vec![Some(1_627_846_261), None, Some(1_627_846_262)]),
        Column {
            data_type: DataType::BinaryView,
            data: ColumnData::Bytes(vec![Some(b"hello".to_vec()), Some(b"world".to_vec()), Some(b"lulu".to_vec())]),
        },
        Column {
            data_type: DataType::Utf8View,
            data: ColumnData::Texts(vec![Some("hello".to_string()), Some("world".to_string()), Some("lulu".to_string())]),
        },
        Column { data_type: DataType::Boolean, data: ColumnData::Bools(vec![Some(false), Some(true), None]) },
    ];
    let batch = RecordBatch::try_new(schema.clone(), columns).unwrap();
    QueryResult::new(vec![batch], schema, 0)
}

#[test]
fn test_convert_record_batches() {
    let result = mixed_result();
    let column_infos = result.column_info();

    // === JSON conversion ===
    let converted_batches = convert_record_batches(result, DataSerializationFormat::Json).unwrap();
    assert_eq!(converted_batches.len(), 1);
    let batch = &converted_batches[0];
    assert_eq!(batch.columns.len(), 5);
    assert_eq!(batch.columns[0].data.num_rows(), 3);

    // timestamp → string
    let arr = texts_of(&batch.columns[1]);
    assert_eq!(arr[0].as_deref(), Some("1627846261"));
    assert!(arr[1].is_none());
    assert_eq!(arr[2].as_deref(), Some("1627846262"));

    // binary_view → string
    let arr = texts_of(&batch.columns[2]);
    assert_eq!(arr[0].as_deref(), Some("hello"));
    assert_eq!(arr[1].as_deref(), Some("world"));
    assert_eq!(arr[2].as_deref(), Some("lulu"));

    // utf8_view → string
    let arr = texts_of(&batch.columns[3]);
    assert_eq!(arr[0].as_deref(), Some("hello"));
    assert_eq!(arr[1].as_deref(), Some("world"));
    assert_eq!(arr[2].as_deref(), Some("lulu"));

    // boolean → "TRUE"/"FALSE"/""
    let arr = texts_of(&batch.columns[4]);
    assert_eq!(arr[0].as_deref(), Some("FALSE"));
    assert_eq!(arr[1].as_deref(), Some("TRUE"));
    // null boolean to empty string: Arrow reads a null slot of a string array as ""
    assert_eq!(arr[2].as_deref().unwrap_or(""), "");

    // column info
    assert_eq!(column_infos[0].name, "int_col");
    assert_eq!(column_infos[0].column_type, "fixed");
    assert_eq!(column_infos[1].name, "ts_col");
    assert_eq!(column_infos[1].column_type, "timestamp_ntz");
    assert_eq!(column_infos[2].name, "binary_view");
    assert_eq!(column_infos[2].column_type, "binary");

    // === Arrow conversion ===
    let converted_batches = convert_record_batches(mixed_result(), DataSerializationFormat::Arrow).unwrap();
    let arr = ints_of(&converted_batches[0].columns[1]);
    assert_eq!(arr[0], Some(1_627_846_261));
    assert!(arr[1].is_none());
    assert_eq!(arr[2], Some(1_627_846_262));
}

fn metadata_value(field: &Field, key: &str) -> String {
    field.metadata.iter().find(|(k, _)| k == key).map(|(_, v)| v.clone()).unwrap()
}

fn check_record_batches_uint_to_int(
    batches: &[RecordBatch],
    converted_batches: Vec<RecordBatch>,
    column_infos: Vec<ColumnInfo>,
) -> i32 {
    assert_eq!(batches.len(), 1);
    assert_eq!(converted_batches.len(), 1);
    let batch = &batches[0];
    let converted_batch = &converted_batches[0];
    assert_eq!(converted_batch.columns.len(), batch.columns.len());
    assert_eq!(converted_batch.columns[0].data.num_rows(), batch.columns[0].data.num_rows());

    let mut fields_tested = 0;
    for (i, field) in batch.schema.iter().enumerate() {
        let converted_field = converted_batch.schema.iter().find(|f| f.name == field.name).unwrap();
        let column_info = &column_infos[i];
        let converted_column = &converted_batch.columns[i];
        assert_eq!(column_infos[i].name, converted_field.name);
        assert_eq!(column_infos[i].column_type.to_ascii_uppercase(), metadata_value(converted_field, "logicalType"));
        let metadata_precision: i32 = metadata_value(converted_field, "precision").parse().unwrap();
        let metadata_scale: i32 = metadata_value(converted_field, "scale").parse().unwrap();
        assert_ne!(column_info.precision.unwrap(), 0);
        assert_eq!(column_info.precision.unwrap(), metadata_precision);
        assert_eq!(column_info.scale.unwrap(), metadata_scale);
        match field.data_type {
            DataType::UInt64 => {
                assert_eq!(
                    converted_field.data_type,
                    DataType::Decimal128(u8::try_from(metadata_precision).unwrap(), i8::try_from(metadata_scale).unwrap())
                );
                match &converted_column.data {
                    ColumnData::Decimals(v) => assert_eq!(v, &vec![Some(0), Some(1), Some(i128::from(u64::MAX))]),
                    other => panic!("expected decimals, got {other:?}"),
                }
                fields_tested += 1;
            }
            DataType::UInt32 => {
                assert_eq!(converted_field.data_type, DataType::Int64);
                assert_eq!(ints_of(converted_column), vec![Some(0), Some(1), Some(i64::from(u32::MAX))]);
                fields_tested += 1;
            }
            DataType::UInt16 => {
                assert_eq!(converted_field.data_type, DataType::Int32);
                assert_eq!(ints_of(converted_column), vec![Some(0), Some(1), Some(i64::from(u16::MAX))]);
                fields_tested += 1;
            }
            DataType::UInt8 => {
                assert_eq!(converted_field.data_type, DataType::Int16);
                assert_eq!(ints_of(converted_column), vec![Some(0), Some(1), Some(i64::from(u8::MAX))]);
                fields_tested += 1;
            }
            _ => panic!("Bad DataType: {:?}", field.data_type),
        }
    }
    fields_tested
}

fn uint_batch() -> RecordBatch {
    let schema = vec![
        Field::new("row_num_uint64".to_string(), DataType::UInt64, false),
        Field::new("row_num_uint32".to_string(), DataType::UInt32, false),
        Field::new("row_num_uint16".to_string(), DataType::UInt16, false),
        Field::new("row_num_uint8".to_string(), DataType::UInt8, false),
    ];
    let uints = |t: DataType, max: u64| Column { data_type: t, data: ColumnData::UInts(vec![Some(0), Some(1), Some(max)]) };
    RecordBatch::try_new(
        schema,
        vec![
            uints(DataType::UInt64, u64::MAX),
            uints(DataType::UInt32, u64::from(u32::MAX)),
            uints(DataType::UInt16, u64::from(u16::MAX)),
            uints(DataType::UInt8, u64::from(u8::MAX)),
        ],
    )
    .unwrap()
}

#[test]
fn test_convert_record_batches_uint() {
    let input = vec![uint_batch()];
    let schema = input[0].schema.clone();
    let query_result = QueryResult::new(vec![uint_batch()], schema, 0);
    let column_infos = query_result.column_info();
    let converted_batches = convert_record_batches(query_result, DataSerializationFormat::Arrow).unwrap();
    let fields_tested = check_record_batches_uint_to_int(&input, converted_batches, column_infos);
    assert_eq!(fields_tested, 4);
}

#[test]
fn test_convert_record_batches_dates() {
    let date32_values = vec![Some(1), Some(2), None];
    let date64_values = vec![Some(86_400_000), Some(172_800_000), None]; // 1, 2 days in ms
    let schema = vec![
        Field::new("date32_col".to_string(), DataType::Date32, true),
        Field::new("date64_col".to_string(), DataType::Date64, true),
    ];
    let record_batch = RecordBatch::try_new(
        schema.clone(),
        vec![ints(DataType::Date32, date32_values.clone()), ints(DataType::Date64, date64_values.clone())],
    )
    .unwrap();
    let query_result = QueryResult::new(vec![record_batch], schema, 0);
    let converted_batches = convert_record_batches(query_result, DataSerializationFormat::Json).unwrap();
    let converted_batch = &converted_batches[0];
    assert_eq!(converted_batch.columns[0].data_type, DataType::Int32);
    assert_eq!(converted_batch.columns[1].data_type, DataType::Int32);
    let result_date32 = ints_of(&converted_batch.columns[0]);
    let result_date64 = ints_of(&converted_batch.columns[1]);
    for i in 0..3 {
        assert_eq!(result_date32[i].is_none(), date32_values[i].is_none());
        assert_eq!(result_date64[i].is_none(), date64_values[i].is_none());
        if let (Some(orig32), Some(orig64)) = (date32_values[i], date64_values[i]) {
            assert_eq!(result_date32[i], Some(orig32));
            assert_eq!(result_date64[i], Some(orig64 / 86_400_000));
        }
    }
}

#[test]
fn format_names_parse_back() {
    for f in [DataSerializationFormat::Arrow, DataSerializationFormat::Json] {
        assert_eq!(DataSerializationFormat::from_str(&f.to_string()), Ok(f));
        assert_eq!(DataSerializationFormat::from_str(&f.to_string().to_uppercase()), Ok(f));
    }
    assert_eq!(DataSerializationFormat::from_str("csv"), Err(FormatParseError::VariantNotFound));
    assert_eq!(DataSerializationFormat::default(), DataSerializationFormat::Json);
}

#[test]
fn config_carries_the_engine_version() {
    assert_eq!(Config::default().embucket_version, "0.1.0");
    assert_eq!(Config::new().unwrap().embucket_version, "0.1.0");
}

#[test]
fn json_decimals_become_text() {
    let schema = vec![Field::new("d".to_string(), DataType::Decimal128(10, 2), true)];
    let col = Column { data_type: DataType::Decimal128(10, 2), data: ColumnData::Decimals(vec![Some(12345), None, Some(-5)]) };
    let batch = RecordBatch::try_new(schema.clone(), vec![col]).unwrap();
    let converted = convert_record_batches(QueryResult::new(vec![batch], schema, 0), DataSerializationFormat::Json).unwrap();
    let arr = texts_of(&converted[0].columns[0]);
    assert_eq!(arr[0].as_deref(), Some("123.45"));
    assert!(arr[1].is_none());
    assert_eq!(arr[2].as_deref(), Some("-0.05"));
}

#[test]
fn invalid_utf8_binary_becomes_null() {
    let schema = vec![Field::new("b".to_string(), DataType::BinaryView, true)];
    let columns = vec![Column {
        data_type: DataType::BinaryView,
        data: ColumnData::Bytes(vec![Some(vec![0xff, 0xfe]), Some("ünï".as_bytes().to_vec()), None]),
    }];
    let batch = RecordBatch::try_new(schema.clone(), columns).unwrap();
    let converted = convert_record_batches(QueryResult::new(vec![batch], schema, 0), DataSerializationFormat::Json).unwrap();
    let arr = texts_of(&converted[0].columns[0]);
    assert!(arr[0].is_none());
    assert_eq!(arr[1].as_deref(), Some("ünï"));
    assert!(arr[2].is_none());
}

#[test]
fn timestamp_fractions_keep_their_leading_zeros() {
    let cases = [
        (TimeUnit::Millisecond, 1_627_846_261_005, "1627846261.005"),
        (TimeUnit::Microsecond, 1_627_846_261_000_042, "1627846261.000042"),
        (TimeUnit::Nanosecond, 1_627_846_261_000_000_007, "1627846261.000000007"),
        (TimeUnit::Millisecond, 1_627_846_261_000, "1627846261.000"),
    ];
    for (unit, v, expected) in cases {
        let result = convert_timestamp_to_struct(ints(DataType::Timestamp(unit, None), vec![Some(v)]), unit, DataSerializationFormat::Json);
        assert_eq!(texts_of(&result)[0].as_deref(), Some(expected));
    }
}
