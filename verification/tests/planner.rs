use embucket::type_planner::{parse_timestamp_precision, parse_u64, CustomTypePlanner, PlanError, PlannedType, SqlType};
use embucket::types::{DataType, TimeUnit};

fn plan(t: SqlType) -> Result<PlannedType, PlanError> {
    CustomTypePlanner {}.plan_type(&t)
}

fn custom(name: &str, args: &[&str]) -> SqlType {
    SqlType::Custom(name.to_string(), args.iter().map(|s| s.to_string()).collect())
}

#[test]
fn parses_unsigned_integers_like_std() {
    for s in ["0", "17", "+5", "18446744073709551615", "007"] {
        assert_eq!(parse_u64(s), s.parse::<u64>().ok(), "{s}");
    }
    for s in ["", "+", "-1", "18446744073709551616", "1a", " 1"] {
        assert_eq!(parse_u64(s), None, "{s}");
    }
}

#[test]
fn timestamp_precisions() {
    assert_eq!(parse_timestamp_precision(Some(0)), Ok(TimeUnit::Second));
    assert_eq!(parse_timestamp_precision(Some(3)), Ok(TimeUnit::Millisecond));
    assert_eq!(parse_timestamp_precision(Some(6)), Ok(TimeUnit::Microsecond));
    assert_eq!(parse_timestamp_precision(Some(9)), Ok(TimeUnit::Microsecond));
    assert_eq!(parse_timestamp_precision(None), Ok(TimeUnit::Microsecond));
    assert_eq!(parse_timestamp_precision(Some(4)), Err(PlanError::UnsupportedPrecision(Some(4))));
}

#[test]
fn plain_types() {
    assert_eq!(plan(SqlType::Int32), Ok(PlannedType::Type(DataType::Int32)));
    assert_eq!(plan(SqlType::UInt32), Ok(PlannedType::Type(DataType::UInt32)));
    assert_eq!(plan(SqlType::Float(Some(10))), Ok(PlannedType::Type(DataType::Float32)));
    assert_eq!(plan(SqlType::Float64), Ok(PlannedType::Type(DataType::Float64)));
    assert_eq!(plan(SqlType::Varbinary(None)), Ok(PlannedType::Type(DataType::Binary)));
    assert_eq!(plan(SqlType::Json), Ok(PlannedType::Type(DataType::Utf8)));
    assert_eq!(plan(SqlType::Datetime(Some(3))), Ok(PlannedType::Type(DataType::Timestamp(TimeUnit::Millisecond, None))));
    assert_eq!(plan(SqlType::Other), Ok(PlannedType::Unplanned));
}

#[test]
fn snowflake_named_types() {
    assert_eq!(plan(custom("variant", &[])), Ok(PlannedType::Type(DataType::Utf8)));
    assert_eq!(plan(custom("TIMESTAMP_NTZ", &["0"])), Ok(PlannedType::Type(DataType::Timestamp(TimeUnit::Second, None))));
    assert_eq!(plan(custom("timestamp_ltz", &[])), Ok(PlannedType::Type(DataType::Timestamp(TimeUnit::Microsecond, None))));
    assert_eq!(plan(custom("TIMESTAMP_TZ", &["x"])), Ok(PlannedType::Type(DataType::Timestamp(TimeUnit::Microsecond, None))));
    assert_eq!(plan(custom("TIMESTAMP_TZ", &["5"])), Err(PlanError::UnsupportedPrecision(Some(5))));
    assert_eq!(plan(custom("NUMBER", &[])), Ok(PlannedType::Decimal(Some(38), None)));
    assert_eq!(plan(custom("number", &["10"])), Ok(PlannedType::Decimal(Some(10), None)));
    assert_eq!(plan(custom("NUMBER", &["10", "2"])), Ok(PlannedType::Decimal(Some(10), Some(2))));
    assert_eq!(plan(custom("NUMBER", &["p"])), Err(PlanError::InvalidPrecision("p".to_string())));
    assert_eq!(plan(custom("NUMBER", &["10", "s"])), Err(PlanError::InvalidScale("s".to_string())));
    assert_eq!(
        plan(custom("NUMBER", &["1", "2", "3"])),
        Err(PlanError::InvalidNumberFormat(vec!["1".to_string(), "2".to_string(), "3".to_string()]))
    );
    assert_eq!(plan(custom("GEOGRAPHY", &[])), Ok(PlannedType::Unplanned));
}
