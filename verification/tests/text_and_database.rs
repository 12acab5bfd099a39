use telemetry_server::database::{
    dataset_from_answer, datum_from_parts, datum_from_row, influx_line, querydb_suppress_errors, sql_query,
    DatasetError, JsonValue, RowFault, TelemetryDatum,
};
use telemetry_server::text::{decimal_string, push_decimal};

fn text(s: &str) -> JsonValue {
    JsonValue::Str(s.to_string())
}

fn row(cells: Vec<JsonValue>) -> JsonValue {
    JsonValue::Array(cells)
}

fn answer_with(dataset: JsonValue) -> JsonValue {
    JsonValue::Object(vec![
        ("query".to_string(), text("SELECT 1")),
        ("dataset".to_string(), dataset),
    ])
}

#[test]
fn decimal_renders_like_display() {
    for n in [0u64, 7, 9, 10, 42, 100, 1234567890, u64::MAX] {
        assert_eq!(decimal_string(n), n.to_string());
    }
}

#[test]
fn push_decimal_appends() {
    let mut s = String::from("t=");
    push_decimal(&mut s, 305);
    assert_eq!(s, "t=305");
}

#[test]
fn influx_line_matches_line_protocol() {
    let line = influx_line("pwr.temp", "21.5", 1600000000123);
    assert_eq!(line, "pwr.temp value=21.5 1600000000123000000\n\n");
}

#[test]
fn influx_line_zero_timestamp() {
    assert_eq!(influx_line("k", "1", 0), "k value=1 0000000\n\n");
}

#[test]
fn influx_timestamp_is_nanoseconds() {
    let ms: u64 = 1600000000123;
    let line = influx_line("k", "3", ms);
    let nanos = (ms as u128 * 1_000_000).to_string();
    assert!(line.ends_with(&format!(" {}\n\n", nanos)));
}

#[test]
fn sql_query_text() {
    let q = sql_query("sat.batt", 10, 25);
    assert_eq!(
        q,
        "SELECT * FROM \"sat.batt\" WHERE timestamp BETWEEN CAST(10000000 AS TIMESTAMP) AND CAST(25000000 AS TIMESTAMP)"
    );
}

#[test]
fn member_finds_first_and_ignores_non_objects() {
    let obj = JsonValue::Object(vec![
        ("a".to_string(), JsonValue::Number(1)),
        ("b".to_string(), JsonValue::Number(2)),
        ("a".to_string(), JsonValue::Number(3)),
    ]);
    assert!(matches!(obj.member("a"), Some(JsonValue::Number(1))));
    assert!(matches!(obj.member("b"), Some(JsonValue::Number(2))));
    assert!(obj.member("c").is_none());
    assert!(JsonValue::Array(vec![]).member("a").is_none());
    assert!(JsonValue::Null.member("a").is_none());
}

#[test]
fn row_with_plain_milliseconds() {
    let bits = 21.5f64.to_bits();
    let r = datum_from_row(&row(vec![JsonValue::Number(bits), text("1500")]));
    assert_eq!(r, Ok(TelemetryDatum { timestamp: 1500, value_bits: bits }));
}

#[test]
fn row_timestamp_goes_through_ms_converter() {
    let r = datum_from_row(&row(vec![JsonValue::Number(0), text("1d")]));
    assert_eq!(r, Ok(TelemetryDatum { timestamp: 86_400_000, value_bits: 0 }));
}

#[test]
fn row_faults() {
    assert_eq!(datum_from_row(&JsonValue::Null), Err(RowFault::NotAnArray));
    assert_eq!(datum_from_row(&row(vec![])), Err(RowFault::MissingValue));
    assert_eq!(datum_from_row(&row(vec![text("1"), text("2")])), Err(RowFault::ValueNotANumber));
    assert_eq!(datum_from_row(&row(vec![JsonValue::Number(1)])), Err(RowFault::MissingTimestamp));
    assert_eq!(
        datum_from_row(&row(vec![JsonValue::Number(1), JsonValue::Number(2)])),
        Err(RowFault::TimestampNotAString)
    );
    assert_eq!(
        datum_from_row(&row(vec![JsonValue::Number(1), text("2020-01-01T00:00:00.000000Z")])),
        Err(RowFault::TimestampUnreadable)
    );
}

#[test]
fn dataset_in_row_order() {
    let answer = answer_with(JsonValue::Array(vec![
        row(vec![JsonValue::Number(5), text("20")]),
        row(vec![JsonValue::Number(6), text("10"), JsonValue::Bool(true)]),
    ]));
    let data = dataset_from_answer(&answer).unwrap();
    assert_eq!(
        data,
        vec![
            TelemetryDatum { timestamp: 20, value_bits: 5 },
            TelemetryDatum { timestamp: 10, value_bits: 6 },
        ]
    );
}

#[test]
fn dataset_empty() {
    let answer = answer_with(JsonValue::Array(vec![]));
    assert_eq!(dataset_from_answer(&answer), Ok(vec![]));
}

#[test]
fn dataset_missing_or_not_array() {
    assert_eq!(dataset_from_answer(&JsonValue::Null), Err(DatasetError::DatasetNotAnArray));
    let no_dataset = JsonValue::Object(vec![("count".to_string(), JsonValue::Number(0))]);
    assert_eq!(dataset_from_answer(&no_dataset), Err(DatasetError::DatasetNotAnArray));
    assert_eq!(
        dataset_from_answer(&answer_with(text("rows"))),
        Err(DatasetError::DatasetNotAnArray)
    );
}

#[test]
fn dataset_reports_first_bad_row() {
    let answer = answer_with(JsonValue::Array(vec![
        row(vec![JsonValue::Number(5), text("20")]),
        row(vec![JsonValue::Number(6)]),
        JsonValue::Null,
    ]));
    assert_eq!(
        dataset_from_answer(&answer),
        Err(DatasetError::BadRow { index: 1, fault: RowFault::MissingTimestamp })
    );
}

#[test]
fn suppress_errors() {
    let data = vec![TelemetryDatum { timestamp: 1, value_bits: 2 }];
    assert_eq!(querydb_suppress_errors::<String>(Ok(data.clone())), data);
    assert!(querydb_suppress_errors(Err::<Vec<TelemetryDatum>, String>("down".to_string())).is_empty());
}

#[test]
fn datum_from_parts_cases() {
    assert_eq!(datum_from_parts(9, Some(12)), Ok(TelemetryDatum { timestamp: 12, value_bits: 9 }));
    assert_eq!(datum_from_parts(9, Some(-1)), Ok(TelemetryDatum { timestamp: u64::MAX, value_bits: 9 }));
    assert_eq!(datum_from_parts(9, None), Err(RowFault::TimestampUnreadable));
}
