use duckdoor::json::Json;
use duckdoor::value::{value_to_json, TimeUnit, Value};

fn shown(value: Value) -> String {
    format!("{:?}", value_to_json(&value))
}

fn text(value: &str) -> String {
    format!("{:?}", Json::Text(value.to_owned()))
}

#[test]
fn integers_of_sixty_four_bits_are_numbers() {
    assert_eq!(shown(Value::BigInt(i64::MIN)), format!("{:?}", Json::Int(i64::MIN as i128)));
    assert_eq!(shown(Value::UBigInt(u64::MAX)), format!("{:?}", Json::Int(u64::MAX as i128)));
    assert_eq!(shown(Value::TinyInt(-1)), format!("{:?}", Json::Int(-1)));
    assert_eq!(shown(Value::USmallInt(9)), format!("{:?}", Json::Int(9)));
}

#[test]
fn wide_integers_and_decimals_are_strings() {
    assert_eq!(shown(Value::HugeInt(i128::MIN)), text(&i128::MIN.to_string()));
    assert_eq!(shown(Value::UHugeInt(u128::MAX)), text(&u128::MAX.to_string()));
    assert_eq!(shown(Value::Decimal("1.50".to_owned())), text("1.50"));
}

#[test]
fn numbers_that_are_not_finite_are_null() {
    for value in [f64::NAN, f64::INFINITY, f64::NEG_INFINITY] {
        assert_eq!(shown(Value::Double(value.to_bits())), "Null");
        assert_eq!(shown(Value::Float(value.to_bits())), "Null");
    }
    for value in [0.0, -1.5, f64::MAX, f64::MIN_POSITIVE] {
        assert_eq!(
            shown(Value::Double(value.to_bits())),
            format!("{:?}", Json::Double(value.to_bits()))
        );
    }
}

#[test]
fn bytes_are_base64() {
    assert_eq!(shown(Value::Blob(vec![0, 255, 62])), text("AP8+"));
    assert_eq!(shown(Value::Geometry(vec![1])), text("AQ=="));
    assert_eq!(shown(Value::Blob(vec![1, 2])), text("AQI="));
    assert_eq!(shown(Value::Blob(b"any carnal pleas".to_vec())), text("YW55IGNhcm5hbCBwbGVhcw=="));
    assert_eq!(shown(Value::Blob(Vec::new())), text(""));
}

#[test]
fn a_field_that_comes_twice_keeps_its_last_value() {
    let record = Value::Struct(vec![
        ("a".to_owned(), Value::Int(1)),
        ("b".to_owned(), Value::Int(2)),
        ("a".to_owned(), Value::Int(3)),
    ]);
    assert_eq!(
        shown(record),
        format!(
            "{:?}",
            Json::Object(vec![("a".to_owned(), Json::Int(3)), ("b".to_owned(), Json::Int(2))])
        )
    );
}

#[test]
fn times_are_texts() {
    assert_eq!(shown(Value::Timestamp(TimeUnit::Microsecond, -5)), text("-5 Microsecond"));
    assert_eq!(shown(Value::Time64(TimeUnit::Nanosecond, 7)), text("7 Nanosecond"));
    assert_eq!(shown(Value::Date32(-3)), text("date32:-3"));
    assert_eq!(
        shown(Value::Interval { months: 1, days: -2, nanos: 3 }),
        text("1 months -2 days 3 nanos")
    );
}

#[test]
fn nested_values_are_nested() {
    let list = Value::List(vec![Value::Null, Value::Boolean(true)]);
    assert_eq!(
        shown(list),
        format!("{:?}", Json::Array(vec![Json::Null, Json::Bool(true)]))
    );
    let record = Value::Struct(vec![("a".to_owned(), Value::Enum("x".to_owned()))]);
    assert_eq!(
        shown(record),
        format!("{:?}", Json::Object(vec![("a".to_owned(), Json::Text("x".to_owned()))]))
    );
    let map = Value::Mapping(vec![(Value::Int(1), Value::Text("one".to_owned()))]);
    assert_eq!(
        shown(map),
        format!(
            "{:?}",
            Json::Array(vec![Json::Object(vec![
                ("key".to_owned(), Json::Int(1)),
                ("value".to_owned(), Json::Text("one".to_owned())),
            ])])
        )
    );
    assert_eq!(shown(Value::Union(Box::new(Value::UInt(4)))), format!("{:?}", Json::Int(4)));
    assert_eq!(shown(Value::Other("Unknown".to_owned())), text("Unknown"));
}
