use omiga::primitive::now;
use omiga::toml_reader::{table_from_document, toml_value_to_sigma_value, TomlConfigReader};
use omiga::toml_syntax::TomlNode;
use omiga::reader::ConfigReader;
use omiga::value::{merge_tables, Date, DateTime, OmigaValue as Value, Table, Time};
use omiga::error::ReadError;

#[test]
fn test_table_merge_tables() {
    let mut table_a: Table = Table::new();

    table_a.insert(
        "io".to_string(),
        Value::Nested({
            let mut inner_table = Table::new();
            inner_table.insert(
                "github".to_string(),
                Value::Array(vec![Value::Int32(1), Value::Int32(3)]),
            );
            inner_table
        }),
    );
    table_a.insert(
        "replaced".to_string(),
        Value::Float64((std::f32::consts::PI as f64).to_bits()),
    );

    let mut table_b: Table = Table::new();

    // 1
    table_b.insert(
        "io".to_string(),
        Value::Nested({
            let mut inner_table = Table::new();
            inner_table.insert(
                "github".to_string(),
                Value::Array(vec![Value::Int32(2), Value::Int32(4)]),
            );
            inner_table
        }),
    );
    // 2
    table_b.insert(
        "hello".to_string(),
        Value::Nested({
            let mut inner_table = Table::new();
            inner_table.insert(
                "world".to_string(),
                Value::Array(vec![Value::Int32(2), Value::Int32(4)]),
            );
            inner_table
        }),
    );

    // 3
    let seed = now();
    table_b.insert("replaced".to_string(), Value::IntU128(seed));

    // 4: merge
    let merged_table = merge_tables(table_a, table_b);

    let mut table_sentinel: Table = Table::new();
    table_sentinel.insert(
        "io".to_string(),
        Value::Nested({
            let mut inner_table = Table::new();
            inner_table.insert(
                "github".to_string(),
                Value::Array(vec![
                    Value::Int32(1),
                    Value::Int32(3),
                    Value::Int32(2),
                    Value::Int32(4),
                ]),
            );
            inner_table
        }),
    );
    table_sentinel.insert(
        "hello".to_string(),
        Value::Nested({
            let mut inner_table = Table::new();
            inner_table.insert(
                "world".to_string(),
                Value::Array(vec![Value::Int32(2), Value::Int32(4)]),
            );
            inner_table
        }),
    );
    // replaced
    table_sentinel.insert("replaced".to_string(), Value::IntU128(seed));

    assert_eq!(merged_table, table_sentinel);
}

#[test]
fn test_clock_timestamp() {
    // 2024-07-21 00:00:00 GMT+08:00
    // 1721491200000
    let base = 1721491200000u128;
    let now_millis = now();

    assert!(now_millis > base)
}

#[test]
fn clock_units_agree() {
    let seconds = omiga::primitive::now_seconds() as u128;
    let millis = omiga::primitive::now_millis();
    let nanos = omiga::primitive::now_nanos();
    assert!(seconds >= 1721491200);
    assert!(millis / 1000 >= seconds);
    assert!(nanos / 1_000_000 >= millis);
    assert_eq!(omiga::primitive::millis_of(Some(1_234_567_890)), 1234);
    assert_eq!(omiga::primitive::seconds_of(Some(1_234_567_890)), 1);
    assert_eq!(omiga::primitive::millis_of(None), 0);
}

#[test]
fn merge_disjoint_tables_is_union() {
    let mut a = Table::new();
    a.insert("x".to_string(), Value::Int64(1));
    let mut b = Table::new();
    b.insert("y".to_string(), Value::Boolean(false));
    let merged = merge_tables(a, b);
    assert_eq!(merged.len(), 2);
    assert_eq!(merged.get("x"), Some(&Value::Int64(1)));
    assert_eq!(merged.get("y"), Some(&Value::Boolean(false)));
}

#[test]
fn merge_mismatched_kinds_prefers_overlay() {
    let mut a = Table::new();
    a.insert("k".to_string(), Value::Array(vec![Value::Int64(1)]));
    a.insert("t".to_string(), Value::Nested(Table::new()));
    let mut b = Table::new();
    b.insert("k".to_string(), Value::String("s".to_string()));
    b.insert("t".to_string(), Value::Array(vec![]));
    let merged = merge_tables(a, b);
    assert_eq!(merged.get("k"), Some(&Value::String("s".to_string())));
    assert_eq!(merged.get("t"), Some(&Value::Array(vec![])));
}

#[test]
fn merge_nested_at_depth() {
    let mut deep_a = Table::new();
    deep_a.insert("keep".to_string(), Value::Int64(1));
    deep_a.insert("over".to_string(), Value::Int64(2));
    let mut mid_a = Table::new();
    mid_a.insert("c".to_string(), Value::Nested(deep_a));
    let mut a = Table::new();
    a.insert("b".to_string(), Value::Nested(mid_a));

    let mut deep_b = Table::new();
    deep_b.insert("over".to_string(), Value::Int64(3));
    let mut mid_b = Table::new();
    mid_b.insert("c".to_string(), Value::Nested(deep_b));
    let mut b = Table::new();
    b.insert("b".to_string(), Value::Nested(mid_b));

    let merged = merge_tables(a, b);
    let mut expect_deep = Table::new();
    expect_deep.insert("over".to_string(), Value::Int64(3));
    expect_deep.insert("keep".to_string(), Value::Int64(1));
    let mut expect_mid = Table::new();
    expect_mid.insert("c".to_string(), Value::Nested(expect_deep));
    let mut expect = Table::new();
    expect.insert("b".to_string(), Value::Nested(expect_mid));
    assert_eq!(merged, expect);
}

#[test]
fn table_insert_remove() {
    let mut t = Table::new();
    assert!(t.is_empty());
    assert_eq!(t.insert("b".to_string(), Value::Int64(1)), None);
    assert_eq!(t.insert("a".to_string(), Value::Int64(2)), None);
    assert_eq!(t.insert("b".to_string(), Value::Int64(3)), Some(Value::Int64(1)));
    assert_eq!(t.len(), 2);
    assert!(t.contains_key("a"));
    assert_eq!(t.remove("a"), Some(Value::Int64(2)));
    assert_eq!(t.remove("a"), None);
    assert_eq!(t.len(), 1);
}

#[test]
fn toml_text_becomes_a_table() {
    let reader = TomlConfigReader::new();
    assert_eq!(reader.name(), "TOML");
    assert_eq!(reader.suffix(), "toml");
    assert!(reader.supports("toml"));
    assert!(!reader.supports("yaml"));
    let table = reader
        .read_from_str("title = \"x\"\nn = 5\nf = 1.5\nok = true\nlist = [1, 2]\nd = 2024-07-21\nt = 18:15:00\ndt = 2024-07-21T18:15:00\n[server]\nport = 9320\n")
        .unwrap();
    assert_eq!(table.get("title"), Some(&Value::String("x".to_string())));
    assert_eq!(table.get("n"), Some(&Value::Int64(5)));
    assert_eq!(table.get("f"), Some(&Value::Float64(1.5f64.to_bits())));
    assert_eq!(table.get("ok"), Some(&Value::Boolean(true)));
    assert_eq!(
        table.get("list"),
        Some(&Value::Array(vec![Value::Int64(1), Value::Int64(2)]))
    );
    let date = Date { year: 2024, month: 7, day: 21 };
    let midnight = Time { hour: 0, minute: 0, second: 0, nanosecond: 0 };
    let evening = Time { hour: 18, minute: 15, second: 0, nanosecond: 0 };
    assert_eq!(
        table.get("d"),
        Some(&Value::DateTime(DateTime { date: Some(date), time: midnight }))
    );
    assert_eq!(
        table.get("t"),
        Some(&Value::DateTime(DateTime { date: None, time: evening }))
    );
    assert_eq!(
        table.get("dt"),
        Some(&Value::DateTime(DateTime { date: Some(date), time: evening }))
    );
    let mut server = Table::new();
    server.insert("port".to_string(), Value::Int64(9320));
    assert_eq!(table.get("server"), Some(&Value::Nested(server)));
}

#[test]
fn toml_errors() {
    let reader = TomlConfigReader::default();
    assert!(matches!(
        reader.read_from_str("a = [1,"),
        Err(ReadError::ParseFailed(f, _)) if f == "TOML"
    ));
    assert_eq!(
        table_from_document(Ok(TomlNode::Integer(1))).err(),
        Some(ReadError::IncorrectFormat("TOML".to_string()))
    );
    assert_eq!(
        table_from_document(Err("bad".to_string())).err(),
        Some(ReadError::ParseFailed("TOML".to_string(), "bad".to_string()))
    );
}

#[test]
fn toml_node_conversion() {
    let node = TomlNode::Table(vec![
        ("k".to_string(), TomlNode::Integer(1)),
        ("k".to_string(), TomlNode::Integer(2)),
        ("a".to_string(), TomlNode::Array(vec![TomlNode::Boolean(false)])),
    ]);
    let mut expect = Table::new();
    expect.insert("k".to_string(), Value::Int64(2));
    expect.insert("a".to_string(), Value::Array(vec![Value::Boolean(false)]));
    assert_eq!(toml_value_to_sigma_value(node), Value::Nested(expect));
    assert_eq!(
        toml_value_to_sigma_value(TomlNode::Datetime(None, None)),
        Value::DateTime(DateTime {
            date: None,
            time: Time { hour: 0, minute: 0, second: 0, nanosecond: 0 }
        })
    );
}
