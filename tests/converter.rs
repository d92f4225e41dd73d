use omiga::builder::FileContent;
use omiga::converter::ValueConverter;
use omiga::env::StandardEnvironment;
use omiga::error::{ConfigError, ReadError};
use omiga::primitive::now;
use omiga::registry::ConfigReaderRegistry;
use omiga::toml_reader::TomlConfigReader;
use omiga::value::{Date, DateTime, OmigaValue as Value, Table, Time};

fn new_standard_env() -> Result<StandardEnvironment, ReadError> {
    let sources: Vec<(String, FileContent)> = Vec::new();
    StandardEnvironment::builder()
        .with_table(Table::new())
        .with_registry(ConfigReaderRegistry::default())
        .with_reader(TomlConfigReader::default())
        .with_config("omiga".to_string())
        .with_profile("dev".to_string())
        .with_format("toml".to_string())
        .build(&sources)
}

#[test]
fn test_get_converter_nested() {
    let rvt = new_standard_env();
    let mut environment = rvt.unwrap();

    let mut nested = Table::new();
    nested.insert("Hello".to_string(), Value::String("Rust".to_string()));

    environment.set("io.github.photowey.nested", Value::Nested(nested)).unwrap();

    let rvt_nested = environment.get("io.github.photowey.nested");

    if let Some(into_value) = ValueConverter::try_nested(rvt_nested) {
        match into_value.get("Hello") {
            Some(v) => {
                assert_eq!(*v, Value::String("Rust".to_string()));
            }
            _ => {}
        }
    } else {
        panic!("failed to convert the value to Table")
    }
}

#[test]
fn test_get_converter_array() {
    let rvt = new_standard_env();
    let mut environment = rvt.unwrap();

    let now = 1710265983u32;
    let array = vec![Value::IntU32(now), Value::String("Rust".to_string())];
    environment.set("io.github.photowey.array", Value::Array(array)).unwrap();

    let rvt_array = environment.get("io.github.photowey.array");
    if let Some(into_value) = ValueConverter::try_array(rvt_array) {
        let expect = vec![Value::IntU32(now), Value::String("Rust".to_string())];
        assert!(into_value.iter().zip(expect.iter()).all(|(a, b)| a == b));
    } else {
        panic!("failed to convert the value to Table")
    }
}

#[test]
fn test_get_converter_date_time() {
    let rvt = new_standard_env();
    let mut environment = rvt.unwrap();

    let now = DateTime {
        date: Some(Date { year: 2024, month: 7, day: 21 }),
        time: Time { hour: 18, minute: 15, second: 0, nanosecond: 0 },
    };
    environment.set("io.github.photowey.environment.Time", now.into()).unwrap();

    let rvt_time = environment.get("io.github.photowey.environment.Time");

    match rvt_time {
        Ok(v) => match v {
            Value::DateTime(ref time) => {
                assert_eq!(*time, now);
            }
            _ => {}
        },
        _ => {}
    }

    if let Some(into_value) = ValueConverter::try_datetime(rvt_time) {
        assert_eq!(*into_value, now);
    } else {
        panic!("failed to convert the value to NaiveDateTime")
    }
}

#[test]
fn test_get_converter_string() {
    let rvt = new_standard_env();
    let mut environment = rvt.unwrap();
    environment.set("io.github.photowey.str", String::from("Rust").into()).unwrap();
    let rvt_string = environment.get("io.github.photowey.str");
    if let Some(into_value) = ValueConverter::try_string(rvt_string) {
        assert_eq!(*into_value, String::from("Rust"));
    } else {
        panic!("failed to convert the value to String")
    }
}

#[test]
fn test_get_converter_str() {
    let rvt = new_standard_env();
    let mut environment = rvt.unwrap();
    environment.set("io.github.photowey.str", "Rust".into()).unwrap();
    let rvt_str = environment.get("io.github.photowey.str");
    if let Some(into_value) = ValueConverter::try_str(rvt_str) {
        assert_eq!(into_value, "Rust");
    } else {
        panic!("failed to convert the value to &str")
    }
}

#[test]
fn test_get_converter_bool() {
    let rvt = new_standard_env();
    let mut environment = rvt.unwrap();
    environment.set("io.github.photowey.bool", false.into()).unwrap();
    let rvt_bool = environment.get("io.github.photowey.bool");
    if let Some(into_value) = ValueConverter::try_bool(rvt_bool) {
        assert_eq!(*into_value, false);
    } else {
        panic!("failed to convert the value to false")
    }
}

#[test]
fn test_get_converter_u128() {
    let rvt = new_standard_env();
    let mut environment = rvt.unwrap();
    let now = now();
    environment.set("io.github.photowey.u128", now.into()).unwrap();
    let rvt_u128 = environment.get("io.github.photowey.u128");
    if let Some(into_value) = ValueConverter::try_int_u128(rvt_u128) {
        assert_eq!(*into_value, now);
    } else {
        panic!("failed to convert the value to u128")
    }
}

#[test]
fn test_get_converter_u64() {
    let rvt = new_standard_env();
    let mut environment = rvt.unwrap();
    let now = now() as u64;
    environment.set("io.github.photowey.u64", now.into()).unwrap();
    let rvt_u64 = environment.get("io.github.photowey.u64");
    if let Some(into_value) = ValueConverter::try_int_u64(rvt_u64) {
        assert_eq!(*into_value, now);
    } else {
        panic!("failed to convert the value to u64")
    }
}

#[test]
fn test_get_converter_u32() {
    let rvt = new_standard_env();
    let mut environment = rvt.unwrap();
    let rvt = 1710265983u32;
    environment.set("io.github.photowey.u32", rvt.into()).unwrap();
    let rvt_u32 = environment.get("io.github.photowey.u32");
    if let Some(into_value) = ValueConverter::try_int_u32(rvt_u32) {
        assert_eq!(*into_value, rvt);
    } else {
        panic!("failed to convert the value to u32")
    }
}

#[test]
fn test_get_converter_i128() {
    let rvt = new_standard_env();
    let mut environment = rvt.unwrap();
    let now = now() as i128;
    environment.set("io.github.photowey.i128", now.into()).unwrap();
    let rvt_i128 = environment.get("io.github.photowey.i128");
    if let Some(into_value) = ValueConverter::try_int_i128(rvt_i128) {
        assert_eq!(*into_value, now);
    } else {
        panic!("failed to convert the value to i128")
    }
}

#[test]
fn test_get_converter_i64() {
    let rvt = new_standard_env();
    let mut environment = rvt.unwrap();
    let now = now() as i64;
    environment.set("io.github.photowey.i64", now.into()).unwrap();
    let rvt_i64 = environment.get("io.github.photowey.i64");
    if let Some(into_value) = ValueConverter::try_int_i64(rvt_i64) {
        assert_eq!(*into_value, now);
    } else {
        panic!("failed to convert the value to i64")
    }
}

#[test]
fn test_get_converter_i32() {
    let rvt = new_standard_env();
    let mut environment = rvt.unwrap();
    let rvt = 1710265983i32;
    environment.set("io.github.photowey.i32", rvt.into()).unwrap();
    let rvt_i32 = environment.get("io.github.photowey.i32");
    if let Some(into_value) = ValueConverter::try_int_i32(rvt_i32) {
        assert_eq!(*into_value, rvt);
    } else {
        panic!("failed to convert the value to i32")
    }
}

#[test]
fn test_get_converter_f64() {
    let rvt = new_standard_env();
    let mut environment = rvt.unwrap();
    let rvt = std::f32::consts::PI as f64;
    environment.set("io.github.photowey.f64", Value::Float64(rvt.to_bits())).unwrap();
    let rvt_f64 = environment.get("io.github.photowey.f64");
    if let Some(into_value) = ValueConverter::try_float64(rvt_f64) {
        assert_eq!(f64::from_bits(*into_value), rvt);
    } else {
        panic!("failed to convert the value to f64")
    }
}

#[test]
fn test_get_converter_f32() {
    let rvt = new_standard_env();
    let mut environment = rvt.unwrap();
    let rvt = std::f32::consts::PI;
    environment.set("io.github.photowey.f32", Value::Float32(rvt.to_bits())).unwrap();
    let rvt_f32 = environment.get("io.github.photowey.f32");
    if let Some(into_value) = ValueConverter::try_float32(rvt_f32) {
        assert_eq!(f32::from_bits(*into_value), rvt);
    } else {
        panic!("failed to convert the value to f32")
    }
}

#[test]
fn test_get_converter_none() {
    let rvt = new_standard_env();
    let mut environment = rvt.unwrap();
    let none = Value::Null;
    environment.set("io.github.photowey.none", none).unwrap();
    let rvt_none = environment.get("io.github.photowey.none");
    if let Some(into_value) = ValueConverter::try_none(rvt_none) {
        assert_eq!(into_value, ());
    } else {
        panic!("failed to convert the value to none")
    }
}

#[test]
fn converter_rejects_other_kinds_and_failures() {
    let v = Value::Int64(1);
    assert!(ValueConverter::try_string(Ok(&v)).is_none());
    assert!(ValueConverter::try_int_i32(Ok(&v)).is_none());
    assert_eq!(ValueConverter::try_int_i64(Ok(&v)), Some(&1));
    assert!(ValueConverter::try_int_i64(Err(ConfigError::NotFound)).is_none());
    assert!(ValueConverter::try_none(Ok(&v)).is_none());
}
