use omiga::error::{BeanError, ConfigError, OmigaError, ReadError};
use omiga::primitive::{Boolean, Booleans};

#[test]
fn boolean_forms() {
    assert_eq!(Boolean::True.to_str(), "1");
    assert_eq!(Boolean::False.to_string(), "0");
    assert_eq!(Boolean::True.to_int(), 1);
    assert_eq!(Boolean::False.to_int(), 0);
    assert!(Boolean::True.to_bool());
    assert!(!Boolean::False.to_bool());
}

#[test]
fn booleans_tagging() {
    let b = Booleans::TRUE(true);
    assert!(b.value());
    assert_eq!(b.value_of(false), Booleans::FALSE(false));
    assert_eq!(b.value_of(true), Booleans::TRUE(true));
    assert!(!Booleans::FALSE(false).value());
}

#[test]
fn error_messages() {
    assert_eq!(ConfigError::EmptyKey.message(), "Omiga: key can't be empty");
    assert_eq!(
        ConfigError::NonNested.message(),
        "Omiga: attempted to set/get a nested value on a non-nested node"
    );
    assert_eq!(ConfigError::NotFound.message(), "Omiga: not found");
    assert_eq!(
        ReadError::InvalidPath("/x".to_string()).message(),
        "Omiga: invalid path:[/x]"
    );
    assert_eq!(
        ReadError::ReaderNotFound("yaml".to_string()).message(),
        "Omiga: reader not found, suffix: [yaml]"
    );
    assert_eq!(
        ReadError::IncorrectFormat("TOML".to_string()).message(),
        "Omiga: incorrect [TOML] format, missing table data."
    );
    assert_eq!(
        ReadError::ParseFailed("TOML".to_string(), "oops".to_string()).message(),
        "Omiga: failed to parse [TOML] config file, message: [oops]"
    );
    assert_eq!(
        OmigaError::IO("disk".to_string()).message(),
        "Omiga: I/O error, message:[disk]"
    );
    assert_eq!(
        BeanError::CircularDependency("a".to_string()).message(),
        "Omiga: circular dependency error, message:[a]"
    );
}
