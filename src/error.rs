//! Error kinds of the configuration store and of the readers.

use vstd::prelude::*;

verus! {

/// Failures of dotted-key access.
#[derive(Debug, Clone, Copy, PartialEq, Eq, Structural)]
pub enum ConfigError {
    /// The key has no segment.
    EmptyKey,
    /// A segment before the last one holds a value that is not a table.
    NonNested,
    /// A segment is absent.
    NotFound,
}

/// Failures of reading configuration files.
#[derive(Debug, PartialEq, Eq)]
pub enum ReadError {
    /// The path has no file extension.
    InvalidPath(String),
    /// The file is of a type that cannot be read.
    InvalidFile(String),
    /// The file does not exist.
    FileNotFound(String),
    /// No reader is registered for the suffix.
    ReaderNotFound(String),
    /// The file exists but could not be read.
    ReadFailed(String),
    /// The text parsed, but its top level is not a table (the format's name).
    IncorrectFormat(String),
    /// The text did not parse (the format's name and the parser's message).
    ParseFailed(String, String),
}

/// The text of `prefix`, `field` and `suffix` in a row.
fn framed(prefix: &str, field: &str, suffix: &str) -> (r: String)
    ensures
        r@ == prefix@ + field@ + suffix@,
{
    let mut r = prefix.to_string();
    r.append(field);
    r.append(suffix);
    r
}

pub open spec fn config_error_message(e: ConfigError) -> Seq<char> {
    match e {
        ConfigError::EmptyKey => "Omiga: key can't be empty"@,
        ConfigError::NonNested => "Omiga: attempted to set/get a nested value on a non-nested node"@,
        ConfigError::NotFound => "Omiga: not found"@,
    }
}

impl ConfigError {
    /// A line that describes the error.
    pub fn message(&self) -> (r: String)
        ensures
            r@ == config_error_message(*self),
    {
        match self {
            ConfigError::EmptyKey => "Omiga: key can't be empty".to_string(),
            ConfigError::NonNested => "Omiga: attempted to set/get a nested value on a non-nested node".to_string(),
            ConfigError::NotFound => "Omiga: not found".to_string(),
        }
    }
}

pub open spec fn read_error_message(e: ReadError) -> Seq<char> {
    match e {
        ReadError::InvalidPath(x) => "Omiga: invalid path:["@ + x@ + "]"@,
        ReadError::InvalidFile(x) => "Omiga: invalid config file type:["@ + x@ + "]"@,
        ReadError::FileNotFound(x) => "Omiga: config file not found, path:["@ + x@ + "]"@,
        ReadError::ReaderNotFound(x) => "Omiga: reader not found, suffix: ["@ + x@ + "]"@,
        ReadError::ReadFailed(x) => "Omiga: failed to read config file, path:["@ + x@ + "]"@,
        ReadError::IncorrectFormat(x) => "Omiga: incorrect ["@ + x@ + "] format, missing table data."@,
        ReadError::ParseFailed(f, m) => "Omiga: failed to parse ["@ + f@ + "] config file, message: ["@ + m@ + "]"@,
    }
}

impl ReadError {
    /// A line that describes the error.
    pub fn message(&self) -> (r: String)
        ensures
            r@ == read_error_message(*self),
    {
        match self {
            ReadError::InvalidPath(x) => framed("Omiga: invalid path:[", x.as_str(), "]"),
            ReadError::InvalidFile(x) => framed("Omiga: invalid config file type:[", x.as_str(), "]"),
            ReadError::FileNotFound(x) => framed("Omiga: config file not found, path:[", x.as_str(), "]"),
            ReadError::ReaderNotFound(x) => framed("Omiga: reader not found, suffix: [", x.as_str(), "]"),
            ReadError::ReadFailed(x) => framed("Omiga: failed to read config file, path:[", x.as_str(), "]"),
            ReadError::IncorrectFormat(x) => framed("Omiga: incorrect [", x.as_str(), "] format, missing table data."),
            ReadError::ParseFailed(f, m) => {
                let head = framed("Omiga: failed to parse [", f.as_str(), "] config file, message: [");
                framed(head.as_str(), m.as_str(), "]")
            },
        }
    }
}

/// Failures of the application at large.
#[derive(Debug, PartialEq, Eq)]
pub enum OmigaError {
    Runtime(String),
    IO(String),
    Database(String),
    Business(String),
    Unknown(String),
}

pub open spec fn omiga_error_message(e: OmigaError) -> Seq<char> {
    match e {
        OmigaError::Runtime(x) => "Omiga: runtime error, message:["@ + x@ + "]"@,
        OmigaError::IO(x) => "Omiga: I/O error, message:["@ + x@ + "]"@,
        OmigaError::Database(x) => "Omiga: database error, message:["@ + x@ + "]"@,
        OmigaError::Business(x) => "Omiga: business error, message:["@ + x@ + "]"@,
        OmigaError::Unknown(x) => "Omiga: unknown error, message:["@ + x@ + "]"@,
    }
}

impl OmigaError {
    /// A line that describes the error.
    pub fn message(&self) -> (r: String)
        ensures
            r@ == omiga_error_message(*self),
    {
        match self {
            OmigaError::Runtime(x) => framed("Omiga: runtime error, message:[", x.as_str(), "]"),
            OmigaError::IO(x) => framed("Omiga: I/O error, message:[", x.as_str(), "]"),
            OmigaError::Database(x) => framed("Omiga: database error, message:[", x.as_str(), "]"),
            OmigaError::Business(x) => framed("Omiga: business error, message:[", x.as_str(), "]"),
            OmigaError::Unknown(x) => framed("Omiga: unknown error, message:[", x.as_str(), "]"),
        }
    }
}

/// Failures of the component registry.
#[derive(Debug, PartialEq, Eq)]
pub enum BeanError {
    CircularDependency(String),
    NotFound(String),
    CastFailed(String),
}

pub open spec fn bean_error_message(e: BeanError) -> Seq<char> {
    match e {
        BeanError::CircularDependency(x) => "Omiga: circular dependency error, message:["@ + x@ + "]"@,
        BeanError::NotFound(x) => "Omiga: bean not found error, message:["@ + x@ + "]"@,
        BeanError::CastFailed(x) => "Omiga: component cast to `Bean` error, message:["@ + x@ + "]"@,
    }
}

impl BeanError {
    /// A line that describes the error.
    pub fn message(&self) -> (r: String)
        ensures
            r@ == bean_error_message(*self),
    {
        match self {
            BeanError::CircularDependency(x) => framed("Omiga: circular dependency error, message:[", x.as_str(), "]"),
            BeanError::NotFound(x) => framed("Omiga: bean not found error, message:[", x.as_str(), "]"),
            BeanError::CastFailed(x) => framed("Omiga: component cast to `Bean` error, message:[", x.as_str(), "]"),
        }
    }
}

} // verus!
