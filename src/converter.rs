//! Typed reads of a lookup's result.

use vstd::prelude::*;
use crate::error::ConfigError;
use crate::value::{DateTime, OmigaValue, Table};

verus! {

/// Reads the value of a lookup as one kind; `None` for a failed lookup or another kind.
pub struct ValueConverter;

impl ValueConverter {
    /// The `DateTime` value, if the lookup found one.
    pub fn try_datetime(rvt: Result<&OmigaValue, ConfigError>) -> (r: Option<&DateTime>)
        ensures
            match rvt {
                Ok(v) => match *v {
                    OmigaValue::DateTime(x) => r matches Some(y) && *y == x,
                    _ => r is None,
                },
                Err(_) => r is None,
            },
    {
        match rvt {
            Ok(OmigaValue::DateTime(x)) => Some(x),
            _ => None,
        }
    }

    /// The `String` value, if the lookup found one.
    pub fn try_string(rvt: Result<&OmigaValue, ConfigError>) -> (r: Option<&String>)
        ensures
            match rvt {
                Ok(v) => match *v {
                    OmigaValue::String(x) => r matches Some(y) && *y == x,
                    _ => r is None,
                },
                Err(_) => r is None,
            },
    {
        match rvt {
            Ok(OmigaValue::String(x)) => Some(x),
            _ => None,
        }
    }

    /// The `Boolean` value, if the lookup found one.
    pub fn try_bool(rvt: Result<&OmigaValue, ConfigError>) -> (r: Option<&bool>)
        ensures
            match rvt {
                Ok(v) => match *v {
                    OmigaValue::Boolean(x) => r matches Some(y) && *y == x,
                    _ => r is None,
                },
                Err(_) => r is None,
            },
    {
        match rvt {
            Ok(OmigaValue::Boolean(x)) => Some(x),
            _ => None,
        }
    }

    /// The `Nested` value, if the lookup found one.
    pub fn try_nested(rvt: Result<&OmigaValue, ConfigError>) -> (r: Option<&Table>)
        ensures
            match rvt {
                Ok(v) => match *v {
                    OmigaValue::Nested(x) => r matches Some(y) && *y == x,
                    _ => r is None,
                },
                Err(_) => r is None,
            },
    {
        match rvt {
            Ok(OmigaValue::Nested(x)) => Some(x),
            _ => None,
        }
    }

    /// The `Array` value, if the lookup found one.
    pub fn try_array(rvt: Result<&OmigaValue, ConfigError>) -> (r: Option<&Vec<OmigaValue>>)
        ensures
            match rvt {
                Ok(v) => match *v {
                    OmigaValue::Array(x) => r matches Some(y) && *y == x,
                    _ => r is None,
                },
                Err(_) => r is None,
            },
    {
        match rvt {
            Ok(OmigaValue::Array(x)) => Some(x),
            _ => None,
        }
    }

    /// The `IntU128` value, if the lookup found one.
    pub fn try_int_u128(rvt: Result<&OmigaValue, ConfigError>) -> (r: Option<&u128>)
        ensures
            match rvt {
                Ok(v) => match *v {
                    OmigaValue::IntU128(x) => r matches Some(y) && *y == x,
                    _ => r is None,
                },
                Err(_) => r is None,
            },
    {
        match rvt {
            Ok(OmigaValue::IntU128(x)) => Some(x),
            _ => None,
        }
    }

    /// The `IntU64` value, if the lookup found one.
    pub fn try_int_u64(rvt: Result<&OmigaValue, ConfigError>) -> (r: Option<&u64>)
        ensures
            match rvt {
                Ok(v) => match *v {
                    OmigaValue::IntU64(x) => r matches Some(y) && *y == x,
                    _ => r is None,
                },
                Err(_) => r is None,
            },
    {
        match rvt {
            Ok(OmigaValue::IntU64(x)) => Some(x),
            _ => None,
        }
    }

    /// The `IntU32` value, if the lookup found one.
    pub fn try_int_u32(rvt: Result<&OmigaValue, ConfigError>) -> (r: Option<&u32>)
        ensures
            match rvt {
                Ok(v) => match *v {
                    OmigaValue::IntU32(x) => r matches Some(y) && *y == x,
                    _ => r is None,
                },
                Err(_) => r is None,
            },
    {
        match rvt {
            Ok(OmigaValue::IntU32(x)) => Some(x),
            _ => None,
        }
    }

    /// The `Int128` value, if the lookup found one.
    pub fn try_int_i128(rvt: Result<&OmigaValue, ConfigError>) -> (r: Option<&i128>)
        ensures
            match rvt {
                Ok(v) => match *v {
                    OmigaValue::Int128(x) => r matches Some(y) && *y == x,
                    _ => r is None,
                },
                Err(_) => r is None,
            },
    {
        match rvt {
            Ok(OmigaValue::Int128(x)) => Some(x),
            _ => None,
        }
    }

    /// The `Int64` value, if the lookup found one.
    pub fn try_int_i64(rvt: Result<&OmigaValue, ConfigError>) -> (r: Option<&i64>)
        ensures
            match rvt {
                Ok(v) => match *v {
                    OmigaValue::Int64(x) => r matches Some(y) && *y == x,
                    _ => r is None,
                },
                Err(_) => r is None,
            },
    {
        match rvt {
            Ok(OmigaValue::Int64(x)) => Some(x),
            _ => None,
        }
    }

    /// The `Int32` value, if the lookup found one.
    pub fn try_int_i32(rvt: Result<&OmigaValue, ConfigError>) -> (r: Option<&i32>)
        ensures
            match rvt {
                Ok(v) => match *v {
                    OmigaValue::Int32(x) => r matches Some(y) && *y == x,
                    _ => r is None,
                },
                Err(_) => r is None,
            },
    {
        match rvt {
            Ok(OmigaValue::Int32(x)) => Some(x),
            _ => None,
        }
    }

    /// The `Float64` value (its IEEE-754 bits), if the lookup found one.
    pub fn try_float64(rvt: Result<&OmigaValue, ConfigError>) -> (r: Option<&u64>)
        ensures
            match rvt {
                Ok(v) => match *v {
                    OmigaValue::Float64(x) => r matches Some(y) && *y == x,
                    _ => r is None,
                },
                Err(_) => r is None,
            },
    {
        match rvt {
            Ok(OmigaValue::Float64(x)) => Some(x),
            _ => None,
        }
    }

    /// The `Float32` value (its IEEE-754 bits), if the lookup found one.
    pub fn try_float32(rvt: Result<&OmigaValue, ConfigError>) -> (r: Option<&u32>)
        ensures
            match rvt {
                Ok(v) => match *v {
                    OmigaValue::Float32(x) => r matches Some(y) && *y == x,
                    _ => r is None,
                },
                Err(_) => r is None,
            },
    {
        match rvt {
            Ok(OmigaValue::Float32(x)) => Some(x),
            _ => None,
        }
    }

    /// The text of a `String` value, if the lookup found one.
    pub fn try_str(rvt: Result<&OmigaValue, ConfigError>) -> (r: Option<&str>)
        ensures
            match rvt {
                Ok(v) => match *v {
                    OmigaValue::String(x) => r matches Some(y) && y@ == x@,
                    _ => r is None,
                },
                Err(_) => r is None,
            },
    {
        match rvt {
            Ok(OmigaValue::String(x)) => Some(x.as_str()),
            _ => None,
        }
    }

    /// Unit, if the lookup found a `Null` value.
    pub fn try_none(rvt: Result<&OmigaValue, ConfigError>) -> (r: Option<()>)
        ensures
            r is Some <==> (rvt matches Ok(v) && *v is Null),
    {
        match rvt {
            Ok(OmigaValue::Null) => Some(()),
            _ => None,
        }
    }
}

} // verus!
