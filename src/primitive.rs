//! Small value types: two-valued flags and the wall clock.

use vstd::prelude::*;

verus! {

/// A boolean that also reads as `"1"`/`"0"` and `1`/`0`.
#[derive(Debug, Clone, Copy, PartialEq, Eq, Structural)]
pub enum Boolean {
    True,
    False,
}

impl Boolean {
    pub fn to_str(&self) -> (r: &'static str)
        ensures
            r@ == (if *self == Boolean::True { "1"@ } else { "0"@ }),
    {
        match self {
            Boolean::True => "1",
            Boolean::False => "0",
        }
    }

    pub fn to_string(&self) -> (r: String)
        ensures
            r@ == (if *self == Boolean::True { "1"@ } else { "0"@ }),
    {
        self.to_str().to_string()
    }

    pub fn to_int(&self) -> (r: u8)
        ensures
            r == (if *self == Boolean::True { 1u8 } else { 0u8 }),
    {
        match self {
            Boolean::True => 1,
            Boolean::False => 0,
        }
    }

    pub fn to_bool(&self) -> (r: bool)
        ensures
            r == (*self == Boolean::True),
    {
        match self {
            Boolean::True => true,
            Boolean::False => false,
        }
    }
}

/// A boolean tagged by its own value.
#[derive(Debug, Clone, Copy, PartialEq, Eq, Structural)]
#[allow(non_camel_case_types)]
pub enum Booleans {
    TRUE(bool),
    FALSE(bool),
}

impl Booleans {
    /// The value carried.
    pub fn value(&self) -> (r: bool)
        ensures
            r == match *self {
                Booleans::TRUE(v) => v,
                Booleans::FALSE(v) => v,
            },
    {
        match self {
            Booleans::TRUE(value) => *value,
            Booleans::FALSE(value) => *value,
        }
    }

    /// `TRUE(true)` for `true`, `FALSE(false)` for `false`.
    pub fn value_of(&self, value: bool) -> (r: Booleans)
        ensures
            r == (if value { Booleans::TRUE(true) } else { Booleans::FALSE(false) }),
    {
        if value {
            return Booleans::TRUE(value);
        }
        Booleans::FALSE(value)
    }
}

/// Relies on `SystemTime::now().duration_since(UNIX_EPOCH)`: the time since
/// the epoch in nanoseconds (`Duration::as_nanos`), none when the clock reads
/// before the epoch. A `Duration` holds whole seconds as a `u64`.
#[verifier::external_body]
fn nanos_since_epoch() -> (r: Option<u128>)
    ensures
        r matches Some(n) ==> n / 1_000_000_000 <= u64::MAX,
{
    std::time::SystemTime::now().duration_since(std::time::UNIX_EPOCH).ok().map(|d| d.as_nanos())
}

/// Whole seconds of a clock reading in nanoseconds; a reading before the epoch counts as zero.
pub fn seconds_of(nanos: Option<u128>) -> (r: u64)
    requires
        nanos matches Some(n) ==> n / 1_000_000_000 <= u64::MAX,
    ensures
        r == match nanos {
            Some(n) => n / 1_000_000_000,
            None => 0,
        },
{
    match nanos {
        Some(n) => (n / 1_000_000_000) as u64,
        None => 0,
    }
}

/// Whole milliseconds of a clock reading in nanoseconds; a reading before the epoch counts as zero.
pub fn millis_of(nanos: Option<u128>) -> (r: u128)
    ensures
        r == match nanos {
            Some(n) => n / 1_000_000,
            None => 0,
        },
{
    match nanos {
        Some(n) => n / 1_000_000,
        None => 0,
    }
}

/// Milliseconds since the epoch.
pub fn now() -> u128 {
    now_millis()
}

/// Seconds since the epoch.
pub fn now_seconds() -> u64 {
    seconds_of(nanos_since_epoch())
}

/// Milliseconds since the epoch.
pub fn now_millis() -> u128 {
    millis_of(nanos_since_epoch())
}

/// Nanoseconds since the epoch.
pub fn now_nanos() -> u128 {
    match nanos_since_epoch() {
        Some(n) => n,
        None => 0,
    }
}

} // verus!
