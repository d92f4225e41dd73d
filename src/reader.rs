//! Readers turn the text of a configuration file into a table.

use vstd::prelude::*;
use crate::error::ReadError;
use crate::value::Table;

verus! {

/// A format reader, chosen by the suffix of a file name.
pub trait ConfigReader {
    /// The format's name.
    spec fn spec_name(&self) -> Seq<char>;

    /// The file suffix the reader handles.
    spec fn spec_suffix(&self) -> Seq<char>;

    fn name(&self) -> (r: String)
        ensures
            r@ == self.spec_name(),
    ;

    fn suffix(&self) -> (r: String)
        ensures
            r@ == self.spec_suffix(),
    ;

    fn supports(&self, suffix: &str) -> (r: bool)
        ensures
            r == (suffix@ == self.spec_suffix()),
    ;

    /// Whether `r` is what reading the text `data` gives.
    spec fn spec_read(&self, data: Seq<char>, r: Result<Table, ReadError>) -> bool;

    /// Parses the text of a file into its root table.
    fn read_from_str(&self, data: &str) -> (r: Result<Table, ReadError>)
        ensures
            self.spec_read(data@, r),
    ;
}

} // verus!
