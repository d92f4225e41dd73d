//! The TOML reader.

use vstd::prelude::*;
use crate::error::ReadError;
use crate::reader::ConfigReader;
use crate::text::str_eq;
use crate::toml_syntax::{parse_toml, toml_document, TomlNode};
use crate::value::{Date, DateTime, Table, Time, OmigaValue};

verus! {

pub open spec fn midnight() -> Time {
    Time { hour: 0, minute: 0, second: 0, nanosecond: 0 }
}

/// A TOML date-time as a zone-less date-time: a date alone stands at
/// midnight, a time alone has no date.
pub open spec fn datetime_of(d: Option<Date>, t: Option<Time>) -> DateTime {
    DateTime {
        date: d,
        time: match t {
            Some(x) => x,
            None => midnight(),
        },
    }
}

/// The keys that `es` names.
pub open spec fn entry_keys(es: Seq<(String, TomlNode)>) -> Set<Seq<char>> {
    Set::new(|k: Seq<char>| exists|i: int| 0 <= i < es.len() && (#[trigger] es[i]).0@ == k)
}

/// Whether no later entry of `es` repeats the key of entry `i`.
pub open spec fn last_of_key(es: Seq<(String, TomlNode)>, i: int) -> bool {
    forall|j: int| i < j < es.len() ==> (#[trigger] es[j]).0@ != es[i].0@
}

/// `v` is the configuration value for the TOML value `n`: integers become
/// 64-bit signed, floats 64-bit, arrays element by element, tables key by key.
pub open spec fn node_converts(n: TomlNode, v: OmigaValue) -> bool
    decreases n,
{
    match n {
        TomlNode::String(s) => v == OmigaValue::String(s),
        TomlNode::Integer(i) => v == OmigaValue::Int64(i),
        TomlNode::Float(b) => v == OmigaValue::Float64(b),
        TomlNode::Boolean(b) => v == OmigaValue::Boolean(b),
        TomlNode::Datetime(d, t) => v == OmigaValue::DateTime(datetime_of(d, t)),
        TomlNode::Array(items) => match v {
            OmigaValue::Array(vs) => vs@.len() == items@.len() && forall|i: int|
                0 <= i < items@.len() ==> node_converts(#[trigger] items@[i], vs@[i]),
            _ => false,
        },
        TomlNode::Table(es) => match v {
            OmigaValue::Nested(t) => t@.dom() == entry_keys(es@) && forall|i: int|
                0 <= i < es@.len() && last_of_key(es@, i) ==> node_converts(
                    #[trigger] es@[i].1,
                    t@[es@[i].0@],
                ),
            _ => false,
        },
    }
}

/// Converts a TOML value into a configuration value.
pub fn toml_value_to_sigma_value(node: TomlNode) -> (r: OmigaValue)
    ensures
        node_converts(node, r),
    decreases node,
{
    let ghost n0 = node;
    match node {
        TomlNode::String(s) => OmigaValue::String(s),
        TomlNode::Integer(i) => OmigaValue::Int64(i),
        TomlNode::Float(b) => OmigaValue::Float64(b),
        TomlNode::Boolean(b) => OmigaValue::Boolean(b),
        TomlNode::Datetime(d, t) => {
            let time = match t {
                Some(x) => x,
                None => Time { hour: 0, minute: 0, second: 0, nanosecond: 0 },
            };
            OmigaValue::DateTime(DateTime { date: d, time })
        },
        TomlNode::Array(items) => {
            let ghost all = items@;
            let mut rest = items;
            let mut out: Vec<OmigaValue> = Vec::new();
            #[verifier::loop_isolation(false)]
            while rest.len() > 0
                invariant
                    rest@ == all.skip(out@.len() as int),
                    out@.len() <= all.len(),
                    n0 is Array && n0->Array_0@ == all,
                    forall|i: int| 0 <= i < out@.len() ==> node_converts(#[trigger] all[i], out@[i]),
                decreases rest@.len(),
            {
                let ghost k = out@.len() as int;
                let item = rest.remove(0);
                proof {
                    assert(item == all[k]);
                    assert(decreases_to!(n0 => n0->Array_0));
                    assert(decreases_to!(n0->Array_0 => n0->Array_0@));
                    assert(decreases_to!(n0->Array_0@ => n0->Array_0@[k]));
                }
                let v = toml_value_to_sigma_value(item);
                out.push(v);
                assert(rest@ =~= all.skip(out@.len() as int));
            }
            OmigaValue::Array(out)
        },
        TomlNode::Table(es) => {
            let ghost all = es@;
            let mut rest = es;
            let mut t = Table::new();
            let mut k: usize = 0;
            let total = rest.len();
            #[verifier::loop_isolation(false)]
            while rest.len() > 0
                invariant
                    rest@ == all.skip(k as int),
                    k <= all.len(),
                    all.len() == total,
                    n0 is Table && n0->Table_0@ == all,
                    t@.dom() == entry_keys(all.take(k as int)),
                    forall|i: int|
                        0 <= i < k && last_of_key(all.take(k as int), i) ==> node_converts(
                            #[trigger] all[i].1,
                            t@[all[i].0@],
                        ),
                decreases rest@.len(),
            {
                let (key, item) = rest.remove(0);
                proof {
                    assert((key, item) == all[k as int]);
                    assert(decreases_to!(n0 => n0->Table_0));
                    assert(decreases_to!(n0->Table_0 => n0->Table_0@));
                    assert(decreases_to!(n0->Table_0@ => n0->Table_0@[k as int]));
                    assert(decreases_to!(n0->Table_0@[k as int] => n0->Table_0@[k as int].1));
                }
                let v = toml_value_to_sigma_value(item);
                let ghost before = t@;
                t.insert(key, v);
                proof {
                    let pre = all.take(k as int);
                    let post = all.take(k + 1);
                    assert(post =~= pre.push(all[k as int]));
                    assert(entry_keys(post) =~= entry_keys(pre).insert(key@)) by {
                        assert forall|x: Seq<char>| entry_keys(post).contains(x) implies entry_keys(
                            pre,
                        ).insert(key@).contains(x) by {
                            let j = choose|j: int| 0 <= j < post.len() && (#[trigger] post[j]).0@ == x;
                            if j < k {
                                assert(pre[j] == post[j]);
                            }
                        }
                        assert forall|x: Seq<char>| entry_keys(pre).insert(key@).contains(x) implies entry_keys(
                            post,
                        ).contains(x) by {
                            if x == key@ {
                                assert(post[k as int].0@ == x);
                            } else {
                                let j = choose|j: int| 0 <= j < pre.len() && (#[trigger] pre[j]).0@ == x;
                                assert(post[j] == pre[j]);
                            }
                        }
                    }
                    assert forall|i: int| 0 <= i < k + 1 && last_of_key(post, i) implies node_converts(
                        #[trigger] all[i].1,
                        t@[all[i].0@],
                    ) by {
                        if i < k {
                            assert(post[k as int].0@ != post[i].0@);
                            assert(last_of_key(pre, i)) by {
                                assert forall|j: int| i < j < pre.len() implies (#[trigger] pre[j]).0@
                                    != pre[i].0@ by {
                                    assert(pre[j] == post[j]);
                                }
                            }
                        }
                    }
                }
                k = k + 1;
                assert(rest@ =~= all.skip(k as int));
            }
            proof {
                assert(all.take(k as int) =~= all);
            }
            OmigaValue::Nested(t)
        },
    }
}

/// Whether `r` is the outcome of reading a document that parsed to `doc`:
/// the parser's message, a root that is not a table, or the root table converted.
pub open spec fn document_read(doc: Result<TomlNode, Seq<char>>, r: Result<Table, ReadError>) -> bool {
    match doc {
        Err(m) => match r {
            Err(ReadError::ParseFailed(f, msg)) => f@ == "TOML"@ && msg@ == m,
            _ => false,
        },
        Ok(TomlNode::Table(es)) => match r {
            Ok(t) => node_converts(TomlNode::Table(es), OmigaValue::Nested(t)),
            _ => false,
        },
        Ok(_) => match r {
            Err(ReadError::IncorrectFormat(f)) => f@ == "TOML"@,
            _ => false,
        },
    }
}

pub open spec fn doc_view(doc: Result<TomlNode, String>) -> Result<TomlNode, Seq<char>> {
    match doc {
        Ok(n) => Ok(n),
        Err(m) => Err(m@),
    }
}

/// The root table of a parsed document, or the error for what the parser gave:
/// its message, or a root that is not a table.
pub fn table_from_document(doc: Result<TomlNode, String>) -> (r: Result<Table, ReadError>)
    ensures
        document_read(doc_view(doc), r),
{
    match doc {
        Err(m) => Err(ReadError::ParseFailed("TOML".to_string(), m)),
        Ok(node) => {
            let is_table = match &node {
                TomlNode::Table(_) => true,
                _ => false,
            };
            if is_table {
                let v = toml_value_to_sigma_value(node);
                match v {
                    OmigaValue::Nested(t) => Ok(t),
                    _ => {
                        proof {
                            assert(false);
                        }
                        Err(ReadError::IncorrectFormat("TOML".to_string()))
                    },
                }
            } else {
                Err(ReadError::IncorrectFormat("TOML".to_string()))
            }
        },
    }
}

/// Reads TOML text.
pub struct TomlConfigReader {
    name: String,
    suffix: String,
}

impl TomlConfigReader {
    pub fn new() -> (r: Self)
        ensures
            r.spec_name() == "TOML"@,
            r.spec_suffix() == "toml"@,
    {
        TomlConfigReader { name: "TOML".to_string(), suffix: "toml".to_string() }
    }
}

impl Default for TomlConfigReader {
    fn default() -> (r: Self)
        ensures
            r.spec_name() == "TOML"@,
            r.spec_suffix() == "toml"@,
    {
        TomlConfigReader::new()
    }
}

impl ConfigReader for TomlConfigReader {
    closed spec fn spec_name(&self) -> Seq<char> {
        self.name@
    }

    closed spec fn spec_suffix(&self) -> Seq<char> {
        self.suffix@
    }

    open spec fn spec_read(&self, data: Seq<char>, r: Result<Table, ReadError>) -> bool {
        document_read(toml_document(data), r)
    }

    fn name(&self) -> (r: String) {
        self.name.clone()
    }

    fn suffix(&self) -> (r: String) {
        self.suffix.clone()
    }

    fn supports(&self, suffix: &str) -> (r: bool) {
        str_eq(self.suffix.as_str(), suffix)
    }

    fn read_from_str(&self, data: &str) -> (r: Result<Table, ReadError>) {
        let parsed = parse_toml(data);
        table_from_document(parsed)
    }
}

} // verus!
