//! Configuration values and tables.
//!
//! A `Table` keeps its entries sorted by key, so each key occurs once and two
//! tables with the same contents have the same representation.

use vstd::prelude::*;
use crate::text::{
    key_lt, lemma_key_lt_irreflexive, lemma_key_lt_total, lemma_key_lt_transitive, str_eq, str_lt,
};

verus! {

/// A calendar date, as year, month (1-12) and day of month.
#[derive(Debug, Clone, Copy, PartialEq, Eq, Structural)]
pub struct Date {
    pub year: i32,
    pub month: u32,
    pub day: u32,
}

/// A wall-clock time of day.
#[derive(Debug, Clone, Copy, PartialEq, Eq, Structural)]
pub struct Time {
    pub hour: u32,
    pub minute: u32,
    pub second: u32,
    pub nanosecond: u32,
}

/// A date-time without a zone. A value that only gave a time of day has no date.
#[derive(Debug, Clone, Copy, PartialEq, Eq, Structural)]
pub struct DateTime {
    pub date: Option<Date>,
    pub time: Time,
}

/// A configuration value. Floats are held as their IEEE-754 bit patterns.
#[derive(Debug, PartialEq)]
pub enum OmigaValue {
    Nested(Table),
    Array(Vec<OmigaValue>),
    DateTime(DateTime),
    String(String),
    Boolean(bool),
    IntU128(u128),
    IntU64(u64),
    IntU32(u32),
    Int128(i128),
    Int64(i64),
    Int32(i32),
    Float64(u64),
    Float32(u32),
    Null,
}

/// One level of a configuration tree: a map from keys to values.
#[derive(Debug, PartialEq)]
pub struct Table {
    entries: Vec<(String, OmigaValue)>,
}

pub open spec fn keys_ascending(e: Seq<(String, OmigaValue)>) -> bool {
    forall|i: int, j: int| 0 <= i < j < e.len() ==> key_lt(#[trigger] e[i].0@, #[trigger] e[j].0@)
}

pub open spec fn has_key(e: Seq<(String, OmigaValue)>, k: Seq<char>) -> bool {
    exists|i: int| 0 <= i < e.len() && (#[trigger] e[i]).0@ == k
}

pub open spec fn key_index(e: Seq<(String, OmigaValue)>, k: Seq<char>) -> int {
    choose|i: int| 0 <= i < e.len() && (#[trigger] e[i]).0@ == k
}

pub open spec fn entries_map(e: Seq<(String, OmigaValue)>) -> Map<Seq<char>, OmigaValue> {
    Map::new(|k: Seq<char>| has_key(e, k), |k: Seq<char>| e[key_index(e, k)].1)
}

/// The value at `k`, if any.
pub open spec fn lookup(m: Map<Seq<char>, OmigaValue>, k: Seq<char>) -> Option<OmigaValue> {
    if m.contains_key(k) {
        Some(m[k])
    } else {
        None
    }
}

impl View for Table {
    type V = Map<Seq<char>, OmigaValue>;

    closed spec fn view(&self) -> Map<Seq<char>, OmigaValue> {
        entries_map(self.entries@)
    }
}

proof fn lemma_entry_at(e: Seq<(String, OmigaValue)>, i: int)
    requires
        keys_ascending(e),
        0 <= i < e.len(),
    ensures
        entries_map(e).contains_key(e[i].0@),
        entries_map(e)[e[i].0@] == e[i].1,
{
    let k = e[i].0@;
    assert(has_key(e, k));
    let j = key_index(e, k);
    if j < i {
        assert(key_lt(e[j].0@, e[i].0@));
        lemma_key_lt_irreflexive(k);
    } else if i < j {
        assert(key_lt(e[i].0@, e[j].0@));
        lemma_key_lt_irreflexive(k);
    }
    assert(j == i);
    assert(entries_map(e)[k] == e[j].1);
}

/// Where `key` stands among sorted entries: `Ok(i)` at entry `i`, or
/// `Err(p)` when it is absent and would be inserted at `p`.
fn find_in(entries: &Vec<(String, OmigaValue)>, key: &str) -> (r: Result<usize, usize>)
    requires
        keys_ascending(entries@),
    ensures
        match r {
            Ok(i) => i < entries@.len() && entries@[i as int].0@ == key@,
            Err(p) => p <= entries@.len() && (forall|j: int|
                0 <= j < p ==> key_lt(#[trigger] entries@[j].0@, key@)) && (forall|j: int|
                p <= j < entries@.len() ==> key_lt(key@, #[trigger] entries@[j].0@)),
        },
{
    let n = entries.len();
    let mut i: usize = 0;
    while i < n && str_lt(entries[i].0.as_str(), key)
        invariant
            n == entries@.len(),
            i <= n,
            keys_ascending(entries@),
            forall|j: int| 0 <= j < i ==> key_lt(#[trigger] entries@[j].0@, key@),
        decreases n - i,
    {
        i = i + 1;
    }
    if i < n && str_eq(entries[i].0.as_str(), key) {
        Ok(i)
    } else {
        proof {
            if i < n {
                lemma_key_lt_total(entries@[i as int].0@, key@);
                assert forall|j: int| i <= j < n implies key_lt(key@, #[trigger] entries@[j].0@) by {
                    if j > i {
                        lemma_key_lt_transitive(key@, entries@[i as int].0@, entries@[j].0@);
                    }
                }
            }
        }
        Err(i)
    }
}

proof fn lemma_absent(e: Seq<(String, OmigaValue)>, key: Seq<char>, p: int)
    requires
        keys_ascending(e),
        0 <= p <= e.len(),
        forall|j: int| 0 <= j < p ==> key_lt(#[trigger] e[j].0@, key),
        forall|j: int| p <= j < e.len() ==> key_lt(key, #[trigger] e[j].0@),
    ensures
        !has_key(e, key),
{
    if has_key(e, key) {
        let i = choose|i: int| 0 <= i < e.len() && (#[trigger] e[i]).0@ == key;
        lemma_key_lt_irreflexive(key);
    }
}

/// Replacing the value at an existing key.
proof fn lemma_update(e: Seq<(String, OmigaValue)>, i: int, k: String, v: OmigaValue)
    requires
        keys_ascending(e),
        0 <= i < e.len(),
        e[i].0@ == k@,
    ensures
        keys_ascending(e.update(i, (k, v))),
        entries_map(e.update(i, (k, v))) == entries_map(e).insert(k@, v),
{
    let f = e.update(i, (k, v));
    assert(keys_ascending(f)) by {
        assert forall|a: int, b: int| 0 <= a < b < f.len() implies key_lt(
            #[trigger] f[a].0@,
            #[trigger] f[b].0@,
        ) by {
            assert(key_lt(e[a].0@, e[b].0@));
        }
    }
    let m = entries_map(e).insert(k@, v);
    assert forall|x: Seq<char>| #[trigger] entries_map(f).contains_key(x) <==> m.contains_key(x) by {
        if has_key(e, x) {
            let j = key_index(e, x);
            assert(f[j].0@ == x);
        }
        if has_key(f, x) {
            let j = key_index(f, x);
            assert(e[j].0@ == x);
        }
        assert(f[i].0@ == k@);
    }
    assert forall|x: Seq<char>| #[trigger] entries_map(f).contains_key(x) implies entries_map(f)[x]
        == m[x] by {
        let j = key_index(f, x);
        lemma_entry_at(f, j);
        if j != i {
            assert(f[j] == e[j]);
            if j < i {
                assert(key_lt(e[j].0@, e[i].0@));
            } else {
                assert(key_lt(e[i].0@, e[j].0@));
            }
            lemma_key_lt_irreflexive(x);
            lemma_entry_at(e, j);
        }
    }
    assert(entries_map(f) =~= m);
}

/// Adding an absent key at its place in the order.
proof fn lemma_insert_at(e: Seq<(String, OmigaValue)>, p: int, k: String, v: OmigaValue)
    requires
        keys_ascending(e),
        0 <= p <= e.len(),
        forall|j: int| 0 <= j < p ==> key_lt(#[trigger] e[j].0@, k@),
        forall|j: int| p <= j < e.len() ==> key_lt(k@, #[trigger] e[j].0@),
    ensures
        keys_ascending(e.insert(p, (k, v))),
        entries_map(e.insert(p, (k, v))) == entries_map(e).insert(k@, v),
{
    let f = e.insert(p, (k, v));
    assert(keys_ascending(f)) by {
        assert forall|a: int, b: int| 0 <= a < b < f.len() implies key_lt(
            #[trigger] f[a].0@,
            #[trigger] f[b].0@,
        ) by {
            if a < p && b < p {
                assert(key_lt(e[a].0@, e[b].0@));
            } else if a < p && b == p {
            } else if a < p && b > p {
                assert(f[b] == e[b - 1]);
                lemma_key_lt_transitive(e[a].0@, k@, e[b - 1].0@);
            } else if a == p {
                assert(f[b] == e[b - 1]);
            } else {
                assert(f[a] == e[a - 1] && f[b] == e[b - 1]);
                assert(key_lt(e[a - 1].0@, e[b - 1].0@));
            }
        }
    }
    lemma_absent(e, k@, p);
    let m = entries_map(e).insert(k@, v);
    assert forall|x: Seq<char>| #[trigger] entries_map(f).contains_key(x) <==> m.contains_key(x) by {
        if has_key(e, x) {
            let j = key_index(e, x);
            if j < p {
                assert(f[j].0@ == x);
            } else {
                assert(f[j + 1] == e[j]);
                assert(f[j + 1].0@ == x);
            }
        }
        if has_key(f, x) {
            let j = key_index(f, x);
            if j < p {
                assert(e[j].0@ == x);
            } else if j > p {
                assert(f[j] == e[j - 1]);
                assert(e[j - 1].0@ == x);
            }
        }
        assert(f[p].0@ == k@);
    }
    assert forall|x: Seq<char>| #[trigger] entries_map(f).contains_key(x) implies entries_map(f)[x]
        == m[x] by {
        let j = key_index(f, x);
        lemma_entry_at(f, j);
        if j < p {
            lemma_entry_at(e, j);
        } else if j > p {
            assert(f[j] == e[j - 1]);
            lemma_entry_at(e, j - 1);
        }
    }
    assert(entries_map(f) =~= m);
}

/// Dropping the entry at `i`.
proof fn lemma_remove_at(e: Seq<(String, OmigaValue)>, i: int)
    requires
        keys_ascending(e),
        0 <= i < e.len(),
    ensures
        keys_ascending(e.remove(i)),
        entries_map(e.remove(i)) == entries_map(e).remove(e[i].0@),
{
    let f = e.remove(i);
    let k = e[i].0@;
    assert(keys_ascending(f)) by {
        assert forall|a: int, b: int| 0 <= a < b < f.len() implies key_lt(
            #[trigger] f[a].0@,
            #[trigger] f[b].0@,
        ) by {
            let a0 = if a < i { a } else { a + 1 };
            let b0 = if b < i { b } else { b + 1 };
            assert(f[a] == e[a0] && f[b] == e[b0]);
            assert(key_lt(e[a0].0@, e[b0].0@));
        }
    }
    let m = entries_map(e).remove(k);
    assert forall|x: Seq<char>| #[trigger] entries_map(f).contains_key(x) <==> m.contains_key(x) by {
        if has_key(e, x) && x != k {
            let j = key_index(e, x);
            if j < i {
                assert(f[j].0@ == x);
            } else {
                assert(j != i);
                assert(f[j - 1] == e[j]);
                assert(f[j - 1].0@ == x);
            }
        }
        if has_key(f, x) {
            let j = key_index(f, x);
            let j0 = if j < i { j } else { j + 1 };
            assert(f[j] == e[j0]);
            assert(e[j0].0@ == x);
            if j0 < i {
                assert(key_lt(e[j0].0@, e[i].0@));
            } else {
                assert(key_lt(e[i].0@, e[j0].0@));
            }
            lemma_key_lt_irreflexive(x);
        }
    }
    assert forall|x: Seq<char>| #[trigger] entries_map(f).contains_key(x) implies entries_map(f)[x]
        == m[x] by {
        let j = key_index(f, x);
        let j0 = if j < i { j } else { j + 1 };
        assert(f[j] == e[j0]);
        lemma_entry_at(f, j);
        lemma_entry_at(e, j0);
    }
    assert(entries_map(f) =~= m);
}

impl Table {
    #[verifier::type_invariant]
    spec fn inv(&self) -> bool {
        keys_ascending(self.entries@)
    }

    /// An empty table.
    pub fn new() -> (r: Table)
        ensures
            r@ == Map::<Seq<char>, OmigaValue>::empty(),
    {
        let r = Table { entries: Vec::new() };
        assert(r@ =~= Map::<Seq<char>, OmigaValue>::empty());
        r
    }

    /// The number of keys.
    pub fn len(&self) -> (r: usize)
        ensures
            r == self@.dom().len(),
    {
        proof {
            use_type_invariant(self);
            self.lemma_len();
        }
        self.entries.len()
    }

    /// Whether the table holds no key.
    pub fn is_empty(&self) -> (r: bool)
        ensures
            r == (self@.dom().len() == 0),
    {
        self.len() == 0
    }

    proof fn lemma_len(&self)
        requires
            keys_ascending(self.entries@),
        ensures
            self@.dom().finite(),
            self@.dom().len() == self.entries@.len(),
        decreases self.entries@.len(),
    {
        let e = self.entries@;
        let keys = Seq::new(e.len(), |i: int| e[i].0@);
        assert forall|i: int, j: int| 0 <= i < keys.len() && 0 <= j < keys.len() && i != j
            implies keys[i] != keys[j] by {
            if i < j {
                assert(key_lt(e[i].0@, e[j].0@));
            } else {
                assert(key_lt(e[j].0@, e[i].0@));
            }
            lemma_key_lt_irreflexive(keys[i]);
        }
        keys.unique_seq_to_set();
        assert(self@.dom() =~= keys.to_set()) by {
            assert forall|k: Seq<char>| self@.dom().contains(k) implies keys.to_set().contains(k) by {
                let i = choose|i: int| 0 <= i < e.len() && (#[trigger] e[i]).0@ == k;
                assert(keys[i] == k);
            }
            assert forall|k: Seq<char>| keys.to_set().contains(k) implies self@.dom().contains(k) by {
                let i = choose|i: int| 0 <= i < keys.len() && keys[i] == k;
                assert(e[i].0@ == k);
            }
        }
    }

    /// The value at `key`, if any.
    pub fn get(&self, key: &str) -> (r: Option<&OmigaValue>)
        ensures
            match r {
                Some(v) => self@.contains_key(key@) && *v == self@[key@],
                None => !self@.contains_key(key@),
            },
    {
        proof {
            use_type_invariant(self);
        }
        match find_in(&self.entries, key) {
            Ok(i) => {
                proof {
                    lemma_entry_at(self.entries@, i as int);
                }
                Some(&self.entries[i].1)
            },
            Err(p) => {
                proof {
                    lemma_absent(self.entries@, key@, p as int);
                }
                None
            },
        }
    }

    /// Sets `key` to `value`, handing back the value it replaced.
    pub fn insert(&mut self, key: String, value: OmigaValue) -> (r: Option<OmigaValue>)
        ensures
            final(self)@ == old(self)@.insert(key@, value),
            r == lookup(old(self)@, key@),
    {
        proof {
            use_type_invariant(&*self);
        }
        let mut entries: Vec<(String, OmigaValue)> = Vec::new();
        std::mem::swap(&mut entries, &mut self.entries);
        let ghost e = entries@;
        let found = find_in(&entries, key.as_str());
        match found {
            Ok(i) => {
                proof {
                    lemma_entry_at(e, i as int);
                    lemma_update(e, i as int, key, value);
                }
                let (_, prior) = entries.remove(i);
                entries.insert(i, (key, value));
                assert(entries@ =~= e.update(i as int, (key, value)));
                self.entries = entries;
                Some(prior)
            },
            Err(p) => {
                proof {
                    lemma_absent(e, key@, p as int);
                    lemma_insert_at(e, p as int, key, value);
                }
                entries.insert(p, (key, value));
                self.entries = entries;
                None
            },
        }
    }

    /// Takes the value at `key` out of the table.
    pub fn remove(&mut self, key: &str) -> (r: Option<OmigaValue>)
        ensures
            final(self)@ == old(self)@.remove(key@),
            r == lookup(old(self)@, key@),
    {
        proof {
            use_type_invariant(&*self);
        }
        let mut entries: Vec<(String, OmigaValue)> = Vec::new();
        std::mem::swap(&mut entries, &mut self.entries);
        let ghost e = entries@;
        match find_in(&entries, key) {
            Ok(i) => {
                proof {
                    lemma_entry_at(e, i as int);
                    lemma_remove_at(e, i as int);
                }
                let (_, prior) = entries.remove(i);
                self.entries = entries;
                Some(prior)
            },
            Err(p) => {
                proof {
                    lemma_absent(e, key@, p as int);
                    assert(entries_map(e).remove(key@) =~= entries_map(e));
                }
                self.entries = entries;
                None
            },
        }
    }

    /// Whether `key` is present.
    pub fn contains_key(&self, key: &str) -> (r: bool)
        ensures
            r == self@.contains_key(key@),
    {
        self.get(key).is_some()
    }
}

/// The merge relation at one key: `r` is what overlaying `s` on the prior
/// value `d` (if the key was present) gives. Two tables merge deeply, two
/// arrays concatenate (prior elements first), and otherwise `s` wins.
pub closed spec fn merged_value(d: Option<OmigaValue>, s: OmigaValue, r: OmigaValue) -> bool
    decreases s,
{
    match s {
        OmigaValue::Nested(st) => match d {
            Some(OmigaValue::Nested(dt)) => match r {
                OmigaValue::Nested(rt) => merged_table(dt, st, rt),
                _ => false,
            },
            _ => r == s,
        },
        OmigaValue::Array(sa) => match d {
            Some(OmigaValue::Array(da)) => match r {
                OmigaValue::Array(ra) => ra@ == da@ + sa@,
                _ => false,
            },
            _ => r == s,
        },
        _ => r == s,
    }
}

/// The merge relation on tables: `r` holds every key of `d` and of `s`; a key
/// only in `d` keeps its value, and a key of `s` holds the merge of its two
/// values there.
pub closed spec fn merged_table(d: Table, s: Table, r: Table) -> bool
    decreases s,
{
    &&& r@.dom() == d@.dom().union(s@.dom())
    &&& forall|k: Seq<char>| d@.contains_key(k) && !s@.contains_key(k) ==> r@[k] == d@[k]
    &&& forall|i: int|
        0 <= i < s.entries@.len() ==> merged_value(
            lookup(d@, s.entries@[i].0@),
            #[trigger] s.entries@[i].1,
            r@[s.entries@[i].0@],
        )
}

spec fn keys_from(e: Seq<(String, OmigaValue)>, n: int) -> Set<Seq<char>> {
    Set::new(|k: Seq<char>| exists|i: int| n <= i < e.len() && (#[trigger] e[i]).0@ == k)
}

/// Deep-merges `src` over `dst`.
pub fn merge_tables(dst: Table, src: Table) -> (r: Table)
    ensures
        merged_table(dst, src, r),
    decreases src,
{
    proof {
        use_type_invariant(&dst);
        use_type_invariant(&src);
    }
    let ghost s0 = src.entries@;
    let ghost d0 = dst@;
    let Table { entries: mut rest } = src;
    let mut acc = dst;
    let mut n = rest.len();
    proof {
        assert(keys_from(s0, s0.len() as int) =~= Set::empty());
        assert(acc@.dom() =~= d0.dom().union(keys_from(s0, n as int)));
    }
    while n > 0
        invariant
            n <= s0.len(),
            rest@ == s0.subrange(0, n as int),
            keys_ascending(s0),
            src.entries@ == s0,
            dst@ == d0,
            acc@.dom() == d0.dom().union(keys_from(s0, n as int)),
            forall|k: Seq<char>|
                d0.contains_key(k) && !keys_from(s0, n as int).contains(k) ==> acc@[k] == d0[k],
            forall|i: int|
                n <= i < s0.len() ==> merged_value(
                    lookup(d0, s0[i].0@),
                    #[trigger] s0[i].1,
                    acc@[s0[i].0@],
                ),
        decreases n,
    {
        let (k, v) = rest.pop().unwrap();
        n = n - 1;
        let ghost ni = n as int;
        proof {
            assert(s0[ni] == (k, v));
            assert(rest@ =~= s0.subrange(0, ni));
            assert(!keys_from(s0, ni + 1).contains(k@)) by {
                if keys_from(s0, ni + 1).contains(k@) {
                    let j = choose|j: int| ni + 1 <= j < s0.len() && (#[trigger] s0[j]).0@ == k@;
                    assert(key_lt(s0[ni].0@, s0[j].0@));
                    lemma_key_lt_irreflexive(k@);
                }
            }
        }
        let prior = acc.remove(k.as_str());
        proof {
            assert(prior == lookup(d0, k@));
        }
        let merged = match (prior, v) {
            (Some(OmigaValue::Nested(dn)), OmigaValue::Nested(sn)) => {
                proof {
                    assert(decreases_to!(src => src.entries));
                    assert(decreases_to!(src.entries => src.entries@));
                    assert(decreases_to!(src.entries@ => src.entries@[ni]));
                }
                OmigaValue::Nested(merge_tables(dn, sn))
            },
            (Some(OmigaValue::Array(mut da)), OmigaValue::Array(mut sa)) => {
                da.append(&mut sa);
                OmigaValue::Array(da)
            },
            (_, other) => other,
        };
        proof {
            assert(merged_value(lookup(d0, k@), s0[ni].1, merged));
        }
        acc.insert(k, merged);
        proof {
            assert(keys_from(s0, ni) =~= keys_from(s0, ni + 1).insert(k@)) by {
                assert forall|x: Seq<char>| keys_from(s0, ni).contains(x) implies keys_from(
                    s0,
                    ni + 1,
                ).insert(k@).contains(x) by {
                    let j = choose|j: int| ni <= j < s0.len() && (#[trigger] s0[j]).0@ == x;
                    if j > ni {
                        assert(keys_from(s0, ni + 1).contains(x));
                    }
                }
                assert(s0[ni].0@ == k@);
            }
            assert(acc@.dom() =~= d0.dom().union(keys_from(s0, ni)));
            assert forall|i: int| ni <= i < s0.len() implies merged_value(
                lookup(d0, s0[i].0@),
                #[trigger] s0[i].1,
                acc@[s0[i].0@],
            ) by {
                if i > ni {
                    assert(keys_from(s0, ni + 1).contains(s0[i].0@));
                }
            }
        }
    }
    proof {
        assert(keys_from(s0, 0) =~= src@.dom()) by {
            assert forall|x: Seq<char>| keys_from(s0, 0).contains(x) implies src@.dom().contains(x) by {
                let j = choose|j: int| 0 <= j < s0.len() && (#[trigger] s0[j]).0@ == x;
                assert(has_key(s0, x));
            }
            assert forall|x: Seq<char>| src@.dom().contains(x) implies keys_from(s0, 0).contains(x) by {
                let j = key_index(s0, x);
                assert(s0[j].0@ == x);
            }
        }
    }
    acc
}

proof fn lemma_merged_at(d: Table, s: Table, r: Table, k: Seq<char>)
    requires
        merged_table(d, s, r),
        s@.contains_key(k),
    ensures
        r@.contains_key(k),
        merged_value(lookup(d@, k), s@[k], r@[k]),
{
    let i = key_index(s.entries@, k);
    assert(s.entries@[i].0@ == k);
    assert(merged_value(lookup(d@, s.entries@[i].0@), s.entries@[i].1, r@[s.entries@[i].0@]));
}

/// Merging two tables that share no key gives their union, every value unchanged.
pub proof fn law_merge_disjoint(dst: Table, src: Table, r: Table)
    requires
        merged_table(dst, src, r),
        dst@.dom().disjoint(src@.dom()),
    ensures
        r@ == dst@.union_prefer_right(src@),
{
    assert forall|k: Seq<char>| #[trigger] r@.contains_key(k) implies r@[k] == dst@.union_prefer_right(
        src@,
    )[k] by {
        if src@.contains_key(k) {
            lemma_merged_at(dst, src, r, k);
            assert(!dst@.contains_key(k));
        }
    }
    assert(r@ =~= dst@.union_prefer_right(src@));
}

/// At a key of both tables whose two values are not both tables and not both
/// arrays, the merge holds the overlay's value.
pub proof fn law_merge_override(dst: Table, src: Table, r: Table, k: Seq<char>)
    requires
        merged_table(dst, src, r),
        dst@.contains_key(k),
        src@.contains_key(k),
        !(dst@[k] is Nested && src@[k] is Nested),
        !(dst@[k] is Array && src@[k] is Array),
    ensures
        r@.contains_key(k),
        r@[k] == src@[k],
{
    lemma_merged_at(dst, src, r, k);
}

/// At a key where both tables hold arrays, the merge holds the base array's
/// elements followed by the overlay's.
pub proof fn law_merge_arrays_append(dst: Table, src: Table, r: Table, k: Seq<char>)
    requires
        merged_table(dst, src, r),
        dst@.contains_key(k),
        src@.contains_key(k),
        dst@[k] is Array,
        src@[k] is Array,
    ensures
        r@.contains_key(k),
        r@[k] is Array,
        r@[k]->Array_0@ == dst@[k]->Array_0@ + src@[k]->Array_0@,
{
    lemma_merged_at(dst, src, r, k);
}

/// At a key where both tables hold tables, the merge holds the merge of the
/// two sub-tables, and so on at every depth.
pub proof fn law_merge_nested(dst: Table, src: Table, r: Table, k: Seq<char>)
    requires
        merged_table(dst, src, r),
        dst@.contains_key(k),
        src@.contains_key(k),
        dst@[k] is Nested,
        src@[k] is Nested,
    ensures
        r@.contains_key(k),
        r@[k] is Nested,
        merged_table(dst@[k]->Nested_0, src@[k]->Nested_0, r@[k]->Nested_0),
{
    lemma_merged_at(dst, src, r, k);
}

/// The merge holds exactly the keys of the two tables.
pub proof fn law_merge_keys(dst: Table, src: Table, r: Table)
    requires
        merged_table(dst, src, r),
    ensures
        r@.dom() == dst@.dom().union(src@.dom()),
{
}

/// A key that only the overlay holds gets the overlay's value.
pub proof fn law_merge_overlay_only(dst: Table, src: Table, r: Table, k: Seq<char>)
    requires
        merged_table(dst, src, r),
        !dst@.contains_key(k),
        src@.contains_key(k),
    ensures
        r@.contains_key(k),
        r@[k] == src@[k],
{
    lemma_merged_at(dst, src, r, k);
}

/// A key of the base table that the overlay lacks keeps its value.
pub proof fn law_merge_keeps_base(dst: Table, src: Table, r: Table, k: Seq<char>)
    requires
        merged_table(dst, src, r),
        dst@.contains_key(k),
        !src@.contains_key(k),
    ensures
        r@.contains_key(k),
        r@[k] == dst@[k],
{
}

impl From<Table> for OmigaValue {
    fn from(v: Table) -> (r: Self) {
        OmigaValue::Nested(v)
    }
}

impl vstd::std_specs::convert::FromSpecImpl<Table> for OmigaValue {
    open spec fn obeys_from_spec() -> bool {
        true
    }

    open spec fn from_spec(v: Table) -> Self {
        OmigaValue::Nested(v)
    }
}

impl From<Vec<OmigaValue>> for OmigaValue {
    fn from(v: Vec<OmigaValue>) -> (r: Self) {
        OmigaValue::Array(v)
    }
}

impl vstd::std_specs::convert::FromSpecImpl<Vec<OmigaValue>> for OmigaValue {
    open spec fn obeys_from_spec() -> bool {
        true
    }

    open spec fn from_spec(v: Vec<OmigaValue>) -> Self {
        OmigaValue::Array(v)
    }
}

impl From<DateTime> for OmigaValue {
    fn from(v: DateTime) -> (r: Self) {
        OmigaValue::DateTime(v)
    }
}

impl vstd::std_specs::convert::FromSpecImpl<DateTime> for OmigaValue {
    open spec fn obeys_from_spec() -> bool {
        true
    }

    open spec fn from_spec(v: DateTime) -> Self {
        OmigaValue::DateTime(v)
    }
}

impl From<String> for OmigaValue {
    fn from(v: String) -> (r: Self) {
        OmigaValue::String(v)
    }
}

impl vstd::std_specs::convert::FromSpecImpl<String> for OmigaValue {
    open spec fn obeys_from_spec() -> bool {
        true
    }

    open spec fn from_spec(v: String) -> Self {
        OmigaValue::String(v)
    }
}

impl From<bool> for OmigaValue {
    fn from(v: bool) -> (r: Self) {
        OmigaValue::Boolean(v)
    }
}

impl vstd::std_specs::convert::FromSpecImpl<bool> for OmigaValue {
    open spec fn obeys_from_spec() -> bool {
        true
    }

    open spec fn from_spec(v: bool) -> Self {
        OmigaValue::Boolean(v)
    }
}

impl From<i32> for OmigaValue {
    fn from(v: i32) -> (r: Self) {
        OmigaValue::Int32(v)
    }
}

impl vstd::std_specs::convert::FromSpecImpl<i32> for OmigaValue {
    open spec fn obeys_from_spec() -> bool {
        true
    }

    open spec fn from_spec(v: i32) -> Self {
        OmigaValue::Int32(v)
    }
}

impl From<i64> for OmigaValue {
    fn from(v: i64) -> (r: Self) {
        OmigaValue::Int64(v)
    }
}

impl vstd::std_specs::convert::FromSpecImpl<i64> for OmigaValue {
    open spec fn obeys_from_spec() -> bool {
        true
    }

    open spec fn from_spec(v: i64) -> Self {
        OmigaValue::Int64(v)
    }
}

impl From<i128> for OmigaValue {
    fn from(v: i128) -> (r: Self) {
        OmigaValue::Int128(v)
    }
}

impl vstd::std_specs::convert::FromSpecImpl<i128> for OmigaValue {
    open spec fn obeys_from_spec() -> bool {
        true
    }

    open spec fn from_spec(v: i128) -> Self {
        OmigaValue::Int128(v)
    }
}

impl From<u32> for OmigaValue {
    fn from(v: u32) -> (r: Self) {
        OmigaValue::IntU32(v)
    }
}

impl vstd::std_specs::convert::FromSpecImpl<u32> for OmigaValue {
    open spec fn obeys_from_spec() -> bool {
        true
    }

    open spec fn from_spec(v: u32) -> Self {
        OmigaValue::IntU32(v)
    }
}

impl From<u64> for OmigaValue {
    fn from(v: u64) -> (r: Self) {
        OmigaValue::IntU64(v)
    }
}

impl vstd::std_specs::convert::FromSpecImpl<u64> for OmigaValue {
    open spec fn obeys_from_spec() -> bool {
        true
    }

    open spec fn from_spec(v: u64) -> Self {
        OmigaValue::IntU64(v)
    }
}

impl From<u128> for OmigaValue {
    fn from(v: u128) -> (r: Self) {
        OmigaValue::IntU128(v)
    }
}

impl vstd::std_specs::convert::FromSpecImpl<u128> for OmigaValue {
    open spec fn obeys_from_spec() -> bool {
        true
    }

    open spec fn from_spec(v: u128) -> Self {
        OmigaValue::IntU128(v)
    }
}

impl From<&str> for OmigaValue {
    fn from(v: &str) -> (r: Self) {
        OmigaValue::String(v.to_string())
    }
}

// A `String` has no constructor from its view in specifications, so what a
// string slice becomes is left unstated.
impl vstd::std_specs::convert::FromSpecImpl<&str> for OmigaValue {
    open spec fn obeys_from_spec() -> bool {
        false
    }

    open spec fn from_spec(v: &str) -> Self {
        OmigaValue::Null
    }
}

impl Default for OmigaValue {
    fn default() -> (r: Self)
        ensures
            r is Null,
    {
        OmigaValue::Null
    }
}

} // verus!
