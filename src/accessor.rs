//! Dotted-key access into a table: `"a.b.c"` walks nested tables.

use vstd::prelude::*;
use crate::error::ConfigError;
use crate::text::{lemma_split_dot_concat, lemma_split_dot_nonempty, split_dot, split_dots, views};
use crate::value::{Table, OmigaValue};

verus! {

/// The table under `k`, or an empty one where `k` is absent or not a table.
pub open spec fn child_map(m: Map<Seq<char>, OmigaValue>, k: Seq<char>) -> Map<Seq<char>, OmigaValue> {
    if m.contains_key(k) && m[k] is Nested {
        m[k]->Nested_0@
    } else {
        Map::empty()
    }
}

/// What a lookup of the segments `ks` in `m` gives.
pub open spec fn path_lookup(m: Map<Seq<char>, OmigaValue>, ks: Seq<Seq<char>>) -> Result<OmigaValue, ConfigError>
    decreases ks.len(),
{
    if ks.len() == 0 {
        Err(ConfigError::EmptyKey)
    } else if !m.contains_key(ks[0]) {
        Err(ConfigError::NotFound)
    } else if ks.len() == 1 {
        Ok(m[ks[0]])
    } else {
        match m[ks[0]] {
            OmigaValue::Nested(t) => path_lookup(t@, ks.drop_first()),
            _ => Err(ConfigError::NonNested),
        }
    }
}

/// Whether a segment before the last of `ks` reaches a value that is not a table.
pub open spec fn path_blocked(m: Map<Seq<char>, OmigaValue>, ks: Seq<Seq<char>>) -> bool
    decreases ks.len(),
{
    if ks.len() <= 1 || !m.contains_key(ks[0]) {
        false
    } else {
        match m[ks[0]] {
            OmigaValue::Nested(t) => path_blocked(t@, ks.drop_first()),
            _ => true,
        }
    }
}

/// `r` is `m` with `v` placed at the segments `ks`, creating empty tables on
/// the way where a segment is absent.
pub open spec fn path_set(
    m: Map<Seq<char>, OmigaValue>,
    ks: Seq<Seq<char>>,
    v: OmigaValue,
    r: Map<Seq<char>, OmigaValue>,
) -> bool
    decreases ks.len(),
{
    if ks.len() == 0 {
        r == m
    } else if ks.len() == 1 {
        r == m.insert(ks[0], v)
    } else {
        &&& r.dom() == m.dom().insert(ks[0])
        &&& forall|k: Seq<char>| k != ks[0] && m.contains_key(k) ==> r[k] == m[k]
        &&& r[ks[0]] is Nested
        &&& path_set(child_map(m, ks[0]), ks.drop_first(), v, r[ks[0]]->Nested_0@)
    }
}

fn blocked_from(t: &Table, keys: &Vec<String>, i: usize) -> (r: bool)
    requires
        i <= keys@.len(),
    ensures
        r == path_blocked(t@, views(keys@).skip(i as int)),
    decreases keys@.len() - i,
{
    let ghost ks = views(keys@).skip(i as int);
    if keys.len() - i <= 1 {
        return false;
    }
    assert(ks[0] == keys@[i as int]@);
    assert(ks.drop_first() =~= views(keys@).skip(i + 1));
    match t.get(keys[i].as_str()) {
        None => false,
        Some(v) => match v {
            OmigaValue::Nested(c) => blocked_from(c, keys, i + 1),
            _ => true,
        },
    }
}

fn set_unblocked(t: &mut Table, keys: &Vec<String>, i: usize, value: OmigaValue)
    requires
        i < keys@.len(),
        !path_blocked(old(t)@, views(keys@).skip(i as int)),
    ensures
        path_set(old(t)@, views(keys@).skip(i as int), value, final(t)@),
    decreases keys@.len() - i,
{
    let ghost ks = views(keys@).skip(i as int);
    let ghost m = t@;
    assert(ks[0] == keys@[i as int]@);
    if keys.len() - i == 1 {
        t.insert(keys[i].clone(), value);
        return ;
    }
    assert(ks.drop_first() =~= views(keys@).skip(i + 1));
    let child = t.remove(keys[i].as_str());
    let mut sub = match child {
        Some(OmigaValue::Nested(c)) => c,
        _ => Table::new(),
    };
    assert(sub@ == child_map(m, ks[0]));
    set_unblocked(&mut sub, keys, i + 1, value);
    t.insert(keys[i].clone(), OmigaValue::Nested(sub));
    assert(t@.dom() =~= m.dom().insert(ks[0]));
}

/// Places `value` at the dotted `key`, creating empty tables for absent
/// segments. Fails, changing nothing, on an empty key or where a segment
/// before the last holds a value that is not a table.
pub fn set_dotted(t: &mut Table, key: &str, value: OmigaValue) -> (r: Result<(), ConfigError>)
    ensures
        key@.len() == 0 ==> r == Err::<(), ConfigError>(ConfigError::EmptyKey) && final(t)@ == old(t)@,
        key@.len() > 0 && path_blocked(old(t)@, split_dot(key@)) ==> r == Err::<(), ConfigError>(
            ConfigError::NonNested,
        ) && final(t)@ == old(t)@,
        key@.len() > 0 && !path_blocked(old(t)@, split_dot(key@)) ==> r == Ok::<(), ConfigError>(())
            && path_set(old(t)@, split_dot(key@), value, final(t)@),
{
    if key.unicode_len() == 0 {
        return Err(ConfigError::EmptyKey);
    }
    let keys = split_dots(key);
    proof {
        lemma_split_dot_nonempty(key@);
        assert(views(keys@).skip(0) =~= views(keys@));
    }
    if blocked_from(t, &keys, 0) {
        return Err(ConfigError::NonNested);
    }
    set_unblocked(t, &keys, 0, value);
    Ok(())
}

/// The value at the dotted `key`.
pub fn get_dotted<'a>(t: &'a Table, key: &str) -> (r: Result<&'a OmigaValue, ConfigError>)
    ensures
        key@.len() == 0 ==> r == Err::<&OmigaValue, ConfigError>(ConfigError::EmptyKey),
        key@.len() > 0 ==> match r {
            Ok(v) => path_lookup(t@, split_dot(key@)) == Ok::<OmigaValue, ConfigError>(*v),
            Err(e) => path_lookup(t@, split_dot(key@)) == Err::<OmigaValue, ConfigError>(e),
        },
{
    if key.unicode_len() == 0 {
        return Err(ConfigError::EmptyKey);
    }
    let keys = split_dots(key);
    let ghost ks = views(keys@);
    proof {
        lemma_split_dot_nonempty(key@);
    }
    let n = keys.len();
    let mut node: &'a Table = t;
    let mut i: usize = 0;
    assert(ks.skip(0) =~= ks);
    while i < n
        invariant
            n == keys@.len(),
            ks == views(keys@),
            ks == split_dot(key@),
            n >= 1,
            i < n,
            key@.len() > 0,
            path_lookup(t@, ks) == path_lookup(node@, ks.skip(i as int)),
        decreases n - i,
    {
        let ghost rest = ks.skip(i as int);
        assert(rest[0] == keys@[i as int]@);
        assert(rest.drop_first() =~= ks.skip(i + 1));
        match node.get(keys[i].as_str()) {
            None => {
                return Err(ConfigError::NotFound);
            },
            Some(v) => {
                if n - i == 1 {
                    return Ok(v);
                }
                match v {
                    OmigaValue::Nested(c) => {
                        node = c;
                    },
                    _ => {
                        return Err(ConfigError::NonNested);
                    },
                }
            },
        }
        i = i + 1;
    }
    Err(ConfigError::NotFound)
}

proof fn lemma_set_then_lookup(m: Map<Seq<char>, OmigaValue>, ks: Seq<Seq<char>>, v: OmigaValue, r: Map<Seq<char>, OmigaValue>)
    requires
        ks.len() >= 1,
        path_set(m, ks, v, r),
    ensures
        path_lookup(r, ks) == Ok::<OmigaValue, ConfigError>(v),
    decreases ks.len(),
{
    if ks.len() > 1 {
        lemma_set_then_lookup(child_map(m, ks[0]), ks.drop_first(), v, r[ks[0]]->Nested_0@);
    }
}

proof fn lemma_set_blocks_longer(
    m: Map<Seq<char>, OmigaValue>,
    ks: Seq<Seq<char>>,
    v: OmigaValue,
    r: Map<Seq<char>, OmigaValue>,
    more: Seq<Seq<char>>,
)
    requires
        ks.len() >= 1,
        more.len() >= 1,
        path_set(m, ks, v, r),
        !(v is Nested),
    ensures
        path_blocked(r, ks + more),
    decreases ks.len(),
{
    let all = ks + more;
    assert(all[0] == ks[0]);
    if ks.len() > 1 {
        assert(all.drop_first() =~= ks.drop_first() + more);
        lemma_set_blocks_longer(child_map(m, ks[0]), ks.drop_first(), v, r[ks[0]]->Nested_0@, more);
    }
}

/// Setting a value at a non-empty dotted key and then reading that key gives
/// the value back.
pub proof fn law_set_then_get(m: Map<Seq<char>, OmigaValue>, key: Seq<char>, v: OmigaValue, r: Map<Seq<char>, OmigaValue>)
    requires
        key.len() > 0,
        path_set(m, split_dot(key), v, r),
    ensures
        path_lookup(r, split_dot(key)) == Ok::<OmigaValue, ConfigError>(v),
{
    lemma_split_dot_nonempty(key);
    lemma_set_then_lookup(m, split_dot(key), v, r);
}

/// Once a value that is not a table stands at key `a`, every key `a.b` is
/// blocked, so setting it fails with `NonNested`.
pub proof fn law_set_conflict(
    m: Map<Seq<char>, OmigaValue>,
    a: Seq<char>,
    v: OmigaValue,
    r: Map<Seq<char>, OmigaValue>,
    b: Seq<char>,
)
    requires
        a.len() > 0,
        path_set(m, split_dot(a), v, r),
        !(v is Nested),
    ensures
        path_blocked(r, split_dot(a + seq!['.'] + b)),
{
    lemma_split_dot_concat(a, b);
    lemma_split_dot_nonempty(a);
    lemma_split_dot_nonempty(b);
    lemma_set_blocks_longer(m, split_dot(a), v, r, split_dot(b));
}

} // verus!
