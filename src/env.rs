//! The configuration environment: a root table read and written by dotted
//! keys, and the readers it was built with.

use vstd::prelude::*;
use crate::builder::StandardEnvironmentBuilder;
use crate::accessor::{get_dotted, path_blocked, path_lookup, path_set, set_dotted};
use crate::error::ConfigError;
use crate::reader::ConfigReader;
use crate::registry::ConfigReaderRegistry;
use crate::text::{split_dot, str_eq};
use crate::toml_reader::TomlConfigReader;
use crate::value::{law_merge_disjoint, merge_tables, merged_table, OmigaValue, Table};

verus! {

/// The profile that is active when none is named.
pub const SIGMA_CORE_PROFILE_ACTIVES_DEFAULT: &'static str = "default";

/// Whether `profile` is the default profile.
pub fn is_default_profile(profile: &str) -> (r: bool)
    ensures
        r == (profile@ == "default"@),
{
    str_eq(profile, "default")
}

/// Whether `profile` is a profile other than the default one.
pub fn is_not_default_profile(profile: &str) -> (r: bool)
    ensures
        r == (profile@ != "default"@),
{
    !is_default_profile(profile)
}

/// The table of environment variables: each name holds its value as a
/// string; of two pairs with one name, the later wins.
pub fn try_load_env_variables(vars: Vec<(String, String)>) -> (r: Table)
    ensures
        forall|k: Seq<char>| #[trigger] r@.contains_key(k) <==> exists|i: int| 0 <= i < vars@.len() && (#[trigger] vars@[i]).0@ == k,
        forall|i: int|
            0 <= i < vars@.len() && (forall|j: int| i < j < vars@.len() ==> (#[trigger] vars@[j]).0@ != vars@[i].0@)
                ==> r@[vars@[i].0@] == OmigaValue::String(#[trigger] vars@[i].1),
{
    let ghost all = vars@;
    let mut rest = vars;
    let mut table = Table::new();
    let mut k: usize = 0;
    let total = rest.len();
    while rest.len() > 0
        invariant
            rest@ == all.skip(k as int),
            k <= all.len(),
            all.len() == total,
            forall|x: Seq<char>| #[trigger] table@.contains_key(x) <==> exists|i: int| 0 <= i < k && (#[trigger] all[i]).0@ == x,
            forall|i: int|
                0 <= i < k && (forall|j: int| i < j < k ==> (#[trigger] all[j]).0@ != all[i].0@)
                    ==> table@[all[i].0@] == OmigaValue::String(#[trigger] all[i].1),
        decreases rest@.len(),
    {
        let (name, value) = rest.remove(0);
        proof {
            assert((name, value) == all[k as int]);
        }
        table.insert(name, OmigaValue::String(value));
        proof {
            assert forall|x: Seq<char>| #[trigger] table@.contains_key(x) <==> exists|i: int| 0 <= i < k + 1 && (#[trigger] all[i]).0@ == x by {
                if x == all[k as int].0@ {
                    assert(all[k as int].0@ == x);
                }
            }
        }
        k = k + 1;
        assert(rest@ =~= all.skip(k as int));
    }
    table
}

/// A built configuration environment.
pub struct StandardEnvironment {
    ctx: Table,
    registry: ConfigReaderRegistry<TomlConfigReader>,
}

impl StandardEnvironment {
    /// The root table.
    pub closed spec fn spec_table(&self) -> Table {
        self.ctx
    }

    /// The readers, by suffix.
    pub closed spec fn spec_readers(&self) -> Map<Seq<char>, TomlConfigReader> {
        self.registry@
    }

    /// A builder with the default profile active and nothing else set.
    pub fn builder() -> (r: StandardEnvironmentBuilder)
        ensures
            r.spec_table().is_none(),
            r.spec_registry().is_none(),
            r.spec_paths().len() == 0,
            r.spec_configs().len() == 0,
            r.spec_profiles() == seq!["default"@],
            r.spec_formats().len() == 0,
            r.spec_search_paths().len() == 0,
            r.spec_variables().len() == 0,
    {
        StandardEnvironmentBuilder::new()
    }

    /// An environment over `table_opt` (or an empty table) with `registry`,
    /// where the TOML reader is registered, replacing any reader for `toml`.
    pub fn new(table_opt: Option<Table>, registry: ConfigReaderRegistry<TomlConfigReader>) -> (r: Self)
        ensures
            r.spec_table()@ == match table_opt {
                Some(t) => t@,
                None => Map::empty(),
            },
            r.spec_readers().dom() == registry@.dom().insert("toml"@),
            forall|k: Seq<char>| k != "toml"@ && registry@.contains_key(k) ==> r.spec_readers()[k] == registry@[k],
            r.spec_readers()["toml"@].spec_suffix() == "toml"@,
            r.spec_readers()["toml"@].spec_name() == "TOML"@,
    {
        let base = Table::new();
        let ctx = match table_opt {
            Some(table) => {
                let ghost b0 = base;
                let ghost t0 = table;
                let merged = merge_tables(base, table);
                proof {
                    law_merge_disjoint(b0, t0, merged);
                    assert(b0@.union_prefer_right(t0@) =~= t0@);
                }
                merged
            },
            None => base,
        };
        let mut registry = registry;
        registry.register(TomlConfigReader::new());
        StandardEnvironment { ctx, registry }
    }

    /// An environment whose root table is `table_opt` itself (or an empty table).
    pub(crate) fn mixed(table_opt: Option<Table>, registry: ConfigReaderRegistry<TomlConfigReader>) -> (r: Self)
        ensures
            match table_opt {
                Some(t) => r.spec_table() == t,
                None => r.spec_table()@ == Map::<Seq<char>, OmigaValue>::empty(),
            },
            r.spec_readers() == registry@,
    {
        match table_opt {
            Some(table) => StandardEnvironment { ctx: table, registry },
            None => StandardEnvironment { ctx: Table::new(), registry },
        }
    }

    /// This environment with `table` merged over its root table.
    pub fn table(self, table: Table) -> (r: Self)
        ensures
            merged_table(self.spec_table(), table, r.spec_table()),
            r.spec_readers() == self.spec_readers(),
    {
        let mut s = self;
        s.merge_table(table);
        s
    }

    /// Merges `table` over the root table.
    pub fn merge_table(&mut self, table: Table)
        ensures
            merged_table(old(self).spec_table(), table, final(self).spec_table()),
            final(self).spec_readers() == old(self).spec_readers(),
    {
        let mut ctx = Table::new();
        std::mem::swap(&mut ctx, &mut self.ctx);
        self.ctx = merge_tables(ctx, table);
    }

    /// Places `value` at the dotted `key`; see `set_dotted`.
    pub fn set(&mut self, key: &str, value: OmigaValue) -> (r: Result<(), ConfigError>)
        ensures
            key@.len() == 0 ==> r == Err::<(), ConfigError>(ConfigError::EmptyKey)
                && final(self).spec_table()@ == old(self).spec_table()@,
            key@.len() > 0 && path_blocked(old(self).spec_table()@, split_dot(key@)) ==> r == Err::<
                (),
                ConfigError,
            >(ConfigError::NonNested) && final(self).spec_table()@ == old(self).spec_table()@,
            key@.len() > 0 && !path_blocked(old(self).spec_table()@, split_dot(key@)) ==> r == Ok::<
                (),
                ConfigError,
            >(()) && path_set(old(self).spec_table()@, split_dot(key@), value, final(self).spec_table()@),
            final(self).spec_readers() == old(self).spec_readers(),
    {
        set_dotted(&mut self.ctx, key, value)
    }

    /// The value at the dotted `key`; see `get_dotted`.
    pub fn get(&self, key: &str) -> (r: Result<&OmigaValue, ConfigError>)
        ensures
            key@.len() == 0 ==> r == Err::<&OmigaValue, ConfigError>(ConfigError::EmptyKey),
            key@.len() > 0 ==> match r {
                Ok(v) => path_lookup(self.spec_table()@, split_dot(key@)) == Ok::<OmigaValue, ConfigError>(*v),
                Err(e) => path_lookup(self.spec_table()@, split_dot(key@)) == Err::<OmigaValue, ConfigError>(e),
            },
    {
        get_dotted(&self.ctx, key)
    }

    /// The reader for `suffix`, if one is registered.
    pub fn try_acquire(&self, suffix: &str) -> (r: Option<&TomlConfigReader>)
        ensures
            match r {
                Some(x) => self.spec_readers().contains_key(suffix@) && *x == self.spec_readers()[suffix@],
                None => !self.spec_readers().contains_key(suffix@),
            },
    {
        self.registry.try_acquire(suffix)
    }

    /// Every registered reader, each once.
    pub fn try_acquires(&self) -> (r: Vec<&TomlConfigReader>)
        ensures
            r@.len() == self.spec_readers().dom().len(),
            forall|i: int|
                0 <= i < r@.len() ==> self.spec_readers().contains_key((#[trigger] r@[i]).spec_suffix())
                    && self.spec_readers()[r@[i].spec_suffix()] == *r@[i],
    {
        self.registry.try_acquires()
    }
}

} // verus!
