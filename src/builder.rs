//! Assembling an environment from configuration files.
//!
//! The builder names the candidate files; the caller reads them and hands
//! back each path with what reading it gave, in candidate order; the builder
//! then parses and merges them. Precedence, lowest first: environment
//! variables, the initial table, then the files in candidate order (explicit
//! paths, then base files, then profile files), each merged over the last.

use vstd::prelude::*;
use crate::env::{try_load_env_variables, StandardEnvironment};
use crate::error::ReadError;
use crate::paths::{candidates_spec, cross, distinct, extension_spec, file_extension, non_default_profiles, push_unique};
use crate::reader::ConfigReader;
use crate::registry::ConfigReaderRegistry;
use crate::text::views;
use crate::toml_reader::TomlConfigReader;
use crate::value::{merge_tables, merged_table, OmigaValue, Table};

verus! {

/// What reading one candidate file gave.
#[derive(Debug)]
pub enum FileContent {
    /// The file's text.
    Text(String),
    /// No file stands at the path.
    Missing,
    /// The file exists but could not be read.
    Unreadable,
}

/// `v` extended by each of `items` that it does not hold yet, in order.
pub open spec fn extend_unique(v: Seq<Seq<char>>, items: Seq<Seq<char>>) -> Seq<Seq<char>>
    decreases items.len(),
{
    if items.len() == 0 {
        v
    } else {
        let e = extend_unique(v, items.drop_last());
        if e.contains(items.last()) {
            e
        } else {
            e.push(items.last())
        }
    }
}

/// Appends each of `items` not already present.
pub fn extend_strings(v: &mut Vec<String>, items: Vec<String>)
    ensures
        views(final(v)@) == extend_unique(views(old(v)@), views(items@)),
{
    let ghost all = views(items@);
    let ghost start = views(v@);
    let mut rest = items;
    let mut k: usize = 0;
    let total = rest.len();
    assert(all.take(0) =~= Seq::<Seq<char>>::empty());
    while rest.len() > 0
        invariant
            views(rest@) == all.skip(k as int),
            k <= all.len(),
            all.len() == total,
            views(v@) == extend_unique(start, all.take(k as int)),
        decreases rest@.len(),
    {
        let ghost before = views(rest@);
        assert(before.len() == rest@.len());
        assert(all.skip(k as int)[0] == all[k as int]);
        let s = rest.remove(0);
        proof {
            let t = all.take(k + 1);
            assert(t.drop_last() =~= all.take(k as int));
            assert(t.last() == s@);
            assert(views(rest@) =~= before.drop_first());
        }
        push_unique(v, s);
        k = k + 1;
        assert(views(rest@) =~= all.skip(k as int));
    }
    assert(all.take(k as int) =~= all);
}

/// The readers after the defaults: the given registry, or one holding the TOML reader.
pub open spec fn readers_after_defaults(
    given: Option<Map<Seq<char>, TomlConfigReader>>,
    m: Map<Seq<char>, TomlConfigReader>,
) -> bool {
    match given {
        Some(g) => m == g,
        None => m.dom() == set!["toml"@] && m["toml"@].spec_suffix() == "toml"@ && m["toml"@].spec_name()
            == "TOML"@,
    }
}

/// Whether `vt` is the table of the environment variables `vars`.
pub open spec fn variables_table(vars: Seq<(String, String)>, vt: Table) -> bool {
    &&& forall|k: Seq<char>| #[trigger] vt@.contains_key(k) <==> exists|i: int| 0 <= i < vars.len() && (#[trigger] vars[i]).0@ == k
    &&& forall|i: int|
        0 <= i < vars.len() && (forall|j: int| i < j < vars.len() ==> (#[trigger] vars[j]).0@ != vars[i].0@)
            ==> vt@[vars[i].0@] == OmigaValue::String(#[trigger] vars[i].1)
}

/// Whether `base` is the layer beneath the files: the variables' table, with
/// the initial table merged over it.
pub open spec fn base_layer(vars: Seq<(String, String)>, init: Option<Table>, base: Table) -> bool {
    exists|vt: Table|
        variables_table(vars, vt) && match init {
            Some(t) => merged_table(vt, t, base),
            None => base == vt,
        }
}

/// The outcome of reading and merging `srcs` in order over `acc`: a path
/// without extension fails with `InvalidPath`, an extension without reader
/// with `ReaderNotFound`, a missing file adds nothing, an unreadable one
/// fails with `ReadFailed`, a reader's failure stops the fold, and each table
/// read is merged over what came before.
pub open spec fn fold_rel(
    reg: Map<Seq<char>, TomlConfigReader>,
    srcs: Seq<(String, FileContent)>,
    acc: Table,
    r: Result<Table, ReadError>,
) -> bool
    decreases srcs.len(),
{
    if srcs.len() == 0 {
        r == Ok::<Table, ReadError>(acc)
    } else {
        let p = srcs[0].0;
        let rest = srcs.drop_first();
        match extension_spec(p@) {
            None => match r {
                Err(ReadError::InvalidPath(q)) => q@ == p@,
                _ => false,
            },
            Some(e) => if !reg.contains_key(e) {
                match r {
                    Err(ReadError::ReaderNotFound(q)) => q@ == e,
                    _ => false,
                }
            } else {
                match srcs[0].1 {
                    FileContent::Missing => fold_rel(reg, rest, acc, r),
                    FileContent::Unreadable => match r {
                        Err(ReadError::ReadFailed(q)) => q@ == p@,
                        _ => false,
                    },
                    FileContent::Text(t) => exists|rd: Result<Table, ReadError>|
                        #[trigger] reg[e].spec_read(t@, rd) && match rd {
                            Err(err) => r == Err::<Table, ReadError>(err),
                            Ok(tb) => exists|acc2: Table|
                                #[trigger] merged_table(acc, tb, acc2) && fold_rel(reg, rest, acc2, r),
                        },
                }
            },
        }
    }
}

fn fold_from(
    reg: &ConfigReaderRegistry<TomlConfigReader>,
    srcs: &Vec<(String, FileContent)>,
    i: usize,
    acc: Table,
) -> (r: Result<Table, ReadError>)
    requires
        i <= srcs@.len(),
    ensures
        fold_rel(reg@, srcs@.skip(i as int), acc, r),
    decreases srcs@.len() - i,
{
    let ghost rest = srcs@.skip(i as int);
    if i == srcs.len() {
        assert(rest =~= Seq::<(String, FileContent)>::empty());
        return Ok(acc);
    }
    assert(rest[0] == srcs@[i as int]);
    assert(rest.drop_first() =~= srcs@.skip(i + 1));
    let path = &srcs[i].0;
    match file_extension(path.as_str()) {
        None => Err(ReadError::InvalidPath(path.clone())),
        Some(e) => match reg.try_acquire(e.as_str()) {
            None => Err(ReadError::ReaderNotFound(e)),
            Some(reader) => match &srcs[i].1 {
                FileContent::Missing => fold_from(reg, srcs, i + 1, acc),
                FileContent::Unreadable => Err(ReadError::ReadFailed(path.clone())),
                FileContent::Text(t) => {
                    let rd = reader.read_from_str(t.as_str());
                    let ghost rdg = rd;
                    match rd {
                        Err(err) => Err(err),
                        Ok(tb) => {
                            let ghost acc0 = acc;
                            let ghost tb0 = tb;
                            let acc2 = merge_tables(acc, tb);
                            let r = fold_from(reg, srcs, i + 1, acc2);
                            proof {
                                assert(merged_table(acc0, tb0, acc2));
                                assert(reg@[e@].spec_read(t@, rdg));
                            }
                            r
                        },
                    }
                },
            },
        },
    }
}

/// Gathers the options of an environment, then builds it.
pub struct StandardEnvironmentBuilder {
    table: Option<Table>,
    registry: Option<ConfigReaderRegistry<TomlConfigReader>>,
    paths: Vec<String>,
    configs: Vec<String>,
    profiles: Vec<String>,
    formats: Vec<String>,
    search_paths: Vec<String>,
    variables: Vec<(String, String)>,
}

impl StandardEnvironmentBuilder {
    pub closed spec fn spec_table(&self) -> Option<Table> {
        self.table
    }

    pub closed spec fn spec_registry(&self) -> Option<Map<Seq<char>, TomlConfigReader>> {
        match self.registry {
            Some(r) => Some(r@),
            None => None,
        }
    }

    pub closed spec fn spec_paths(&self) -> Seq<Seq<char>> {
        views(self.paths@)
    }

    pub closed spec fn spec_configs(&self) -> Seq<Seq<char>> {
        views(self.configs@)
    }

    pub closed spec fn spec_profiles(&self) -> Seq<Seq<char>> {
        views(self.profiles@)
    }

    pub closed spec fn spec_formats(&self) -> Seq<Seq<char>> {
        views(self.formats@)
    }

    pub closed spec fn spec_search_paths(&self) -> Seq<Seq<char>> {
        views(self.search_paths@)
    }

    pub closed spec fn spec_variables(&self) -> Seq<(String, String)> {
        self.variables@
    }

    /// A builder with the default profile active and nothing else set.
    pub fn new() -> (r: Self)
        ensures
            r.spec_table().is_none(),
            r.spec_registry().is_none(),
            r.spec_paths().len() == 0,
            r.spec_configs().len() == 0,
            r.spec_profiles() == seq!["default"@],
            r.spec_formats().len() == 0,
            r.spec_search_paths().len() == 0,
            r.spec_variables().len() == 0,
    {
        let mut profiles: Vec<String> = Vec::new();
        profiles.push("default".to_string());
        let r = StandardEnvironmentBuilder {
            table: None,
            registry: None,
            paths: Vec::new(),
            configs: Vec::new(),
            profiles,
            formats: Vec::new(),
            search_paths: Vec::new(),
            variables: Vec::new(),
        };
        assert(r.spec_profiles() =~= seq!["default"@]);
        r
    }

    /// Adds an explicit configuration file path, unless already present.
    pub fn with_path(self, path: String) -> (r: Self)
        ensures
            r.spec_paths() == extend_unique(self.spec_paths(), seq![path@]),
            r.spec_configs() == self.spec_configs(),
            r.spec_profiles() == self.spec_profiles(),
            r.spec_formats() == self.spec_formats(),
            r.spec_search_paths() == self.spec_search_paths(),
            r.spec_table() == self.spec_table(),
            r.spec_registry() == self.spec_registry(),
            r.spec_variables() == self.spec_variables(),
    {
        let mut s = self;
        let ghost before = views(s.paths@);
        push_unique(&mut s.paths, path);
        proof {
            let one = seq![path@];
            assert(one.drop_last() =~= Seq::<Seq<char>>::empty());
            assert(extend_unique(before, one.drop_last()) == before);
            assert(one.last() == path@);
        }
        s
    }

    /// Adds each of several, unless already present.
    pub fn with_paths(self, paths: Vec<String>) -> (r: Self)
        ensures
            r.spec_paths() == extend_unique(self.spec_paths(), views(paths@)),
            r.spec_configs() == self.spec_configs(),
            r.spec_profiles() == self.spec_profiles(),
            r.spec_formats() == self.spec_formats(),
            r.spec_search_paths() == self.spec_search_paths(),
            r.spec_table() == self.spec_table(),
            r.spec_registry() == self.spec_registry(),
            r.spec_variables() == self.spec_variables(),
    {
        let mut s = self;
        extend_strings(&mut s.paths, paths);
        s
    }

    /// Adds a configuration base name, unless already present.
    pub fn with_config(self, config: String) -> (r: Self)
        ensures
            r.spec_configs() == extend_unique(self.spec_configs(), seq![config@]),
            r.spec_paths() == self.spec_paths(),
            r.spec_profiles() == self.spec_profiles(),
            r.spec_formats() == self.spec_formats(),
            r.spec_search_paths() == self.spec_search_paths(),
            r.spec_table() == self.spec_table(),
            r.spec_registry() == self.spec_registry(),
            r.spec_variables() == self.spec_variables(),
    {
        let mut s = self;
        let ghost before = views(s.configs@);
        push_unique(&mut s.configs, config);
        proof {
            let one = seq![config@];
            assert(one.drop_last() =~= Seq::<Seq<char>>::empty());
            assert(extend_unique(before, one.drop_last()) == before);
            assert(one.last() == config@);
        }
        s
    }

    /// Adds each of several, unless already present.
    pub fn with_configs(self, configs: Vec<String>) -> (r: Self)
        ensures
            r.spec_configs() == extend_unique(self.spec_configs(), views(configs@)),
            r.spec_paths() == self.spec_paths(),
            r.spec_profiles() == self.spec_profiles(),
            r.spec_formats() == self.spec_formats(),
            r.spec_search_paths() == self.spec_search_paths(),
            r.spec_table() == self.spec_table(),
            r.spec_registry() == self.spec_registry(),
            r.spec_variables() == self.spec_variables(),
    {
        let mut s = self;
        extend_strings(&mut s.configs, configs);
        s
    }

    /// Adds an active profile, unless already present.
    pub fn with_profile(self, profile: String) -> (r: Self)
        ensures
            r.spec_profiles() == extend_unique(self.spec_profiles(), seq![profile@]),
            r.spec_paths() == self.spec_paths(),
            r.spec_configs() == self.spec_configs(),
            r.spec_formats() == self.spec_formats(),
            r.spec_search_paths() == self.spec_search_paths(),
            r.spec_table() == self.spec_table(),
            r.spec_registry() == self.spec_registry(),
            r.spec_variables() == self.spec_variables(),
    {
        let mut s = self;
        let ghost before = views(s.profiles@);
        push_unique(&mut s.profiles, profile);
        proof {
            let one = seq![profile@];
            assert(one.drop_last() =~= Seq::<Seq<char>>::empty());
            assert(extend_unique(before, one.drop_last()) == before);
            assert(one.last() == profile@);
        }
        s
    }

    /// Adds each of several, unless already present.
    pub fn with_profiles(self, profiles: Vec<String>) -> (r: Self)
        ensures
            r.spec_profiles() == extend_unique(self.spec_profiles(), views(profiles@)),
            r.spec_paths() == self.spec_paths(),
            r.spec_configs() == self.spec_configs(),
            r.spec_formats() == self.spec_formats(),
            r.spec_search_paths() == self.spec_search_paths(),
            r.spec_table() == self.spec_table(),
            r.spec_registry() == self.spec_registry(),
            r.spec_variables() == self.spec_variables(),
    {
        let mut s = self;
        extend_strings(&mut s.profiles, profiles);
        s
    }

    /// Adds a file format, unless already present.
    pub fn with_format(self, format: String) -> (r: Self)
        ensures
            r.spec_formats() == extend_unique(self.spec_formats(), seq![format@]),
            r.spec_paths() == self.spec_paths(),
            r.spec_configs() == self.spec_configs(),
            r.spec_profiles() == self.spec_profiles(),
            r.spec_search_paths() == self.spec_search_paths(),
            r.spec_table() == self.spec_table(),
            r.spec_registry() == self.spec_registry(),
            r.spec_variables() == self.spec_variables(),
    {
        let mut s = self;
        let ghost before = views(s.formats@);
        push_unique(&mut s.formats, format);
        proof {
            let one = seq![format@];
            assert(one.drop_last() =~= Seq::<Seq<char>>::empty());
            assert(extend_unique(before, one.drop_last()) == before);
            assert(one.last() == format@);
        }
        s
    }

    /// Adds each of several, unless already present.
    pub fn with_formats(self, formats: Vec<String>) -> (r: Self)
        ensures
            r.spec_formats() == extend_unique(self.spec_formats(), views(formats@)),
            r.spec_paths() == self.spec_paths(),
            r.spec_configs() == self.spec_configs(),
            r.spec_profiles() == self.spec_profiles(),
            r.spec_search_paths() == self.spec_search_paths(),
            r.spec_table() == self.spec_table(),
            r.spec_registry() == self.spec_registry(),
            r.spec_variables() == self.spec_variables(),
    {
        let mut s = self;
        extend_strings(&mut s.formats, formats);
        s
    }

    /// Adds a directory to search, unless already present.
    pub fn with_search_path(self, search_path: String) -> (r: Self)
        ensures
            r.spec_search_paths() == extend_unique(self.spec_search_paths(), seq![search_path@]),
            r.spec_paths() == self.spec_paths(),
            r.spec_configs() == self.spec_configs(),
            r.spec_profiles() == self.spec_profiles(),
            r.spec_formats() == self.spec_formats(),
            r.spec_table() == self.spec_table(),
            r.spec_registry() == self.spec_registry(),
            r.spec_variables() == self.spec_variables(),
    {
        let mut s = self;
        let ghost before = views(s.search_paths@);
        push_unique(&mut s.search_paths, search_path);
        proof {
            let one = seq![search_path@];
            assert(one.drop_last() =~= Seq::<Seq<char>>::empty());
            assert(extend_unique(before, one.drop_last()) == before);
            assert(one.last() == search_path@);
        }
        s
    }

    /// Adds each of several, unless already present.
    pub fn with_search_paths(self, search_paths: Vec<String>) -> (r: Self)
        ensures
            r.spec_search_paths() == extend_unique(self.spec_search_paths(), views(search_paths@)),
            r.spec_paths() == self.spec_paths(),
            r.spec_configs() == self.spec_configs(),
            r.spec_profiles() == self.spec_profiles(),
            r.spec_formats() == self.spec_formats(),
            r.spec_table() == self.spec_table(),
            r.spec_registry() == self.spec_registry(),
            r.spec_variables() == self.spec_variables(),
    {
        let mut s = self;
        extend_strings(&mut s.search_paths, search_paths);
        s
    }

    /// Sets the initial table, replacing any set before.
    pub fn with_table(self, table: Table) -> (r: Self)
        ensures
            r.spec_table() == Some(table),
            r.spec_paths() == self.spec_paths(),
            r.spec_configs() == self.spec_configs(),
            r.spec_profiles() == self.spec_profiles(),
            r.spec_formats() == self.spec_formats(),
            r.spec_search_paths() == self.spec_search_paths(),
            r.spec_registry() == self.spec_registry(),
            r.spec_variables() == self.spec_variables(),
    {
        let mut s = self;
        s.table = Some(table);
        s
    }

    /// Sets the environment variables to place beneath every other layer.
    pub fn with_variables(self, variables: Vec<(String, String)>) -> (r: Self)
        ensures
            r.spec_variables() == variables@,
            r.spec_paths() == self.spec_paths(),
            r.spec_configs() == self.spec_configs(),
            r.spec_profiles() == self.spec_profiles(),
            r.spec_formats() == self.spec_formats(),
            r.spec_search_paths() == self.spec_search_paths(),
            r.spec_table() == self.spec_table(),
            r.spec_registry() == self.spec_registry(),
    {
        let mut s = self;
        s.variables = variables;
        s
    }

    /// Sets the reader registry, adding the TOML reader where the registry
    /// has no reader for its suffix.
    pub fn with_registry(self, registry: ConfigReaderRegistry<TomlConfigReader>) -> (r: Self)
        ensures
            r.spec_registry() is Some,
            registry@.contains_key("toml"@) ==> r.spec_registry() == Some(registry@),
            !registry@.contains_key("toml"@) ==> ({
                let m = r.spec_registry()->Some_0;
                &&& m.dom() == registry@.dom().insert("toml"@)
                &&& forall|k: Seq<char>| k != "toml"@ && registry@.contains_key(k) ==> m[k] == registry@[k]
                &&& m["toml"@].spec_suffix() == "toml"@
                &&& m["toml"@].spec_name() == "TOML"@
            }),
            r.spec_paths() == self.spec_paths(),
            r.spec_configs() == self.spec_configs(),
            r.spec_profiles() == self.spec_profiles(),
            r.spec_formats() == self.spec_formats(),
            r.spec_search_paths() == self.spec_search_paths(),
            r.spec_table() == self.spec_table(),
            r.spec_variables() == self.spec_variables(),
    {
        let mut s = self;
        let mut reg = registry;
        reg.register_if_absent(TomlConfigReader::new());
        s.registry = Some(reg);
        s
    }

    /// Registers `reader` unless a reader already holds its suffix; with no
    /// registry yet, starts from an empty one.
    pub fn with_reader(self, reader: TomlConfigReader) -> (r: Self)
        ensures
            ({
                let old_m = match self.spec_registry() {
                    Some(m) => m,
                    None => Map::empty(),
                };
                r.spec_registry() == Some(
                    if old_m.contains_key(reader.spec_suffix()) {
                        old_m
                    } else {
                        old_m.insert(reader.spec_suffix(), reader)
                    },
                )
            }),
            r.spec_paths() == self.spec_paths(),
            r.spec_configs() == self.spec_configs(),
            r.spec_profiles() == self.spec_profiles(),
            r.spec_formats() == self.spec_formats(),
            r.spec_search_paths() == self.spec_search_paths(),
            r.spec_table() == self.spec_table(),
            r.spec_variables() == self.spec_variables(),
    {
        let mut s = self;
        let mut reg = match s.registry {
            Some(g) => g,
            None => ConfigReaderRegistry::new(),
        };
        reg.register_if_absent(reader);
        s.registry = Some(reg);
        s
    }

    /// Fills in what was not given: the base names `omiga` and `application`,
    /// the format `toml`, and a registry holding the TOML reader.
    pub fn try_populate_defaults(&mut self)
        ensures
            old(self).spec_configs().len() == 0 ==> final(self).spec_configs() == seq!["omiga"@, "application"@],
            old(self).spec_configs().len() > 0 ==> final(self).spec_configs() == old(self).spec_configs(),
            old(self).spec_formats().len() == 0 ==> final(self).spec_formats() == seq!["toml"@],
            old(self).spec_formats().len() > 0 ==> final(self).spec_formats() == old(self).spec_formats(),
            final(self).spec_registry() is Some,
            readers_after_defaults(old(self).spec_registry(), final(self).spec_registry()->Some_0),
            final(self).spec_paths() == old(self).spec_paths(),
            final(self).spec_profiles() == old(self).spec_profiles(),
            final(self).spec_search_paths() == old(self).spec_search_paths(),
            final(self).spec_table() == old(self).spec_table(),
            final(self).spec_variables() == old(self).spec_variables(),
    {
        if self.configs.len() == 0 {
            self.configs.push("omiga".to_string());
            self.configs.push("application".to_string());
            assert(views(self.configs@) =~= seq!["omiga"@, "application"@]);
        }
        if self.formats.len() == 0 {
            self.formats.push("toml".to_string());
            assert(views(self.formats@) =~= seq!["toml"@]);
        }
        let missing = self.registry.is_none();
        if missing {
            let mut reg = ConfigReaderRegistry::new();
            let reader = TomlConfigReader::new();
            reg.register(reader);
            assert(reg@.dom() =~= set!["toml"@]);
            self.registry = Some(reg);
        }
    }

    /// The candidate file paths, in the order they are read; `separator`
    /// stands between a search path and a file name. See `candidates_spec`.
    pub fn candidate_paths(&self, separator: &str) -> (r: Vec<String>)
        ensures
            views(r@) == candidates_spec(
                self.spec_paths(),
                self.spec_search_paths(),
                separator@,
                self.spec_configs(),
                self.spec_profiles(),
                self.spec_formats(),
            ),
    {
        let stems = cross(&self.search_paths, separator, &self.configs);
        let bases = cross(&stems, ".", &self.formats);
        let active = non_default_profiles(&self.profiles);
        let dashed = cross(&stems, "-", &active);
        let profiled = cross(&dashed, ".", &self.formats);
        let mut all: Vec<String> = Vec::new();
        let mut i: usize = 0;
        while i < self.paths.len()
            invariant
                i <= self.paths@.len(),
                views(all@) == views(self.paths@).take(i as int),
            decreases self.paths@.len() - i,
        {
            let ghost prev = views(all@);
            all.push(self.paths[i].clone());
            assert(views(all@) =~= prev.push(self.paths@[i as int]@));
            assert(views(self.paths@).take(i + 1) =~= views(self.paths@).take(i as int).push(self.paths@[i as int]@));
            i = i + 1;
        }
        assert(views(self.paths@).take(i as int) =~= views(self.paths@));
        let ghost explicit = views(all@);
        let ghost base_views = views(bases@);
        let ghost profile_views = views(profiled@);
        let mut bases = bases;
        let mut profiled = profiled;
        all.append(&mut bases);
        all.append(&mut profiled);
        assert(views(all@) =~= explicit + base_views + profile_views);
        distinct(all)
    }

    /// Builds the environment from the candidates' contents, given in
    /// candidate order. The registry moves into the environment; the initial
    /// table and the variables are used up; the defaults stay filled in.
    pub fn build(&mut self, sources: &Vec<(String, FileContent)>) -> (r: Result<StandardEnvironment, ReadError>)
        ensures
            final(self).spec_registry().is_none(),
            final(self).spec_table().is_none(),
            final(self).spec_variables().len() == 0,
            final(self).spec_paths() == old(self).spec_paths(),
            final(self).spec_profiles() == old(self).spec_profiles(),
            final(self).spec_search_paths() == old(self).spec_search_paths(),
            old(self).spec_configs().len() == 0 ==> final(self).spec_configs() == seq!["omiga"@, "application"@],
            old(self).spec_configs().len() > 0 ==> final(self).spec_configs() == old(self).spec_configs(),
            old(self).spec_formats().len() == 0 ==> final(self).spec_formats() == seq!["toml"@],
            old(self).spec_formats().len() > 0 ==> final(self).spec_formats() == old(self).spec_formats(),
            ({
                let vars = old(self).spec_variables();
                let init = old(self).spec_table();
                match r {
                    Ok(env) => readers_after_defaults(old(self).spec_registry(), env.spec_readers())
                        && exists|base: Table| #[trigger] base_layer(vars, init, base)
                        && fold_rel(env.spec_readers(), sources@, base, Ok::<Table, ReadError>(env.spec_table())),
                    Err(e) => exists|m: Map<Seq<char>, TomlConfigReader>, base: Table|
                        readers_after_defaults(old(self).spec_registry(), m) && base_layer(vars, init, base)
                        && #[trigger] fold_rel(m, sources@, base, Err::<Table, ReadError>(e)),
                }
            }),
    {
        self.try_populate_defaults();
        let mut reg_slot: Option<ConfigReaderRegistry<TomlConfigReader>> = None;
        std::mem::swap(&mut reg_slot, &mut self.registry);
        let registry = match reg_slot {
            Some(g) => g,
            None => {
                proof {
                    assert(false);
                }
                ConfigReaderRegistry::new()
            },
        };
        let ghost m = registry@;
        let mut vars: Vec<(String, String)> = Vec::new();
        std::mem::swap(&mut vars, &mut self.variables);
        let ghost vars0 = vars@;
        let vt = try_load_env_variables(vars);
        let ghost vt0 = vt;
        let mut init: Option<Table> = None;
        std::mem::swap(&mut init, &mut self.table);
        let ghost init0 = init;
        let base = match init {
            Some(t) => merge_tables(vt, t),
            None => vt,
        };
        let ghost base0 = base;
        proof {
            assert(variables_table(vars0, vt0));
            assert(base_layer(vars0, init0, base0));
        }
        let folded = fold_from(&registry, sources, 0, base);
        proof {
            assert(sources@.skip(0) =~= sources@);
        }
        match folded {
            Ok(table) => {
                let env = StandardEnvironment::mixed(Some(table), registry);
                Ok(env)
            },
            Err(e) => Err(e),
        }
    }
}

impl Default for StandardEnvironmentBuilder {
    fn default() -> (r: Self)
        ensures
            r.spec_table().is_none(),
            r.spec_registry().is_none(),
            r.spec_paths().len() == 0,
            r.spec_configs().len() == 0,
            r.spec_profiles() == seq!["default"@],
            r.spec_formats().len() == 0,
            r.spec_search_paths().len() == 0,
            r.spec_variables().len() == 0,
    {
        StandardEnvironmentBuilder::new()
    }
}

/// A candidate whose file is missing adds nothing: the outcome is that of
/// the candidates after it, over the same table.
pub proof fn law_missing_file_adds_nothing(
    reg: Map<Seq<char>, TomlConfigReader>,
    path: String,
    rest: Seq<(String, FileContent)>,
    acc: Table,
    r: Result<Table, ReadError>,
)
    requires
        extension_spec(path@) is Some,
        reg.contains_key(extension_spec(path@)->Some_0),
    ensures
        fold_rel(reg, seq![(path, FileContent::Missing)] + rest, acc, r) == fold_rel(reg, rest, acc, r),
{
    let srcs = seq![(path, FileContent::Missing)] + rest;
    assert(srcs[0] == (path, FileContent::Missing));
    assert(srcs.drop_first() =~= rest);
}

/// Whether each source is a missing file whose extension has a reader.
pub open spec fn all_missing(reg: Map<Seq<char>, TomlConfigReader>, srcs: Seq<(String, FileContent)>) -> bool {
    forall|i: int|
        0 <= i < srcs.len() ==> (#[trigger] srcs[i]).1 is Missing && extension_spec(srcs[i].0@) is Some
            && reg.contains_key(extension_spec(srcs[i].0@)->Some_0)
}

/// Where every candidate's file is missing (each with a reader for its
/// extension), the build succeeds and the files add nothing.
pub proof fn law_missing_files_add_nothing(
    reg: Map<Seq<char>, TomlConfigReader>,
    srcs: Seq<(String, FileContent)>,
    acc: Table,
    r: Result<Table, ReadError>,
)
    requires
        all_missing(reg, srcs),
        fold_rel(reg, srcs, acc, r),
    ensures
        r == Ok::<Table, ReadError>(acc),
    decreases srcs.len(),
{
    if srcs.len() > 0 {
        assert(srcs[0].1 is Missing);
        let rest = srcs.drop_first();
        assert forall|i: int| 0 <= i < rest.len() implies (#[trigger] rest[i]).1 is Missing && extension_spec(
            rest[i].0@,
        ) is Some && reg.contains_key(extension_spec(rest[i].0@)->Some_0) by {
            assert(rest[i] == srcs[i + 1]);
        }
        law_missing_files_add_nothing(reg, rest, acc, r);
    }
}

/// A candidate whose extension has no reader fails the build with
/// `ReaderNotFound`, where every candidate before it is a missing file.
pub proof fn law_unknown_suffix_fails_after_missing(
    reg: Map<Seq<char>, TomlConfigReader>,
    srcs: Seq<(String, FileContent)>,
    i: int,
    acc: Table,
    r: Result<Table, ReadError>,
)
    requires
        0 <= i < srcs.len(),
        all_missing(reg, srcs.take(i)),
        extension_spec(srcs[i].0@) is Some,
        !reg.contains_key(extension_spec(srcs[i].0@)->Some_0),
        fold_rel(reg, srcs, acc, r),
    ensures
        r matches Err(ReadError::ReaderNotFound(q)) && q@ == extension_spec(srcs[i].0@)->Some_0,
    decreases i,
{
    if i > 0 {
        assert(srcs.take(i)[0] == srcs[0]);
        let rest = srcs.drop_first();
        assert(rest[i - 1] == srcs[i]);
        assert forall|j: int| 0 <= j < rest.take(i - 1).len() implies (#[trigger] rest.take(i - 1)[j]).1 is Missing
            && extension_spec(rest.take(i - 1)[j].0@) is Some && reg.contains_key(
            extension_spec(rest.take(i - 1)[j].0@)->Some_0,
        ) by {
            assert(rest.take(i - 1)[j] == srcs.take(i)[j + 1]);
        }
        law_unknown_suffix_fails_after_missing(reg, rest, i - 1, acc, r);
    }
}

} // verus!
