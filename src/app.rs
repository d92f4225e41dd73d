//! The application: its active profiles, configuration names and search
//! locations, gathered by a builder.

use vstd::prelude::*;
use std::collections::HashMap;
use crate::builder::{extend_strings, extend_unique};
use crate::paths::{non_default, non_default_profiles, push_unique};
use crate::text::{str_eq, views};

verus! {

/// Command-line key/value arguments, where given.
pub struct Kv {
    pub ctx: Option<HashMap<String, String>>,
}

impl Kv {
    /// Arguments with no pair yet.
    pub fn new() -> (r: Self)
        ensures
            r.ctx is Some,
            r.ctx->Some_0@ == Map::<String, String>::empty(),
    {
        Kv { ctx: Some(HashMap::new()) }
    }
}

impl Default for Kv {
    fn default() -> (r: Self)
        ensures
            r.ctx is Some,
            r.ctx->Some_0@ == Map::<String, String>::empty(),
    {
        Kv::new()
    }
}

/// Arguments that hold no pair.
pub open spec fn is_empty_kv(k: Kv) -> bool {
    k.ctx matches Some(m) && m@ == Map::<String, String>::empty()
}

/// The items joined with `sep` between each two.
pub open spec fn join(items: Seq<Seq<char>>, sep: Seq<char>) -> Seq<char>
    decreases items.len(),
{
    if items.len() == 0 {
        Seq::empty()
    } else if items.len() == 1 {
        items[0]
    } else {
        join(items.drop_last(), sep) + sep + items.last()
    }
}

/// The strings joined with `sep` between each two.
pub fn join_strings(items: &Vec<String>, sep: &str) -> (r: String)
    ensures
        r@ == join(views(items@), sep@),
{
    let mut out = String::new();
    let n = items.len();
    let mut i: usize = 0;
    assert(views(items@).take(0) =~= Seq::<Seq<char>>::empty());
    while i < n
        invariant
            n == items@.len(),
            i <= n,
            out@ == join(views(items@).take(i as int), sep@),
        decreases n - i,
    {
        let ghost t = views(items@).take(i + 1);
        assert(t.drop_last() =~= views(items@).take(i as int));
        assert(t.last() == items@[i as int]@);
        if i > 0 {
            out.append(sep);
        } else {
            assert(t.len() == 1 && t[0] == items@[0]@);
            assert(out@ =~= Seq::<char>::empty());
        }
        out.append(items[i].as_str());
        i = i + 1;
    }
    assert(views(items@).take(n as int) =~= views(items@));
    out
}

/// A copy of each string, in order.
pub fn copy_strings(items: &Vec<String>) -> (r: Vec<String>)
    ensures
        views(r@) == views(items@),
{
    let mut out: Vec<String> = Vec::new();
    let n = items.len();
    let mut i: usize = 0;
    while i < n
        invariant
            n == items@.len(),
            i <= n,
            views(out@) == views(items@).take(i as int),
        decreases n - i,
    {
        let ghost prev = views(out@);
        out.push(items[i].clone());
        assert(views(out@) =~= prev.push(items@[i as int]@));
        assert(views(items@).take(i + 1) =~= views(items@).take(i as int).push(items@[i as int]@));
        i = i + 1;
    }
    assert(views(items@).take(n as int) =~= views(items@));
    out
}

/// A runnable application.
pub trait Application {
    /// Starts the application, giving the line it announces itself with.
    fn run(&self) -> String;
}

/// An application and what it was configured with.
pub struct OmigaApplication {
    configs: Vec<String>,
    profiles: Vec<String>,
    formats: Vec<String>,
    paths: Vec<String>,
    search_paths: Vec<String>,
    kv: Option<Kv>,
}

impl OmigaApplication {
    pub closed spec fn spec_kv(&self) -> Option<Kv> {
        self.kv
    }

    pub closed spec fn spec_configs(&self) -> Seq<Seq<char>> {
        views(self.configs@)
    }

    pub closed spec fn spec_profiles(&self) -> Seq<Seq<char>> {
        views(self.profiles@)
    }

    pub closed spec fn spec_formats(&self) -> Seq<Seq<char>> {
        views(self.formats@)
    }

    pub closed spec fn spec_paths(&self) -> Seq<Seq<char>> {
        views(self.paths@)
    }

    pub closed spec fn spec_search_paths(&self) -> Seq<Seq<char>> {
        views(self.search_paths@)
    }

    /// A builder with the default profile active.
    pub fn builder() -> (r: OmigaApplicationBuilder)
        ensures
            r.spec_profiles() == seq!["default"@],
            r.spec_kv() matches Some(k) && is_empty_kv(k),
            r.spec_configs().len() == 0,
            r.spec_formats().len() == 0,
            r.spec_paths().len() == 0,
            r.spec_search_paths().len() == 0,
    {
        OmigaApplicationBuilder::new()
    }

    /// A builder that starts from command-line key/value arguments, which it
    /// holds and hands to the application it builds.
    pub fn walk(kv_args: Kv) -> (r: OmigaApplicationBuilder)
        ensures
            r.spec_profiles() == seq!["default"@],
            r.spec_kv() == Some(kv_args),
            r.spec_configs().len() == 0,
            r.spec_formats().len() == 0,
            r.spec_paths().len() == 0,
            r.spec_search_paths().len() == 0,
    {
        let mut b = OmigaApplicationBuilder::new();
        b.kv = Some(kv_args);
        b
    }

    pub fn new(
        configs: Vec<String>,
        profiles: Vec<String>,
        formats: Vec<String>,
        paths: Vec<String>,
        search_paths: Vec<String>,
        kv: Option<Kv>,
    ) -> (r: Self)
        ensures
            r.spec_configs() == views(configs@),
            r.spec_profiles() == views(profiles@),
            r.spec_formats() == views(formats@),
            r.spec_paths() == views(paths@),
            r.spec_search_paths() == views(search_paths@),
            r.spec_kv() == kv,
    {
        OmigaApplication { configs, profiles, formats, paths, search_paths, kv }
    }

    /// The active profiles, joined by commas.
    pub fn profiles_active(&self) -> (r: String)
        ensures
            r@ == join(self.spec_profiles(), ","@),
    {
        join_strings(&self.profiles, ",")
    }

    /// The active profiles.
    pub fn profiles_active_array(&self) -> (r: Vec<String>)
        ensures
            views(r@) == self.spec_profiles(),
    {
        copy_strings(&self.profiles)
    }

    /// The configuration names, joined by commas.
    pub fn configs(&self) -> (r: String)
        ensures
            r@ == join(self.spec_configs(), ","@),
    {
        join_strings(&self.configs, ",")
    }

    /// The configuration names.
    pub fn configs_array(&self) -> (r: Vec<String>)
        ensures
            views(r@) == self.spec_configs(),
    {
        copy_strings(&self.configs)
    }

    /// Whether the default profile is among the active ones.
    pub fn is_default_profile(&self) -> (r: bool)
        ensures
            r == self.spec_profiles().contains("default"@),
    {
        let n = self.profiles.len();
        let mut i: usize = 0;
        while i < n
            invariant
                n == self.profiles@.len(),
                i <= n,
                forall|j: int| 0 <= j < i ==> self.profiles@[j]@ != "default"@,
            decreases n - i,
        {
            if str_eq(self.profiles[i].as_str(), "default") {
                assert(self.spec_profiles()[i as int] == "default"@);
                return true;
            }
            i = i + 1;
        }
        proof {
            if self.spec_profiles().contains("default"@) {
                let k = choose|k: int| 0 <= k < self.spec_profiles().len() && self.spec_profiles()[k] == "default"@;
                assert(self.profiles@[k]@ == "default"@);
            }
        }
        false
    }
}

impl Application for OmigaApplication {
    fn run(&self) -> String {
        "omiga: Hello, Omiga!".to_string()
    }
}

/// Gathers the options of an application.
pub struct OmigaApplicationBuilder {
    configs: Vec<String>,
    profiles: Vec<String>,
    formats: Vec<String>,
    paths: Vec<String>,
    search_paths: Vec<String>,
    kv: Option<Kv>,
}

impl OmigaApplicationBuilder {
    pub closed spec fn spec_kv(&self) -> Option<Kv> {
        self.kv
    }

    pub closed spec fn spec_configs(&self) -> Seq<Seq<char>> {
        views(self.configs@)
    }

    pub closed spec fn spec_profiles(&self) -> Seq<Seq<char>> {
        views(self.profiles@)
    }

    pub closed spec fn spec_formats(&self) -> Seq<Seq<char>> {
        views(self.formats@)
    }

    pub closed spec fn spec_paths(&self) -> Seq<Seq<char>> {
        views(self.paths@)
    }

    pub closed spec fn spec_search_paths(&self) -> Seq<Seq<char>> {
        views(self.search_paths@)
    }

    /// A builder with the default profile active and empty arguments.
    pub fn new() -> (r: Self)
        ensures
            r.spec_profiles() == seq!["default"@],
            r.spec_kv() matches Some(k) && is_empty_kv(k),
            r.spec_configs().len() == 0,
            r.spec_formats().len() == 0,
            r.spec_paths().len() == 0,
            r.spec_search_paths().len() == 0,
    {
        let mut profiles: Vec<String> = Vec::new();
        profiles.push("default".to_string());
        let r = OmigaApplicationBuilder {
            configs: Vec::new(),
            profiles,
            formats: Vec::new(),
            paths: Vec::new(),
            search_paths: Vec::new(),
            kv: Some(Kv::new()),
        };
        assert(r.spec_profiles() =~= seq!["default"@]);
        r
    }

    /// Adds a configuration name, unless already present.
    pub fn config(self, config: String) -> (r: Self)
        ensures
            r.spec_kv() == self.spec_kv(),
            r.spec_configs() == extend_unique(self.spec_configs(), seq![config@]),
            r.spec_profiles() == self.spec_profiles(),
            r.spec_formats() == self.spec_formats(),
            r.spec_paths() == self.spec_paths(),
            r.spec_search_paths() == self.spec_search_paths(),
    {
        let mut s = self;
        let ghost before = views(s.configs@);
        push_unique(&mut s.configs, config);
        proof {
            let one = seq![config@];
            assert(one.drop_last() =~= Seq::<Seq<char>>::empty());
            assert(extend_unique(before, one.drop_last()) == before);
            assert(one.last() == config@);
        }
        s
    }

    /// Adds each of several, unless already present.
    pub fn configs(self, configs: Vec<String>) -> (r: Self)
        ensures
            r.spec_kv() == self.spec_kv(),
            r.spec_configs() == extend_unique(self.spec_configs(), views(configs@)),
            r.spec_profiles() == self.spec_profiles(),
            r.spec_formats() == self.spec_formats(),
            r.spec_paths() == self.spec_paths(),
            r.spec_search_paths() == self.spec_search_paths(),
    {
        let mut s = self;
        extend_strings(&mut s.configs, configs);
        s
    }

    /// Adds a file format, unless already present.
    pub fn format(self, format: String) -> (r: Self)
        ensures
            r.spec_kv() == self.spec_kv(),
            r.spec_formats() == extend_unique(self.spec_formats(), seq![format@]),
            r.spec_configs() == self.spec_configs(),
            r.spec_profiles() == self.spec_profiles(),
            r.spec_paths() == self.spec_paths(),
            r.spec_search_paths() == self.spec_search_paths(),
    {
        let mut s = self;
        let ghost before = views(s.formats@);
        push_unique(&mut s.formats, format);
        proof {
            let one = seq![format@];
            assert(one.drop_last() =~= Seq::<Seq<char>>::empty());
            assert(extend_unique(before, one.drop_last()) == before);
            assert(one.last() == format@);
        }
        s
    }

    /// Adds each of several, unless already present.
    pub fn formats(self, formats: Vec<String>) -> (r: Self)
        ensures
            r.spec_kv() == self.spec_kv(),
            r.spec_formats() == extend_unique(self.spec_formats(), views(formats@)),
            r.spec_configs() == self.spec_configs(),
            r.spec_profiles() == self.spec_profiles(),
            r.spec_paths() == self.spec_paths(),
            r.spec_search_paths() == self.spec_search_paths(),
    {
        let mut s = self;
        extend_strings(&mut s.formats, formats);
        s
    }

    /// Adds a directory to search, unless already present.
    pub fn search_path(self, search_path: String) -> (r: Self)
        ensures
            r.spec_kv() == self.spec_kv(),
            r.spec_search_paths() == extend_unique(self.spec_search_paths(), seq![search_path@]),
            r.spec_configs() == self.spec_configs(),
            r.spec_profiles() == self.spec_profiles(),
            r.spec_formats() == self.spec_formats(),
            r.spec_paths() == self.spec_paths(),
    {
        let mut s = self;
        let ghost before = views(s.search_paths@);
        push_unique(&mut s.search_paths, search_path);
        proof {
            let one = seq![search_path@];
            assert(one.drop_last() =~= Seq::<Seq<char>>::empty());
            assert(extend_unique(before, one.drop_last()) == before);
            assert(one.last() == search_path@);
        }
        s
    }

    /// Adds each of several, unless already present.
    pub fn search_paths(self, search_paths: Vec<String>) -> (r: Self)
        ensures
            r.spec_kv() == self.spec_kv(),
            r.spec_search_paths() == extend_unique(self.spec_search_paths(), views(search_paths@)),
            r.spec_configs() == self.spec_configs(),
            r.spec_profiles() == self.spec_profiles(),
            r.spec_formats() == self.spec_formats(),
            r.spec_paths() == self.spec_paths(),
    {
        let mut s = self;
        extend_strings(&mut s.search_paths, search_paths);
        s
    }

    /// Makes `profile` active in place of the default profile.
    pub fn profile(self, profile: String) -> (r: Self)
        ensures
            r.spec_kv() == self.spec_kv(),
            r.spec_profiles() == extend_unique(non_default(self.spec_profiles()), seq![profile@]),
            r.spec_configs() == self.spec_configs(),
            r.spec_formats() == self.spec_formats(),
            r.spec_paths() == self.spec_paths(),
            r.spec_search_paths() == self.spec_search_paths(),
    {
        let mut s = self;
        let kept = non_default_profiles(&s.profiles);
        s.profiles = kept;
        let ghost before = views(s.profiles@);
        push_unique(&mut s.profiles, profile);
        proof {
            let one = seq![profile@];
            assert(one.drop_last() =~= Seq::<Seq<char>>::empty());
            assert(extend_unique(before, one.drop_last()) == before);
            assert(one.last() == profile@);
        }
        s
    }

    /// Adds each of several profiles, unless already present.
    pub fn profiles(self, profiles: Vec<String>) -> (r: Self)
        ensures
            r.spec_kv() == self.spec_kv(),
            r.spec_profiles() == extend_unique(self.spec_profiles(), views(profiles@)),
            r.spec_configs() == self.spec_configs(),
            r.spec_formats() == self.spec_formats(),
            r.spec_paths() == self.spec_paths(),
            r.spec_search_paths() == self.spec_search_paths(),
    {
        let mut s = self;
        extend_strings(&mut s.profiles, profiles);
        s
    }

    /// The application with these options.
    pub fn build(self) -> (r: OmigaApplication)
        ensures
            r.spec_configs() == self.spec_configs(),
            r.spec_profiles() == self.spec_profiles(),
            r.spec_formats() == self.spec_formats(),
            r.spec_paths() == self.spec_paths(),
            r.spec_search_paths() == self.spec_search_paths(),
            r.spec_kv() == self.spec_kv(),
    {
        OmigaApplication::new(self.configs, self.profiles, self.formats, self.paths, self.search_paths, self.kv)
    }
}

impl Default for OmigaApplicationBuilder {
    fn default() -> (r: Self)
        ensures
            r.spec_profiles() == seq!["default"@],
            r.spec_kv() matches Some(k) && is_empty_kv(k),
            r.spec_configs().len() == 0,
            r.spec_formats().len() == 0,
            r.spec_paths().len() == 0,
            r.spec_search_paths().len() == 0,
    {
        OmigaApplicationBuilder::new()
    }
}

} // verus!
