//! Candidate configuration file paths, and the extension of a path.

use vstd::prelude::*;
use crate::text::{str_eq, views};

verus! {

/// Each prefix joined to each suffix with `mid` between, prefixes outermost.
pub open spec fn cross_spec(ps: Seq<Seq<char>>, mid: Seq<char>, qs: Seq<Seq<char>>) -> Seq<Seq<char>>
    decreases ps.len(),
{
    if ps.len() == 0 {
        Seq::empty()
    } else {
        cross_spec(ps.drop_last(), mid, qs) + qs.map_values(|q: Seq<char>| ps.last() + mid + q)
    }
}

/// The profiles other than the default one, in order.
pub open spec fn non_default(ps: Seq<Seq<char>>) -> Seq<Seq<char>>
    decreases ps.len(),
{
    if ps.len() == 0 {
        Seq::empty()
    } else if ps.last() == "default"@ {
        non_default(ps.drop_last())
    } else {
        non_default(ps.drop_last()).push(ps.last())
    }
}

/// The first occurrence of each element, in order.
pub open spec fn dedup(s: Seq<Seq<char>>) -> Seq<Seq<char>>
    decreases s.len(),
{
    if s.len() == 0 {
        Seq::empty()
    } else if dedup(s.drop_last()).contains(s.last()) {
        dedup(s.drop_last())
    } else {
        dedup(s.drop_last()).push(s.last())
    }
}

/// `<search><sep><config>.<format>` for each search path, config name and format.
pub open spec fn base_candidates(
    searches: Seq<Seq<char>>,
    sep: Seq<char>,
    configs: Seq<Seq<char>>,
    formats: Seq<Seq<char>>,
) -> Seq<Seq<char>> {
    cross_spec(cross_spec(searches, sep, configs), "."@, formats)
}

/// `<search><sep><config>-<profile>.<format>` for each search path, config
/// name, profile other than the default one, and format.
pub open spec fn profile_candidates(
    searches: Seq<Seq<char>>,
    sep: Seq<char>,
    configs: Seq<Seq<char>>,
    profiles: Seq<Seq<char>>,
    formats: Seq<Seq<char>>,
) -> Seq<Seq<char>> {
    cross_spec(cross_spec(cross_spec(searches, sep, configs), "-"@, non_default(profiles)), "."@, formats)
}

/// The candidate paths, in the order they are read: the explicit paths, then
/// every base file, then every profile file, each path once.
pub open spec fn candidates_spec(
    paths: Seq<Seq<char>>,
    searches: Seq<Seq<char>>,
    sep: Seq<char>,
    configs: Seq<Seq<char>>,
    profiles: Seq<Seq<char>>,
    formats: Seq<Seq<char>>,
) -> Seq<Seq<char>> {
    dedup(
        paths + base_candidates(searches, sep, configs, formats) + profile_candidates(
            searches,
            sep,
            configs,
            profiles,
            formats,
        ),
    )
}

pub proof fn lemma_cross_empty(ps: Seq<Seq<char>>, mid: Seq<char>)
    ensures
        cross_spec(ps, mid, Seq::empty()) == Seq::<Seq<char>>::empty(),
    decreases ps.len(),
{
    if ps.len() > 0 {
        lemma_cross_empty(ps.drop_last(), mid);
        assert(Seq::<Seq<char>>::empty().map_values(|q: Seq<char>| ps.last() + mid + q) =~= Seq::empty());
    }
}

/// Where the default profile is the only one, the candidates are the explicit
/// paths and the base files: no profile-suffixed file.
pub proof fn law_default_profile_only_bases(
    paths: Seq<Seq<char>>,
    searches: Seq<Seq<char>>,
    sep: Seq<char>,
    configs: Seq<Seq<char>>,
    formats: Seq<Seq<char>>,
)
    ensures
        candidates_spec(paths, searches, sep, configs, seq!["default"@], formats) == dedup(
            paths + base_candidates(searches, sep, configs, formats),
        ),
{
    let ps = seq!["default"@];
    assert(ps.drop_last() =~= Seq::<Seq<char>>::empty());
    assert(non_default(Seq::<Seq<char>>::empty()) == Seq::<Seq<char>>::empty());
    assert(ps.last() == "default"@);
    assert(non_default(ps) =~= Seq::<Seq<char>>::empty());
    let sc = cross_spec(searches, sep, configs);
    lemma_cross_empty(sc, "-"@);
    lemma_cross_empty(Seq::<Seq<char>>::empty(), "."@);
    assert(cross_spec(Seq::<Seq<char>>::empty(), "."@, formats) =~= Seq::<Seq<char>>::empty());
    let b = base_candidates(searches, sep, configs, formats);
    assert(paths + b + Seq::<Seq<char>>::empty() =~= paths + b);
}

/// Each prefix joined to each suffix with `mid` between, prefixes outermost.
pub fn cross(prefixes: &Vec<String>, mid: &str, suffixes: &Vec<String>) -> (r: Vec<String>)
    ensures
        views(r@) == cross_spec(views(prefixes@), mid@, views(suffixes@)),
{
    let mut out: Vec<String> = Vec::new();
    let mut i: usize = 0;
    let n = prefixes.len();
    let m = suffixes.len();
    assert(views(prefixes@).take(0) =~= Seq::<Seq<char>>::empty());
    while i < n
        invariant
            n == prefixes@.len(),
            m == suffixes@.len(),
            i <= n,
            views(out@) == cross_spec(views(prefixes@).take(i as int), mid@, views(suffixes@)),
        decreases n - i,
    {
        let ghost before = views(out@);
        let ghost p = prefixes@[i as int]@;
        let mut j: usize = 0;
        while j < m
            invariant
                n == prefixes@.len(),
                m == suffixes@.len(),
                i < n,
                j <= m,
                p == prefixes@[i as int]@,
                views(out@) == before + views(suffixes@).take(j as int).map_values(|q: Seq<char>| p + mid@ + q),
            decreases m - j,
        {
            let mut s = prefixes[i].clone();
            s.append(mid);
            s.append(suffixes[j].as_str());
            let ghost prev = views(out@);
            out.push(s);
            proof {
                assert(views(out@) =~= prev.push(s@));
                assert(views(suffixes@).take(j + 1) =~= views(suffixes@).take(j as int).push(suffixes@[j as int]@));
                assert(views(suffixes@).take(j + 1).map_values(|q: Seq<char>| p + mid@ + q) =~= views(suffixes@).take(
                    j as int,
                ).map_values(|q: Seq<char>| p + mid@ + q).push(p + mid@ + suffixes@[j as int]@));
                assert(views(out@) =~= before + views(suffixes@).take(j + 1).map_values(|q: Seq<char>| p + mid@ + q));
            }
            j = j + 1;
        }
        proof {
            let ps = views(prefixes@).take(i + 1);
            assert(ps.drop_last() =~= views(prefixes@).take(i as int));
            assert(ps.last() == p);
            assert(views(suffixes@).take(m as int) =~= views(suffixes@));
        }
        i = i + 1;
    }
    assert(views(prefixes@).take(n as int) =~= views(prefixes@));
    out
}

/// The profiles other than the default one, in order.
pub fn non_default_profiles(profiles: &Vec<String>) -> (r: Vec<String>)
    ensures
        views(r@) == non_default(views(profiles@)),
{
    let mut out: Vec<String> = Vec::new();
    let n = profiles.len();
    let mut i: usize = 0;
    assert(views(profiles@).take(0) =~= Seq::<Seq<char>>::empty());
    while i < n
        invariant
            n == profiles@.len(),
            i <= n,
            views(out@) == non_default(views(profiles@).take(i as int)),
        decreases n - i,
    {
        let ghost ps = views(profiles@).take(i + 1);
        assert(ps.drop_last() =~= views(profiles@).take(i as int));
        assert(ps.last() == profiles@[i as int]@);
        if !str_eq(profiles[i].as_str(), "default") {
            let ghost prev = views(out@);
            out.push(profiles[i].clone());
            assert(views(out@) =~= prev.push(profiles@[i as int]@));
        }
        i = i + 1;
    }
    assert(views(profiles@).take(n as int) =~= views(profiles@));
    out
}

/// Appends `s` unless an equal string is already there.
pub fn push_unique(v: &mut Vec<String>, s: String)
    ensures
        views(old(v)@).contains(s@) ==> views(final(v)@) == views(old(v)@),
        !views(old(v)@).contains(s@) ==> views(final(v)@) == views(old(v)@).push(s@),
{
    let n = v.len();
    let mut i: usize = 0;
    while i < n
        invariant
            n == v@.len(),
            i <= n,
            forall|j: int| 0 <= j < i ==> v@[j]@ != s@,
        decreases n - i,
    {
        if str_eq(v[i].as_str(), s.as_str()) {
            assert(views(v@)[i as int] == s@);
            return ;
        }
        i = i + 1;
    }
    proof {
        if views(v@).contains(s@) {
            let k = choose|k: int| 0 <= k < views(v@).len() && views(v@)[k] == s@;
            assert(v@[k]@ == s@);
        }
    }
    let ghost prev = views(v@);
    v.push(s);
    assert(views(v@) =~= prev.push(s@));
}

/// The first occurrence of each string, in order.
pub fn distinct(items: Vec<String>) -> (r: Vec<String>)
    ensures
        views(r@) == dedup(views(items@)),
{
    let ghost all = views(items@);
    let mut rest = items;
    let mut out: Vec<String> = Vec::new();
    let mut k: usize = 0;
    let total = rest.len();
    assert(all.take(0) =~= Seq::<Seq<char>>::empty());
    while rest.len() > 0
        invariant
            views(rest@) == all.skip(k as int),
            k <= all.len(),
            all.len() == total,
            views(out@) == dedup(all.take(k as int)),
        decreases rest@.len(),
    {
        let ghost before = views(rest@);
        assert(before.len() == rest@.len());
        assert(k < all.len());
        assert(all.skip(k as int)[0] == all[k as int]);
        let s = rest.remove(0);
        proof {
            assert(before[0] == s@);
            assert(all[k as int] == s@);
            let t = all.take(k + 1);
            assert(t.drop_last() =~= all.take(k as int));
            assert(t.last() == s@);
            assert(views(rest@) =~= before.drop_first());
        }
        push_unique(&mut out, s);
        k = k + 1;
        assert(views(rest@) =~= all.skip(k as int));
    }
    assert(all.take(k as int) =~= all);
    out
}

/// The file name of a path: what follows its last `/` or `\`.
pub open spec fn file_name(p: Seq<char>) -> Seq<char>
    decreases p.len(),
{
    if p.len() == 0 {
        p
    } else if p.last() == '/' || p.last() == '\\' {
        Seq::empty()
    } else {
        file_name(p.drop_last()).push(p.last())
    }
}

/// The index of the last dot of `n`, or -1.
pub open spec fn last_dot(n: Seq<char>) -> int
    decreases n.len(),
{
    if n.len() == 0 {
        -1
    } else if n.last() == '.' {
        n.len() - 1
    } else {
        last_dot(n.drop_last())
    }
}

/// The extension of a path: what follows the last dot of its file name. A
/// name without a dot, or whose only dot leads it, has none.
pub open spec fn extension_spec(p: Seq<char>) -> Option<Seq<char>> {
    let n = file_name(p);
    let d = last_dot(n);
    if d <= 0 {
        None
    } else {
        Some(n.skip(d + 1))
    }
}

/// The extension of `path`; see `extension_spec`.
pub fn file_extension(path: &str) -> (r: Option<String>)
    ensures
        match r {
            Some(e) => extension_spec(path@) == Some(e@),
            None => extension_spec(path@).is_none(),
        },
{
    let n = path.unicode_len();
    let mut start: usize = 0;
    let mut dot: Option<usize> = None;
    let mut i: usize = 0;
    assert(path@.subrange(0, 0) =~= Seq::<char>::empty());
    while i < n
        invariant
            n == path@.len(),
            start <= i <= n,
            file_name(path@.subrange(0, i as int)) == path@.subrange(start as int, i as int),
            match dot {
                Some(d) => start <= d < i && last_dot(path@.subrange(start as int, i as int)) == d - start,
                None => last_dot(path@.subrange(start as int, i as int)) == -1,
            },
        decreases n - i,
    {
        let c = path.get_char(i);
        let ghost pre = path@.subrange(0, i + 1);
        assert(pre.drop_last() =~= path@.subrange(0, i as int));
        assert(pre.last() == c);
        if c == '/' || c == '\\' {
            start = i + 1;
            dot = None;
            assert(path@.subrange(start as int, i + 1) =~= Seq::<char>::empty());
        } else {
            let ghost name = path@.subrange(start as int, i + 1);
            assert(name =~= path@.subrange(start as int, i as int).push(c));
            assert(name.drop_last() =~= path@.subrange(start as int, i as int));
            if c == '.' {
                dot = Some(i);
            }
        }
        i = i + 1;
    }
    assert(path@.subrange(0, n as int) =~= path@);
    match dot {
        Some(d) => {
            if d == start {
                None
            } else {
                let e = path.substring_char(d + 1, n).to_owned();
                assert(e@ =~= path@.subrange(start as int, n as int).skip(d - start + 1));
                Some(e)
            }
        },
        None => None,
    }
}

} // verus!
