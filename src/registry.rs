//! A registry of readers keyed by file suffix.

use vstd::prelude::*;
use crate::reader::ConfigReader;

verus! {

/// At most one reader per suffix.
pub struct ConfigReaderRegistry<R: ConfigReader> {
    readers: Vec<R>,
}

pub open spec fn suffixes_distinct<R: ConfigReader>(rs: Seq<R>) -> bool {
    forall|i: int, j: int|
        0 <= i < rs.len() && 0 <= j < rs.len() && i != j ==> (#[trigger] rs[i]).spec_suffix() != (
        #[trigger] rs[j]).spec_suffix()
}

pub open spec fn suffix_index<R: ConfigReader>(rs: Seq<R>, s: Seq<char>) -> int {
    choose|i: int| 0 <= i < rs.len() && (#[trigger] rs[i]).spec_suffix() == s
}

pub open spec fn readers_map<R: ConfigReader>(rs: Seq<R>) -> Map<Seq<char>, R> {
    Map::new(
        |s: Seq<char>| exists|i: int| 0 <= i < rs.len() && (#[trigger] rs[i]).spec_suffix() == s,
        |s: Seq<char>| rs[suffix_index(rs, s)],
    )
}

proof fn lemma_reader_at<R: ConfigReader>(rs: Seq<R>, i: int)
    requires
        suffixes_distinct(rs),
        0 <= i < rs.len(),
    ensures
        readers_map(rs).contains_key(rs[i].spec_suffix()),
        readers_map(rs)[rs[i].spec_suffix()] == rs[i],
{
    let s = rs[i].spec_suffix();
    assert(exists|j: int| 0 <= j < rs.len() && (#[trigger] rs[j]).spec_suffix() == s);
    let j = suffix_index(rs, s);
    assert(j == i);
}

impl<R: ConfigReader> View for ConfigReaderRegistry<R> {
    type V = Map<Seq<char>, R>;

    closed spec fn view(&self) -> Map<Seq<char>, R> {
        readers_map(self.readers@)
    }
}

impl<R: ConfigReader> ConfigReaderRegistry<R> {
    #[verifier::type_invariant]
    spec fn inv(&self) -> bool {
        suffixes_distinct(self.readers@)
    }

    /// An empty registry.
    pub fn new() -> (r: Self)
        ensures
            r@ == Map::<Seq<char>, R>::empty(),
            r@.dom().finite(),
    {
        let r = ConfigReaderRegistry { readers: Vec::new() };
        assert(r@ =~= Map::<Seq<char>, R>::empty());
        r
    }

    fn position(&self, suffix: &str) -> (r: Option<usize>)
        ensures
            match r {
                Some(i) => i < self.readers@.len() && self.readers@[i as int].spec_suffix() == suffix@,
                None => forall|j: int| 0 <= j < self.readers@.len() ==> (#[trigger] self.readers@[j]).spec_suffix() != suffix@,
            },
    {
        let n = self.readers.len();
        let mut i: usize = 0;
        while i < n
            invariant
                n == self.readers@.len(),
                i <= n,
                forall|j: int| 0 <= j < i ==> (#[trigger] self.readers@[j]).spec_suffix() != suffix@,
            decreases n - i,
        {
            if self.readers[i].supports(suffix) {
                return Some(i);
            }
            i = i + 1;
        }
        None
    }

    /// The reader for `suffix`, if one is registered.
    pub fn try_acquire(&self, suffix: &str) -> (r: Option<&R>)
        ensures
            match r {
                Some(x) => self@.contains_key(suffix@) && *x == self@[suffix@],
                None => !self@.contains_key(suffix@),
            },
            self@.dom().finite(),
    {
        proof {
            use_type_invariant(self);
            self.lemma_len();
        }
        match self.position(suffix) {
            Some(i) => {
                proof {
                    lemma_reader_at(self.readers@, i as int);
                }
                Some(&self.readers[i])
            },
            None => None,
        }
    }

    /// Every registered reader, each once.
    pub fn try_acquires(&self) -> (r: Vec<&R>)
        ensures
            self@.dom().finite(),
            r@.len() == self@.dom().len(),
            forall|i: int|
                0 <= i < r@.len() ==> self@.contains_key((#[trigger] r@[i]).spec_suffix()) && self@[r@[i].spec_suffix()]
                    == *r@[i],
            forall|i: int, j: int|
                0 <= i < r@.len() && 0 <= j < r@.len() && i != j ==> (#[trigger] r@[i]).spec_suffix() != (
                #[trigger] r@[j]).spec_suffix(),
    {
        proof {
            use_type_invariant(self);
            self.lemma_len();
        }
        let n = self.readers.len();
        let mut out: Vec<&R> = Vec::new();
        let mut i: usize = 0;
        while i < n
            invariant
                n == self.readers@.len(),
                i <= n,
                suffixes_distinct(self.readers@),
                out@.len() == i,
                forall|j: int| 0 <= j < i ==> *(#[trigger] out@[j]) == self.readers@[j],
            decreases n - i,
        {
            out.push(&self.readers[i]);
            i = i + 1;
        }
        proof {
            assert forall|k: int| 0 <= k < out@.len() implies self@.contains_key(
                (#[trigger] out@[k]).spec_suffix(),
            ) && self@[out@[k].spec_suffix()] == *out@[k] by {
                lemma_reader_at(self.readers@, k);
            }
        }
        out
    }

    proof fn lemma_len(&self)
        requires
            suffixes_distinct(self.readers@),
        ensures
            self@.dom().finite(),
            self@.dom().len() == self.readers@.len(),
    {
        let rs = self.readers@;
        let keys = Seq::new(rs.len(), |i: int| rs[i].spec_suffix());
        keys.unique_seq_to_set();
        assert(self@.dom() =~= keys.to_set()) by {
            assert forall|k: Seq<char>| self@.dom().contains(k) implies keys.to_set().contains(k) by {
                let i = suffix_index(rs, k);
                assert(keys[i] == k);
            }
            assert forall|k: Seq<char>| keys.to_set().contains(k) implies self@.dom().contains(k) by {
                let i = choose|i: int| 0 <= i < keys.len() && keys[i] == k;
                assert(rs[i].spec_suffix() == k);
            }
        }
    }

    /// Registers `reader` under its suffix, replacing the reader there.
    pub fn register(&mut self, reader: R)
        ensures
            final(self)@ == old(self)@.insert(reader.spec_suffix(), reader),
            final(self)@.dom().finite(),
    {
        proof {
            use_type_invariant(&*self);
        }
        let suffix = reader.suffix();
        let mut readers: Vec<R> = Vec::new();
        std::mem::swap(&mut readers, &mut self.readers);
        let ghost rs = readers@;
        let tmp = ConfigReaderRegistry { readers };
        let found = tmp.position(suffix.as_str());
        let ConfigReaderRegistry { readers: mut readers } = tmp;
        let ghost m = readers_map(rs).insert(reader.spec_suffix(), reader);
        match found {
            Some(i) => {
                readers.remove(i);
                readers.insert(i, reader);
                proof {
                    let f = readers@;
                    assert(f =~= rs.update(i as int, reader));
                    assert(suffixes_distinct(f)) by {
                        assert forall|a: int, b: int|
                            0 <= a < f.len() && 0 <= b < f.len() && a != b implies (#[trigger] f[a]).spec_suffix()
                            != (#[trigger] f[b]).spec_suffix() by {
                            assert(rs[a].spec_suffix() != rs[b].spec_suffix());
                        }
                    }
                    assert forall|x: Seq<char>| #[trigger] readers_map(f).contains_key(x) <==> m.contains_key(x) by {
                        if readers_map(rs).contains_key(x) {
                            let j = suffix_index(rs, x);
                            assert(f[j].spec_suffix() == x);
                        }
                        if readers_map(f).contains_key(x) {
                            let j = suffix_index(f, x);
                            assert(rs[j].spec_suffix() == x);
                        }
                        assert(f[i as int].spec_suffix() == reader.spec_suffix());
                    }
                    assert forall|x: Seq<char>| #[trigger] readers_map(f).contains_key(x) implies readers_map(f)[x] == m[x] by {
                        let j = suffix_index(f, x);
                        lemma_reader_at(f, j);
                        if j != i {
                            lemma_reader_at(rs, j);
                        }
                    }
                    assert(readers_map(f) =~= m);
                }
            },
            None => {
                readers.push(reader);
                proof {
                    let f = readers@;
                    assert(f =~= rs.push(reader));
                    assert(suffixes_distinct(f)) by {
                        assert forall|a: int, b: int|
                            0 <= a < f.len() && 0 <= b < f.len() && a != b implies (#[trigger] f[a]).spec_suffix()
                            != (#[trigger] f[b]).spec_suffix() by {
                            if a < rs.len() && b < rs.len() {
                                assert(rs[a].spec_suffix() != rs[b].spec_suffix());
                            }
                        }
                    }
                    assert forall|x: Seq<char>| #[trigger] readers_map(f).contains_key(x) <==> m.contains_key(x) by {
                        if readers_map(rs).contains_key(x) {
                            let j = suffix_index(rs, x);
                            assert(f[j].spec_suffix() == x);
                        }
                        if readers_map(f).contains_key(x) {
                            let j = suffix_index(f, x);
                            if j < rs.len() {
                                assert(rs[j].spec_suffix() == x);
                            }
                        }
                        assert(f[rs.len() as int].spec_suffix() == reader.spec_suffix());
                    }
                    assert forall|x: Seq<char>| #[trigger] readers_map(f).contains_key(x) implies readers_map(f)[x] == m[x] by {
                        let j = suffix_index(f, x);
                        lemma_reader_at(f, j);
                        if j < rs.len() {
                            lemma_reader_at(rs, j);
                        }
                    }
                    assert(readers_map(f) =~= m);
                }
            },
        }
        self.readers = readers;
        proof {
            use_type_invariant(&*self);
            self.lemma_len();
        }
    }

    /// Registers `reader` only where no reader holds its suffix yet.
    pub fn register_if_absent(&mut self, reader: R)
        ensures
            old(self)@.contains_key(reader.spec_suffix()) ==> final(self)@ == old(self)@,
            !old(self)@.contains_key(reader.spec_suffix()) ==> final(self)@ == old(self)@.insert(
                reader.spec_suffix(),
                reader,
            ),
            final(self)@.dom().finite(),
    {
        let suffix = reader.suffix();
        let present = self.try_acquire(suffix.as_str()).is_some();
        if !present {
            self.register(reader);
        }
    }
}

impl<R: ConfigReader> Default for ConfigReaderRegistry<R> {
    fn default() -> (r: Self)
        ensures
            r@ == Map::<Seq<char>, R>::empty(),
            r@.dom().finite(),
    {
        ConfigReaderRegistry::new()
    }
}

} // verus!
