//! Decoded parameters.

use vstd::prelude::*;

use crate::named::{
    distinct_names, index_of, lemma_index_of_absent, lemma_index_of_first, lemma_put, lookup, put,
};
use crate::param::{Param, ParamView};

verus! {

/// The typed parameters of one configuration: a value under each name.
///
/// A set of parameters comes out of decoding an untyped configuration against a
/// parameter space, and holds each name once.
#[derive(Debug, PartialEq, Eq)]
pub struct Params {
    entries: Vec<(String, Param)>,
}

impl View for Params {
    type V = Seq<(Seq<char>, ParamView)>;

    closed spec fn view(&self) -> Seq<(Seq<char>, ParamView)> {
        Seq::new(self.entries@.len(), |i: int| (self.entries@[i].0@, self.entries@[i].1@))
    }
}

impl Clone for Params {
    /// The clone holds the same values under the same names.
    fn clone(&self) -> (copy: Params)
        ensures
            copy@ == self@,
    {
        let mut entries: Vec<(String, Param)> = Vec::new();
        let mut i: usize = 0;
        while i < self.entries.len()
            invariant
                i <= self.entries@.len(),
                entries@.len() == i,
                forall|j: int|
                    0 <= j < i ==> (#[trigger] entries@[j]).0@ == self.entries@[j].0@
                        && entries@[j].1@ == self.entries@[j].1@,
            decreases self.entries@.len() - i,
        {
            entries.push((self.entries[i].0.clone(), self.entries[i].1.clone()));
            i += 1;
        }
        proof {
            use_type_invariant(self);
            assert(Seq::new(entries@.len(), |i: int| (entries@[i].0@, entries@[i].1@)) =~= self@);
        }
        Params { entries }
    }
}

impl Params {
    /// Every set of parameters holds each name once.
    #[verifier::type_invariant]
    closed spec fn names_are_distinct(self) -> bool {
        distinct_names(self@)
    }

    /// Makes an empty set of parameters.
    pub fn new() -> (params: Params)
        ensures
            params@.len() == 0,
    {
        Params { entries: Vec::new() }
    }

    /// Returns the number of parameters. No two of them share a name.
    pub fn len(&self) -> (len: usize)
        ensures
            len == self@.len(),
            distinct_names(self@),
    {
        proof {
            use_type_invariant(self);
        }
        self.entries.len()
    }

    /// Returns the index of the first parameter called `name`.
    fn find(&self, name: &String) -> (found: Option<usize>)
        ensures
            match found {
                Some(i) => i < self@.len() && index_of(self@, name@) == Some(i as int),
                None => index_of(self@, name@) is None,
            },
    {
        let mut i: usize = 0;
        while i < self.entries.len()
            invariant
                i <= self.entries@.len(),
                self@.len() == self.entries@.len(),
                forall|j: int| 0 <= j < i ==> (#[trigger] self@[j]).0 != name@,
            decreases self.entries@.len() - i,
        {
            if self.entries[i].0 == *name {
                proof {
                    lemma_index_of_first(self@, name@, i as int);
                }
                return Some(i);
            }
            i += 1;
        }
        proof {
            lemma_index_of_absent(self@, name@);
        }
        None
    }

    /// Puts `value` under `name`. A value that stands under this name already is
    /// replaced and keeps its place; otherwise the new one comes last.
    pub fn insert(&mut self, name: String, value: Param)
        ensures
            final(self)@ == put(old(self)@, name@, value@),
    {
        proof {
            use_type_invariant(&*self);
            lemma_put(self@, name@, value@);
        }
        let found = self.find(&name);
        let mut params = Params::new();
        std::mem::swap(self, &mut params);
        let mut entries = params.entries;
        let ghost before = entries@;
        match found {
            Some(i) => {
                entries.set(i, (name, value));
            },
            None => {
                entries.push((name, value));
            },
        }
        proof {
            assert(Seq::new(entries@.len(), |i: int| (entries@[i].0@, entries@[i].1@)) =~= put(
                old(self)@,
                name@,
                value@,
            ));
        }
        *self = Params { entries };
    }

    /// Returns the value under `name`, or `None` if there is none.
    pub fn get(&self, name: &str) -> (found: Option<&Param>)
        ensures
            match found {
                Some(value) => lookup(self@, name@) == Some(value@),
                None => lookup(self@, name@) is None,
            },
    {
        let key = name.to_owned();
        match self.find(&key) {
            Some(i) => Some(&self.entries[i].1),
            None => None,
        }
    }

    /// Returns the name and the value at the given position, or `None` if there are
    /// not that many.
    pub fn get_index(&self, index: usize) -> (found: Option<(&String, &Param)>)
        ensures
            match found {
                Some((name, value)) => {
                    &&& index < self@.len()
                    &&& self@[index as int] == (name@, value@)
                },
                None => index >= self@.len(),
            },
    {
        if index < self.entries.len() {
            Some((&self.entries[index].0, &self.entries[index].1))
        } else {
            None
        }
    }
}

} // verus!
