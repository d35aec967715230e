//! Name collisions in flattening.
//!
//! Flattening must not put two declarations under one name: a space in which it
//! would is an error of its author. Here such spaces are told from the others before
//! anything is changed.

use vstd::prelude::*;
use vstd::string::StringExecFns;

use crate::error::{SpaceError, SpaceErrorView};
use crate::flatten::{
    collides, expanded, flat_key, flattened, lemma_flattened_concat, lemma_flattened_split,
    lemma_flattened_without_nested,
};
use crate::named::{distinct_names, first_index, lemma_first_index, lemma_first_index_is, names};
use crate::param_space::{has_nested, well_formed, ParamSpace, ParamSubspace, SubspaceView};

verus! {

/// The index of the first name that stands in the list a second time.
pub open spec fn first_repeat(list: Seq<Seq<char>>) -> Option<int>
    decreases list.len(),
{
    if list.len() == 0 {
        None
    } else {
        match first_repeat(list.drop_last()) {
            Some(j) => Some(j),
            None => if first_index(list.drop_last(), list.last()) is Some {
                Some(list.len() - 1)
            } else {
                None
            },
        }
    }
}

/// The first name, in the order of the flattened space, that flattening would put a
/// second declaration under.
pub open spec fn first_collision(space: Seq<(Seq<char>, SubspaceView)>) -> Option<Seq<char>> {
    match first_repeat(names(flattened(space))) {
        Some(j) => Some(flattened(space)[j].0),
        None => None,
    }
}

/// `first_repeat` finds the first name that stood in the list before, and finds none
/// only where all names are different.
pub proof fn lemma_first_repeat(list: Seq<Seq<char>>)
    ensures
        match first_repeat(list) {
            Some(j) => {
                &&& 0 <= j < list.len()
                &&& exists|i: int| 0 <= i < j && #[trigger] list[i] == list[j]
                &&& forall|a: int, b: int|
                    0 <= a < b < j ==> #[trigger] list[a] != #[trigger] list[b]
            },
            None => forall|a: int, b: int|
                0 <= a < b < list.len() ==> #[trigger] list[a] != #[trigger] list[b],
        },
    decreases list.len(),
{
    if list.len() > 0 {
        let front = list.drop_last();
        let last = list.len() - 1;
        lemma_first_repeat(front);
        lemma_first_index(front, list.last());
        assert forall|a: int| 0 <= a < front.len() implies #[trigger] front[a] == list[a] by {}
        match first_repeat(front) {
            Some(j) => {
                let i = choose|i: int| 0 <= i < j && #[trigger] front[i] == front[j];
                assert(list[i] == list[j]);
                assert forall|a: int, b: int| 0 <= a < b < j implies #[trigger] list[a]
                    != #[trigger] list[b] by {
                    assert(front[a] != front[b]);
                }
            },
            None => {
                assert forall|a: int, b: int| 0 <= a < b < last implies #[trigger] list[a]
                    != #[trigger] list[b] by {
                    assert(front[a] != front[b]);
                }
                match first_index(front, list.last()) {
                    Some(_) => {},
                    None => {
                        assert forall|a: int, b: int|
                            0 <= a < b < list.len() implies #[trigger] list[a]
                            != #[trigger] list[b] by {
                            if b == last {
                                assert(front[a] != list.last());
                            }
                        }
                    },
                }
            },
        }
    }
}

/// Flattening a space puts two declarations under one name exactly if there is a first
/// such name.
pub proof fn lemma_first_collision(space: Seq<(Seq<char>, SubspaceView)>)
    ensures
        collides(space) <==> first_collision(space) is Some,
{
    let flat = flattened(space);
    let list = names(flat);
    lemma_first_repeat(list);
    match first_repeat(list) {
        Some(j) => {
            let i = choose|i: int| 0 <= i < j && #[trigger] list[i] == list[j];
            assert(flat[i].0 == flat[j].0);
        },
        None => {
            assert forall|a: int, b: int| 0 <= a < b < flat.len() implies (#[trigger] flat[a]).0
                != (#[trigger] flat[b]).0 by {
                assert(list[a] != list[b]);
            }
        },
    }
}

/// The texts of a list of strings.
pub open spec fn texts(list: Seq<String>) -> Seq<Seq<char>> {
    Seq::new(list.len(), |i: int| list[i]@)
}

/// Flattening a space without nested spaces changes nothing, and puts no two
/// declarations under one name.
pub proof fn lemma_flatten_without_nested(space: Seq<(Seq<char>, SubspaceView)>)
    requires
        well_formed(space),
        !has_nested(space),
    ensures
        flattened(space) == space,
        !collides(space),
        first_collision(space) is None,
{
    lemma_flattened_without_nested(space);
    lemma_first_collision(space);
}

/// The flattened declarations before a later position hold the flattened
/// declarations before an earlier one and what the declaration there expands to.
pub proof fn lemma_flattened_offsets(space: Seq<(Seq<char>, SubspaceView)>, i: int, j: int)
    requires
        0 <= i < j <= space.len(),
    ensures
        flattened(space.take(i)).len() + expanded(space[i].0, space[i].1).len() <= flattened(
            space.take(j),
        ).len(),
        flattened(space.take(j)).len() <= flattened(space).len(),
{
    let front = space.take(j);
    lemma_flattened_split(front, i);
    assert(front.take(i) == space.take(i));
    assert(space == front + space.skip(j));
    lemma_flattened_concat(front, space.skip(j));
}

/// Where what two declarations of a space expand to holds one name twice, flattening
/// the space would put two declarations under that name. So do two nested spaces that
/// stand under different names and flatten to the same name.
pub proof fn lemma_collision(
    space: Seq<(Seq<char>, SubspaceView)>,
    i: int,
    j: int,
    a: int,
    b: int,
)
    requires
        0 <= i < j < space.len(),
        0 <= a < expanded(space[i].0, space[i].1).len(),
        0 <= b < expanded(space[j].0, space[j].1).len(),
        expanded(space[i].0, space[i].1)[a].0 == expanded(space[j].0, space[j].1)[b].0,
    ensures
        collides(space),
        first_collision(space) is Some,
{
    let flat = flattened(space);
    let first = flattened(space.take(i)).len() + a;
    let second = flattened(space.take(j)).len() + b;
    lemma_flattened_split(space, i);
    lemma_flattened_split(space, j);
    lemma_flattened_offsets(space, i, j);
    assert(flat[first] == expanded(space[i].0, space[i].1)[a]);
    assert(flat[second] == expanded(space[j].0, space[j].1)[b]);
    lemma_first_collision(space);
}

/// Returns the index of the first string that stands in the list a second time.
pub fn find_repeat(list: &Vec<String>) -> (found: Option<usize>)
    ensures
        match found {
            Some(j) => first_repeat(texts(list@)) == Some(j as int),
            None => first_repeat(texts(list@)) is None,
        },
{
    let ghost all = texts(list@);
    let mut j: usize = 0;
    while j < list.len()
        invariant
            j <= list@.len(),
            all == texts(list@),
            first_repeat(all.take(j as int)) is None,
        decreases list@.len() - j,
    {
        proof {
            assert(all.take(j + 1).drop_last() == all.take(j as int));
        }
        let mut i: usize = 0;
        while i < j
            invariant
                i <= j < list@.len(),
                all == texts(list@),
                first_repeat(all.take(j as int)) is None,
                forall|a: int| 0 <= a < i ==> #[trigger] all[a] != all[j as int],
            decreases j - i,
        {
            if list[i] == list[j] {
                proof {
                    let front = all.take(j as int);
                    assert(all.take(j + 1).drop_last() == front);
                    assert forall|a: int| 0 <= a < i implies #[trigger] front[a]
                        != all[j as int] by {}
                    lemma_first_index_is(front, all[j as int], i as int);
                    lemma_first_repeat_prefix(all, j + 1);
                }
                return Some(j);
            }
            i += 1;
        }
        proof {
            lemma_first_index(all.take(j as int), all[j as int]);
        }
        j += 1;
    }
    proof {
        assert(all.take(list@.len() as int) == all);
    }
    None
}

/// A repeat among the first names of a list is the first repeat of the whole list.
pub proof fn lemma_first_repeat_prefix(list: Seq<Seq<char>>, count: int)
    requires
        0 <= count <= list.len(),
        first_repeat(list.take(count)) is Some,
    ensures
        first_repeat(list) == first_repeat(list.take(count)),
    decreases list.len() - count,
{
    if count < list.len() {
        assert(list.take(count + 1).drop_last() == list.take(count));
        lemma_first_repeat_prefix(list, count + 1);
    } else {
        assert(list.take(count) == list);
    }
}

/// The names of the prefixed declarations are the prefixed names.
pub proof fn lemma_names_of_flattened_step(space: Seq<(Seq<char>, SubspaceView)>, i: int)
    requires
        0 <= i < space.len(),
    ensures
        names(flattened(space.take(i + 1))) == names(flattened(space.take(i))) + match space[i].1 {
            SubspaceView::Nested { space: inner } => Seq::new(
                flattened(inner).len(),
                |j: int| flat_key(space[i].0, names(flattened(inner))[j]),
            ),
            _ => seq![space[i].0],
        },
{
    lemma_flattened_split(space, i);
}

impl ParamSpace {
    /// Returns the names that the declarations have after flattening, in the order
    /// of the flattened space, and leaves the space as it is.
    pub fn flat_names(&self) -> (list: Vec<String>)
        ensures
            texts(list@) == names(flattened(self@)),
        decreases self@,
    {
        let mut list: Vec<String> = Vec::new();
        let len = self.len();
        let mut i: usize = 0;
        while i < len
            invariant
                len == self@.len(),
                i <= len,
                texts(list@) == names(flattened(self@.take(i as int))),
            decreases len - i,
        {
            proof {
                lemma_names_of_flattened_step(self@, i as int);
            }
            let ghost before = texts(list@);
            match self.get_index(i) {
                Some((name, subspace)) => match subspace {
                    ParamSubspace::Nested(inner) => {
                        let inner_names = inner.flat_names();
                        let ghost children = texts(inner_names@);
                        let mut j: usize = 0;
                        while j < inner_names.len()
                            invariant
                                j <= inner_names@.len(),
                                children == texts(inner_names@),
                                texts(list@) == before + Seq::new(
                                    j as nat,
                                    |k: int| flat_key(name@, children[k]),
                                ),
                            decreases inner_names@.len() - j,
                        {
                            let key = name.clone().concat(".").concat(inner_names[j].as_str());
                            proof {
                                reveal_strlit(".");
                                assert("."@ == seq!['.']);
                            }
                            let ghost done = texts(list@);
                            list.push(key);
                            j += 1;
                            proof {
                                assert(texts(list@) == done.push(key@));
                            }
                        }
                        proof {
                            assert(children.len() == flattened(inner@).len());
                        }
                    },
                    _ => {
                        list.push(name.clone());
                    },
                },
                None => {
                    assert(false);
                },
            }
            i += 1;
        }
        proof {
            assert(self@.take(len as int) == self@);
        }
        list
    }

    /// Flattens the parameter space recursively, as [`ParamSpace::flatten`] does,
    /// unless that would put two declarations under one name.
    ///
    /// In that case the space is left as it is, and the error names the first name, in
    /// the order of the flattened space, that a second declaration would come to stand
    /// under.
    pub fn try_flatten(&mut self) -> (result: Result<bool, SpaceError>)
        ensures
            match result {
                Ok(modified) => {
                    &&& !collides(old(self)@)
                    &&& final(self)@ == flattened(old(self)@)
                    &&& modified == has_nested(old(self)@)
                    &&& !has_nested(final(self)@)
                    &&& distinct_names(final(self)@)
                },
                Err(error) => {
                    &&& collides(old(self)@)
                    &&& final(self)@ == old(self)@
                    &&& first_collision(old(self)@) matches Some(key)
                    &&& error@ == SpaceErrorView::FlattenKeyCollision { key }
                },
            },
    {
        let list = self.flat_names();
        proof {
            lemma_first_collision(self@);
            lemma_first_repeat(texts(list@));
        }
        match find_repeat(&list) {
            Some(j) => Err(SpaceError::FlattenKeyCollision { key: list[j].clone() }),
            None => Ok(self.flatten()),
        }
    }
}

} // verus!
