//! Flattening nested parameter spaces.
//!
//! Nested parameter spaces are put into the top-level space by joining the name of
//! the nested space and the names of its declarations with a dot (.). The following
//!
//! ```text
//! { "nested_space": {"inner_key": ... } }
//! ```
//!
//! is flattened to
//!
//! ```text
//! { "nested_space.inner_key": ... }
//! ```

use vstd::prelude::*;
use vstd::string::StringExecFns;

use crate::named::{
    distinct_names, has_name, index_of, lemma_index_of, lemma_index_of_absent, lemma_put, names,
    put,
};
use crate::param_space::{has_nested, ParamSpace, ParamSubspace, SubspaceView};

verus! {


/// The name that the declaration `child` of the nested space `parent` has after
/// flattening.
pub open spec fn flat_key(parent: Seq<char>, child: Seq<char>) -> Seq<char> {
    parent + seq!['.'] + child
}

/// The declarations of `space`, each under its flat name as a declaration of the
/// nested space `parent`.
pub open spec fn prefixed(parent: Seq<char>, space: Seq<(Seq<char>, SubspaceView)>) -> Seq<
    (Seq<char>, SubspaceView),
> {
    Seq::new(space.len(), |i: int| (flat_key(parent, space[i].0), space[i].1))
}

/// What stands in the place of one declaration after flattening: the declaration
/// itself, or, for a nested space, the declarations of the flattened nested space
/// under their flat names.
pub open spec fn expanded(name: Seq<char>, subspace: SubspaceView) -> Seq<
    (Seq<char>, SubspaceView),
>
    decreases subspace,
{
    match subspace {
        SubspaceView::Nested { space } => prefixed(name, flattened(space)),
        _ => seq![(name, subspace)],
    }
}

/// The flattened space: every declaration expanded, in the order of the space.
pub open spec fn flattened(space: Seq<(Seq<char>, SubspaceView)>) -> Seq<
    (Seq<char>, SubspaceView),
>
    decreases space,
{
    if space.len() == 0 {
        Seq::empty()
    } else {
        flattened(space.drop_last()) + expanded(space.last().0, space.last().1)
    }
}

/// Whether flattening the space would put two declarations under one name.
pub open spec fn collides(space: Seq<(Seq<char>, SubspaceView)>) -> bool {
    !distinct_names(flattened(space))
}

/// Flattening goes declaration by declaration: a space that is made of two parts is
/// flattened by flattening the parts.
pub proof fn lemma_flattened_concat(
    front: Seq<(Seq<char>, SubspaceView)>,
    back: Seq<(Seq<char>, SubspaceView)>,
)
    ensures
        flattened(front + back) == flattened(front) + flattened(back),
    decreases back.len(),
{
    if back.len() > 0 {
        assert((front + back).drop_last() == front + back.drop_last());
        lemma_flattened_concat(front, back.drop_last());
    }
}

/// A space of one declaration is flattened to what the declaration expands to.
pub proof fn lemma_flattened_single(name: Seq<char>, subspace: SubspaceView)
    ensures
        flattened(seq![(name, subspace)]) == expanded(name, subspace),
{
    let single = seq![(name, subspace)];
    assert(flattened(single.drop_last()) == Seq::<(Seq<char>, SubspaceView)>::empty());
}

/// The flattened space is made of the flattened declarations before any given
/// position, what the declaration at the position expands to, and the flattened
/// declarations after it.
pub proof fn lemma_flattened_split(space: Seq<(Seq<char>, SubspaceView)>, i: int)
    requires
        0 <= i < space.len(),
    ensures
        flattened(space) == flattened(space.take(i)) + expanded(space[i].0, space[i].1)
            + flattened(space.skip(i + 1)),
        flattened(space.take(i + 1)) == flattened(space.take(i)) + expanded(
            space[i].0,
            space[i].1,
        ),
{
    let front = space.take(i);
    let single = seq![space[i]];
    let back = space.skip(i + 1);
    assert(space == front + single + back);
    assert(space.take(i + 1) == front + single);
    lemma_flattened_concat(front, single);
    lemma_flattened_concat(front + single, back);
    lemma_flattened_single(space[i].0, space[i].1);
}

/// No nested space is left in a flattened space.
pub proof fn lemma_flattened_has_no_nested(space: Seq<(Seq<char>, SubspaceView)>)
    ensures
        !has_nested(flattened(space)),
    decreases space,
{
    if space.len() > 0 {
        let front = flattened(space.drop_last());
        let last = expanded(space.last().0, space.last().1);
        lemma_flattened_has_no_nested(space.drop_last());
        if let SubspaceView::Nested { space: inner } = space.last().1 {
            lemma_flattened_has_no_nested(inner);
            assert forall|i: int| 0 <= i < last.len() implies !((#[trigger] last[i]).1
                is Nested) by {}
        }
        assert forall|i: int| 0 <= i < (front + last).len() implies !((#[trigger] (front
            + last)[i]).1 is Nested) by {}
    }
}

/// Flattening a space without nested spaces changes nothing.
pub proof fn lemma_flattened_without_nested(space: Seq<(Seq<char>, SubspaceView)>)
    requires
        !has_nested(space),
    ensures
        flattened(space) == space,
    decreases space.len(),
{
    if space.len() > 0 {
        let front = space.drop_last();
        assert forall|i: int| 0 <= i < front.len() implies !((#[trigger] front[i]).1
            is Nested) by {}
        lemma_flattened_without_nested(front);
        assert(expanded(space.last().0, space.last().1) == seq![space.last()]);
    }
}

/// Flattening is idempotent: a flattened space is flattened to itself.
pub proof fn lemma_flattened_idempotent(space: Seq<(Seq<char>, SubspaceView)>)
    ensures
        flattened(flattened(space)) == flattened(space),
{
    lemma_flattened_has_no_nested(space);
    lemma_flattened_without_nested(flattened(space));
}

/// Where flattening a space puts no two declarations under one name, flattening any
/// of its nested spaces does not either.
pub proof fn lemma_collides_nested(space: Seq<(Seq<char>, SubspaceView)>, i: int)
    requires
        0 <= i < space.len(),
        space[i].1 is Nested,
        !collides(space),
    ensures
        !collides(space[i].1->space),
{
    let inner = flattened(space[i].1->space);
    let middle = prefixed(space[i].0, inner);
    let front = flattened(space.take(i));
    let all = flattened(space);
    lemma_flattened_split(space, i);
    assert forall|a: int, b: int| 0 <= a < b < inner.len() implies (#[trigger] inner[a]).0 != (
    #[trigger] inner[b]).0 by {
        assert(all[front.len() + a] == middle[a]);
        assert(all[front.len() + b] == middle[b]);
    }
}

/// Where a nested space is added to a space, the flattened space holds, in the place
/// of the nested space, exactly the declarations of the flattened nested space, each
/// under the name of the nested space, a dot and its own name;
/// before and after them stands what the other declarations, which are those of the
/// space from before, are flattened to. The nested space is flattened in the same
/// way, so this holds however deep the nesting goes. A nested space that is added
/// under a new name stands last.
pub proof fn lemma_flatten_with_nested(
    space: Seq<(Seq<char>, SubspaceView)>,
    name: Seq<char>,
    inner: Seq<(Seq<char>, SubspaceView)>,
)
    ensures
        ({
            let after = put(space, name, SubspaceView::Nested { space: inner });
            &&& index_of(after, name) matches Some(i)
            &&& flattened(after) == flattened(after.take(i)) + prefixed(name, flattened(inner))
                + flattened(after.skip(i + 1))
            &&& forall|k: int| 0 <= k < after.len() && k != i ==> #[trigger] after[k] == space[k]
            &&& !has_name(space, name) ==> flattened(after) == flattened(space) + prefixed(
                name,
                flattened(inner),
            )
            &&& !has_nested(flattened(after))
        }),
        names(prefixed(name, flattened(inner))) == Seq::new(
            flattened(inner).len(),
            |i: int| flat_key(name, names(flattened(inner))[i]),
        ),
{
    let nested = SubspaceView::Nested { space: inner };
    let after = put(space, name, nested);
    lemma_put(space, name, nested);
    lemma_index_of(space, name);
    lemma_index_of(after, name);
    let i = index_of(after, name)->Some_0;
    assert(after[i].1 == nested);
    lemma_flattened_split(after, i);
    if !has_name(space, name) {
        assert(after.take(i) == space);
        assert(flattened(after.skip(i + 1)) == Seq::<(Seq<char>, SubspaceView)>::empty());
    }
    lemma_flattened_has_no_nested(after);
}

/// Putting the next declaration of a sequence with distinct names after the ones
/// before it appends it.
pub proof fn lemma_put_next(all: Seq<(Seq<char>, SubspaceView)>, count: int)
    requires
        distinct_names(all),
        0 <= count < all.len(),
    ensures
        put(all.take(count), all[count].0, all[count].1) == all.take(count + 1),
{
    let done = all.take(count);
    assert forall|j: int| 0 <= j < done.len() implies (#[trigger] done[j]).0 != all[count].0 by {}
    lemma_index_of_absent(done, all[count].0);
}

/// A nested space is among the first declarations of a space and one more exactly
/// if it is among the first, or is that one.
pub proof fn lemma_has_nested_step(space: Seq<(Seq<char>, SubspaceView)>, i: int)
    requires
        0 <= i < space.len(),
    ensures
        has_nested(space.take(i + 1)) == (has_nested(space.take(i)) || space[i].1 is Nested),
{
    let shorter = space.take(i);
    let longer = space.take(i + 1);
    if has_nested(shorter) {
        let j = choose|j: int| 0 <= j < shorter.len() && (#[trigger] shorter[j]).1 is Nested;
        assert(longer[j].1 is Nested);
    }
    if space[i].1 is Nested {
        assert(longer[i].1 is Nested);
    }
    if has_nested(longer) {
        let j = choose|j: int| 0 <= j < longer.len() && (#[trigger] longer[j]).1 is Nested;
        assert(j < i ==> shorter[j].1 is Nested);
    }
}

impl ParamSpace {
    /// Flattens the parameter space recursively.
    ///
    /// Every nested space is flattened first and then replaced by its declarations,
    /// each under the name of the nested space, a dot (.) and its own name; the
    /// declarations keep their order. Returns whether a nested space was replaced.
    ///
    /// Two declarations that would come to stand under one name are an error in the
    /// authoring of the space, and such a space must not be handed in: see
    /// [`ParamSpace::try_flatten`].
    pub fn flatten(&mut self) -> (modified: bool)
        requires
            !collides(old(self)@),
        ensures
            final(self)@ == flattened(old(self)@),
            modified == has_nested(old(self)@),
            !has_nested(final(self)@),
            distinct_names(final(self)@),
        decreases old(self)@,
    {
        proof {
            lemma_flattened_has_no_nested(old(self)@);
        }
        let mut source = ParamSpace::new();
        std::mem::swap(self, &mut source);
        let ghost space = source@;
        let ghost target = flattened(space);
        let entries = source.into_entries();
        let ghost items = entries@;
        let mut modified = false;
        for entry in it: entries
            invariant
                space == old(self)@,
                it.seq() == items,
                items.len() == space.len(),
                forall|j: int|
                    0 <= j < items.len() ==> space[j] == ((#[trigger] items[j]).0@, items[j].1@),
                target == flattened(space),
                distinct_names(target),
                flattened(space.take(it.index())).len() <= target.len(),
                self@ == target.take(flattened(space.take(it.index())).len() as int),
                self@ == flattened(space.take(it.index())),
                modified == has_nested(space.take(it.index())),
        {
            let ghost i = it.index();
            let ghost count = flattened(space.take(i)).len() as int;
            let (name, subspace) = entry;
            proof {
                lemma_flattened_split(space, i);
                lemma_has_nested_step(space, i);
            }
            match subspace {
                ParamSubspace::Nested(mut inner) => {
                    modified = true;
                    proof {
                        lemma_collides_nested(space, i);
                    }
                    let ghost nested = inner@;
                    inner.flatten();
                    let ghost middle = prefixed(name@, flattened(nested));
                    let children = inner.into_entries();
                    let ghost flat_children = children@;
                    for child in inner_it: children
                        invariant
                            inner_it.seq() == flat_children,
                            flat_children.len() == middle.len(),
                            forall|j: int|
                                0 <= j < flat_children.len() ==> (#[trigger] middle[j]) == (
                                    flat_key(name@, flat_children[j].0@),
                                    flat_children[j].1@,
                                ),
                            distinct_names(target),
                            0 <= count,
                            count + middle.len() <= target.len(),
                            forall|j: int|
                                0 <= j < middle.len() ==> #[trigger] target[count + j] == middle[j],
                            self@ == target.take(count + inner_it.index()),
                    {
                        let ghost j = inner_it.index();
                        let (child_name, child_space) = child;
                        let key = name.clone().concat(".").concat(child_name.as_str());
                        proof {
                            reveal_strlit(".");
                            assert("."@ == seq!['.']);
                            lemma_put_next(target, count + j);
                        }
                        self.add_raw(key, child_space);
                    }
                },
                leaf => {
                    proof {
                        lemma_put_next(target, count);
                    }
                    self.add_raw(name, leaf);
                },
            }
        }
        proof {
            assert(space.take(space.len() as int) == space);
        }
        modified
    }
}

} // verus!
