//! Describing a parameter space for the engine.

use vstd::prelude::*;

use crate::error::{SpaceError, SpaceErrorView};
use crate::number::Real;
use crate::param_space::{has_nested, ParamSpace, ParamSubspace, SubspaceView};

verus! {

/// What the engine is told of one parameter. The variants of a categorical parameter
/// are shown as their indices only, never as the host values.
#[derive(Debug, Clone, PartialEq, Eq)]
#[allow(inconsistent_fields)]
pub enum ParamRecord {
    Real { name: String, lower: Real, upper: Real, log: bool },
    Integer { name: String, lower: u32, upper: u32, log: bool },
    Bool { name: String },
    Categorical { name: String, variants: Vec<usize> },
}

/// The mathematical value of a [`ParamRecord`].
#[allow(inconsistent_fields)]
pub ghost enum RecordView {
    Real { name: Seq<char>, lower: u64, upper: u64, log: bool },
    Integer { name: Seq<char>, lower: u32, upper: u32, log: bool },
    Bool { name: Seq<char> },
    Categorical { name: Seq<char>, variants: Seq<usize> },
}

impl View for ParamRecord {
    type V = RecordView;

    open spec fn view(&self) -> RecordView {
        match *self {
            ParamRecord::Real { name, lower, upper, log } => RecordView::Real {
                name: name@,
                lower: lower.bits,
                upper: upper.bits,
                log,
            },
            ParamRecord::Integer { name, lower, upper, log } => RecordView::Integer {
                name: name@,
                lower,
                upper,
                log,
            },
            ParamRecord::Bool { name } => RecordView::Bool { name: name@ },
            ParamRecord::Categorical { name, variants } => RecordView::Categorical {
                name: name@,
                variants: variants@,
            },
        }
    }
}

/// The values of a sequence of records.
pub open spec fn record_views(records: Seq<ParamRecord>) -> Seq<RecordView> {
    Seq::new(records.len(), |i: int| records[i]@)
}

/// The indices `0, 1, ..` below `count`, in order.
pub open spec fn indices(count: nat) -> Seq<usize> {
    Seq::new(count, |i: int| i as usize)
}

/// The record of the declaration that stands under `name`. The record carries the name
/// that the declaration stands under in the space, and a nested space has none.
pub open spec fn record_of(name: Seq<char>, subspace: SubspaceView) -> Option<RecordView> {
    match subspace {
        SubspaceView::Real { lower, upper, log, .. } => Some(
            RecordView::Real { name, lower, upper, log },
        ),
        SubspaceView::Integer { lower, upper, log, .. } => Some(
            RecordView::Integer { name, lower, upper, log },
        ),
        SubspaceView::Bool { .. } => Some(RecordView::Bool { name }),
        SubspaceView::Categorical { variants, .. } => Some(
            RecordView::Categorical { name, variants: indices(variants.len()) },
        ),
        SubspaceView::Nested { .. } => None,
    }
}

/// What the engine is told of a space: one record for each declaration, in the order
/// of the space; or, where a nested space remains, the error that names the first.
pub open spec fn encoded(space: Seq<(Seq<char>, SubspaceView)>) -> Result<
    Seq<RecordView>,
    SpaceErrorView,
>
    decreases space.len(),
{
    if space.len() == 0 {
        Ok(Seq::empty())
    } else {
        match encoded(space.drop_last()) {
            Err(error) => Err(error),
            Ok(records) => match record_of(space.last().0, space.last().1) {
                Some(record) => Ok(records.push(record)),
                None => Err(SpaceErrorView::UnsupportedNested { name: space.last().0 }),
            },
        }
    }
}

/// A space can be shown to the engine exactly if it holds no nested space, and then
/// it is shown as one record for each declaration, under the declaration's name.
pub proof fn lemma_encoded(space: Seq<(Seq<char>, SubspaceView)>)
    ensures
        encoded(space) is Ok <==> !has_nested(space),
        encoded(space) matches Ok(records) ==> {
            &&& records.len() == space.len()
            &&& forall|i: int|
                0 <= i < space.len() ==> record_of(space[i].0, space[i].1) == Some(
                    #[trigger] records[i],
                )
        },
        encoded(space) matches Err(error) ==> exists|i: int|
            {
                &&& 0 <= i < space.len()
                &&& (#[trigger] space[i]).1 is Nested
                &&& error == SpaceErrorView::UnsupportedNested { name: space[i].0 }
                &&& forall|j: int| 0 <= j < i ==> !((#[trigger] space[j]).1 is Nested)
            },
    decreases space.len(),
{
    if space.len() > 0 {
        let front = space.drop_last();
        let last = space.len() - 1;
        lemma_encoded(front);
        assert forall|j: int| 0 <= j < front.len() implies #[trigger] front[j] == space[j] by {}
        match encoded(front) {
            Err(error) => {
                let i = choose|i: int|
                    {
                        &&& 0 <= i < front.len()
                        &&& (#[trigger] front[i]).1 is Nested
                        &&& error == SpaceErrorView::UnsupportedNested { name: front[i].0 }
                        &&& forall|j: int| 0 <= j < i ==> !((#[trigger] front[j]).1 is Nested)
                    };
                assert forall|j: int| 0 <= j < i implies !((#[trigger] space[j]).1 is Nested) by {
                    assert(space[j] == front[j]);
                }
            },
            Ok(records) => {
                if has_nested(space) {
                    let i = choose|i: int|
                        0 <= i < space.len() && (#[trigger] space[i]).1 is Nested;
                    if i < last {
                        assert(front[i].1 is Nested);
                    }
                }
                if space[last].1 is Nested {
                    assert forall|j: int| 0 <= j < last implies !((#[trigger] space[j]).1
                        is Nested) by {
                        assert(front[j] == space[j]);
                    }
                } else {
                    let all = encoded(space)->Ok_0;
                    assert forall|i: int| 0 <= i < space.len() implies record_of(
                        space[i].0,
                        space[i].1,
                    ) == Some(#[trigger] all[i]) by {}
                }
            },
        }
    }
}

/// An error in showing the first declarations of a space is the error in showing all
/// of it.
pub proof fn lemma_encoded_prefix_error(space: Seq<(Seq<char>, SubspaceView)>, count: int)
    requires
        0 <= count <= space.len(),
        encoded(space.take(count)) is Err,
    ensures
        encoded(space) == encoded(space.take(count)),
    decreases space.len() - count,
{
    if count < space.len() {
        assert(space.take(count + 1).drop_last() == space.take(count));
        lemma_encoded_prefix_error(space, count + 1);
    } else {
        assert(space.take(count) == space);
    }
}

/// Returns the indices `0, 1, ..` below `count`, in order.
pub fn index_list(count: usize) -> (list: Vec<usize>)
    ensures
        list@ == indices(count as nat),
{
    let mut list: Vec<usize> = Vec::new();
    let mut i: usize = 0;
    while i < count
        invariant
            i <= count,
            list@ == indices(i as nat),
        decreases count - i,
    {
        list.push(i);
        i += 1;
    }
    list
}

/// Returns the record of one declaration, or `None` for a nested space.
fn encode_subspace(name: &String, subspace: &ParamSubspace) -> (record: Option<ParamRecord>)
    ensures
        match record {
            Some(record) => record_of(name@, subspace@) == Some(record@),
            None => record_of(name@, subspace@) is None,
        },
{
    match subspace {
        ParamSubspace::Real(numerical) => Some(
            ParamRecord::Real {
                name: name.clone(),
                lower: numerical.lower,
                upper: numerical.upper,
                log: numerical.log,
            },
        ),
        ParamSubspace::Integer(numerical) => Some(
            ParamRecord::Integer {
                name: name.clone(),
                lower: numerical.lower,
                upper: numerical.upper,
                log: numerical.log,
            },
        ),
        ParamSubspace::Bool(_) => Some(ParamRecord::Bool { name: name.clone() }),
        ParamSubspace::Categorical(discrete) => Some(
            ParamRecord::Categorical {
                name: name.clone(),
                variants: index_list(discrete.variants.len()),
            },
        ),
        ParamSubspace::Nested(_) => None,
    }
}

impl ParamSpace {
    /// Describes the space for the engine: one record for each declaration, in the
    /// order of the space.
    ///
    /// Fails with [`SpaceError::UnsupportedNested`], naming the first nested space, if
    /// one remains: the space must be flattened first.
    pub fn encode(&self) -> (result: Result<Vec<ParamRecord>, SpaceError>)
        ensures
            match result {
                Ok(records) => encoded(self@) == Ok::<_, SpaceErrorView>(record_views(records@)),
                Err(error) => encoded(self@) == Err::<Seq<RecordView>, _>(error@),
            },
    {
        let mut records: Vec<ParamRecord> = Vec::new();
        let len = self.len();
        let mut i: usize = 0;
        proof {
            assert(record_views(records@) == Seq::<RecordView>::empty());
        }
        while i < len
            invariant
                len == self@.len(),
                i <= len,
                encoded(self@.take(i as int)) == Ok::<_, SpaceErrorView>(record_views(records@)),
            decreases len - i,
        {
            proof {
                assert(self@.take(i + 1).drop_last() == self@.take(i as int));
            }
            match self.get_index(i) {
                Some((name, subspace)) => match encode_subspace(name, subspace) {
                    Some(record) => {
                        proof {
                            assert(record_views(records@).push(record@) == record_views(
                                records@.push(record),
                            ));
                        }
                        records.push(record);
                    },
                    None => {
                        proof {
                            lemma_encoded_prefix_error(self@, i + 1);
                        }
                        return Err(SpaceError::UnsupportedNested { name: name.clone() });
                    },
                },
                None => {
                    assert(false);
                },
            }
            i += 1;
        }
        proof {
            assert(self@.take(len as int) == self@);
        }
        Ok(records)
    }
}

} // verus!
