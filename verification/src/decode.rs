//! Decoding untyped configurations against a parameter space.

use vstd::prelude::*;

use crate::error::{DecodeError, DecodeErrorView};
use crate::named::{lookup, put};
use crate::number::Real;
use crate::param::{Param, ParamView};
use crate::param_space::{ParamKind, ParamSpace, ParamSubspace, SubspaceView};
use crate::params::Params;
use crate::raw::{RawConfig, RawValue, RawView};

verus! {

/// The typed value of `raw` for the declaration `subspace`, which stands under `name`.
///
/// A real parameter takes a floating-point number, an integer parameter an integer
/// that an unsigned 32-bit integer can hold, a boolean parameter a boolean. A
/// categorical parameter takes an integer that is no less than zero, as the index of
/// one of its variants, and has the value of that variant. Nothing can be decoded for
/// a nested space.
pub open spec fn decode_value(name: Seq<char>, subspace: SubspaceView, raw: RawView) -> Result<
    ParamView,
    DecodeErrorView,
> {
    match subspace {
        SubspaceView::Real { .. } => match raw {
            RawView::Float(bits) => Ok(ParamView::Real(bits)),
            _ => Err(DecodeErrorView::TypeMismatch { name, expected: ParamKind::Real }),
        },
        SubspaceView::Integer { .. } => match raw {
            RawView::Integer(n) if 0 <= n <= u32::MAX => Ok(ParamView::Integer(n as u32)),
            _ => Err(DecodeErrorView::TypeMismatch { name, expected: ParamKind::Integer }),
        },
        SubspaceView::Bool { .. } => match raw {
            RawView::Bool(b) => Ok(ParamView::Bool(b)),
            _ => Err(DecodeErrorView::TypeMismatch { name, expected: ParamKind::Bool }),
        },
        SubspaceView::Categorical { variants, .. } => match raw {
            RawView::Integer(n) if 0 <= n => if n < variants.len() {
                Ok(variants[n])
            } else {
                Err(DecodeErrorView::IndexOutOfRange { name, index: n, count: variants.len() })
            },
            _ => Err(DecodeErrorView::TypeMismatch { name, expected: ParamKind::Categorical }),
        },
        SubspaceView::Nested { .. } => Err(DecodeErrorView::UnsupportedNested { name }),
    }
}

/// The typed value of the entry `name`, `raw` of a configuration, with `space` as the
/// schema: the name must be declared, and the value is decoded for its declaration.
pub open spec fn decode_entry(
    space: Seq<(Seq<char>, SubspaceView)>,
    name: Seq<char>,
    raw: RawView,
) -> Result<ParamView, DecodeErrorView> {
    match lookup(space, name) {
        Some(subspace) => decode_value(name, subspace, raw),
        None => Err(DecodeErrorView::UnknownParameter { name }),
    }
}

/// The parameters that a configuration decodes to, with `space` as the schema: every
/// entry decoded and put under its name, in the order of the configuration; or the
/// error of the first entry that cannot be decoded.
pub open spec fn decoded(
    space: Seq<(Seq<char>, SubspaceView)>,
    config: Seq<(Seq<char>, RawView)>,
) -> Result<Seq<(Seq<char>, ParamView)>, DecodeErrorView>
    decreases config.len(),
{
    if config.len() == 0 {
        Ok(Seq::empty())
    } else {
        match decoded(space, config.drop_last()) {
            Err(error) => Err(error),
            Ok(params) => match decode_entry(space, config.last().0, config.last().1) {
                Err(error) => Err(error),
                Ok(value) => Ok(put(params, config.last().0, value)),
            },
        }
    }
}

/// An error in decoding the first entries of a configuration is the error in decoding
/// all of it.
pub proof fn lemma_decoded_prefix_error(
    space: Seq<(Seq<char>, SubspaceView)>,
    config: Seq<(Seq<char>, RawView)>,
    count: int,
)
    requires
        0 <= count <= config.len(),
        decoded(space, config.take(count)) is Err,
    ensures
        decoded(space, config) == decoded(space, config.take(count)),
    decreases config.len() - count,
{
    if count < config.len() {
        assert(config.take(count + 1).drop_last() == config.take(count));
        lemma_decoded_prefix_error(space, config, count + 1);
    } else {
        assert(config.take(count) == config);
    }
}

/// A configuration decodes exactly if every entry of it does: there is no result for
/// a part of it.
pub proof fn lemma_decoded_all_or_nothing(
    space: Seq<(Seq<char>, SubspaceView)>,
    config: Seq<(Seq<char>, RawView)>,
)
    ensures
        decoded(space, config) is Ok <==> forall|i: int|
            0 <= i < config.len() ==> decode_entry(
                space,
                (#[trigger] config[i]).0,
                config[i].1,
            ) is Ok,
    decreases config.len(),
{
    if config.len() > 0 {
        let front = config.drop_last();
        let last = config.len() - 1;
        lemma_decoded_all_or_nothing(space, front);
        assert forall|i: int| 0 <= i < front.len() implies #[trigger] front[i] == config[i] by {}
        if decoded(space, config) is Ok {
            assert forall|i: int| 0 <= i < config.len() implies decode_entry(
                space,
                (#[trigger] config[i]).0,
                config[i].1,
            ) is Ok by {
                if i < last {
                    assert(front[i] == config[i]);
                }
            }
        }
        if forall|i: int|
            0 <= i < config.len() ==> decode_entry(
                space,
                (#[trigger] config[i]).0,
                config[i].1,
            ) is Ok {
            assert forall|i: int| 0 <= i < front.len() implies decode_entry(
                space,
                (#[trigger] front[i]).0,
                front[i].1,
            ) is Ok by {}
        }
    }
}

/// The first entry that cannot be decoded decides: its error is the error of
/// decoding the configuration.
pub proof fn lemma_decoded_first_error(
    space: Seq<(Seq<char>, SubspaceView)>,
    config: Seq<(Seq<char>, RawView)>,
    i: int,
)
    requires
        0 <= i < config.len(),
        forall|j: int|
            0 <= j < i ==> decode_entry(space, (#[trigger] config[j]).0, config[j].1) is Ok,
        decode_entry(space, config[i].0, config[i].1) is Err,
    ensures
        decoded(space, config) == Err::<Seq<(Seq<char>, ParamView)>, _>(
            decode_entry(space, config[i].0, config[i].1)->Err_0,
        ),
{
    let front = config.take(i);
    assert forall|j: int| 0 <= j < front.len() implies decode_entry(
        space,
        (#[trigger] front[j]).0,
        front[j].1,
    ) is Ok by {}
    lemma_decoded_all_or_nothing(space, front);
    assert(config.take(i + 1).drop_last() == front);
    lemma_decoded_prefix_error(space, config, i + 1);
}

/// A configuration that holds a name that the schema does not declare cannot be
/// decoded, and where the entries before that name can be decoded, the error is
/// `UnknownParameter` with the name.
pub proof fn lemma_unknown_parameter(
    space: Seq<(Seq<char>, SubspaceView)>,
    config: Seq<(Seq<char>, RawView)>,
    i: int,
)
    requires
        0 <= i < config.len(),
        lookup(space, config[i].0) is None,
    ensures
        decoded(space, config) is Err,
        (forall|j: int|
            0 <= j < i ==> decode_entry(space, (#[trigger] config[j]).0, config[j].1) is Ok)
            ==> decoded(space, config) == Err::<Seq<(Seq<char>, ParamView)>, _>(
            DecodeErrorView::UnknownParameter { name: config[i].0 },
        ),
{
    lemma_decoded_all_or_nothing(space, config);
    if forall|j: int|
        0 <= j < i ==> decode_entry(space, (#[trigger] config[j]).0, config[j].1) is Ok {
        lemma_decoded_first_error(space, config, i);
    }
}

/// A configuration that gives a categorical parameter an index that is not below the
/// number of its variants cannot be decoded, and where the entries before it can be
/// decoded, the error is `IndexOutOfRange` with the name, the index and the number of
/// variants.
pub proof fn lemma_index_out_of_range(
    space: Seq<(Seq<char>, SubspaceView)>,
    config: Seq<(Seq<char>, RawView)>,
    i: int,
)
    requires
        0 <= i < config.len(),
        lookup(space, config[i].0) matches Some(SubspaceView::Categorical { variants, .. })
            && config[i].1 matches RawView::Integer(index) && index >= variants.len(),
    ensures
        decoded(space, config) is Err,
        (forall|j: int|
            0 <= j < i ==> decode_entry(space, (#[trigger] config[j]).0, config[j].1) is Ok)
            ==> decoded(space, config) == Err::<Seq<(Seq<char>, ParamView)>, _>(
            DecodeErrorView::IndexOutOfRange {
                name: config[i].0,
                index: config[i].1->Integer_0,
                count: lookup(space, config[i].0)->Some_0->Categorical_variants.len(),
            },
        ),
{
    lemma_decoded_all_or_nothing(space, config);
    if forall|j: int|
        0 <= j < i ==> decode_entry(space, (#[trigger] config[j]).0, config[j].1) is Ok {
        lemma_decoded_first_error(space, config, i);
    }
}

/// Decodes one untyped value for the declaration that stands under `name`.
pub fn decode_raw(name: &String, subspace: &ParamSubspace, raw: &RawValue) -> (result: Result<
    Param,
    DecodeError,
>)
    ensures
        match result {
            Ok(value) => decode_value(name@, subspace@, raw@) == Ok::<_, DecodeErrorView>(value@),
            Err(error) => decode_value(name@, subspace@, raw@) == Err::<ParamView, _>(error@),
        },
{
    match subspace {
        ParamSubspace::Real(_) => match raw {
            RawValue::Float(number) => Ok(Param::Real(*number)),
            _ => Err(DecodeError::TypeMismatch { name: name.clone(), expected: ParamKind::Real }),
        },
        ParamSubspace::Integer(_) => match raw {
            RawValue::Integer(n) => {
                if 0 <= *n && *n <= u32::MAX as i128 {
                    Ok(Param::Integer(*n as u32))
                } else {
                    Err(
                        DecodeError::TypeMismatch {
                            name: name.clone(),
                            expected: ParamKind::Integer,
                        },
                    )
                }
            },
            _ => Err(
                DecodeError::TypeMismatch { name: name.clone(), expected: ParamKind::Integer },
            ),
        },
        ParamSubspace::Bool(_) => match raw {
            RawValue::Bool(b) => Ok(Param::Bool(*b)),
            _ => Err(DecodeError::TypeMismatch { name: name.clone(), expected: ParamKind::Bool }),
        },
        ParamSubspace::Categorical(discrete) => match raw {
            RawValue::Integer(n) => {
                let count = discrete.variants.len();
                if *n < 0 {
                    Err(
                        DecodeError::TypeMismatch {
                            name: name.clone(),
                            expected: ParamKind::Categorical,
                        },
                    )
                } else if *n < count as i128 {
                    Ok(discrete.variants[*n as usize].clone())
                } else {
                    Err(DecodeError::IndexOutOfRange { name: name.clone(), index: *n, count })
                }
            },
            _ => Err(
                DecodeError::TypeMismatch {
                    name: name.clone(),
                    expected: ParamKind::Categorical,
                },
            ),
        },
        ParamSubspace::Nested(_) => Err(DecodeError::UnsupportedNested { name: name.clone() }),
    }
}

impl Params {
    /// Decodes an untyped configuration, with `space` as the schema.
    ///
    /// Every entry is looked up in the space by its name and decoded for the
    /// declaration found there. The first entry that cannot be decoded ends the
    /// decoding with its error, and nothing is returned of the entries before it.
    pub fn from_dict(config: &RawConfig, space: &ParamSpace) -> (result: Result<
        Params,
        DecodeError,
    >)
        ensures
            match result {
                Ok(params) => decoded(space@, config@) == Ok::<_, DecodeErrorView>(params@),
                Err(error) => decoded(space@, config@) == Err::<Seq<(Seq<char>, ParamView)>, _>(
                    error@,
                ),
            },
    {
        let mut params = Params::new();
        let len = config.len();
        let mut i: usize = 0;
        proof {
            assert(params@ == Seq::<(Seq<char>, ParamView)>::empty());
        }
        while i < len
            invariant
                len == config@.len(),
                len == config.entries@.len(),
                i <= len,
                decoded(space@, config@.take(i as int)) == Ok::<_, DecodeErrorView>(params@),
            decreases len - i,
        {
            proof {
                assert(config@.take(i + 1).drop_last() == config@.take(i as int));
            }
            let name = &config.entries[i].0;
            let raw = &config.entries[i].1;
            let decoded_value = match space.get_raw(name.as_str()) {
                Some(subspace) => decode_raw(name, subspace, raw),
                None => Err(DecodeError::UnknownParameter { name: name.clone() }),
            };
            match decoded_value {
                Ok(value) => {
                    params.insert(name.clone(), value);
                },
                Err(error) => {
                    proof {
                        lemma_decoded_prefix_error(space@, config@, i + 1);
                    }
                    return Err(error);
                },
            }
            i += 1;
        }
        proof {
            assert(config@.take(len as int) == config@);
        }
        Ok(params)
    }
}

} // verus!
