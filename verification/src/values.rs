//! Encoding typed parameters as an untyped configuration: the way back from decoding.
//!
//! The parameter space is the schema in both directions. A value of a real, integer or
//! boolean parameter is encoded as it is, and the value of a categorical parameter as
//! the index of the first variant that it equals.

use vstd::prelude::*;

use crate::decode::{decode_entry, decode_value, decoded};
use crate::error::{DecodeError, DecodeErrorView};
use crate::named::{
    distinct_names, first_index, lemma_first_index, lemma_first_index_is, lemma_index_of,
    lemma_index_of_absent, lookup, put,
};
use crate::param::{Param, ParamView};
use crate::param_space::{param_views, ParamKind, ParamSpace, ParamSubspace, SubspaceView};
use crate::params::Params;
use crate::raw::{RawConfig, RawValue, RawView};

verus! {

/// The untyped value of `value` for the declaration `subspace`, which stands under
/// `name`. A value has one only if it conforms to the declaration.
pub open spec fn encode_value(name: Seq<char>, subspace: SubspaceView, value: ParamView) -> Result<
    RawView,
    DecodeErrorView,
> {
    match subspace {
        SubspaceView::Real { .. } => match value {
            ParamView::Real(bits) => Ok(RawView::Float(bits)),
            _ => Err(DecodeErrorView::TypeMismatch { name, expected: ParamKind::Real }),
        },
        SubspaceView::Integer { .. } => match value {
            ParamView::Integer(n) => Ok(RawView::Integer(n as int)),
            _ => Err(DecodeErrorView::TypeMismatch { name, expected: ParamKind::Integer }),
        },
        SubspaceView::Bool { .. } => match value {
            ParamView::Bool(b) => Ok(RawView::Bool(b)),
            _ => Err(DecodeErrorView::TypeMismatch { name, expected: ParamKind::Bool }),
        },
        SubspaceView::Categorical { variants, .. } => match first_index(variants, value) {
            Some(index) => Ok(RawView::Integer(index)),
            None => Err(DecodeErrorView::TypeMismatch { name, expected: ParamKind::Categorical }),
        },
        SubspaceView::Nested { .. } => Err(DecodeErrorView::UnsupportedNested { name }),
    }
}

/// The untyped value of the parameter `name`, `value`, with `space` as the schema.
pub open spec fn encode_entry(
    space: Seq<(Seq<char>, SubspaceView)>,
    name: Seq<char>,
    value: ParamView,
) -> Result<RawView, DecodeErrorView> {
    match lookup(space, name) {
        Some(subspace) => encode_value(name, subspace, value),
        None => Err(DecodeErrorView::UnknownParameter { name }),
    }
}

/// The untyped configuration of a set of parameters, with `space` as the schema: every
/// parameter encoded under its name, in the order of the set; or the error of the
/// first parameter that does not conform to the schema.
pub open spec fn encoded_params(
    space: Seq<(Seq<char>, SubspaceView)>,
    params: Seq<(Seq<char>, ParamView)>,
) -> Result<Seq<(Seq<char>, RawView)>, DecodeErrorView>
    decreases params.len(),
{
    if params.len() == 0 {
        Ok(Seq::empty())
    } else {
        match encoded_params(space, params.drop_last()) {
            Err(error) => Err(error),
            Ok(config) => match encode_entry(space, params.last().0, params.last().1) {
                Err(error) => Err(error),
                Ok(raw) => Ok(config.push((params.last().0, raw))),
            },
        }
    }
}

/// Whether a value conforms to a declaration: it is of the kind of the declaration,
/// and for a categorical parameter it is one of the variants.
pub open spec fn value_conforms(subspace: SubspaceView, value: ParamView) -> bool {
    match subspace {
        SubspaceView::Real { .. } => value is Real,
        SubspaceView::Integer { .. } => value is Integer,
        SubspaceView::Bool { .. } => value is Bool,
        SubspaceView::Categorical { variants, .. } => variants.contains(value),
        SubspaceView::Nested { .. } => false,
    }
}

/// Whether a set of parameters conforms to a schema: every name is declared, and every
/// value conforms to the declaration of its name.
pub open spec fn conforms(
    space: Seq<(Seq<char>, SubspaceView)>,
    params: Seq<(Seq<char>, ParamView)>,
) -> bool {
    forall|i: int|
        0 <= i < params.len() ==> match lookup(space, (#[trigger] params[i]).0) {
            Some(subspace) => value_conforms(subspace, params[i].1),
            None => false,
        }
}

/// A value can be encoded for a declaration exactly if it conforms to it, and then
/// decoding gives the value back.
pub proof fn lemma_value_round_trip(name: Seq<char>, subspace: SubspaceView, value: ParamView)
    ensures
        encode_value(name, subspace, value) is Ok <==> value_conforms(subspace, value),
        encode_value(name, subspace, value) matches Ok(raw) ==> decode_value(name, subspace, raw)
            == Ok::<_, DecodeErrorView>(value),
{
    match subspace {
        SubspaceView::Categorical { variants, .. } => {
            lemma_first_index(variants, value);
            if variants.contains(value) {
                let i = choose|i: int| 0 <= i < variants.len() && variants[i] == value;
                assert(variants[i] == value);
            }
        },
        _ => {},
    }
}

/// A set of parameters that conforms to a schema can be encoded, and the configuration
/// decodes to the set again.
pub proof fn lemma_round_trip(
    space: Seq<(Seq<char>, SubspaceView)>,
    params: Seq<(Seq<char>, ParamView)>,
)
    requires
        conforms(space, params),
        distinct_names(params),
    ensures
        encoded_params(space, params) matches Ok(config) && decoded(space, config) == Ok::<
            _,
            DecodeErrorView,
        >(params),
    decreases params.len(),
{
    if params.len() > 0 {
        let front = params.drop_last();
        let name = params.last().0;
        let value = params.last().1;
        assert forall|i: int| 0 <= i < front.len() implies #[trigger] front[i] == params[i] by {}
        assert(conforms(space, front)) by {
            assert forall|i: int| 0 <= i < front.len() implies match lookup(
                space,
                (#[trigger] front[i]).0,
            ) {
                Some(subspace) => value_conforms(subspace, front[i].1),
                None => false,
            } by {}
        }
        lemma_round_trip(space, front);
        let subspace = lookup(space, name)->Some_0;
        lemma_value_round_trip(name, subspace, value);
        let config = encoded_params(space, params)->Ok_0;
        assert(config.drop_last() == encoded_params(space, front)->Ok_0);
        assert forall|j: int| 0 <= j < front.len() implies (#[trigger] front[j]).0 != name by {}
        lemma_index_of_absent(front, name);
        assert(front.push((name, value)) == params);
    } else {
        assert(params == Seq::<(Seq<char>, ParamView)>::empty());
    }
}

/// What a configuration decodes to conforms to the schema.
pub proof fn lemma_decoded_conforms(
    space: Seq<(Seq<char>, SubspaceView)>,
    config: Seq<(Seq<char>, RawView)>,
)
    ensures
        decoded(space, config) matches Ok(params) ==> conforms(space, params),
    decreases config.len(),
{
    if config.len() > 0 && decoded(space, config) is Ok {
        let front = decoded(space, config.drop_last())->Ok_0;
        let name = config.last().0;
        let value = decode_entry(space, name, config.last().1)->Ok_0;
        let params = put(front, name, value);
        lemma_decoded_conforms(space, config.drop_last());
        lemma_index_of(front, name);
        assert forall|i: int| 0 <= i < params.len() implies match lookup(
            space,
            (#[trigger] params[i]).0,
        ) {
            Some(subspace) => value_conforms(subspace, params[i].1),
            None => false,
        } by {
            if params[i] != (name, value) {
                assert(params[i] == front[i]);
            }
        }
    }
}

/// Encodes one value for the declaration that stands under `name`.
pub fn encode_param(name: &String, subspace: &ParamSubspace, value: &Param) -> (result: Result<
    RawValue,
    DecodeError,
>)
    ensures
        match result {
            Ok(raw) => encode_value(name@, subspace@, value@) == Ok::<_, DecodeErrorView>(raw@),
            Err(error) => encode_value(name@, subspace@, value@) == Err::<RawView, _>(error@),
        },
{
    match subspace {
        ParamSubspace::Real(_) => match value {
            Param::Real(number) => Ok(RawValue::Float(*number)),
            _ => Err(DecodeError::TypeMismatch { name: name.clone(), expected: ParamKind::Real }),
        },
        ParamSubspace::Integer(_) => match value {
            Param::Integer(n) => Ok(RawValue::Integer(*n as i128)),
            _ => Err(
                DecodeError::TypeMismatch { name: name.clone(), expected: ParamKind::Integer },
            ),
        },
        ParamSubspace::Bool(_) => match value {
            Param::Bool(b) => Ok(RawValue::Bool(*b)),
            _ => Err(DecodeError::TypeMismatch { name: name.clone(), expected: ParamKind::Bool }),
        },
        ParamSubspace::Categorical(discrete) => {
            let ghost variants = param_views(discrete.variants@);
            let mut i: usize = 0;
            while i < discrete.variants.len()
                invariant
                    i <= discrete.variants@.len(),
                    variants == param_views(discrete.variants@),
                    subspace@ == (SubspaceView::Categorical { name: discrete.name@, variants }),
                    forall|j: int| 0 <= j < i ==> #[trigger] variants[j] != value@,
                decreases discrete.variants@.len() - i,
            {
                if discrete.variants[i].same(value) {
                    proof {
                        lemma_first_index_is(variants, value@, i as int);
                    }
                    return Ok(RawValue::Integer(i as i128));
                }
                i += 1;
            }
            proof {
                lemma_first_index(variants, value@);
            }
            Err(DecodeError::TypeMismatch { name: name.clone(), expected: ParamKind::Categorical })
        },
        ParamSubspace::Nested(_) => Err(DecodeError::UnsupportedNested { name: name.clone() }),
    }
}

/// An error in encoding the first parameters of a set is the error in encoding all
/// of it.
pub proof fn lemma_encoded_params_prefix_error(
    space: Seq<(Seq<char>, SubspaceView)>,
    params: Seq<(Seq<char>, ParamView)>,
    count: int,
)
    requires
        0 <= count <= params.len(),
        encoded_params(space, params.take(count)) is Err,
    ensures
        encoded_params(space, params) == encoded_params(space, params.take(count)),
    decreases params.len() - count,
{
    if count < params.len() {
        assert(params.take(count + 1).drop_last() == params.take(count));
        lemma_encoded_params_prefix_error(space, params, count + 1);
    } else {
        assert(params.take(count) == params);
    }
}

impl ParamSpace {
    /// Encodes a set of parameters as an untyped configuration, with the space as the
    /// schema.
    ///
    /// The first parameter that does not conform to the schema ends the encoding with
    /// its error: [`DecodeError::UnknownParameter`] for a name that the space does not
    /// declare, [`DecodeError::TypeMismatch`] for a value that is not of the declared
    /// kind or is none of the variants of a categorical parameter, and
    /// [`DecodeError::UnsupportedNested`] for the name of a nested space.
    pub fn encode_params(&self, params: &Params) -> (result: Result<RawConfig, DecodeError>)
        ensures
            match result {
                Ok(config) => encoded_params(self@, params@) == Ok::<_, DecodeErrorView>(config@),
                Err(error) => encoded_params(self@, params@) == Err::<
                    Seq<(Seq<char>, RawView)>,
                    _,
                >(error@),
            },
    {
        let mut config = RawConfig::new();
        let len = params.len();
        let mut i: usize = 0;
        proof {
            assert(config@ == Seq::<(Seq<char>, RawView)>::empty());
        }
        while i < len
            invariant
                len == params@.len(),
                i <= len,
                encoded_params(self@, params@.take(i as int)) == Ok::<_, DecodeErrorView>(config@),
            decreases len - i,
        {
            proof {
                assert(params@.take(i + 1).drop_last() == params@.take(i as int));
            }
            match params.get_index(i) {
                Some((name, value)) => {
                    let encoded_value = match self.get_raw(name.as_str()) {
                        Some(subspace) => encode_param(name, subspace, value),
                        None => Err(DecodeError::UnknownParameter { name: name.clone() }),
                    };
                    match encoded_value {
                        Ok(raw) => {
                            config.push(name.as_str(), raw);
                        },
                        Err(error) => {
                            proof {
                                lemma_encoded_params_prefix_error(self@, params@, i + 1);
                            }
                            return Err(error);
                        },
                    }
                },
                None => {
                    assert(false);
                },
            }
            i += 1;
        }
        proof {
            assert(params@.take(len as int) == params@);
        }
        Ok(config)
    }
}

} // verus!
