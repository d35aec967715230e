//! The experiment descriptor.

use vstd::prelude::*;

use crate::decode::decoded;
use crate::error::{DecodeError, DecodeErrorView, RunError};
use crate::instance::{resolved, ErasedInstance, InstanceRegistry, TypeTag};
use crate::param::ParamView;
use crate::param_space::{ParamSpace, SubspaceView};
use crate::params::Params;
use crate::raw::{RawExperiment, RawView};

verus! {

/// An experiment, i.e. a single execution of the target runner.
///
/// The experiment specifies the parameters, seed and problem instance to execute the
/// target algorithm with. It is made for one callback of the engine and dropped when
/// the callback returns.
#[derive(Debug)]
pub struct Experiment<'a, I> {
    /// The identifier of the configuration.
    pub id: String,
    /// The RNG seed of the run.
    pub seed: u64,
    /// The identifier of the instance, for display.
    pub instance_id: Option<String>,
    /// The instance, borrowed from the registry of the run.
    pub instance: Option<&'a I>,
    /// The decoded parameters.
    pub params: Params,
}

/// The mathematical value of an [`Experiment`].
pub ghost struct ExperimentView<I> {
    pub id: Seq<char>,
    pub seed: u64,
    pub instance_id: Option<Seq<char>>,
    pub instance: Option<I>,
    pub params: Seq<(Seq<char>, ParamView)>,
}

/// The text of an optional string.
pub open spec fn optional_text(text: Option<String>) -> Option<Seq<char>> {
    match text {
        Some(text) => Some(text@),
        None => None,
    }
}

/// The value that an optional reference leads to.
pub open spec fn optional_value<I>(reference: Option<&I>) -> Option<I> {
    match reference {
        Some(value) => Some(*value),
        None => None,
    }
}

impl<'a, I> View for Experiment<'a, I> {
    type V = ExperimentView<I>;

    open spec fn view(&self) -> ExperimentView<I> {
        ExperimentView {
            id: self.id@,
            seed: self.seed,
            instance_id: optional_text(self.instance_id),
            instance: optional_value(self.instance),
            params: self.params@,
        }
    }
}

/// The experiment that a record of the engine describes: its identifiers and seed as
/// they are, the instance that its index resolves to in the registry for a runner
/// that expects instances of the type `expected`, and its configuration decoded with
/// `space` as the schema. An experiment is described only if the configuration can be
/// decoded.
pub open spec fn experiment_of<I>(
    id: Seq<char>,
    seed: u64,
    instance_id: Option<Seq<char>>,
    instance: Option<usize>,
    configuration: Seq<(Seq<char>, RawView)>,
    instances: Seq<ErasedInstance<I>>,
    expected: TypeTag,
    space: Seq<(Seq<char>, SubspaceView)>,
) -> Result<ExperimentView<I>, DecodeErrorView> {
    match decoded(space, configuration) {
        Ok(params) => Ok(
            ExperimentView {
                id,
                seed,
                instance_id,
                instance: resolved(instances, instance, expected),
                params,
            },
        ),
        Err(error) => Err(error),
    }
}

impl RawExperiment {
    /// The experiment that the record describes: see [`experiment_of`].
    pub open spec fn experiment<I>(
        self,
        instances: Seq<ErasedInstance<I>>,
        expected: TypeTag,
        space: Seq<(Seq<char>, SubspaceView)>,
    ) -> Result<ExperimentView<I>, DecodeErrorView> {
        experiment_of(
            self.configuration_id@,
            self.seed,
            optional_text(self.instance_id),
            self.instance,
            self.configuration@,
            instances,
            expected,
            space,
        )
    }
}

impl<'a, I> Experiment<'a, I> {
    /// Makes the experiment that a record of the engine describes.
    ///
    /// The configuration of the record is decoded with `space` as the schema, and the
    /// index of the instance is resolved in `instances` for a runner that expects
    /// instances of the concrete type with the tag `expected`. An index that leads to
    /// no such instance is no error here: the experiment then has no instance.
    pub fn from_raw(
        raw: &RawExperiment,
        instances: &'a InstanceRegistry<I>,
        expected: TypeTag,
        space: &ParamSpace,
    ) -> (result: Result<Self, DecodeError>)
        ensures
            match result {
                Ok(experiment) => raw.experiment(instances@, expected, space@) == Ok::<
                    _,
                    DecodeErrorView,
                >(experiment@),
                Err(error) => raw.experiment(instances@, expected, space@) == Err::<
                    ExperimentView<I>,
                    _,
                >(error@),
            },
    {
        let instance = instances.resolve(raw.instance, expected);
        match Params::from_dict(&raw.configuration, space) {
            Ok(params) => Ok(
                Experiment {
                    id: raw.configuration_id.clone(),
                    seed: raw.seed,
                    instance_id: match &raw.instance_id {
                        Some(text) => Some(text.clone()),
                        None => None,
                    },
                    instance,
                    params,
                },
            ),
            Err(error) => Err(error),
        }
    }

    /// Returns the instance of the experiment, for a runner that cannot do without
    /// one, and fails with [`RunError::MissingInstance`] if the experiment has none.
    pub fn require_instance(&self) -> (result: Result<&'a I, RunError>)
        ensures
            match result {
                Ok(instance) => self.instance == Some(instance),
                Err(error) => self.instance is None && error == RunError::MissingInstance,
            },
    {
        match self.instance {
            Some(instance) => Ok(instance),
            None => Err(RunError::MissingInstance),
        }
    }
}

} // verus!
