//! Target runners, and their dispatch from the callback of the engine.

use std::sync::Arc;
use vstd::prelude::*;

use crate::error::{
    DecodeErrorView, DispatchError, DispatchErrorView, RunError, RunErrorView,
};
use crate::experiment::{Experiment, ExperimentView};
use crate::instance::{ErasedInstance, InstanceRegistry, TypeTag};
use crate::number::Real;
use crate::param_space::{ParamSpace, SubspaceView};
use crate::raw::RawExperiment;
use crate::scenario::Scenario;

verus! {

/// The outcome of a run, with the error by its value.
pub open spec fn outcome_view(outcome: Result<Real, RunError>) -> Result<Real, RunErrorView> {
    match outcome {
        Ok(objective) => Ok(objective),
        Err(error) => Err(error@),
    }
}

/// The result of a dispatch, with the error by its value.
pub open spec fn dispatch_view(result: Result<Real, DispatchError>) -> Result<
    Real,
    DispatchErrorView,
> {
    match result {
        Ok(objective) => Ok(objective),
        Err(error) => Err(error@),
    }
}

/// Trait representing a target runner.
///
/// The target runner executes some algorithm using the parameters, instance and seed
/// provided by the [`Experiment`] and returns its performance as a single objective.
pub trait TargetRunner<I>: Send + 'static {
    /// Whether `outcome` is an outcome that the runner may have for the experiment
    /// under the scenario. A runner that says nothing of its outcomes leaves this as
    /// it is: every outcome is possible.
    open spec fn may_return(
        &self,
        scenario: Scenario,
        experiment: ExperimentView<I>,
        outcome: Result<Real, RunErrorView>,
    ) -> bool {
        true
    }

    /// Executes the target algorithm for the experiment and returns the objective.
    fn run(&self, scenario: &Scenario, experiment: Experiment<'_, I>) -> (outcome: Result<
        Real,
        RunError,
    >)
        ensures
            self.may_return(*scenario, experiment@, outcome_view(outcome)),
    ;
}

/// What the engine is told of the outcome of a run: the objective as it is, and a
/// failure as the dispatch error that stands for it.
pub open spec fn converted(outcome: Result<Real, RunErrorView>) -> Result<
    Real,
    DispatchErrorView,
> {
    match outcome {
        Ok(objective) => Ok(objective),
        Err(RunErrorView::MissingInstance) => Err(DispatchErrorView::MissingInstance),
        Err(RunErrorView::Failed { message }) => Err(DispatchErrorView::Runner { message }),
    }
}

/// Converts the outcome of a run into what the engine is told of it.
pub fn convert_outcome(outcome: Result<Real, RunError>) -> (result: Result<Real, DispatchError>)
    ensures
        dispatch_view(result) == converted(outcome_view(outcome)),
{
    match outcome {
        Ok(objective) => Ok(objective),
        Err(RunError::MissingInstance) => Err(DispatchError::MissingInstance),
        Err(RunError::Failed { message }) => Err(DispatchError::Runner { message }),
    }
}

/// What a dispatch may return for a record of the engine: the decode error if the
/// record describes no experiment, and else what the engine is told of an outcome
/// that the runner may have for the experiment described.
pub open spec fn may_dispatch<I, R: TargetRunner<I>>(
    runner: R,
    scenario: Scenario,
    described: Result<ExperimentView<I>, DecodeErrorView>,
    result: Result<Real, DispatchErrorView>,
) -> bool {
    match described {
        Err(error) => result == Err::<Real, _>(DispatchErrorView::Decode(error)),
        Ok(experiment) => exists|outcome: Result<Real, RunErrorView>|
            #[trigger] runner.may_return(scenario, experiment, outcome) && result == converted(
                outcome,
            ),
    }
}

/// The mathematical value of a run: the runner, the tag of the concrete instance
/// type that the runner expects, the instances, the scenario and the parameter space.
pub ghost struct RunView<I, R> {
    pub runner: R,
    pub expected: TypeTag,
    pub instances: Seq<ErasedInstance<I>>,
    pub scenario: Scenario,
    pub param_space: Seq<(Seq<char>, SubspaceView)>,
}

/// Wraps all necessary data to execute a [`TargetRunner`] from the callback of the
/// engine: the runner, the registry of instances, the scenario and the parameter
/// space of the run. Nothing of it can be changed once it is made.
pub struct PyTargetRunner<I, R: TargetRunner<I>> {
    runner: R,
    expected: TypeTag,
    instances: InstanceRegistry<I>,
    scenario: Arc<Scenario>,
    param_space: Arc<ParamSpace>,
}

impl<I, R: TargetRunner<I>> View for PyTargetRunner<I, R> {
    type V = RunView<I, R>;

    closed spec fn view(&self) -> RunView<I, R> {
        RunView {
            runner: self.runner,
            expected: self.expected,
            instances: self.instances@,
            scenario: *self.scenario,
            param_space: self.param_space@,
        }
    }
}

impl<I, R: TargetRunner<I>> PyTargetRunner<I, R> {
    /// Constructs a new `PyTargetRunner`.
    pub fn new(
        runner: R,
        expected: TypeTag,
        instances: InstanceRegistry<I>,
        scenario: Arc<Scenario>,
        param_space: Arc<ParamSpace>,
    ) -> (target_runner: Self)
        ensures
            target_runner@ == (RunView {
                runner,
                expected,
                instances: instances@,
                scenario: *scenario,
                param_space: param_space@,
            }),
    {
        PyTargetRunner { runner, expected, instances, scenario, param_space }
    }

    /// Returns the runner.
    pub fn runner(&self) -> (runner: &R)
        ensures
            *runner == self@.runner,
    {
        &self.runner
    }

    /// Returns the tag of the concrete instance type that the runner expects.
    pub fn expected(&self) -> (expected: TypeTag)
        ensures
            expected == self@.expected,
    {
        self.expected
    }

    /// Returns the registry of instances.
    pub fn instances(&self) -> (instances: &InstanceRegistry<I>)
        ensures
            instances@ == self@.instances,
    {
        &self.instances
    }

    /// Returns the scenario of the run.
    pub fn scenario(&self) -> (scenario: &Arc<Scenario>)
        ensures
            **scenario == self@.scenario,
    {
        &self.scenario
    }

    /// Returns the parameter space of the run.
    pub fn param_space(&self) -> (param_space: &Arc<ParamSpace>)
        ensures
            param_space@ == self@.param_space,
    {
        &self.param_space
    }

    /// Runs the experiment that a record of the engine describes.
    ///
    /// The record is decoded into an experiment, with the parameter space of the run
    /// as schema and the instance resolved in the registry of the run; the runner is
    /// executed for that experiment under the scenario of the run; and its outcome is
    /// converted into what the engine is told. A record that cannot be decoded fails
    /// with the decode error, and the runner is not executed.
    pub fn call(&self, experiment: &RawExperiment) -> (result: Result<Real, DispatchError>)
        ensures
            may_dispatch(
                self@.runner,
                self@.scenario,
                experiment.experiment(self@.instances, self@.expected, self@.param_space),
                dispatch_view(result),
            ),
    {
        match Experiment::from_raw(
            experiment,
            &self.instances,
            self.expected,
            &self.param_space,
        ) {
            Ok(descriptor) => {
                let ghost described = descriptor@;
                let outcome = self.runner.run(&self.scenario, descriptor);
                proof {
                    assert(self.runner.may_return(
                        *self.scenario,
                        described,
                        outcome_view(outcome),
                    ));
                }
                convert_outcome(outcome)
            },
            Err(error) => Err(DispatchError::Decode(error)),
        }
    }
}

/// For a runner that has one outcome only for an experiment, executing it directly
/// for a hand-built experiment gives what the dispatch gives for a record that
/// describes the same experiment, as the engine is told of it.
pub proof fn lemma_dispatch_equivalence<I, R: TargetRunner<I>>(
    runner: R,
    scenario: Scenario,
    experiment: ExperimentView<I>,
    direct: Result<Real, RunErrorView>,
    dispatched: Result<Real, DispatchErrorView>,
)
    requires
        forall|first: Result<Real, RunErrorView>, second: Result<Real, RunErrorView>|
            #[trigger] runner.may_return(scenario, experiment, first)
                && #[trigger] runner.may_return(scenario, experiment, second) ==> first
                == second,
        runner.may_return(scenario, experiment, direct),
        may_dispatch(runner, scenario, Ok(experiment), dispatched),
    ensures
        dispatched == converted(direct),
{
}

} // verus!
