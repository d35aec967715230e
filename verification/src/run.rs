//! Tuning runs: what the engine is handed at the start of a run, and what is made of
//! the configurations that it returns at the end.

use std::sync::Arc;
use vstd::prelude::*;

use crate::decode::decoded;
use crate::encode::{encoded, record_views, ParamRecord, RecordView};
use crate::error::{DecodeError, DecodeErrorView, SpaceError, SpaceErrorView};
use crate::instance::{InstanceRegistry, TypeTag};
use crate::param::ParamView;
use crate::param_space::{ParamSpace, SubspaceView};
use crate::params::Params;
use crate::raw::{RawConfig, RawView};
use crate::runner::{PyTargetRunner, RunView, TargetRunner};
use crate::scenario::Scenario;

verus! {

/// One tuning run: a target runner, the instances to tune on, the scenario and the
/// parameter space.
pub struct Run<I, R: TargetRunner<I>> {
    target_runner: R,
    expected: TypeTag,
    instances: InstanceRegistry<I>,
    scenario: Arc<Scenario>,
    param_space: Arc<ParamSpace>,
}

impl<I, R: TargetRunner<I>> View for Run<I, R> {
    type V = RunView<I, R>;

    closed spec fn view(&self) -> RunView<I, R> {
        RunView {
            runner: self.target_runner,
            expected: self.expected,
            instances: self.instances@,
            scenario: *self.scenario,
            param_space: self.param_space@,
        }
    }
}

/// What the engine is handed at the start of a run.
pub struct EngineArguments<I, R: TargetRunner<I>> {
    /// The callable that the engine runs experiments with.
    pub target_runner: PyTargetRunner<I, R>,
    /// The number of instances: the engine knows them as `0..num_instances`.
    pub num_instances: usize,
    /// The records of the parameter space.
    pub parameter_space: Vec<ParamRecord>,
}

impl<I, R: TargetRunner<I>> Run<I, R> {
    /// Constructs a new `Run` of a runner that expects instances of the concrete type
    /// with the tag `expected`.
    pub fn new(
        target_runner: R,
        expected: TypeTag,
        instances: InstanceRegistry<I>,
        scenario: Arc<Scenario>,
        param_space: Arc<ParamSpace>,
    ) -> (run: Self)
        ensures
            run@ == (RunView {
                runner: target_runner,
                expected,
                instances: instances@,
                scenario: *scenario,
                param_space: param_space@,
            }),
    {
        Run { target_runner, expected, instances, scenario, param_space }
    }

    /// Returns the parameter space of the run.
    pub fn param_space(&self) -> (param_space: &Arc<ParamSpace>)
        ensures
            param_space@ == self@.param_space,
    {
        &self.param_space
    }

    /// Makes what the engine is handed at the start of the run: the callable that
    /// wraps the runner with the instances, the scenario and the parameter space of
    /// the run, the number of instances, and the records of the parameter space.
    ///
    /// Fails with [`SpaceError::UnsupportedNested`] if the parameter space holds a
    /// nested space.
    pub fn arguments(self) -> (result: Result<EngineArguments<I, R>, SpaceError>)
        ensures
            match result {
                Ok(arguments) => {
                    &&& arguments.target_runner@ == self@
                    &&& arguments.num_instances == self@.instances.len()
                    &&& encoded(self@.param_space) == Ok::<_, SpaceErrorView>(
                        record_views(arguments.parameter_space@),
                    )
                },
                Err(error) => encoded(self@.param_space) == Err::<Seq<RecordView>, _>(error@),
            },
    {
        let num_instances = self.instances.len();
        match self.param_space.encode() {
            Ok(parameter_space) => Ok(
                EngineArguments {
                    target_runner: PyTargetRunner::new(
                        self.target_runner,
                        self.expected,
                        self.instances,
                        self.scenario,
                        self.param_space,
                    ),
                    num_instances,
                    parameter_space,
                },
            ),
            Err(error) => Err(error),
        }
    }
}

/// The untyped configurations of a list.
pub open spec fn config_views(configs: Seq<RawConfig>) -> Seq<Seq<(Seq<char>, RawView)>> {
    Seq::new(configs.len(), |i: int| configs[i]@)
}

/// The parameters of a list.
pub open spec fn params_views(list: Seq<Params>) -> Seq<Seq<(Seq<char>, ParamView)>> {
    Seq::new(list.len(), |i: int| list[i]@)
}

/// The parameters that the configurations of a list decode to, with `space` as the
/// schema: one set of parameters for each configuration, in the order of the list; or
/// the error of the first configuration that cannot be decoded.
pub open spec fn decoded_list(
    space: Seq<(Seq<char>, SubspaceView)>,
    configs: Seq<Seq<(Seq<char>, RawView)>>,
) -> Result<Seq<Seq<(Seq<char>, ParamView)>>, DecodeErrorView>
    decreases configs.len(),
{
    if configs.len() == 0 {
        Ok(Seq::empty())
    } else {
        match decoded_list(space, configs.drop_last()) {
            Err(error) => Err(error),
            Ok(list) => match decoded(space, configs.last()) {
                Err(error) => Err(error),
                Ok(params) => Ok(list.push(params)),
            },
        }
    }
}

/// An error in decoding the first configurations of a list is the error in decoding
/// all of it.
pub proof fn lemma_decoded_list_prefix_error(
    space: Seq<(Seq<char>, SubspaceView)>,
    configs: Seq<Seq<(Seq<char>, RawView)>>,
    count: int,
)
    requires
        0 <= count <= configs.len(),
        decoded_list(space, configs.take(count)) is Err,
    ensures
        decoded_list(space, configs) == decoded_list(space, configs.take(count)),
    decreases configs.len() - count,
{
    if count < configs.len() {
        assert(configs.take(count + 1).drop_last() == configs.take(count));
        lemma_decoded_list_prefix_error(space, configs, count + 1);
    } else {
        assert(configs.take(count) == configs);
    }
}

/// The configurations decode one for one: where all decode, there are as many sets of
/// parameters as configurations, and each is what its configuration decodes to.
pub proof fn lemma_decoded_list(
    space: Seq<(Seq<char>, SubspaceView)>,
    configs: Seq<Seq<(Seq<char>, RawView)>>,
)
    ensures
        decoded_list(space, configs) matches Ok(list) ==> {
            &&& list.len() == configs.len()
            &&& forall|i: int|
                0 <= i < configs.len() ==> decoded(space, #[trigger] configs[i]) == Ok::<
                    _,
                    DecodeErrorView,
                >(list[i])
        },
        decoded_list(space, configs) is Err <==> exists|i: int|
            0 <= i < configs.len() && decoded(space, #[trigger] configs[i]) is Err,
    decreases configs.len(),
{
    if configs.len() > 0 {
        let front = configs.drop_last();
        let last = configs.len() - 1;
        lemma_decoded_list(space, front);
        assert forall|i: int| 0 <= i < front.len() implies #[trigger] front[i] == configs[i] by {}
        if decoded_list(space, front) is Err {
            let i = choose|i: int|
                0 <= i < front.len() && decoded(space, #[trigger] front[i]) is Err;
            assert(decoded(space, configs[i]) is Err);
        } else if decoded(space, configs[last]) is Ok {
            let list = decoded_list(space, configs)->Ok_0;
            assert forall|i: int| 0 <= i < configs.len() implies decoded(
                space,
                #[trigger] configs[i],
            ) == Ok::<_, DecodeErrorView>(list[i]) by {
                if i < last {
                    assert(front[i] == configs[i]);
                }
            }
        }
    }
}

/// Decodes the configurations that the engine returned at the end of a run, with the
/// parameter space of the run as schema.
///
/// The parameters come in the order in which the engine returned the configurations:
/// nothing is reordered and nothing is left out. The first configuration that cannot
/// be decoded ends the conversion with its error.
pub fn convert_result(result: &Vec<RawConfig>, param_space: &ParamSpace) -> (converted: Result<
    Vec<Params>,
    DecodeError,
>)
    ensures
        match converted {
            Ok(list) => decoded_list(param_space@, config_views(result@)) == Ok::<
                _,
                DecodeErrorView,
            >(params_views(list@)),
            Err(error) => decoded_list(param_space@, config_views(result@)) == Err::<
                Seq<Seq<(Seq<char>, ParamView)>>,
                _,
            >(error@),
        },
{
    let ghost configs = config_views(result@);
    let mut list: Vec<Params> = Vec::new();
    let mut i: usize = 0;
    proof {
        assert(params_views(list@) == Seq::<Seq<(Seq<char>, ParamView)>>::empty());
    }
    while i < result.len()
        invariant
            i <= result@.len(),
            configs == config_views(result@),
            decoded_list(param_space@, configs.take(i as int)) == Ok::<_, DecodeErrorView>(
                params_views(list@),
            ),
        decreases result@.len() - i,
    {
        proof {
            assert(configs.take(i + 1).drop_last() == configs.take(i as int));
        }
        match Params::from_dict(&result[i], param_space) {
            Ok(params) => {
                proof {
                    assert(params_views(list@).push(params@) == params_views(list@.push(params)));
                }
                list.push(params);
            },
            Err(error) => {
                proof {
                    lemma_decoded_list_prefix_error(param_space@, configs, i + 1);
                }
                return Err(error);
            },
        }
        i += 1;
    }
    proof {
        assert(configs.take(result@.len() as int) == configs);
    }
    Ok(list)
}

/// The untyped configurations of the lists of several runs.
pub open spec fn result_views(results: Seq<Vec<RawConfig>>) -> Seq<
    Seq<Seq<(Seq<char>, RawView)>>,
> {
    Seq::new(results.len(), |i: int| config_views(results[i]@))
}

/// The parameter spaces of several runs.
pub open spec fn space_views(spaces: Seq<Arc<ParamSpace>>) -> Seq<Seq<(Seq<char>, SubspaceView)>> {
    Seq::new(spaces.len(), |i: int| spaces[i]@)
}

/// The parameters of the lists of several runs.
pub open spec fn params_list_views(lists: Seq<Vec<Params>>) -> Seq<
    Seq<Seq<(Seq<char>, ParamView)>>,
> {
    Seq::new(lists.len(), |i: int| params_views(lists[i]@))
}

/// The parameters that the lists of the first `count` runs decode to, each list with
/// the parameter space of its run as schema; or the error of the first run with a
/// configuration that cannot be decoded.
pub open spec fn decoded_runs(
    spaces: Seq<Seq<(Seq<char>, SubspaceView)>>,
    results: Seq<Seq<Seq<(Seq<char>, RawView)>>>,
    count: nat,
) -> Result<Seq<Seq<Seq<(Seq<char>, ParamView)>>>, DecodeErrorView>
    decreases count,
{
    if count == 0 {
        Ok(Seq::empty())
    } else {
        match decoded_runs(spaces, results, (count - 1) as nat) {
            Err(error) => Err(error),
            Ok(lists) => match decoded_list(spaces[count - 1], results[count - 1]) {
                Err(error) => Err(error),
                Ok(list) => Ok(lists.push(list)),
            },
        }
    }
}

/// The number of runs that have both a list of configurations and a parameter space.
pub open spec fn paired(results: nat, spaces: nat) -> nat {
    if results <= spaces {
        results
    } else {
        spaces
    }
}

/// Decodes the lists of configurations that the engine returned for several runs,
/// each list with the parameter space of its run as schema.
///
/// The lists and the parameter spaces are paired in order, and a list or a parameter
/// space without a partner is left out. The first configuration that cannot be
/// decoded ends the conversion with its error.
pub fn convert_results(
    results: &Vec<Vec<RawConfig>>,
    param_spaces: &Vec<Arc<ParamSpace>>,
) -> (converted: Result<Vec<Vec<Params>>, DecodeError>)
    ensures
        match converted {
            Ok(lists) => decoded_runs(
                space_views(param_spaces@),
                result_views(results@),
                paired(results@.len(), param_spaces@.len()),
            ) == Ok::<_, DecodeErrorView>(params_list_views(lists@)),
            Err(error) => decoded_runs(
                space_views(param_spaces@),
                result_views(results@),
                paired(results@.len(), param_spaces@.len()),
            ) == Err::<Seq<Seq<Seq<(Seq<char>, ParamView)>>>, _>(error@),
        },
{
    let count = if results.len() <= param_spaces.len() {
        results.len()
    } else {
        param_spaces.len()
    };
    let ghost spaces = space_views(param_spaces@);
    let ghost all = result_views(results@);
    let mut lists: Vec<Vec<Params>> = Vec::new();
    let mut i: usize = 0;
    proof {
        assert(params_list_views(lists@) == Seq::<Seq<Seq<(Seq<char>, ParamView)>>>::empty());
    }
    while i < count
        invariant
            i <= count,
            count == paired(results@.len(), param_spaces@.len()),
            spaces == space_views(param_spaces@),
            all == result_views(results@),
            decoded_runs(spaces, all, i as nat) == Ok::<_, DecodeErrorView>(
                params_list_views(lists@),
            ),
        decreases count - i,
    {
        match convert_result(&results[i], &param_spaces[i]) {
            Ok(list) => {
                proof {
                    assert(params_list_views(lists@).push(params_views(list@))
                        == params_list_views(lists@.push(list)));
                }
                lists.push(list);
            },
            Err(error) => {
                proof {
                    lemma_decoded_runs_error(spaces, all, i + 1, count as int);
                }
                return Err(error);
            },
        }
        i += 1;
    }
    Ok(lists)
}

/// An error in decoding the lists of the first runs is the error in decoding the
/// lists of more runs.
pub proof fn lemma_decoded_runs_error(
    spaces: Seq<Seq<(Seq<char>, SubspaceView)>>,
    results: Seq<Seq<Seq<(Seq<char>, RawView)>>>,
    count: int,
    more: int,
)
    requires
        0 <= count <= more,
        decoded_runs(spaces, results, count as nat) is Err,
    ensures
        decoded_runs(spaces, results, more as nat) == decoded_runs(spaces, results, count as nat),
    decreases more - count,
{
    if count < more {
        lemma_decoded_runs_error(spaces, results, count, more - 1);
    }
}

} // verus!
