use irace_rs::error::{DecodeError, DispatchError, RunError};
use irace_rs::param_space::{ParamKind, ParamSpace};
use irace_rs::raw::{RawConfig, RawExperiment, RawValue};
use irace_rs::runner::convert_outcome;
use irace_rs::scenario::Scenario;
use irace_rs::{
    DistributedInstance, ErasedInstance, Experiment, InstanceRegistry, Param, PyTargetRunner, Real,
    Run, TargetRunner, TypeTag,
};
use std::sync::Arc;

const WEIGHTS: TypeTag = TypeTag { id: 1 };
const LABELS: TypeTag = TypeTag { id: 2 };

fn float(value: f64) -> Real {
    Real::from_bits(value.to_bits())
}

struct WeightedSum;

impl TargetRunner<Vec<u32>> for WeightedSum {
    fn run(&self, scenario: &Scenario, experiment: Experiment<'_, Vec<u32>>) -> Result<Real, RunError> {
        let weights = experiment.require_instance()?;
        let n = match experiment.params.get("n") {
            Some(Param::Integer(n)) => *n,
            _ => return Err(RunError::Failed { message: "missing n".to_string() }),
        };
        let total: u32 = weights.iter().sum();
        let objective = f64::from(total * n) + experiment.seed as f64 + scenario.num_jobs as f64;
        Ok(Real::from_bits(objective.to_bits()))
    }
}

fn space() -> Arc<ParamSpace> {
    Arc::new(ParamSpace::new().with_integer("n", 1, 10, false).with_bool("flag"))
}

fn registry() -> InstanceRegistry<Vec<u32>> {
    let mut registry = InstanceRegistry::from_instances(WEIGHTS, vec![vec![1, 2, 3], vec![10]]);
    registry.register(LABELS, vec![100]);
    registry
}

fn record(instance: Option<usize>, n: i128) -> RawExperiment {
    let mut configuration = RawConfig::new();
    configuration.push("n", RawValue::Integer(n));
    configuration.push("flag", RawValue::Bool(true));
    RawExperiment {
        configuration_id: "7".to_string(),
        seed: 11,
        instance_id: Some("weights".to_string()),
        instance,
        configuration,
    }
}

fn target_runner() -> PyTargetRunner<Vec<u32>, WeightedSum> {
    PyTargetRunner::new(
        WeightedSum,
        WEIGHTS,
        registry(),
        Arc::new(Scenario::builder().num_jobs(2).build()),
        space(),
    )
}

#[test]
fn registry_resolves_index_and_type_tag() {
    let registry = registry();
    assert_eq!(registry.len(), 3);
    assert_eq!(registry.resolve(Some(0), WEIGHTS), Some(&vec![1, 2, 3]));
    assert_eq!(registry.resolve(Some(1), WEIGHTS), Some(&vec![10]));
    assert_eq!(registry.resolve(Some(2), LABELS), Some(&vec![100]));
    assert_eq!(registry.resolve(Some(2), WEIGHTS), None);
    assert_eq!(registry.resolve(Some(0), LABELS), None);
    assert_eq!(registry.resolve(Some(3), WEIGHTS), None);
    assert_eq!(registry.resolve(None, WEIGHTS), None);
    assert_eq!(registry.get(2).unwrap().tag, LABELS);
    assert!(registry.get(3).is_none());
}

#[test]
fn register_returns_the_index_of_the_new_entry() {
    let mut registry: InstanceRegistry<u8> = InstanceRegistry::new();
    assert_eq!(registry.len(), 0);
    assert_eq!(registry.register(WEIGHTS, 5), 0);
    assert_eq!(registry.register(LABELS, 6), 1);
    assert_eq!(registry.get(1).unwrap().value, 6);
}

#[test]
fn erased_instance_downcasts_only_to_its_own_type() {
    let erased = ErasedInstance::new(WEIGHTS, 5u8);
    assert_eq!(erased.downcast_ref(WEIGHTS), Some(&5));
    assert_eq!(erased.downcast_ref(LABELS), None);
}

#[test]
fn experiment_from_raw_resolves_instance_and_decodes_parameters() {
    let registry = registry();
    let space = space();
    let experiment = Experiment::from_raw(&record(Some(1), 3), &registry, WEIGHTS, &space).unwrap();
    assert_eq!(experiment.id, "7");
    assert_eq!(experiment.seed, 11);
    assert_eq!(experiment.instance_id, Some("weights".to_string()));
    assert_eq!(experiment.instance, Some(&vec![10]));
    assert_eq!(experiment.params.get("n"), Some(&Param::Integer(3)));
    assert_eq!(experiment.params.get("flag"), Some(&Param::Bool(true)));
    assert_eq!(experiment.require_instance(), Ok(&vec![10]));
}

#[test]
fn experiment_without_resolvable_instance_has_none() {
    let registry = registry();
    let space = space();
    for instance in [None, Some(3), Some(2)] {
        let experiment = Experiment::from_raw(&record(instance, 3), &registry, WEIGHTS, &space).unwrap();
        assert_eq!(experiment.instance, None);
        assert_eq!(experiment.require_instance(), Err(RunError::MissingInstance));
    }
}

#[test]
fn experiment_from_raw_fails_with_the_decode_error() {
    let registry = registry();
    let space = space();
    let result = Experiment::from_raw(&record(Some(0), 0x1_0000_0000), &registry, WEIGHTS, &space);
    assert_eq!(
        result.err(),
        Some(DecodeError::TypeMismatch { name: "n".to_string(), expected: ParamKind::Integer })
    );
}

#[test]
fn dispatch_gives_the_same_result_as_the_direct_invocation() {
    let target_runner = target_runner();
    let registry = registry();
    let space = space();
    let scenario = Scenario::builder().num_jobs(2).build();
    let mut params = irace_rs::Params::new();
    params.insert("n".to_string(), Param::Integer(3));
    params.insert("flag".to_string(), Param::Bool(true));
    let hand_built = Experiment {
        id: "7".to_string(),
        seed: 11,
        instance_id: Some("weights".to_string()),
        instance: registry.resolve(Some(0), WEIGHTS),
        params,
    };
    let direct = WeightedSum.run(&scenario, hand_built);
    let dispatched = target_runner.call(&record(Some(0), 3));
    assert_eq!(direct, Ok(float(31.0)));
    assert_eq!(dispatched, Ok(float(31.0)));
    assert_eq!(dispatched, convert_outcome(direct));
    let decoded = Experiment::from_raw(&record(Some(0), 3), &registry, WEIGHTS, &space).unwrap();
    assert_eq!(convert_outcome(WeightedSum.run(&scenario, decoded)), dispatched);
}

#[test]
fn dispatch_reports_a_missing_instance() {
    let target_runner = target_runner();
    assert_eq!(target_runner.call(&record(None, 3)), Err(DispatchError::MissingInstance));
    assert_eq!(target_runner.call(&record(Some(2), 3)), Err(DispatchError::MissingInstance));
    assert_eq!(target_runner.call(&record(Some(9), 3)), Err(DispatchError::MissingInstance));
}

#[test]
fn dispatch_reports_a_decode_error_without_running() {
    let target_runner = target_runner();
    let mut raw = record(Some(0), 3);
    raw.configuration.push("unknown", RawValue::Other);
    assert_eq!(
        target_runner.call(&raw),
        Err(DispatchError::Decode(DecodeError::UnknownParameter { name: "unknown".to_string() }))
    );
}

#[test]
fn dispatch_reports_the_failure_of_the_runner() {
    let target_runner = PyTargetRunner::new(
        WeightedSum,
        WEIGHTS,
        registry(),
        Arc::new(Scenario::default()),
        Arc::new(ParamSpace::new().with_bool("flag")),
    );
    let mut configuration = RawConfig::new();
    configuration.push("flag", RawValue::Bool(true));
    let raw = RawExperiment {
        configuration_id: "1".to_string(),
        seed: 0,
        instance_id: None,
        instance: Some(0),
        configuration,
    };
    assert_eq!(
        target_runner.call(&raw),
        Err(DispatchError::Runner { message: "missing n".to_string() })
    );
}

#[test]
fn one_failing_dispatch_leaves_the_next_one_alone() {
    let target_runner = target_runner();
    assert!(target_runner.call(&record(None, 3)).is_err());
    assert_eq!(target_runner.call(&record(Some(1), 2)), Ok(float(33.0)));
}

#[test]
fn convert_outcome_maps_each_outcome() {
    assert_eq!(convert_outcome(Ok(float(1.5))), Ok(float(1.5)));
    assert_eq!(convert_outcome(Err(RunError::MissingInstance)), Err(DispatchError::MissingInstance));
    assert_eq!(
        convert_outcome(Err(RunError::Failed { message: "diverged".to_string() })),
        Err(DispatchError::Runner { message: "diverged".to_string() })
    );
}

#[test]
fn dispatch_error_messages() {
    assert_eq!(DispatchError::MissingInstance.message(), "missing instance");
    assert_eq!(DispatchError::Runner { message: "diverged".to_string() }.message(), "diverged");
    assert_eq!(
        DispatchError::Decode(DecodeError::UnknownParameter { name: "y".to_string() }).message(),
        "unknown parameter name: y"
    );
}

#[test]
fn run_arguments_bundle_runner_instances_and_records() {
    let run = Run::new(WeightedSum, WEIGHTS, registry(), Arc::new(Scenario::default()), space());
    let arguments = match run.arguments() {
        Ok(arguments) => arguments,
        Err(error) => panic!("no arguments: {:?}", error),
    };
    assert_eq!(arguments.num_instances, 3);
    assert_eq!(arguments.parameter_space.len(), 2);
    assert_eq!(arguments.target_runner.expected(), WEIGHTS);
    assert_eq!(arguments.target_runner.instances().len(), 3);
    assert_eq!(arguments.target_runner.param_space().len(), 2);
    assert_eq!(
        arguments.target_runner.scenario().encode(arguments.num_instances).instances,
        vec![0, 1, 2]
    );
    assert_eq!(arguments.target_runner.call(&record(Some(1), 1)), Ok(float(22.0)));
}

#[test]
fn run_arguments_fail_for_a_nested_space() {
    let nested = Arc::new(ParamSpace::new().with_nested("a", ParamSpace::new()));
    let run = Run::new(WeightedSum, WEIGHTS, registry(), Arc::new(Scenario::default()), nested);
    match run.arguments() {
        Ok(_) => panic!("a nested space was shown to the engine"),
        Err(error) => assert_eq!(
            error,
            irace_rs::error::SpaceError::UnsupportedNested { name: "a".to_string() }
        ),
    }
}

#[test]
fn distributed_instance_hands_out_problem_and_evaluator() {
    let instance = DistributedInstance::new(Arc::new("sphere".to_string()), vec![1u8, 2]);
    assert_eq!(instance.problem(), "sphere");
    assert_eq!(instance.evaluator(), vec![1, 2]);
    let (problem, evaluator) = instance.unpack();
    assert_eq!(problem, "sphere");
    assert_eq!(evaluator, vec![1, 2]);
    let copy = instance.clone();
    assert_eq!(copy.problem(), "sphere");
}
