//! Configuring a tuning run.

use std::path::PathBuf;
use vstd::prelude::*;

use crate::encode::{index_list, indices};

verus! {

/// `std::path::PathBuf`, which the library carries through and never reads.
#[verifier::external_type_specification]
#[verifier::external_body]
pub struct ExPathBuf(PathBuf);

/// The stdout verbosity of the engine.
#[derive(Debug, Clone, Copy, PartialEq, Eq, Structural)]
pub enum Verbosity {
    /// No stdout output.
    Silent,
    /// Minimal output.
    Minimal,
    /// Verbose output.
    Standard,
    /// All output, including debug messages.
    Debug,
}

impl Verbosity {
    /// The number that the engine knows the verbosity by.
    pub open spec fn level_spec(self) -> u32 {
        match self {
            Verbosity::Silent => 0,
            Verbosity::Minimal => 1,
            Verbosity::Standard => 2,
            Verbosity::Debug => 3,
        }
    }

    /// Returns the number that the engine knows the verbosity by.
    pub fn level(self) -> (level: u32)
        ensures
            level == self.level_spec(),
    {
        match self {
            Verbosity::Silent => 0,
            Verbosity::Minimal => 1,
            Verbosity::Standard => 2,
            Verbosity::Debug => 3,
        }
    }
}

/// A tuning scenario.
///
/// The scenario bundles the parameters and flags of a run. It is handed to the engine
/// as it is and is never changed during a run.
#[derive(Debug, Clone)]
pub struct Scenario {
    /// The upper bound of experiments to perform (tuning budget).
    pub max_experiments: Option<u32>,
    /// The lower bound of experiments to perform (tuning budget).
    pub min_experiments: Option<u32>,
    /// Specifies if the elitist variant of the engine should be used.
    pub elitist: bool,
    /// Specifies if the target algorithm is deterministic (`true`) or stochastic (`false`).
    pub deterministic: bool,
    /// The path of the log file.
    pub log_file: Option<PathBuf>,
    /// The working directory of the engine.
    pub exec_dir: Option<PathBuf>,
    /// The number of experiments to perform in parallel.
    pub num_jobs: usize,
    /// The initial RNG seed.
    pub seed: Option<u32>,
    /// The verbosity of the stdout output of the engine.
    pub verbose: Verbosity,
}

/// Builds a [`Scenario`] field by field, starting from the defaults.
#[derive(Debug, Clone)]
pub struct ScenarioBuilder {
    pub scenario: Scenario,
}

impl Scenario {
    /// Whether the scenario is the default one: no budget bounds, elitist, stochastic,
    /// no paths, one job, no seed, silent.
    pub open spec fn is_default(self) -> bool {
        &&& self.max_experiments is None
        &&& self.min_experiments is None
        &&& self.elitist
        &&& !self.deterministic
        &&& self.log_file is None
        &&& self.exec_dir is None
        &&& self.num_jobs == 1
        &&& self.seed is None
        &&& self.verbose == Verbosity::Silent
    }

    /// Starts a builder that holds the default scenario.
    pub fn builder() -> (builder: ScenarioBuilder)
        ensures
            builder.scenario.is_default(),
    {
        ScenarioBuilder {
            scenario: Scenario {
                max_experiments: None,
                min_experiments: None,
                elitist: true,
                deterministic: false,
                log_file: None,
                exec_dir: None,
                num_jobs: 1,
                seed: None,
                verbose: Verbosity::Silent,
            },
        }
    }
}

impl Default for Scenario {
    /// The default scenario: see [`Scenario::is_default`].
    fn default() -> (scenario: Scenario)
        ensures
            scenario.is_default(),
    {
        Scenario::builder().build()
    }
}

impl ScenarioBuilder {
    /// Sets the upper bound of experiments.
    pub fn max_experiments(self, max_experiments: u32) -> (builder: ScenarioBuilder)
        ensures
            builder.scenario == (Scenario {
                max_experiments: Some(max_experiments),
                ..self.scenario
            }),
    {
        let mut scenario = self.scenario;
        scenario.max_experiments = Some(max_experiments);
        ScenarioBuilder { scenario }
    }

    /// Sets the lower bound of experiments.
    pub fn min_experiments(self, min_experiments: u32) -> (builder: ScenarioBuilder)
        ensures
            builder.scenario == (Scenario {
                min_experiments: Some(min_experiments),
                ..self.scenario
            }),
    {
        let mut scenario = self.scenario;
        scenario.min_experiments = Some(min_experiments);
        ScenarioBuilder { scenario }
    }

    /// Sets if the elitist variant of the engine is used.
    pub fn elitist(self, elitist: bool) -> (builder: ScenarioBuilder)
        ensures
            builder.scenario == (Scenario { elitist, ..self.scenario }),
    {
        let mut scenario = self.scenario;
        scenario.elitist = elitist;
        ScenarioBuilder { scenario }
    }

    /// Sets if the target algorithm is deterministic.
    pub fn deterministic(self, deterministic: bool) -> (builder: ScenarioBuilder)
        ensures
            builder.scenario == (Scenario { deterministic, ..self.scenario }),
    {
        let mut scenario = self.scenario;
        scenario.deterministic = deterministic;
        ScenarioBuilder { scenario }
    }

    /// Sets the path of the log file.
    pub fn log_file(self, log_file: PathBuf) -> (builder: ScenarioBuilder)
        ensures
            builder.scenario == (Scenario { log_file: Some(log_file), ..self.scenario }),
    {
        let mut scenario = self.scenario;
        scenario.log_file = Some(log_file);
        ScenarioBuilder { scenario }
    }

    /// Sets the working directory of the engine.
    pub fn exec_dir(self, exec_dir: PathBuf) -> (builder: ScenarioBuilder)
        ensures
            builder.scenario == (Scenario { exec_dir: Some(exec_dir), ..self.scenario }),
    {
        let mut scenario = self.scenario;
        scenario.exec_dir = Some(exec_dir);
        ScenarioBuilder { scenario }
    }

    /// Sets the number of experiments to perform in parallel.
    pub fn num_jobs(self, num_jobs: usize) -> (builder: ScenarioBuilder)
        ensures
            builder.scenario == (Scenario { num_jobs, ..self.scenario }),
    {
        let mut scenario = self.scenario;
        scenario.num_jobs = num_jobs;
        ScenarioBuilder { scenario }
    }

    /// Sets the initial RNG seed.
    pub fn seed(self, seed: u32) -> (builder: ScenarioBuilder)
        ensures
            builder.scenario == (Scenario { seed: Some(seed), ..self.scenario }),
    {
        let mut scenario = self.scenario;
        scenario.seed = Some(seed);
        ScenarioBuilder { scenario }
    }

    /// Sets the verbosity.
    pub fn verbose(self, verbose: Verbosity) -> (builder: ScenarioBuilder)
        ensures
            builder.scenario == (Scenario { verbose, ..self.scenario }),
    {
        let mut scenario = self.scenario;
        scenario.verbose = verbose;
        ScenarioBuilder { scenario }
    }

    /// Finishes the scenario.
    pub fn build(self) -> (scenario: Scenario)
        ensures
            scenario == self.scenario,
    {
        self.scenario
    }
}

/// What the engine is told of a scenario.
#[derive(Debug, Clone)]
pub struct ScenarioRecord<'a> {
    pub max_experiments: Option<u32>,
    pub min_experiments: Option<u32>,
    pub elitist: bool,
    /// The instances of the run, shown as their indices.
    pub instances: Vec<usize>,
    pub deterministic: bool,
    pub log_file: Option<&'a PathBuf>,
    pub exec_dir: Option<&'a PathBuf>,
    pub n_jobs: usize,
    pub seed: Option<u32>,
    /// The verbosity, as the number that the engine knows it by.
    pub verbose: u32,
}

/// Whether a borrowed optional path is the given optional path.
pub open spec fn same_path(borrowed: Option<&PathBuf>, owned: Option<PathBuf>) -> bool {
    match (borrowed, owned) {
        (Some(a), Some(b)) => *a == b,
        (None, None) => true,
        _ => false,
    }
}

impl Scenario {
    /// Describes the scenario for the engine, for a run with `num_instances`
    /// instances: every setting as it is, the instances as the indices
    /// `0..num_instances`, and the verbosity as its number.
    pub fn encode(&self, num_instances: usize) -> (record: ScenarioRecord<'_>)
        ensures
            record.max_experiments == self.max_experiments,
            record.min_experiments == self.min_experiments,
            record.elitist == self.elitist,
            record.instances@ == indices(num_instances as nat),
            record.deterministic == self.deterministic,
            same_path(record.log_file, self.log_file),
            same_path(record.exec_dir, self.exec_dir),
            record.n_jobs == self.num_jobs,
            record.seed == self.seed,
            record.verbose == self.verbose.level_spec(),
    {
        ScenarioRecord {
            max_experiments: self.max_experiments,
            min_experiments: self.min_experiments,
            elitist: self.elitist,
            instances: index_list(num_instances),
            deterministic: self.deterministic,
            log_file: self.log_file.as_ref(),
            exec_dir: self.exec_dir.as_ref(),
            n_jobs: self.num_jobs,
            seed: self.seed,
            verbose: self.verbose.level(),
        }
    }
}

} // verus!
