//! Untyped values, as the engine hands them across the boundary.

use vstd::prelude::*;

use crate::number::Real;

verus! {

/// An untyped value of a configuration.
#[derive(Debug, Clone, PartialEq, Eq)]
pub enum RawValue {
    /// A floating-point number.
    Float(Real),
    /// An integer number.
    Integer(i128),
    /// A boolean.
    Bool(bool),
    /// A piece of text.
    Text(String),
    /// A value of any other kind.
    Other,
}

/// The mathematical value of a [`RawValue`].
pub ghost enum RawView {
    Float(u64),
    Integer(int),
    Bool(bool),
    Text(Seq<char>),
    Other,
}

impl View for RawValue {
    type V = RawView;

    open spec fn view(&self) -> RawView {
        match *self {
            RawValue::Float(number) => RawView::Float(number.bits),
            RawValue::Integer(n) => RawView::Integer(n as int),
            RawValue::Bool(b) => RawView::Bool(b),
            RawValue::Text(text) => RawView::Text(text@),
            RawValue::Other => RawView::Other,
        }
    }
}

/// An untyped configuration: values under names, in the order in which the engine
/// gave them.
#[derive(Debug, Clone, PartialEq, Eq)]
pub struct RawConfig {
    pub entries: Vec<(String, RawValue)>,
}

impl View for RawConfig {
    type V = Seq<(Seq<char>, RawView)>;

    open spec fn view(&self) -> Seq<(Seq<char>, RawView)> {
        Seq::new(self.entries@.len(), |i: int| (self.entries@[i].0@, self.entries@[i].1@))
    }
}

impl RawConfig {
    /// Makes an empty configuration.
    pub fn new() -> (config: RawConfig)
        ensures
            config@.len() == 0,
    {
        RawConfig { entries: Vec::new() }
    }

    /// Returns the number of entries.
    pub fn len(&self) -> (len: usize)
        ensures
            len == self@.len(),
    {
        self.entries.len()
    }

    /// Adds `value` under `name` as the last entry.
    pub fn push(&mut self, name: &str, value: RawValue)
        ensures
            final(self)@ == old(self)@.push((name@, value@)),
    {
        self.entries.push((name.to_owned(), value));
        assert(self@ =~= old(self)@.push((name@, value@)));
    }
}

/// The record of one experiment, as the engine hands it over.
#[derive(Debug, Clone, PartialEq, Eq)]
pub struct RawExperiment {
    /// The identifier of the configuration.
    pub configuration_id: String,
    /// The RNG seed of the run.
    pub seed: u64,
    /// The identifier of the instance, for display.
    pub instance_id: Option<String>,
    /// The index of the instance in the registry of the run.
    pub instance: Option<usize>,
    /// The configuration to run.
    pub configuration: RawConfig,
}

} // verus!
