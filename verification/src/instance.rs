//! The registry of problem instances, behind type erasure.
//!
//! The engine refers to an instance by its index only. The host may register instances
//! of different concrete types, so every instance is kept in one common
//! representation, together with the tag of the concrete type it was erased from. An
//! instance is handed out again only to a caller that expects that very tag: an
//! instance of another type is as good as absent.

use std::sync::Arc;
use vstd::prelude::*;

verus! {

/// A problem instance or unique identifier: any value that can be sent to the thread
/// that runs an experiment.
pub trait Instance: Send + 'static {

}

impl<T: Send + 'static> Instance for T {

}

/// The tag of a concrete instance type. Two instances are of the same concrete type
/// exactly if their tags are equal.
#[derive(Debug, Clone, Copy, PartialEq, Eq, Structural)]
pub struct TypeTag {
    pub id: u64,
}

/// A type-erased instance: the instance in the common representation `I`, and the tag
/// of its concrete type.
#[derive(Debug, Clone)]
pub struct ErasedInstance<I> {
    pub tag: TypeTag,
    pub value: I,
}

impl<I> ErasedInstance<I> {
    /// Erases an instance of the concrete type with the given tag.
    pub fn new(tag: TypeTag, value: I) -> (erased: Self)
        ensures
            erased.tag == tag,
            erased.value == value,
    {
        ErasedInstance { tag, value }
    }

    /// The instance, if it is of the expected concrete type.
    pub open spec fn downcast(self, expected: TypeTag) -> Option<I> {
        if self.tag == expected {
            Some(self.value)
        } else {
            None
        }
    }

    /// Returns the instance if it is of the expected concrete type, and `None` if it
    /// is of another.
    pub fn downcast_ref(&self, expected: TypeTag) -> (found: Option<&I>)
        ensures
            match found {
                Some(value) => self.downcast(expected) == Some(*value),
                None => self.downcast(expected) is None,
            },
    {
        if self.tag.id == expected.id {
            Some(&self.value)
        } else {
            None
        }
    }
}

/// The instance that an index refers to for a caller that expects instances of one
/// concrete type: the entry at the index, if there is an index, if it is below the
/// number of entries, and if the entry is of the expected type.
pub open spec fn resolved<I>(
    entries: Seq<ErasedInstance<I>>,
    index: Option<usize>,
    expected: TypeTag,
) -> Option<I> {
    match index {
        Some(i) => if i < entries.len() {
            entries[i as int].downcast(expected)
        } else {
            None
        },
        None => None,
    }
}

/// The instances of one tuning run. The registry is filled before the run starts and
/// is only read while it lasts.
#[derive(Debug, Clone)]
pub struct InstanceRegistry<I> {
    entries: Vec<ErasedInstance<I>>,
}

impl<I> View for InstanceRegistry<I> {
    type V = Seq<ErasedInstance<I>>;

    closed spec fn view(&self) -> Seq<ErasedInstance<I>> {
        self.entries@
    }
}

impl<I> InstanceRegistry<I> {
    /// Makes an empty registry.
    pub fn new() -> (registry: Self)
        ensures
            registry@.len() == 0,
    {
        InstanceRegistry { entries: Vec::new() }
    }

    /// Makes a registry of instances that are all of the concrete type with the given
    /// tag, in the given order.
    pub fn from_instances(tag: TypeTag, instances: Vec<I>) -> (registry: Self)
        ensures
            registry@.len() == instances@.len(),
            forall|i: int|
                0 <= i < instances@.len() ==> #[trigger] registry@[i] == (ErasedInstance {
                    tag,
                    value: instances@[i],
                }),
    {
        let mut registry = InstanceRegistry::new();
        let ghost all = instances@;
        for value in it: instances
            invariant
                it.seq() == all,
                registry@.len() == it.index(),
                forall|i: int|
                    0 <= i < it.index() ==> #[trigger] registry@[i] == (ErasedInstance {
                        tag,
                        value: all[i],
                    }),
        {
            registry.register(tag, value);
        }
        registry
    }

    /// Registers an instance of the concrete type with the given tag as the last
    /// entry, and returns its index.
    pub fn register(&mut self, tag: TypeTag, value: I) -> (index: usize)
        ensures
            final(self)@ == old(self)@.push(ErasedInstance { tag, value }),
            index == old(self)@.len(),
    {
        let index = self.entries.len();
        self.entries.push(ErasedInstance { tag, value });
        index
    }

    /// Returns the number of instances.
    pub fn len(&self) -> (len: usize)
        ensures
            len == self@.len(),
    {
        self.entries.len()
    }

    /// Returns the entry at the index, or `None` if there are not that many.
    pub fn get(&self, index: usize) -> (found: Option<&ErasedInstance<I>>)
        ensures
            match found {
                Some(entry) => index < self@.len() && *entry == self@[index as int],
                None => index >= self@.len(),
            },
    {
        if index < self.entries.len() {
            Some(&self.entries[index])
        } else {
            None
        }
    }

    /// Resolves the index that the engine gave for a caller that expects instances of
    /// the concrete type with the tag `expected`.
    ///
    /// The result is absent if no index was given, if the index is out of range, or if
    /// the entry at the index is of another concrete type.
    pub fn resolve(&self, index: Option<usize>, expected: TypeTag) -> (found: Option<&I>)
        ensures
            match found {
                Some(value) => resolved(self@, index, expected) == Some(*value),
                None => resolved(self@, index, expected) is None,
            },
    {
        match index {
            Some(i) => match self.get(i) {
                Some(entry) => entry.downcast_ref(expected),
                None => None,
            },
            None => None,
        }
    }
}

/// A problem instance that carries its evaluator: the problem, which is shared, and
/// an evaluation strategy that can be cloned, so that the problem can be evaluated in
/// every experiment without making an evaluator anew.
#[derive(Debug, Clone)]
pub struct DistributedInstance<P, E> {
    problem: Arc<P>,
    evaluator: E,
}

impl<P, E: Clone> DistributedInstance<P, E> {
    /// The shared problem of the instance.
    pub closed spec fn shared_problem(self) -> Arc<P> {
        self.problem
    }

    /// The evaluator that the instance holds.
    pub closed spec fn held_evaluator(self) -> E {
        self.evaluator
    }

    /// Creates a new `DistributedInstance` from a given `problem` and `evaluator`.
    pub fn new(problem: Arc<P>, evaluator: E) -> (instance: Self)
        ensures
            instance.shared_problem() == problem,
            instance.held_evaluator() == evaluator,
    {
        DistributedInstance { problem, evaluator }
    }

    /// Unpacks the instance into a problem reference and an evaluator, which is a
    /// clone of the one that the instance holds.
    pub fn unpack(&self) -> (parts: (&P, E))
        ensures
            *parts.0 == *self.shared_problem(),
            cloned(self.held_evaluator(), parts.1),
    {
        (self.problem(), self.evaluator())
    }

    /// Returns a reference to the `problem`.
    pub fn problem(&self) -> (problem: &P)
        ensures
            *problem == *self.shared_problem(),
    {
        &*self.problem
    }

    /// Returns an owned `evaluator`: a clone of the one that the instance holds.
    pub fn evaluator(&self) -> (evaluator: E)
        ensures
            cloned(self.held_evaluator(), evaluator),
    {
        self.evaluator.clone()
    }
}

} // verus!
