//! The errors of the library.

use vstd::prelude::*;
use vstd::string::StringExecFns;

use crate::param_space::ParamKind;

verus! {

/// An error in the authoring of a parameter space.
#[derive(Debug, Clone, PartialEq, Eq)]
pub enum SpaceError {
    /// A nested space stands under `name`: nested spaces cannot be shown to the engine
    /// and must be flattened first.
    UnsupportedNested { name: String },
    /// Flattening would put two declarations under `key`.
    FlattenKeyCollision { key: String },
}

/// The mathematical value of a [`SpaceError`].
pub ghost enum SpaceErrorView {
    UnsupportedNested { name: Seq<char> },
    FlattenKeyCollision { key: Seq<char> },
}

impl View for SpaceError {
    type V = SpaceErrorView;

    open spec fn view(&self) -> SpaceErrorView {
        match *self {
            SpaceError::UnsupportedNested { name } => SpaceErrorView::UnsupportedNested {
                name: name@,
            },
            SpaceError::FlattenKeyCollision { key } => SpaceErrorView::FlattenKeyCollision {
                key: key@,
            },
        }
    }
}

impl SpaceError {
    /// Describes the error in words.
    pub fn message(&self) -> (text: String)
        ensures
            text@ == match self@ {
                SpaceErrorView::UnsupportedNested { name } =>
                    "nested parameter space is not supported: "@ + name,
                SpaceErrorView::FlattenKeyCollision { key } => "flat key is already present: "@
                    + key,
            },
    {
        match self {
            SpaceError::UnsupportedNested { name } => String::from_str(
                "nested parameter space is not supported: ",
            ).concat(name.as_str()),
            SpaceError::FlattenKeyCollision { key } => String::from_str(
                "flat key is already present: ",
            ).concat(key.as_str()),
        }
    }
}

/// An error in decoding an untyped configuration against a parameter space.
#[derive(Debug, Clone, PartialEq, Eq)]
pub enum DecodeError {
    /// The configuration holds `name`, which the space does not declare.
    UnknownParameter { name: String },
    /// The value of `name` is not of the kind that the space declares for it.
    TypeMismatch { name: String, expected: ParamKind },
    /// The value of the categorical parameter `name` is `index`, and the parameter
    /// has only `count` variants.
    IndexOutOfRange { name: String, index: i128, count: usize },
    /// The space declares `name` as a nested space: it must be flattened before
    /// anything is decoded against it.
    UnsupportedNested { name: String },
}

/// The mathematical value of a [`DecodeError`].
pub ghost enum DecodeErrorView {
    UnknownParameter { name: Seq<char> },
    TypeMismatch { name: Seq<char>, expected: ParamKind },
    IndexOutOfRange { name: Seq<char>, index: int, count: nat },
    UnsupportedNested { name: Seq<char> },
}

impl View for DecodeError {
    type V = DecodeErrorView;

    open spec fn view(&self) -> DecodeErrorView {
        match *self {
            DecodeError::UnknownParameter { name } => DecodeErrorView::UnknownParameter {
                name: name@,
            },
            DecodeError::TypeMismatch { name, expected } => DecodeErrorView::TypeMismatch {
                name: name@,
                expected,
            },
            DecodeError::IndexOutOfRange {
                name,
                index,
                count,
            } => DecodeErrorView::IndexOutOfRange {
                name: name@,
                index: index as int,
                count: count as nat,
            },
            DecodeError::UnsupportedNested { name } => DecodeErrorView::UnsupportedNested {
                name: name@,
            },
        }
    }
}

impl DecodeError {
    /// The name of the parameter that the error is about.
    pub open spec fn name_spec(self) -> Seq<char> {
        match self {
            DecodeError::UnknownParameter { name } => name@,
            DecodeError::TypeMismatch { name, .. } => name@,
            DecodeError::IndexOutOfRange { name, .. } => name@,
            DecodeError::UnsupportedNested { name } => name@,
        }
    }

    /// Returns the name of the parameter that the error is about.
    pub fn name(&self) -> (name: &String)
        ensures
            name@ == self.name_spec(),
    {
        match self {
            DecodeError::UnknownParameter { name } => name,
            DecodeError::TypeMismatch { name, .. } => name,
            DecodeError::IndexOutOfRange { name, .. } => name,
            DecodeError::UnsupportedNested { name } => name,
        }
    }

    /// The kind of the error in words, followed by the parameter's name.
    pub open spec fn message_spec(self) -> Seq<char> {
        let kind = match self {
            DecodeError::UnknownParameter { .. } => "unknown parameter name: "@,
            DecodeError::TypeMismatch { expected, .. } => match expected {
                ParamKind::Real => "expected a real number for parameter: "@,
                ParamKind::Integer => "expected an unsigned integer for parameter: "@,
                ParamKind::Bool => "expected a boolean for parameter: "@,
                ParamKind::Categorical => "expected a variant index for parameter: "@,
                ParamKind::Nested => "expected a nested space for parameter: "@,
            },
            DecodeError::IndexOutOfRange { .. } => "variant index out of range for parameter: "@,
            DecodeError::UnsupportedNested { .. } => "nested parameter space not supported: "@,
        };
        kind + self.name_spec()
    }

    /// Describes the kind of the error in words, followed by the parameter's name.
    pub fn message(&self) -> (text: String)
        ensures
            text@ == self.message_spec(),
    {
        let prefix = match self {
            DecodeError::UnknownParameter { .. } => "unknown parameter name: ",
            DecodeError::TypeMismatch { expected, .. } => match expected {
                ParamKind::Real => "expected a real number for parameter: ",
                ParamKind::Integer => "expected an unsigned integer for parameter: ",
                ParamKind::Bool => "expected a boolean for parameter: ",
                ParamKind::Categorical => "expected a variant index for parameter: ",
                ParamKind::Nested => "expected a nested space for parameter: ",
            },
            DecodeError::IndexOutOfRange { .. } => "variant index out of range for parameter: ",
            DecodeError::UnsupportedNested { .. } => "nested parameter space not supported: ",
        };
        String::from_str(prefix).concat(self.name().as_str())
    }
}

/// The failure of a target runner.
#[derive(Debug, Clone, PartialEq, Eq)]
pub enum RunError {
    /// The runner needs an instance, and the experiment has none: the engine gave no
    /// index, or the index led to no instance of the type that the runner expects.
    MissingInstance,
    /// The run failed for the given reason.
    Failed { message: String },
}

/// The mathematical value of a [`RunError`].
pub ghost enum RunErrorView {
    MissingInstance,
    Failed { message: Seq<char> },
}

impl View for RunError {
    type V = RunErrorView;

    open spec fn view(&self) -> RunErrorView {
        match *self {
            RunError::MissingInstance => RunErrorView::MissingInstance,
            RunError::Failed { message } => RunErrorView::Failed { message: message@ },
        }
    }
}

/// The failure of one dispatched experiment, as the engine is told of it.
#[derive(Debug, Clone, PartialEq, Eq)]
pub enum DispatchError {
    /// The record of the experiment could not be decoded.
    Decode(DecodeError),
    /// The runner needed an instance, and the experiment had none.
    MissingInstance,
    /// The run failed for the given reason.
    Runner { message: String },
}

/// The mathematical value of a [`DispatchError`].
pub ghost enum DispatchErrorView {
    Decode(DecodeErrorView),
    MissingInstance,
    Runner { message: Seq<char> },
}

impl View for DispatchError {
    type V = DispatchErrorView;

    open spec fn view(&self) -> DispatchErrorView {
        match *self {
            DispatchError::Decode(error) => DispatchErrorView::Decode(error@),
            DispatchError::MissingInstance => DispatchErrorView::MissingInstance,
            DispatchError::Runner { message } => DispatchErrorView::Runner { message: message@ },
        }
    }
}

impl DispatchError {
    /// Describes the error in words, for the engine.
    pub fn message(&self) -> (text: String)
        ensures
            text@ == match *self {
                DispatchError::Decode(error) => error.message_spec(),
                DispatchError::MissingInstance => "missing instance"@,
                DispatchError::Runner { message } => message@,
            },
    {
        match self {
            DispatchError::Decode(error) => error.message(),
            DispatchError::MissingInstance => String::from_str("missing instance"),
            DispatchError::Runner { message } => message.clone(),
        }
    }
}

} // verus!
