//! Dynamically-tagged parameter values.

use vstd::prelude::*;

use crate::number::Real;

verus! {

/// A dynamically-tagged leaf value: what a decoded parameter holds, and what the
/// variants of a categorical parameter are.
#[derive(Debug, PartialEq, Eq)]
pub enum Param {
    /// A real number.
    Real(Real),
    /// An unsigned integer.
    Integer(u32),
    /// A boolean.
    Bool(bool),
    /// A piece of text, such as the name of a categorical variant.
    Text(String),
}

/// The mathematical value of a [`Param`].
pub ghost enum ParamView {
    Real(u64),
    Integer(u32),
    Bool(bool),
    Text(Seq<char>),
}

impl View for Param {
    type V = ParamView;

    open spec fn view(&self) -> ParamView {
        match *self {
            Param::Real(number) => ParamView::Real(number.bits),
            Param::Integer(n) => ParamView::Integer(n),
            Param::Bool(b) => ParamView::Bool(b),
            Param::Text(text) => ParamView::Text(text@),
        }
    }
}

impl Clone for Param {
    /// The clone has the same value.
    fn clone(&self) -> (copy: Param)
        ensures
            copy@ == self@,
    {
        match self {
            Param::Real(number) => Param::Real(*number),
            Param::Integer(n) => Param::Integer(*n),
            Param::Bool(b) => Param::Bool(*b),
            Param::Text(text) => Param::Text(text.clone()),
        }
    }
}

impl Param {
    /// Makes a text value.
    pub fn text(text: &str) -> (param: Param)
        ensures
            param@ == ParamView::Text(text@),
    {
        Param::Text(text.to_owned())
    }

    /// Tells whether two values are the same: of the same kind and with the same content.
    pub fn same(&self, other: &Param) -> (same: bool)
        ensures
            same == (self@ == other@),
    {
        match (self, other) {
            (Param::Real(a), Param::Real(b)) => a.bits == b.bits,
            (Param::Integer(a), Param::Integer(b)) => *a == *b,
            (Param::Bool(a), Param::Bool(b)) => *a == *b,
            (Param::Text(a), Param::Text(b)) => *a == *b,
            _ => false,
        }
    }
}

} // verus!
