//! Specifying parameter spaces.

use indexmap::IndexMap;
use vstd::prelude::*;

use crate::named::{
    distinct_names, lemma_index_of, lemma_index_of_absent, lemma_put, lookup, put,
};
use crate::number::Real;
use crate::param::{Param, ParamView};

verus! {

/// A numerical parameter with lower and upper bounds.
#[derive(Debug, Clone)]
pub struct NumericalSubspace<T> {
    pub name: String,
    pub lower: T,
    pub upper: T,
    pub log: bool,
}

impl<T> NumericalSubspace<T> {
    /// Constructs a new `NumericalSubspace`.
    ///
    /// The ordering of the bounds is the caller's responsibility.
    pub fn new(name: &str, lower: T, upper: T, log: bool) -> (subspace: Self)
        ensures
            subspace.name@ == name@,
            subspace.lower == lower,
            subspace.upper == upper,
            subspace.log == log,
    {
        Self { name: name.to_owned(), lower, upper, log }
    }
}

/// A parameter with discrete variants, which are addressed by their index.
#[derive(Debug, Clone)]
pub struct DiscreteSubspace<T> {
    pub name: String,
    pub variants: Vec<T>,
}

impl<T> DiscreteSubspace<T> {
    /// Constructs a new `DiscreteSubspace` with the given variants in the given order.
    pub fn new(name: &str, values: Vec<T>) -> (subspace: Self)
        ensures
            subspace.name@ == name@,
            subspace.variants == values,
    {
        Self { name: name.to_owned(), variants: values }
    }
}

/// The kind of a parameter declaration.
#[derive(Debug, Clone, Copy, PartialEq, Eq, Structural)]
pub enum ParamKind {
    Real,
    Integer,
    Bool,
    Categorical,
    Nested,
}

/// One parameter declaration: real, integer, boolean, categorical, or a nested space.
#[derive(Debug)]
pub enum ParamSubspace {
    Real(NumericalSubspace<Real>),
    Integer(NumericalSubspace<u32>),
    Bool(DiscreteSubspace<bool>),
    Categorical(DiscreteSubspace<Param>),
    Nested(ParamSpace),
}

/// The mathematical value of a parameter declaration.
#[allow(inconsistent_fields)]
pub ghost enum SubspaceView {
    Real { name: Seq<char>, lower: u64, upper: u64, log: bool },
    Integer { name: Seq<char>, lower: u32, upper: u32, log: bool },
    Bool { name: Seq<char>, variants: Seq<bool> },
    Categorical { name: Seq<char>, variants: Seq<ParamView> },
    Nested { space: Seq<(Seq<char>, SubspaceView)> },
}

impl SubspaceView {
    /// The kind of the declaration.
    pub open spec fn kind(self) -> ParamKind {
        match self {
            SubspaceView::Real { .. } => ParamKind::Real,
            SubspaceView::Integer { .. } => ParamKind::Integer,
            SubspaceView::Bool { .. } => ParamKind::Bool,
            SubspaceView::Categorical { .. } => ParamKind::Categorical,
            SubspaceView::Nested { .. } => ParamKind::Nested,
        }
    }
}

/// The values of a sequence of parameters.
pub open spec fn param_views(params: Seq<Param>) -> Seq<ParamView> {
    Seq::new(params.len(), |i: int| params[i]@)
}

impl View for ParamSubspace {
    type V = SubspaceView;

    open spec fn view(&self) -> SubspaceView {
        match *self {
            ParamSubspace::Real(numerical) => SubspaceView::Real {
                name: numerical.name@,
                lower: numerical.lower.bits,
                upper: numerical.upper.bits,
                log: numerical.log,
            },
            ParamSubspace::Integer(numerical) => SubspaceView::Integer {
                name: numerical.name@,
                lower: numerical.lower,
                upper: numerical.upper,
                log: numerical.log,
            },
            ParamSubspace::Bool(discrete) => SubspaceView::Bool {
                name: discrete.name@,
                variants: discrete.variants@,
            },
            ParamSubspace::Categorical(discrete) => SubspaceView::Categorical {
                name: discrete.name@,
                variants: param_views(discrete.variants@),
            },
            ParamSubspace::Nested(space) => SubspaceView::Nested { space: space@ },
        }
    }
}

impl ParamSubspace {
    /// Returns the kind of the declaration.
    pub fn kind(&self) -> (kind: ParamKind)
        ensures
            kind == self@.kind(),
    {
        match self {
            ParamSubspace::Real(_) => ParamKind::Real,
            ParamSubspace::Integer(_) => ParamKind::Integer,
            ParamSubspace::Bool(_) => ParamKind::Bool,
            ParamSubspace::Categorical(_) => ParamKind::Categorical,
            ParamSubspace::Nested(_) => ParamKind::Nested,
        }
    }

    /// Returns if the declaration is nested, i.e. contains another parameter space.
    pub fn is_nested(&self) -> (nested: bool)
        ensures
            nested == (self@ is Nested),
    {
        match self {
            ParamSubspace::Nested(_) => true,
            _ => false,
        }
    }

    /// Converts the declaration into its nested space, if it is one.
    pub fn into_nested(self) -> (nested: Option<ParamSpace>)
        ensures
            match nested {
                Some(space) => self == ParamSubspace::Nested(space),
                None => !(self@ is Nested),
            },
    {
        match self {
            ParamSubspace::Nested(space) => Some(space),
            _ => None,
        }
    }
}

/// The declaration of a real parameter.
pub open spec fn real_declaration(
    name: Seq<char>,
    lower: Real,
    upper: Real,
    log: bool,
) -> SubspaceView {
    SubspaceView::Real { name, lower: lower.bits, upper: upper.bits, log }
}

/// The declaration of an integer parameter.
pub open spec fn integer_declaration(
    name: Seq<char>,
    lower: u32,
    upper: u32,
    log: bool,
) -> SubspaceView {
    SubspaceView::Integer { name, lower, upper, log }
}

/// The declaration of a boolean parameter: its variants are `true` and `false`, in
/// this order.
pub open spec fn bool_declaration(name: Seq<char>) -> SubspaceView {
    SubspaceView::Bool { name, variants: seq![true, false] }
}

/// The declaration of a categorical parameter with the given variants.
pub open spec fn categorical_declaration(
    name: Seq<char>,
    variants: Seq<ParamView>,
) -> SubspaceView {
    SubspaceView::Categorical { name, variants }
}

/// The text values of the given texts.
pub open spec fn text_params(texts: Seq<&str>) -> Seq<ParamView> {
    Seq::new(texts.len(), |i: int| ParamView::Text(texts[i]@))
}

/// The names and values of a list of declarations.
pub open spec fn entry_views(entries: Seq<(String, ParamSubspace)>) -> Seq<
    (Seq<char>, SubspaceView),
> {
    Seq::new(entries.len(), |i: int| (entries[i].0@, entries[i].1@))
}

/// The space after the given declarations have been put into it one after the other.
pub open spec fn put_all(
    space: Seq<(Seq<char>, SubspaceView)>,
    entries: Seq<(Seq<char>, SubspaceView)>,
) -> Seq<(Seq<char>, SubspaceView)>
    decreases entries.len(),
{
    if entries.len() == 0 {
        space
    } else {
        put(put_all(space, entries.drop_last()), entries.last().0, entries.last().1)
    }
}

/// Whether a declaration of the top level is a nested space.
pub open spec fn has_nested(space: Seq<(Seq<char>, SubspaceView)>) -> bool {
    exists|i: int| 0 <= i < space.len() && (#[trigger] space[i]).1 is Nested
}

/// Whether no two declarations of a space share a name, on the top level and in every
/// nested space.
pub open spec fn well_formed(space: Seq<(Seq<char>, SubspaceView)>) -> bool
    decreases space,
{
    &&& distinct_names(space)
    &&& forall|i: int|
        0 <= i < space.len() ==> match (#[trigger] space[i]).1 {
            SubspaceView::Nested { space: inner } => well_formed(inner),
            _ => true,
        }
}

/// The ordered map of a parameter space, from names to declarations, in the order of
/// insertion.
///
/// It is an `IndexMap`, and opaque to the verifier: what it holds is [`space_entries`].
#[verifier::external_body]
#[derive(Debug)]
pub struct SpaceMap {
    entries: IndexMap<String, ParamSubspace>,
}

/// The declarations that the map of a parameter space holds, each with the name it
/// stands under, in the order of the map.
pub uninterp spec fn space_entries(map: SpaceMap) -> Seq<(Seq<char>, SubspaceView)>;

impl SpaceMap {
    /// `IndexMap::new`: the new map is empty.
    #[verifier::external_body]
    fn new() -> (map: SpaceMap)
        ensures
            space_entries(map).len() == 0,
    {
        SpaceMap { entries: IndexMap::new() }
    }

    /// `IndexMap::len`: the number of entries.
    #[verifier::external_body]
    fn len(&self) -> (len: usize)
        ensures
            len == space_entries(*self).len(),
    {
        self.entries.len()
    }

    /// `IndexMap::insert`: where the key is in the map already, it keeps its place and
    /// gets the new value; where it is not, the pair becomes the last entry.
    #[verifier::external_body]
    fn insert(self, name: String, subspace: ParamSubspace) -> (map: SpaceMap)
        ensures
            space_entries(map) == put(space_entries(self), name@, subspace@),
    {
        let mut entries = self.entries;
        entries.insert(name, subspace);
        SpaceMap { entries }
    }

    /// `IndexMap::get`: the value stored under the key, or `None` where the key is not
    /// in the map.
    #[verifier::external_body]
    fn get(&self, name: &str) -> (found: Option<&ParamSubspace>)
        ensures
            match found {
                Some(subspace) => lookup(space_entries(*self), name@) == Some(subspace@),
                None => lookup(space_entries(*self), name@) is None,
            },
    {
        self.entries.get(name)
    }

    /// `IndexMap::get_index`: the entry at the index, or `None` where the index is not
    /// below the number of entries.
    #[verifier::external_body]
    fn get_index(&self, index: usize) -> (found: Option<(&String, &ParamSubspace)>)
        ensures
            match found {
                Some((name, subspace)) => {
                    &&& index < space_entries(*self).len()
                    &&& space_entries(*self)[index as int] == (name@, subspace@)
                },
                None => index >= space_entries(*self).len(),
            },
    {
        self.entries.get_index(index)
    }

    /// `IndexMap::into_iter`: the owning iterator hands out the entries in the order
    /// of the map.
    #[verifier::external_body]
    fn into_entries(self) -> (entries: Vec<(String, ParamSubspace)>)
        ensures
            entries@.len() == space_entries(self).len(),
            forall|i: int|
                0 <= i < entries@.len() ==> space_entries(self)[i] == (
                    (#[trigger] entries@[i]).0@,
                    entries@[i].1@,
                ),
    {
        self.entries.into_iter().collect()
    }
}

/// A named parameter space: an ordered mapping from names to parameter declarations.
///
/// The order is the order of insertion, and no two declarations of one level share a
/// name.
#[derive(Debug)]
pub struct ParamSpace {
    subspaces: SpaceMap,
}

impl View for ParamSpace {
    type V = Seq<(Seq<char>, SubspaceView)>;

    closed spec fn view(&self) -> Seq<(Seq<char>, SubspaceView)> {
        space_entries(self.subspaces)
    }
}

impl Default for ParamSpace {
    /// The default space is empty.
    fn default() -> (space: ParamSpace)
        ensures
            space@.len() == 0,
    {
        ParamSpace::new()
    }
}

impl ParamSpace {
    /// Every parameter space holds distinct names on every level.
    #[verifier::type_invariant]
    closed spec fn names_are_distinct(self) -> bool {
        well_formed(space_entries(self.subspaces))
    }

    /// Constructs a new, empty `ParamSpace`.
    pub fn new() -> (space: ParamSpace)
        ensures
            space@.len() == 0,
    {
        let subspaces = SpaceMap::new();
        ParamSpace { subspaces }
    }

    /// Returns the number of declarations on the top level. No two declarations of a
    /// space share a name, on any level.
    pub fn len(&self) -> (len: usize)
        ensures
            len == self@.len(),
            well_formed(self@),
    {
        proof {
            use_type_invariant(self);
        }
        self.subspaces.len()
    }

    /// Adds `subspace` under `name`. A declaration that stands under this name already
    /// is replaced and keeps its place; otherwise the new one comes last.
    pub fn with_raw(self, name: String, subspace: ParamSubspace) -> (space: ParamSpace)
        ensures
            space@ == put(self@, name@, subspace@),
    {
        match &subspace {
            ParamSubspace::Nested(inner) => {
                proof {
                    use_type_invariant(inner);
                }
            },
            _ => {},
        }
        proof {
            use_type_invariant(&self);
            lemma_put_well_formed(self@, name@, subspace@);
        }
        let subspaces = self.subspaces.insert(name, subspace);
        ParamSpace { subspaces }
    }

    /// Adds `subspace` under `name`. A declaration that stands under this name already
    /// is replaced and keeps its place; otherwise the new one comes last.
    pub fn add_raw(&mut self, name: String, subspace: ParamSubspace) -> (this: &mut Self)
        ensures
            this@ == put(old(self)@, name@, subspace@),
            *final(self) == *final(this),
    {
        let mut space = ParamSpace::new();
        std::mem::swap(self, &mut space);
        *self = space.with_raw(name, subspace);
        self
    }

    /// Adds a new real parameter with the given `name` and bounds.
    ///
    /// If `log` is `true`, the values are sampled from a logarithmic space.
    pub fn add_real(&mut self, name: &str, lower: Real, upper: Real, log: bool) -> (this:
        &mut Self)
        ensures
            this@ == put(old(self)@, name@, real_declaration(name@, lower, upper, log)),
            *final(self) == *final(this),
    {
        let numerical = NumericalSubspace::new(name, lower, upper, log);
        self.add_raw(name.to_owned(), ParamSubspace::Real(numerical))
    }

    /// Adds a new integer parameter with the given `name` and bounds.
    ///
    /// If `log` is `true`, the values are sampled from a logarithmic space.
    pub fn add_integer(&mut self, name: &str, lower: u32, upper: u32, log: bool) -> (this:
        &mut Self)
        ensures
            this@ == put(old(self)@, name@, integer_declaration(name@, lower, upper, log)),
            *final(self) == *final(this),
    {
        let numerical = NumericalSubspace::new(name, lower, upper, log);
        self.add_raw(name.to_owned(), ParamSubspace::Integer(numerical))
    }

    /// Adds a new boolean parameter with the given `name`.
    pub fn add_bool(&mut self, name: &str) -> (this: &mut Self)
        ensures
            this@ == put(old(self)@, name@, bool_declaration(name@)),
            *final(self) == *final(this),
    {
        let mut variants: Vec<bool> = Vec::new();
        variants.push(true);
        variants.push(false);
        proof {
            assert(variants@ == seq![true, false]);
        }
        let discrete = DiscreteSubspace::new(name, variants);
        self.add_raw(name.to_owned(), ParamSubspace::Bool(discrete))
    }

    /// Adds a new categorical parameter with the given `name` and `variants`, which
    /// are addressed by their index in the given order.
    pub fn add_categorical(&mut self, name: &str, variants: Vec<Param>) -> (this: &mut Self)
        ensures
            this@ == put(
                old(self)@,
                name@,
                categorical_declaration(name@, param_views(variants@)),
            ),
            *final(self) == *final(this),
    {
        let discrete = DiscreteSubspace::new(name, variants);
        self.add_raw(name.to_owned(), ParamSubspace::Categorical(discrete))
    }

    /// Adds a new categorical parameter with the given `name` and the given texts as
    /// variants.
    pub fn add_categorical_names(&mut self, name: &str, variants: Vec<&str>) -> (this:
        &mut Self)
        ensures
            this@ == put(
                old(self)@,
                name@,
                categorical_declaration(name@, text_params(variants@)),
            ),
            *final(self) == *final(this),
    {
        let mut params: Vec<Param> = Vec::new();
        let mut i: usize = 0;
        while i < variants.len()
            invariant
                i <= variants@.len(),
                params@.len() == i,
                forall|j: int|
                    0 <= j < i ==> (#[trigger] params@[j])@ == ParamView::Text(variants@[j]@),
            decreases variants@.len() - i,
        {
            params.push(Param::text(variants[i]));
            i += 1;
        }
        proof {
            assert(param_views(params@) == text_params(variants@));
        }
        self.add_categorical(name, params)
    }

    /// Adds a nested parameter space with the given `name`.
    ///
    /// For flattening a nested space, see [`ParamSpace::flatten`].
    pub fn add_nested(&mut self, name: &str, param_space: ParamSpace) -> (this: &mut Self)
        ensures
            this@ == put(old(self)@, name@, SubspaceView::Nested { space: param_space@ }),
            *final(self) == *final(this),
    {
        self.add_raw(name.to_owned(), ParamSubspace::Nested(param_space))
    }

    /// Adds a new real parameter with the given `name` and bounds.
    ///
    /// If `log` is `true`, the values are sampled from a logarithmic space.
    pub fn with_real(self, name: &str, lower: Real, upper: Real, log: bool) -> (space: Self)
        ensures
            space@ == put(self@, name@, real_declaration(name@, lower, upper, log)),
    {
        let mut space = self;
        space.add_real(name, lower, upper, log);
        space
    }

    /// Adds a new integer parameter with the given `name` and bounds.
    ///
    /// If `log` is `true`, the values are sampled from a logarithmic space.
    pub fn with_integer(self, name: &str, lower: u32, upper: u32, log: bool) -> (space: Self)
        ensures
            space@ == put(self@, name@, integer_declaration(name@, lower, upper, log)),
    {
        let mut space = self;
        space.add_integer(name, lower, upper, log);
        space
    }

    /// Adds a new boolean parameter with the given `name`.
    pub fn with_bool(self, name: &str) -> (space: Self)
        ensures
            space@ == put(self@, name@, bool_declaration(name@)),
    {
        let mut space = self;
        space.add_bool(name);
        space
    }

    /// Adds a new categorical parameter with the given `name` and `variants`, which
    /// are addressed by their index in the given order.
    pub fn with_categorical(self, name: &str, variants: Vec<Param>) -> (space: Self)
        ensures
            space@ == put(
                self@,
                name@,
                categorical_declaration(name@, param_views(variants@)),
            ),
    {
        let mut space = self;
        space.add_categorical(name, variants);
        space
    }

    /// Adds a new categorical parameter with the given `name` and the given texts as
    /// variants.
    pub fn with_categorical_names(self, name: &str, variants: Vec<&str>) -> (space: Self)
        ensures
            space@ == put(
                self@,
                name@,
                categorical_declaration(name@, text_params(variants@)),
            ),
    {
        let mut space = self;
        space.add_categorical_names(name, variants);
        space
    }

    /// Adds a nested parameter space with the given `name`.
    ///
    /// For flattening a nested space, see [`ParamSpace::flatten`].
    pub fn with_nested(self, name: &str, param_space: ParamSpace) -> (space: Self)
        ensures
            space@ == put(self@, name@, SubspaceView::Nested { space: param_space@ }),
    {
        let mut space = self;
        space.add_nested(name, param_space);
        space
    }

    /// Returns a reference to the declaration with the given `name`, or `None` if it
    /// doesn't exist.
    pub fn get_raw(&self, name: &str) -> (found: Option<&ParamSubspace>)
        ensures
            match found {
                Some(subspace) => lookup(self@, name@) == Some(subspace@),
                None => lookup(self@, name@) is None,
            },
    {
        self.subspaces.get(name)
    }

    /// Returns the name and the declaration at the given position, or `None` if there
    /// are not that many.
    pub fn get_index(&self, index: usize) -> (found: Option<(&String, &ParamSubspace)>)
        ensures
            match found {
                Some((name, subspace)) => {
                    &&& index < self@.len()
                    &&& self@[index as int] == (name@, subspace@)
                },
                None => index >= self@.len(),
            },
    {
        self.subspaces.get_index(index)
    }

    /// Makes a space of the given declarations, each added under its name in the
    /// given order: see [`ParamSpace::add_raw`].
    pub fn from_entries(entries: Vec<(String, ParamSubspace)>) -> (space: ParamSpace)
        ensures
            space@ == put_all(Seq::empty(), entry_views(entries@)),
    {
        let mut space = ParamSpace::new();
        let ghost all = entry_views(entries@);
        for entry in it: entries
            invariant
                it.seq().len() == all.len(),
                forall|i: int|
                    0 <= i < all.len() ==> all[i] == (
                        (#[trigger] it.seq()[i]).0@,
                        it.seq()[i].1@,
                    ),
                space@ == put_all(Seq::empty(), all.take(it.index())),
        {
            proof {
                assert(all.take(it.index() + 1).drop_last() == all.take(it.index()));
            }
            let (name, subspace) = entry;
            space.add_raw(name, subspace);
        }
        proof {
            assert(all.take(all.len() as int) == all);
        }
        space
    }

    /// Takes the space apart into its names and declarations, in order.
    pub fn into_entries(self) -> (entries: Vec<(String, ParamSubspace)>)
        ensures
            entries@.len() == self@.len(),
            forall|i: int|
                0 <= i < entries@.len() ==> self@[i] == (
                    (#[trigger] entries@[i]).0@,
                    entries@[i].1@,
                ),
    {
        self.subspaces.into_entries()
    }
}

impl Clone for ParamSubspace {
    /// The clone is the same declaration.
    fn clone(&self) -> (copy: ParamSubspace)
        ensures
            copy@ == self@,
        decreases self@,
    {
        match self {
            ParamSubspace::Real(numerical) => ParamSubspace::Real(
                NumericalSubspace {
                    name: numerical.name.clone(),
                    lower: numerical.lower,
                    upper: numerical.upper,
                    log: numerical.log,
                },
            ),
            ParamSubspace::Integer(numerical) => ParamSubspace::Integer(
                NumericalSubspace {
                    name: numerical.name.clone(),
                    lower: numerical.lower,
                    upper: numerical.upper,
                    log: numerical.log,
                },
            ),
            ParamSubspace::Bool(discrete) => {
                let mut variants: Vec<bool> = Vec::new();
                let mut i: usize = 0;
                while i < discrete.variants.len()
                    invariant
                        i <= discrete.variants@.len(),
                        variants@ == discrete.variants@.take(i as int),
                    decreases discrete.variants@.len() - i,
                {
                    variants.push(discrete.variants[i]);
                    i += 1;
                }
                proof {
                    assert(discrete.variants@.take(i as int) == discrete.variants@);
                }
                ParamSubspace::Bool(DiscreteSubspace { name: discrete.name.clone(), variants })
            },
            ParamSubspace::Categorical(discrete) => {
                let mut variants: Vec<Param> = Vec::new();
                let mut i: usize = 0;
                while i < discrete.variants.len()
                    invariant
                        i <= discrete.variants@.len(),
                        param_views(variants@) == param_views(discrete.variants@).take(i as int),
                    decreases discrete.variants@.len() - i,
                {
                    let ghost before = param_views(variants@);
                    variants.push(discrete.variants[i].clone());
                    i += 1;
                    proof {
                        assert(param_views(variants@) == before.push(
                            discrete.variants@[i - 1]@,
                        ));
                    }
                }
                proof {
                    assert(param_views(discrete.variants@).take(i as int) == param_views(
                        discrete.variants@,
                    ));
                }
                ParamSubspace::Categorical(
                    DiscreteSubspace { name: discrete.name.clone(), variants },
                )
            },
            ParamSubspace::Nested(space) => {
                proof {
                    assert(decreases_to!(self@ => self@->space));
                }
                ParamSubspace::Nested(space.clone())
            },
        }
    }
}

impl Clone for ParamSpace {
    /// The clone holds the same declarations under the same names, in the same order.
    fn clone(&self) -> (copy: ParamSpace)
        ensures
            copy@ == self@,
        decreases self@,
    {
        let mut copy = ParamSpace::new();
        let len = self.len();
        let mut i: usize = 0;
        while i < len
            invariant
                len == self@.len(),
                i <= len,
                well_formed(self@),
                copy@ == self@.take(i as int),
            decreases len - i,
        {
            match self.get_index(i) {
                Some((name, subspace)) => {
                    proof {
                        assert forall|j: int| 0 <= j < i implies (#[trigger] copy@[j]).0
                            != name@ by {}
                        lemma_index_of_absent(copy@, name@);
                    }
                    copy.add_raw(name.clone(), subspace.clone());
                },
                None => {
                    assert(false);
                },
            }
            i += 1;
        }
        copy
    }
}

/// Putting a declaration into a space with distinct names leaves the names distinct,
/// if the names of the declaration itself, where it is a nested space, are.
pub proof fn lemma_put_well_formed(
    space: Seq<(Seq<char>, SubspaceView)>,
    name: Seq<char>,
    subspace: SubspaceView,
)
    requires
        well_formed(space),
        subspace matches SubspaceView::Nested { space: inner } ==> well_formed(inner),
    ensures
        well_formed(put(space, name, subspace)),
{
    let after = put(space, name, subspace);
    lemma_put(space, name, subspace);
    lemma_index_of(space, name);
    assert forall|i: int| 0 <= i < after.len() implies match (#[trigger] after[i]).1 {
        SubspaceView::Nested { space: inner } => well_formed(inner),
        _ => true,
    } by {
        assert(after[i] == (name, subspace) || after[i] == space[i]);
    }
}

} // verus!
