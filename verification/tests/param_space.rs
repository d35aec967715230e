use irace_rs::param_space::{
    DiscreteSubspace, NumericalSubspace, ParamKind, ParamSpace, ParamSubspace,
};
use irace_rs::{Param, Real};

fn number(value: f64) -> Real {
    Real::from_bits(value.to_bits())
}

fn names(space: &ParamSpace) -> Vec<String> {
    (0..space.len()).map(|i| space.get_index(i).unwrap().0.clone()).collect()
}

#[test]
fn real_number_keeps_its_bits() {
    let half = number(0.5);
    assert_eq!(half.to_bits(), 0x3FE0_0000_0000_0000);
    assert_eq!(f64::from_bits(half.to_bits()), 0.5);
    assert_eq!(half, Real { bits: 0x3FE0_0000_0000_0000 });
    assert_ne!(number(0.0), number(-0.0));
}

#[test]
fn numerical_subspace_new_keeps_fields() {
    let subspace = NumericalSubspace::new("population_size", 5u32, 64u32, true);
    assert_eq!(subspace.name, "population_size");
    assert_eq!(subspace.lower, 5);
    assert_eq!(subspace.upper, 64);
    assert!(subspace.log);
}

#[test]
fn discrete_subspace_new_keeps_order() {
    let subspace = DiscreteSubspace::new("option", vec!["yes", "no", "maybe"]);
    assert_eq!(subspace.name, "option");
    assert_eq!(subspace.variants, vec!["yes", "no", "maybe"]);
}

#[test]
fn new_space_is_empty() {
    let space = ParamSpace::new();
    assert_eq!(space.len(), 0);
    assert!(space.get_raw("x").is_none());
    assert!(space.get_index(0).is_none());
    assert_eq!(ParamSpace::default().len(), 0);
}

#[test]
fn add_raw_appends_and_replaces_in_place() {
    let mut space = ParamSpace::new();
    space.add_raw(
        "x".to_string(),
        ParamSubspace::Real(NumericalSubspace::new("x", number(0.0), number(1.0), false)),
    );
    space.add_raw(
        "flag".to_string(),
        ParamSubspace::Bool(DiscreteSubspace::new("flag", vec![true, false])),
    );
    assert_eq!(space.len(), 2);
    assert_eq!(space.get_raw("x").unwrap().kind(), ParamKind::Real);
    space.add_raw(
        "x".to_string(),
        ParamSubspace::Integer(NumericalSubspace::new("x", 1, 10, false)),
    );
    assert_eq!(space.len(), 2);
    assert_eq!(names(&space), vec!["x", "flag"]);
    assert_eq!(space.get_index(0).unwrap().1.kind(), ParamKind::Integer);
    assert_eq!(space.get_index(1).unwrap().1.kind(), ParamKind::Bool);
    assert!(space.get_index(2).is_none());
}

#[test]
fn add_methods_declare_each_kind() {
    let mut space = ParamSpace::new();
    space
        .add_real("initial_temp", number(0.02), number(5e4), true)
        .add_bool("no_local_search")
        .add_integer("population_size", 5, 64, false)
        .add_categorical("code", vec![Param::Integer(7), Param::Integer(9)])
        .add_categorical_names("option", vec!["yes", "no"])
        .add_nested("0", ParamSpace::new().with_bool("inner"));
    assert_eq!(
        names(&space),
        vec!["initial_temp", "no_local_search", "population_size", "code", "option", "0"]
    );
    match space.get_raw("initial_temp").unwrap() {
        ParamSubspace::Real(numerical) => {
            assert_eq!(numerical.name, "initial_temp");
            assert_eq!(f64::from_bits(numerical.lower.to_bits()), 0.02);
            assert_eq!(f64::from_bits(numerical.upper.to_bits()), 5e4);
            assert!(numerical.log);
        }
        other => panic!("not a real parameter: {:?}", other),
    }
    match space.get_raw("no_local_search").unwrap() {
        ParamSubspace::Bool(discrete) => {
            assert_eq!(discrete.name, "no_local_search");
            assert_eq!(discrete.variants, vec![true, false]);
        }
        other => panic!("not a boolean parameter: {:?}", other),
    }
    match space.get_raw("population_size").unwrap() {
        ParamSubspace::Integer(numerical) => {
            assert_eq!((numerical.lower, numerical.upper, numerical.log), (5, 64, false));
        }
        other => panic!("not an integer parameter: {:?}", other),
    }
    match space.get_raw("code").unwrap() {
        ParamSubspace::Categorical(discrete) => {
            assert_eq!(discrete.variants, vec![Param::Integer(7), Param::Integer(9)]);
        }
        other => panic!("not a categorical parameter: {:?}", other),
    }
    match space.get_raw("option").unwrap() {
        ParamSubspace::Categorical(discrete) => {
            assert_eq!(discrete.name, "option");
            assert_eq!(discrete.variants, vec![Param::text("yes"), Param::text("no")]);
        }
        other => panic!("not a categorical parameter: {:?}", other),
    }
    match space.get_raw("0").unwrap() {
        ParamSubspace::Nested(inner) => assert_eq!(names(inner), vec!["inner"]),
        other => panic!("not a nested space: {:?}", other),
    }
}

#[test]
fn with_methods_build_the_same_space_as_add_methods() {
    let space = ParamSpace::new()
        .with_real("x", number(0.0), number(1.0), false)
        .with_integer("n", 1, 10, false)
        .with_bool("flag")
        .with_categorical("code", vec![Param::Bool(true)])
        .with_categorical_names("mode", vec!["a", "b", "c"])
        .with_nested("sub", ParamSpace::new());
    assert_eq!(names(&space), vec!["x", "n", "flag", "code", "mode", "sub"]);
    let kinds: Vec<ParamKind> = (0..space.len()).map(|i| space.get_index(i).unwrap().1.kind()).collect();
    assert_eq!(
        kinds,
        vec![
            ParamKind::Real,
            ParamKind::Integer,
            ParamKind::Bool,
            ParamKind::Categorical,
            ParamKind::Categorical,
            ParamKind::Nested
        ]
    );
}

#[test]
fn declaring_a_name_again_replaces_the_declaration() {
    let space = ParamSpace::new()
        .with_categorical_names("option", vec!["one", "two", "three"])
        .with_bool("flag")
        .with_categorical_names("option", vec!["yes", "no"]);
    assert_eq!(names(&space), vec!["option", "flag"]);
    match space.get_raw("option").unwrap() {
        ParamSubspace::Categorical(discrete) => {
            assert_eq!(discrete.variants, vec![Param::text("yes"), Param::text("no")]);
        }
        other => panic!("not a categorical parameter: {:?}", other),
    }
}

#[test]
fn is_nested_and_into_nested_tell_nested_spaces_apart() {
    let nested = ParamSubspace::Nested(ParamSpace::new().with_bool("flag"));
    let leaf = ParamSubspace::Bool(DiscreteSubspace::new("flag", vec![true, false]));
    assert!(nested.is_nested());
    assert!(!leaf.is_nested());
    assert_eq!(nested.kind(), ParamKind::Nested);
    let inner = nested.into_nested().unwrap();
    assert_eq!(names(&inner), vec!["flag"]);
    assert!(leaf.into_nested().is_none());
}

#[test]
fn entries_go_in_and_come_out_in_order() {
    let space = ParamSpace::from_entries(vec![
        (
            "b".to_string(),
            ParamSubspace::Bool(DiscreteSubspace::new("b", vec![true, false])),
        ),
        (
            "a".to_string(),
            ParamSubspace::Integer(NumericalSubspace::new("a", 0, 1, false)),
        ),
        (
            "b".to_string(),
            ParamSubspace::Integer(NumericalSubspace::new("b", 2, 3, false)),
        ),
    ]);
    assert_eq!(names(&space), vec!["b", "a"]);
    let entries = space.into_entries();
    assert_eq!(entries.len(), 2);
    assert_eq!(entries[0].0, "b");
    assert_eq!(entries[0].1.kind(), ParamKind::Integer);
    assert_eq!(entries[1].0, "a");
}

#[test]
fn clone_keeps_the_declarations() {
    let space = ParamSpace::new().with_bool("flag").with_integer("n", 1, 2, true);
    let copy = space.clone();
    assert_eq!(names(&copy), names(&space));
    assert_eq!(copy.get_raw("n").unwrap().kind(), ParamKind::Integer);
}

#[test]
fn param_same_compares_kind_and_content() {
    assert!(Param::text("a").same(&Param::text("a")));
    assert!(!Param::text("a").same(&Param::text("b")));
    assert!(!Param::Integer(1).same(&Param::Bool(true)));
    assert!(Param::Real(number(0.5)).same(&Param::Real(number(0.5))));
    assert!(!Param::Real(number(0.5)).same(&Param::Real(number(0.25))));
    assert!(Param::Bool(false).same(&Param::Bool(false)));
    assert_eq!(Param::text("a").clone(), Param::Text("a".to_string()));
}
