use irace_rs::error::SpaceError;
use irace_rs::collision::find_repeat;
use irace_rs::param_space::{ParamKind, ParamSpace, ParamSubspace};
use irace_rs::Real;

fn unit() -> (Real, Real) {
    (Real::from_bits(0.0f64.to_bits()), Real::from_bits(1.0f64.to_bits()))
}

fn keys(space: &ParamSpace) -> Vec<String> {
    (0..space.len()).map(|i| space.get_index(i).unwrap().0.clone()).collect()
}

#[test]
fn flatten_replaces_nested_space_in_place() {
    let (low, high) = unit();
    let mut space = ParamSpace::new()
        .with_real("a", low, high, false)
        .with_nested("n", ParamSpace::new().with_real("x", low, high, false).with_bool("y"))
        .with_real("b", low, high, false);
    assert!(space.flatten());
    assert_eq!(keys(&space), vec!["a", "n.x", "n.y", "b"]);
    assert_eq!(space.get_raw("n.x").unwrap().kind(), ParamKind::Real);
    assert_eq!(space.get_raw("n.y").unwrap().kind(), ParamKind::Bool);
    assert!(space.get_raw("n").is_none());
}

#[test]
fn flatten_keeps_the_declaration_under_its_own_name() {
    let mut space = ParamSpace::new().with_nested("outer", ParamSpace::new().with_integer("inner_key", 1, 2, true));
    assert!(space.flatten());
    match space.get_raw("outer.inner_key").unwrap() {
        ParamSubspace::Integer(numerical) => {
            assert_eq!(numerical.name, "inner_key");
            assert_eq!((numerical.lower, numerical.upper, numerical.log), (1, 2, true));
        }
        other => panic!("not an integer parameter: {:?}", other),
    }
}

#[test]
fn flatten_without_nested_spaces_is_a_no_op() {
    let (low, high) = unit();
    let mut space = ParamSpace::new()
        .with_real("x", low, high, false)
        .with_integer("n", 1, 10, false)
        .with_bool("flag")
        .with_categorical_names("mode", vec!["a", "b", "c"]);
    assert!(!space.flatten());
    assert_eq!(keys(&space), vec!["x", "n", "flag", "mode"]);
    assert_eq!(space.try_flatten(), Ok(false));
    assert_eq!(keys(&space), vec!["x", "n", "flag", "mode"]);
    let mut empty = ParamSpace::new();
    assert!(!empty.flatten());
    assert_eq!(empty.len(), 0);
}

#[test]
fn flatten_is_idempotent() {
    let mut space = ParamSpace::new()
        .with_nested("a", ParamSpace::new().with_bool("x").with_bool("y"))
        .with_bool("b");
    assert!(space.flatten());
    let once = keys(&space);
    assert!(!space.flatten());
    assert_eq!(keys(&space), once);
}

#[test]
fn flatten_resolves_deep_nesting_in_one_call() {
    let innermost = ParamSpace::new().with_bool("z");
    let inner = ParamSpace::new().with_nested("m", innermost).with_bool("y");
    let mut space = ParamSpace::new().with_nested("a", inner).with_nested("e", ParamSpace::new());
    assert!(space.flatten());
    assert_eq!(keys(&space), vec!["a.m.z", "a.y"]);
    for i in 0..space.len() {
        assert!(!space.get_index(i).unwrap().1.is_nested());
    }
}

#[test]
fn flatten_produces_exactly_the_prefixed_keys_of_the_nested_space() {
    let inner = ParamSpace::new().with_bool("p").with_integer("q", 0, 1, false).with_bool("r");
    let inner_keys = keys(&inner);
    let mut space = ParamSpace::new().with_nested("a", inner);
    assert_eq!(space.flat_names(), vec!["a.p", "a.q", "a.r"]);
    assert!(space.flatten());
    let expected: Vec<String> = inner_keys.iter().map(|key| format!("a.{key}")).collect();
    assert_eq!(keys(&space), expected);
}

#[test]
fn flat_names_leaves_the_space_as_it_is() {
    let space = ParamSpace::new()
        .with_bool("a")
        .with_nested("n", ParamSpace::new().with_bool("x"));
    assert_eq!(space.flat_names(), vec!["a", "n.x"]);
    assert_eq!(keys(&space), vec!["a", "n"]);
}

#[test]
fn try_flatten_detects_two_nested_spaces_with_the_same_flat_key() {
    let first = ParamSpace::new().with_bool("b.c");
    let second = ParamSpace::new().with_bool("c");
    let mut space = ParamSpace::new()
        .with_bool("first")
        .with_nested("a", first)
        .with_nested("a.b", second);
    assert_eq!(
        space.try_flatten(),
        Err(SpaceError::FlattenKeyCollision { key: "a.b.c".to_string() })
    );
    assert_eq!(keys(&space), vec!["first", "a", "a.b"]);
    assert!(space.get_raw("a").unwrap().is_nested());
}

#[test]
fn try_flatten_detects_a_flat_key_that_a_declaration_holds_already() {
    let mut space = ParamSpace::new()
        .with_nested("a", ParamSpace::new().with_bool("b"))
        .with_integer("a.b", 1, 2, false);
    assert_eq!(
        space.try_flatten(),
        Err(SpaceError::FlattenKeyCollision { key: "a.b".to_string() })
    );
    assert_eq!(space.len(), 2);
}

#[test]
fn try_flatten_detects_a_collision_inside_a_nested_space() {
    let inner = ParamSpace::new()
        .with_nested("x", ParamSpace::new().with_bool("y.z"))
        .with_nested("x.y", ParamSpace::new().with_bool("z"));
    let mut space = ParamSpace::new().with_nested("top", inner).with_bool("other");
    assert_eq!(
        space.try_flatten(),
        Err(SpaceError::FlattenKeyCollision { key: "top.x.y.z".to_string() })
    );
}

#[test]
fn try_flatten_flattens_where_nothing_collides() {
    let mut space = ParamSpace::new()
        .with_nested("a", ParamSpace::new().with_bool("b"))
        .with_nested("a.b", ParamSpace::new().with_bool("c"));
    assert_eq!(space.try_flatten(), Ok(true));
    assert_eq!(keys(&space), vec!["a.b", "a.b.c"]);
}

#[test]
fn find_repeat_finds_the_first_name_that_stood_before() {
    let list: Vec<String> = ["a", "b", "c", "b", "a"].iter().map(|s| s.to_string()).collect();
    assert_eq!(find_repeat(&list), Some(3));
    let distinct: Vec<String> = ["a", "b", "c"].iter().map(|s| s.to_string()).collect();
    assert_eq!(find_repeat(&distinct), None);
    assert_eq!(find_repeat(&Vec::new()), None);
}

#[test]
fn collision_message_names_the_key() {
    let error = SpaceError::FlattenKeyCollision { key: "a.b".to_string() };
    assert_eq!(error.message(), "flat key is already present: a.b");
}
