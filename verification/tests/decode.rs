use irace_rs::decode::decode_raw;
use irace_rs::error::DecodeError;
use irace_rs::param_space::{ParamKind, ParamSpace};
use irace_rs::raw::{RawConfig, RawValue};
use irace_rs::values::encode_param;
use irace_rs::{convert_result, convert_results, Param, Params, Real};
use std::sync::Arc;

fn float(value: f64) -> Real {
    Real::from_bits(value.to_bits())
}

fn schema() -> ParamSpace {
    ParamSpace::new()
        .with_real("x", float(0.0), float(1.0), false)
        .with_integer("n", 1, 10, false)
        .with_bool("flag")
        .with_categorical_names("mode", vec!["a", "b", "c"])
}

fn config(entries: Vec<(&str, RawValue)>) -> RawConfig {
    let mut config = RawConfig::new();
    for (name, value) in entries {
        config.push(name, value);
    }
    config
}

fn entries(params: &Params) -> Vec<(String, Param)> {
    (0..params.len())
        .map(|i| {
            let (name, value) = params.get_index(i).unwrap();
            (name.clone(), value.clone())
        })
        .collect()
}

#[test]
fn configuration_decodes_to_typed_values() {
    let raw = config(vec![
        ("x", RawValue::Float(float(0.5))),
        ("n", RawValue::Integer(3)),
        ("flag", RawValue::Bool(true)),
        ("mode", RawValue::Integer(1)),
    ]);
    let params = Params::from_dict(&raw, &schema()).unwrap();
    assert_eq!(params.len(), 4);
    assert_eq!(params.get("x"), Some(&Param::Real(float(0.5))));
    match params.get("x") {
        Some(Param::Real(value)) => assert_eq!(f64::from_bits(value.to_bits()), 0.5_f64),
        other => panic!("not a real value: {:?}", other),
    }
    assert_eq!(params.get("n"), Some(&Param::Integer(3_u32)));
    assert_eq!(params.get("flag"), Some(&Param::Bool(true)));
    assert_eq!(params.get("mode"), Some(&Param::Text("b".to_string())));
    assert_eq!(params.get("other"), None);
}

#[test]
fn configuration_with_an_index_out_of_range_fails() {
    let raw = config(vec![
        ("x", RawValue::Float(float(0.5))),
        ("n", RawValue::Integer(3)),
        ("flag", RawValue::Bool(true)),
        ("mode", RawValue::Integer(5)),
    ]);
    assert_eq!(
        Params::from_dict(&raw, &schema()),
        Err(DecodeError::IndexOutOfRange { name: "mode".to_string(), index: 5, count: 3 })
    );
}

#[test]
fn decoded_parameters_keep_the_order_of_the_configuration() {
    let raw = config(vec![
        ("mode", RawValue::Integer(2)),
        ("x", RawValue::Float(float(0.25))),
    ]);
    let params = Params::from_dict(&raw, &schema()).unwrap();
    assert_eq!(
        entries(&params),
        vec![
            ("mode".to_string(), Param::text("c")),
            ("x".to_string(), Param::Real(float(0.25))),
        ]
    );
    assert_eq!(params.get_index(2), None);
}

#[test]
fn empty_configuration_decodes_to_no_parameters() {
    let params = Params::from_dict(&RawConfig::new(), &schema()).unwrap();
    assert_eq!(params.len(), 0);
}

#[test]
fn unknown_name_fails_with_unknown_parameter() {
    let raw = config(vec![("n", RawValue::Integer(3)), ("y", RawValue::Integer(1))]);
    assert_eq!(
        Params::from_dict(&raw, &schema()),
        Err(DecodeError::UnknownParameter { name: "y".to_string() })
    );
}

#[test]
fn index_equal_to_the_variant_count_is_out_of_range() {
    let raw = config(vec![("mode", RawValue::Integer(3))]);
    assert_eq!(
        Params::from_dict(&raw, &schema()),
        Err(DecodeError::IndexOutOfRange { name: "mode".to_string(), index: 3, count: 3 })
    );
    let huge = config(vec![("mode", RawValue::Integer(i128::MAX))]);
    assert_eq!(
        Params::from_dict(&huge, &schema()),
        Err(DecodeError::IndexOutOfRange { name: "mode".to_string(), index: i128::MAX, count: 3 })
    );
    let last = config(vec![("mode", RawValue::Integer(2))]);
    assert_eq!(Params::from_dict(&last, &schema()).unwrap().get("mode"), Some(&Param::text("c")));
}

#[test]
fn wrong_kind_fails_with_type_mismatch_and_the_expected_kind() {
    let cases = vec![
        ("x", RawValue::Integer(1), ParamKind::Real),
        ("x", RawValue::Bool(true), ParamKind::Real),
        ("x", RawValue::Text("0.5".to_string()), ParamKind::Real),
        ("n", RawValue::Float(float(3.0)), ParamKind::Integer),
        ("n", RawValue::Integer(-1), ParamKind::Integer),
        ("n", RawValue::Integer(u32::MAX as i128 + 1), ParamKind::Integer),
        ("n", RawValue::Other, ParamKind::Integer),
        ("flag", RawValue::Integer(1), ParamKind::Bool),
        ("flag", RawValue::Text("true".to_string()), ParamKind::Bool),
        ("mode", RawValue::Text("b".to_string()), ParamKind::Categorical),
        ("mode", RawValue::Integer(-1), ParamKind::Categorical),
        ("mode", RawValue::Float(float(1.0)), ParamKind::Categorical),
        ("mode", RawValue::Bool(false), ParamKind::Categorical),
    ];
    for (name, value, expected) in cases {
        let raw = config(vec![(name, value)]);
        assert_eq!(
            Params::from_dict(&raw, &schema()),
            Err(DecodeError::TypeMismatch { name: name.to_string(), expected })
        );
    }
}

#[test]
fn integer_parameter_takes_the_whole_unsigned_range() {
    let raw = config(vec![("n", RawValue::Integer(u32::MAX as i128))]);
    assert_eq!(Params::from_dict(&raw, &schema()).unwrap().get("n"), Some(&Param::Integer(u32::MAX)));
    let zero = config(vec![("n", RawValue::Integer(0))]);
    assert_eq!(Params::from_dict(&zero, &schema()).unwrap().get("n"), Some(&Param::Integer(0)));
}

#[test]
fn nested_declaration_fails_with_unsupported_nested() {
    let mut space = ParamSpace::new().with_nested("a", ParamSpace::new().with_bool("b"));
    let nested = config(vec![("a", RawValue::Bool(true))]);
    assert_eq!(
        Params::from_dict(&nested, &space),
        Err(DecodeError::UnsupportedNested { name: "a".to_string() })
    );
    let flat = config(vec![("a.b", RawValue::Bool(true))]);
    assert_eq!(
        Params::from_dict(&flat, &space),
        Err(DecodeError::UnknownParameter { name: "a.b".to_string() })
    );
    assert!(space.flatten());
    assert_eq!(Params::from_dict(&flat, &space).unwrap().get("a.b"), Some(&Param::Bool(true)));
}

#[test]
fn first_error_in_the_order_of_the_configuration_ends_the_decoding() {
    let raw = config(vec![
        ("x", RawValue::Float(float(0.5))),
        ("flag", RawValue::Integer(1)),
        ("unknown", RawValue::Integer(1)),
        ("mode", RawValue::Integer(9)),
    ]);
    assert_eq!(
        Params::from_dict(&raw, &schema()),
        Err(DecodeError::TypeMismatch { name: "flag".to_string(), expected: ParamKind::Bool })
    );
}

#[test]
fn a_name_given_twice_keeps_its_place_and_takes_the_later_value() {
    let raw = config(vec![
        ("n", RawValue::Integer(1)),
        ("flag", RawValue::Bool(false)),
        ("n", RawValue::Integer(2)),
    ]);
    let params = Params::from_dict(&raw, &schema()).unwrap();
    assert_eq!(
        entries(&params),
        vec![("n".to_string(), Param::Integer(2)), ("flag".to_string(), Param::Bool(false))]
    );
}

#[test]
fn decode_raw_decodes_one_value() {
    let space = schema();
    let name = "mode".to_string();
    let subspace = space.get_raw("mode").unwrap();
    assert_eq!(decode_raw(&name, subspace, &RawValue::Integer(0)), Ok(Param::text("a")));
    assert_eq!(
        decode_raw(&name, subspace, &RawValue::Other),
        Err(DecodeError::TypeMismatch { name: "mode".to_string(), expected: ParamKind::Categorical })
    );
}

#[test]
fn params_insert_replaces_in_place_or_appends() {
    let mut params = Params::new();
    params.insert("a".to_string(), Param::Integer(1));
    params.insert("b".to_string(), Param::Integer(2));
    params.insert("a".to_string(), Param::Integer(3));
    assert_eq!(params.len(), 2);
    assert_eq!(
        entries(&params),
        vec![("a".to_string(), Param::Integer(3)), ("b".to_string(), Param::Integer(2))]
    );
    let copy = params.clone();
    assert_eq!(copy, params);
}

#[test]
fn round_trip_returns_the_same_values_for_every_kind() {
    let space = schema();
    let mut params = Params::new();
    params.insert("x".to_string(), Param::Real(float(0.75)));
    params.insert("n".to_string(), Param::Integer(10));
    params.insert("flag".to_string(), Param::Bool(false));
    params.insert("mode".to_string(), Param::text("c"));
    let raw = space.encode_params(&params).unwrap();
    assert_eq!(
        raw,
        config(vec![
            ("x", RawValue::Float(float(0.75))),
            ("n", RawValue::Integer(10)),
            ("flag", RawValue::Bool(false)),
            ("mode", RawValue::Integer(2)),
        ])
    );
    assert_eq!(Params::from_dict(&raw, &space), Ok(params));
}

#[test]
fn encode_params_rejects_what_does_not_conform() {
    let space = schema().with_nested("sub", ParamSpace::new());
    let mut unknown = Params::new();
    unknown.insert("y".to_string(), Param::Integer(1));
    assert_eq!(
        space.encode_params(&unknown),
        Err(DecodeError::UnknownParameter { name: "y".to_string() })
    );
    let mut wrong_kind = Params::new();
    wrong_kind.insert("x".to_string(), Param::Integer(1));
    assert_eq!(
        space.encode_params(&wrong_kind),
        Err(DecodeError::TypeMismatch { name: "x".to_string(), expected: ParamKind::Real })
    );
    let mut no_variant = Params::new();
    no_variant.insert("mode".to_string(), Param::text("d"));
    assert_eq!(
        space.encode_params(&no_variant),
        Err(DecodeError::TypeMismatch { name: "mode".to_string(), expected: ParamKind::Categorical })
    );
    let mut nested = Params::new();
    nested.insert("sub".to_string(), Param::Bool(true));
    assert_eq!(
        space.encode_params(&nested),
        Err(DecodeError::UnsupportedNested { name: "sub".to_string() })
    );
}

#[test]
fn encode_param_gives_the_index_of_the_first_equal_variant() {
    let space = ParamSpace::new().with_categorical(
        "code",
        vec![Param::Integer(4), Param::Integer(7), Param::Integer(7)],
    );
    let name = "code".to_string();
    let subspace = space.get_raw("code").unwrap();
    assert_eq!(encode_param(&name, subspace, &Param::Integer(7)), Ok(RawValue::Integer(1)));
    assert_eq!(encode_param(&name, subspace, &Param::Integer(4)), Ok(RawValue::Integer(0)));
}

#[test]
fn convert_result_decodes_every_configuration_in_order() {
    let space = schema();
    let result = vec![
        config(vec![("n", RawValue::Integer(2))]),
        config(vec![("n", RawValue::Integer(1))]),
        config(vec![("n", RawValue::Integer(2))]),
    ];
    let list = convert_result(&result, &space).unwrap();
    let values: Vec<Option<&Param>> = list.iter().map(|params| params.get("n")).collect();
    assert_eq!(
        values,
        vec![Some(&Param::Integer(2)), Some(&Param::Integer(1)), Some(&Param::Integer(2))]
    );
    assert_eq!(convert_result(&Vec::new(), &space), Ok(vec![]));
}

#[test]
fn convert_result_fails_with_the_first_error() {
    let space = schema();
    let result = vec![
        config(vec![("n", RawValue::Integer(2))]),
        config(vec![("mode", RawValue::Integer(3))]),
        config(vec![("zzz", RawValue::Integer(2))]),
    ];
    assert_eq!(
        convert_result(&result, &space),
        Err(DecodeError::IndexOutOfRange { name: "mode".to_string(), index: 3, count: 3 })
    );
}

#[test]
fn convert_results_decodes_each_list_against_the_space_of_its_run() {
    let first = Arc::new(ParamSpace::new().with_bool("flag"));
    let second = Arc::new(ParamSpace::new().with_integer("n", 0, 9, false));
    let results = vec![
        vec![config(vec![("flag", RawValue::Bool(true))])],
        vec![config(vec![("n", RawValue::Integer(4))]), config(vec![("n", RawValue::Integer(5))])],
    ];
    let lists = convert_results(&results, &vec![first.clone(), second.clone()]).unwrap();
    assert_eq!(lists.len(), 2);
    assert_eq!(lists[0].len(), 1);
    assert_eq!(lists[0][0].get("flag"), Some(&Param::Bool(true)));
    assert_eq!(lists[1].len(), 2);
    assert_eq!(lists[1][1].get("n"), Some(&Param::Integer(5)));
    let swapped = convert_results(&results, &vec![second, first.clone()]);
    assert_eq!(swapped, Err(DecodeError::UnknownParameter { name: "flag".to_string() }));
    let fewer = convert_results(&results, &vec![first]).unwrap();
    assert_eq!(fewer.len(), 1);
}

#[test]
fn decode_error_messages_name_the_parameter() {
    assert_eq!(
        DecodeError::UnknownParameter { name: "y".to_string() }.message(),
        "unknown parameter name: y"
    );
    assert_eq!(
        DecodeError::TypeMismatch { name: "n".to_string(), expected: ParamKind::Integer }.message(),
        "expected an unsigned integer for parameter: n"
    );
    assert_eq!(
        DecodeError::IndexOutOfRange { name: "mode".to_string(), index: 5, count: 3 }.message(),
        "variant index out of range for parameter: mode"
    );
    assert_eq!(
        DecodeError::UnsupportedNested { name: "a".to_string() }.message(),
        "nested parameter space not supported: a"
    );
    assert_eq!(DecodeError::UnknownParameter { name: "y".to_string() }.name(), "y");
}
