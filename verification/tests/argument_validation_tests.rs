use sazid::arguments::{
    argument_error_message, get_validated_argument, is_valid_type, path_candidates, pattern_outcome,
    resolve_path_under,
    validate_arguments, ArgumentError, ArrayProperties, Expected, FunctionProperty,
    IntegerProperties, PropertyType, ValidatedArg,
};
use sazid::json::{JsonNumber, JsonValue};

fn prop(name: &str, required: bool, property_type: PropertyType) -> FunctionProperty {
    FunctionProperty {
        name: name.to_string(),
        required,
        property_type,
        description: None,
        enum_values: None,
    }
}

fn integer(n: i64) -> JsonValue {
    JsonValue::Number(JsonNumber { as_i64: Some(n), text: n.to_string() })
}

fn string(s: &str) -> JsonValue {
    JsonValue::String(s.to_string())
}

fn arg(name: &str, v: JsonValue) -> (String, JsonValue) {
    (name.to_string(), v)
}

fn integer_type(minimum: Option<i64>, maximum: Option<i64>) -> PropertyType {
    PropertyType::Integer {
        type_: "integer".to_string(),
        properties: IntegerProperties { minimum, maximum },
    }
}

fn array_of(items: PropertyType, min_items: Option<usize>, max_items: Option<usize>) -> PropertyType {
    PropertyType::Array {
        type_: "array".to_string(),
        properties: ArrayProperties { items: Box::new(items), min_items, max_items },
    }
}

fn range_of(items: PropertyType, min_items: Option<usize>, max_items: Option<usize>) -> PropertyType {
    PropertyType::Range {
        type_: "array".to_string(),
        properties: ArrayProperties { items: Box::new(items), min_items, max_items },
    }
}

#[test]
fn validates_string_and_boolean_arguments() {
    let props = vec![prop("text", true, PropertyType::String), prop("flag", false, PropertyType::Boolean)];
    let args = vec![arg("flag", JsonValue::Bool(true)), arg("text", string("hi"))];
    let v = validate_arguments(args, &props, None, &vec![]).unwrap();
    assert_eq!(v.len(), 2);
    assert_eq!(v[0].0, "text");
    assert!(matches!(&v[0].1, Some(ValidatedArg::String(s)) if s == "hi"));
    assert_eq!(v[1].0, "flag");
    assert!(matches!(&v[1].1, Some(ValidatedArg::Bool(true))));
}

#[test]
fn missing_optional_argument_is_none() {
    let props = vec![prop("flag", false, PropertyType::Boolean)];
    let v = validate_arguments(vec![], &props, None, &vec![]).unwrap();
    assert_eq!(v.len(), 1);
    assert!(v[0].1.is_none());
    assert!(get_validated_argument(&v, "flag").is_none());
}

#[test]
fn missing_required_argument_is_refused() {
    let props = vec![prop("text", true, PropertyType::String)];
    match validate_arguments(vec![], &props, None, &vec![]) {
        Err(ArgumentError::MissingRequired { name }) => assert_eq!(name, "text"),
        other => panic!("unexpected {:?}", other),
    }
}

#[test]
fn wrong_type_is_refused() {
    let props = vec![prop("text", true, PropertyType::String)];
    match validate_arguments(vec![arg("text", integer(3))], &props, None, &vec![]) {
        Err(ArgumentError::InvalidType { name, expected, .. }) => {
            assert_eq!(name, "text");
            assert_eq!(expected, Expected::String);
        },
        other => panic!("unexpected {:?}", other),
    }
}

#[test]
fn null_property_accepts_null_only() {
    let props = vec![prop("nothing", true, PropertyType::Null)];
    let v = validate_arguments(vec![arg("nothing", JsonValue::Null)], &props, None, &vec![]).unwrap();
    assert!(matches!(&v[0].1, Some(ValidatedArg::Null)));
    let props = vec![prop("nothing", true, PropertyType::Null)];
    assert!(matches!(
        validate_arguments(vec![arg("nothing", JsonValue::Bool(false))], &props, None, &vec![]),
        Err(ArgumentError::InvalidType { expected: Expected::Null, .. })
    ));
}

#[test]
fn integer_bounds_are_checked() {
    let props = vec![prop("count", true, integer_type(Some(1), Some(10)))];
    let v = validate_arguments(vec![arg("count", integer(5))], &props, None, &vec![]).unwrap();
    assert!(matches!(&v[0].1, Some(ValidatedArg::Integer(5))));
    match validate_arguments(vec![arg("count", integer(0))], &props, None, &vec![]) {
        Err(ArgumentError::BelowMinimum { name, minimum, found }) => {
            assert_eq!((name.as_str(), minimum, found), ("count", 1, 0));
        },
        other => panic!("unexpected {:?}", other),
    }
    match validate_arguments(vec![arg("count", integer(11))], &props, None, &vec![]) {
        Err(ArgumentError::AboveMaximum { name, maximum, found }) => {
            assert_eq!((name.as_str(), maximum, found), ("count", 10, 11));
        },
        other => panic!("unexpected {:?}", other),
    }
    let fractional = JsonValue::Number(JsonNumber { as_i64: None, text: "1.5".to_string() });
    assert!(matches!(
        validate_arguments(vec![arg("count", fractional)], &props, None, &vec![]),
        Err(ArgumentError::InvalidType { expected: Expected::Integer, .. })
    ));
}

#[test]
fn array_length_and_items_are_checked() {
    let props = vec![prop("names", true, array_of(PropertyType::String, Some(1), Some(2)))];
    let ok = validate_arguments(
        vec![arg("names", JsonValue::Array(vec![string("a"), string("b")]))],
        &props,
        None,
        &vec![],
    )
    .unwrap();
    assert!(matches!(&ok[0].1, Some(ValidatedArg::Array(items)) if items.len() == 2));
    match validate_arguments(vec![arg("names", JsonValue::Array(vec![]))], &props, None, &vec![]) {
        Err(ArgumentError::ArrayTooShort { minimum, found, .. }) => assert_eq!((minimum, found), (1, 0)),
        other => panic!("unexpected {:?}", other),
    }
    match validate_arguments(
        vec![arg("names", JsonValue::Array(vec![string("a"), string("b"), string("c")]))],
        &props,
        None,
        &vec![],
    ) {
        Err(ArgumentError::ArrayTooLong { maximum, found, .. }) => assert_eq!((maximum, found), (2, 3)),
        other => panic!("unexpected {:?}", other),
    }
    match validate_arguments(
        vec![arg("names", JsonValue::Array(vec![string("a"), integer(1)]))],
        &props,
        None,
        &vec![],
    ) {
        Err(ArgumentError::InvalidArrayItem { name, expected, .. }) => {
            assert_eq!(name, "names");
            assert!(matches!(expected, PropertyType::String));
        },
        other => panic!("unexpected {:?}", other),
    }
}

#[test]
fn range_items_are_bounded_integers() {
    let props = vec![prop("id", true, range_of(integer_type(Some(0), Some(255)), Some(2), Some(2)))];
    let ok = validate_arguments(
        vec![arg("id", JsonValue::Array(vec![integer(0), integer(255)]))],
        &props,
        None,
        &vec![],
    )
    .unwrap();
    assert!(matches!(&ok[0].1, Some(ValidatedArg::Range(v)) if v == &vec![0, 255]));
    match validate_arguments(vec![arg("id", JsonValue::Array(vec![integer(3), integer(256)]))], &props, None, &vec![]) {
        Err(ArgumentError::RangeItemAboveMaximum { maximum, found, .. }) => {
            assert_eq!((maximum, found), (255, 256))
        },
        other => panic!("unexpected {:?}", other),
    }
    match validate_arguments(vec![arg("id", JsonValue::Array(vec![integer(-1), integer(2)]))], &props, None, &vec![]) {
        Err(ArgumentError::RangeItemBelowMinimum { minimum, found, .. }) => {
            assert_eq!((minimum, found), (0, -1))
        },
        other => panic!("unexpected {:?}", other),
    }
    assert!(matches!(
        validate_arguments(vec![arg("id", JsonValue::Array(vec![string("x"), integer(2)]))], &props, None, &vec![]),
        Err(ArgumentError::InvalidRangeItem { .. })
    ));
}

#[test]
fn valid_pattern_is_compiled() {
    let props = vec![prop("pattern", true, PropertyType::Pattern)];
    let v = validate_arguments(vec![arg("pattern", string("a+b"))], &props, None, &vec![]).unwrap();
    match &v[0].1 {
        Some(ValidatedArg::Pattern { source, regex }) => {
            assert_eq!(source, "a+b");
            assert!(regex.is_match("xaab"));
            assert!(!regex.is_match("b"));
        },
        other => panic!("unexpected {:?}", other),
    }
}

#[test]
fn invalid_pattern_is_refused_with_the_compiler_error() {
    let props = vec![prop("pattern", true, PropertyType::Pattern)];
    match validate_arguments(vec![arg("pattern", string("[Unclosed bracket"))], &props, None, &vec![]) {
        Err(ArgumentError::InvalidPattern { name, error }) => {
            assert_eq!(name, "pattern");
            assert_eq!(error, regex::Regex::new("[Unclosed bracket").unwrap_err().to_string());
        },
        other => panic!("unexpected {:?}", other),
    }
}

#[test]
fn pattern_outcome_follows_the_compiler_result() {
    let name = "pattern".to_string();
    let source = "x".to_string();
    match pattern_outcome(&name, &source, Err("bad".to_string())) {
        Err(ArgumentError::InvalidPattern { name, error }) => assert_eq!((name.as_str(), error.as_str()), ("pattern", "bad")),
        other => panic!("unexpected {:?}", other),
    }
    let ok = pattern_outcome(&name, &source, Ok(regex::Regex::new("x").unwrap())).unwrap();
    assert!(matches!(ok, Some(ValidatedArg::Pattern { ref source, .. }) if source == "x"));
}

#[test]
fn paths_resolve_against_the_workspace_root() {
    assert_eq!(resolve_path_under("/work", "src/main.rs"), "/work/src/main.rs");
    assert_eq!(resolve_path_under("/work/", "src"), "/work/src");
    assert_eq!(resolve_path_under("/work", "/etc/hosts"), "/etc/hosts");
    assert_eq!(resolve_path_under("", "src"), "src");
}

#[test]
fn path_argument_must_exist() {
    let props = vec![prop("path", true, PropertyType::PathBuf)];
    let args = vec![arg("path", string("src"))];
    let candidates = path_candidates(&args, &props, Some("/work"));
    assert_eq!(candidates, vec!["/work/src".to_string()]);
    let v = validate_arguments(args, &props, Some("/work"), &candidates).unwrap();
    assert!(matches!(&v[0].1, Some(ValidatedArg::Path(p)) if p == "/work/src"));
    match validate_arguments(vec![arg("path", string("missing"))], &props, Some("/work"), &candidates) {
        Err(ArgumentError::PathDoesNotExist { name, path }) => {
            assert_eq!((name.as_str(), path.as_str()), ("path", "/work/missing"))
        },
        other => panic!("unexpected {:?}", other),
    }
    assert!(matches!(
        validate_arguments(vec![arg("path", string("src"))], &props, None, &candidates),
        Err(ArgumentError::WorkspaceRootRequired { .. })
    ));
}

#[test]
fn first_failing_property_decides_the_error() {
    let props = vec![prop("a", true, PropertyType::String), prop("b", true, PropertyType::Boolean)];
    match validate_arguments(vec![arg("b", integer(1))], &props, None, &vec![]) {
        Err(ArgumentError::MissingRequired { name }) => assert_eq!(name, "a"),
        other => panic!("unexpected {:?}", other),
    }
}

#[test]
fn lookup_returns_the_last_entry_for_a_name() {
    let props = vec![prop("x", true, PropertyType::String), prop("x", true, PropertyType::String)];
    let v = validate_arguments(vec![arg("x", string("v"))], &props, None, &vec![]).unwrap();
    assert_eq!(v.len(), 2);
    assert!(matches!(get_validated_argument(&v, "x"), Some(ValidatedArg::String(s)) if s == "v"));
    assert!(get_validated_argument(&v, "y").is_none());
}

#[test]
fn item_type_checks() {
    assert!(is_valid_type(&integer(1), &PropertyType::Number));
    assert!(is_valid_type(&integer(1), &integer_type(None, None)));
    assert!(!is_valid_type(&string("1"), &PropertyType::Number));
    assert!(is_valid_type(&string("p"), &PropertyType::PathBuf));
    assert!(is_valid_type(&JsonValue::Null, &PropertyType::Null));
    assert!(!is_valid_type(&JsonValue::Bool(true), &PropertyType::String));
}

#[test]
fn argument_error_messages() {
    let name = "n".to_string();
    assert_eq!(
        argument_error_message(
            &ArgumentError::InvalidType { name: name.clone(), expected: Expected::RegexPattern, found: integer(3) },
            "Number(3)",
            ""
        ),
        "Invalid type for argument 'n'. Expected: string (regex pattern), Found: Number(3)"
    );
    assert_eq!(
        argument_error_message(&ArgumentError::BelowMinimum { name: name.clone(), minimum: -5, found: i64::MIN }, "", ""),
        "Value for argument 'n' is below the minimum. Expected: -5, Found: -9223372036854775808"
    );
    assert_eq!(
        argument_error_message(&ArgumentError::ArrayTooLong { name: name.clone(), maximum: 2, found: 10 }, "", ""),
        "Array length for argument 'n' exceeds the maximum. Expected: 2, Found: 10"
    );
    assert_eq!(
        argument_error_message(&ArgumentError::RangeItemAboveMaximum { name: name.clone(), maximum: 0, found: 12 }, "", ""),
        "Value for range item in argument 'n' exceeds the maximum. Expected: 0, Found: 12"
    );
    assert_eq!(
        argument_error_message(
            &ArgumentError::InvalidArrayItem { name: name.clone(), expected: PropertyType::Boolean, found: integer(1) },
            "Number(1)",
            "Boolean"
        ),
        "Invalid type for array item in argument 'n'. Expected: Boolean, Found: Number(1)"
    );
    assert_eq!(
        argument_error_message(&ArgumentError::PathDoesNotExist { name: name.clone(), path: "/w/x".to_string() }, "\"/w/x\"", ""),
        "Invalid path for argument 'n'. Path does not exist: \"/w/x\""
    );
    assert_eq!(
        argument_error_message(&ArgumentError::MissingRequired { name: name.clone() }, "", ""),
        "Missing required argument: 'n'"
    );
    assert_eq!(
        argument_error_message(&ArgumentError::WorkspaceRootRequired { name: name.clone() }, "", ""),
        "Workspace root is required to validate path argument 'n'"
    );
    assert_eq!(
        argument_error_message(&ArgumentError::InvalidPattern { name, error: "bad".to_string() }, "", ""),
        "Invalid regular expression pattern for argument 'n'. Error: bad"
    );
}

#[test]
fn validated_integer_reads_back() {
    let props = vec![prop("n", true, integer_type(None, None)), prop("flag", false, PropertyType::Boolean)];
    let validated =
        validate_arguments(vec![arg("n", integer(3)), arg("flag", JsonValue::Bool(true))], &props, None, &vec![]).unwrap();
    assert!(matches!(get_validated_argument(&validated, "n"), Some(ValidatedArg::Integer(3))));
    assert!(matches!(get_validated_argument(&validated, "flag"), Some(ValidatedArg::Bool(true))));
}

#[test]
fn a_later_property_of_the_same_name_and_type_reads_back_alike() {
    let props = vec![prop("n", true, integer_type(None, None)), prop("n", false, integer_type(Some(0), None))];
    let validated = validate_arguments(vec![arg("n", integer(4))], &props, None, &vec![]).unwrap();
    assert_eq!(validated.len(), 2);
    assert!(matches!(get_validated_argument(&validated, "n"), Some(ValidatedArg::Integer(4))));
}
