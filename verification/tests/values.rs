use rustpynet::python_pool::values::PythonTaskContext;
use rustpynet::python_pool::values::PythonTaskError;
use rustpynet::python_pool::values::PythonTaskResult;
use rustpynet::python_pool::values::duplicate_outcome;

#[test]
fn test_display_leaves() {
    assert_eq!(PythonTaskResult::Nothing.to_display_string(), "None");
    assert_eq!(PythonTaskResult::Bool(true).to_display_string(), "true");
    assert_eq!(PythonTaskResult::Bool(false).to_display_string(), "false");
    assert_eq!(PythonTaskResult::Int(0).to_display_string(), "0");
    assert_eq!(PythonTaskResult::Int(3).to_display_string(), "3");
    assert_eq!(PythonTaskResult::Int(-42).to_display_string(), "-42");
    assert_eq!(
        PythonTaskResult::Int(i32::MAX).to_display_string(),
        "2147483647"
    );
    assert_eq!(
        PythonTaskResult::Int(i32::MIN).to_display_string(),
        "-2147483648"
    );
    assert_eq!(
        PythonTaskResult::Str("hello".to_string()).to_display_string(),
        "\"hello\""
    );
    assert_eq!(
        PythonTaskResult::Error("boom".to_string()).to_display_string(),
        "Error: boom"
    );
    assert_eq!(
        PythonTaskResult::Float(0).to_display_string(),
        "float_bits(0)"
    );
    assert_eq!(
        PythonTaskResult::Float(4614256656552045848).to_display_string(),
        "float_bits(4614256656552045848)"
    );
}

#[test]
fn test_display_list_and_dict() {
    let list = PythonTaskResult::List(vec![
        PythonTaskResult::Int(1),
        PythonTaskResult::Str("two".to_string()),
        PythonTaskResult::Nothing,
    ]);
    assert_eq!(list.to_display_string(), "[1, \"two\", None]");

    let empty = PythonTaskResult::List(vec![]);
    assert_eq!(empty.to_display_string(), "[]");

    let dict = PythonTaskResult::Dict(vec![
        ("a".to_string(), PythonTaskResult::Int(5)),
        ("b".to_string(), PythonTaskResult::Int(7)),
    ]);
    assert_eq!(dict.to_display_string(), "{\"a\": 5, \"b\": 7}");

    let nested = PythonTaskResult::Dict(vec![(
        "inner".to_string(),
        PythonTaskResult::List(vec![PythonTaskResult::Bool(false)]),
    )]);
    assert_eq!(nested.to_display_string(), "{\"inner\": [false]}");
}

#[test]
fn test_display_context_matches_result_shape() {
    let context = PythonTaskContext::Dict(vec![
        ("a".to_string(), PythonTaskContext::Int(5)),
        ("b".to_string(), PythonTaskContext::Int(7)),
    ]);
    assert_eq!(context.to_display_string(), "{\"a\": 5, \"b\": 7}");
    assert_eq!(PythonTaskContext::Nothing.to_display_string(), "None");
}

#[test]
fn test_duplicate_preserves_value() {
    let original = PythonTaskResult::Dict(vec![
        (
            "numbers".to_string(),
            PythonTaskResult::List(vec![PythonTaskResult::Int(-3), PythonTaskResult::Int(9)]),
        ),
        ("flag".to_string(), PythonTaskResult::Bool(true)),
    ]);
    let copy = original.duplicate();
    assert_eq!(copy.to_display_string(), original.to_display_string());

    match duplicate_outcome(&Ok(PythonTaskResult::Int(3))) {
        Ok(PythonTaskResult::Int(value)) => assert_eq!(value, 3),
        _ => panic!("duplicating Ok must stay Ok with the same value"),
    }
    match duplicate_outcome(&Err(PythonTaskError::PythonError("oops".to_string()))) {
        Err(PythonTaskError::PythonError(message)) => assert_eq!(message, "oops"),
        _ => panic!("duplicating Err must stay the same error"),
    }
    match duplicate_outcome(&Err(PythonTaskError::UnsupportedNumberType)) {
        Err(PythonTaskError::UnsupportedNumberType) => {}
        _ => panic!("duplicating a bare error variant must keep it"),
    }
    match duplicate_outcome(&Err(PythonTaskError::UnsupportedValueType)) {
        Err(PythonTaskError::UnsupportedValueType) => {}
        _ => panic!("duplicating a bare error variant must keep it"),
    }
}

#[test]
fn test_well_formed() {
    let unique = PythonTaskContext::Dict(vec![
        ("a".to_string(), PythonTaskContext::Int(1)),
        ("b".to_string(), PythonTaskContext::Int(2)),
    ]);
    assert!(unique.well_formed());

    let duplicated = PythonTaskContext::Dict(vec![
        ("a".to_string(), PythonTaskContext::Int(1)),
        ("a".to_string(), PythonTaskContext::Int(2)),
    ]);
    assert!(!duplicated.well_formed());

    let nested_bad = PythonTaskContext::List(vec![PythonTaskContext::Dict(vec![
        ("k".to_string(), PythonTaskContext::Nothing),
        ("k".to_string(), PythonTaskContext::Nothing),
    ])]);
    assert!(!nested_bad.well_formed());

    assert!(PythonTaskContext::Nothing.well_formed());
    assert!(PythonTaskContext::Int(5).well_formed());
}

#[test]
fn test_lookup() {
    let context = PythonTaskContext::Dict(vec![
        ("a".to_string(), PythonTaskContext::Int(5)),
        ("b".to_string(), PythonTaskContext::Str("x".to_string())),
    ]);
    match context.lookup("a") {
        Some(PythonTaskContext::Int(value)) => assert_eq!(*value, 5),
        _ => panic!("key a should be found"),
    }
    match context.lookup("b") {
        Some(PythonTaskContext::Str(text)) => assert_eq!(text, "x"),
        _ => panic!("key b should be found"),
    }
    assert!(context.lookup("missing").is_none());
    assert!(PythonTaskContext::Int(3).lookup("a").is_none());
}
