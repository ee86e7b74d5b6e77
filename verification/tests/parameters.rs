use lexwisp::actions::{ActionError, ActionParameter, ParameterKind};
use lexwisp::parameters::{is_float_text, validate_parameters};

fn parameter(key: &str, label: &str, kind: ParameterKind, required: bool, default: Option<&str>, choices: &[&str]) -> ActionParameter {
    ActionParameter {
        key: key.into(),
        label: label.into(),
        kind,
        required,
        default_value: default.map(str::to_string),
        choices: choices.iter().map(|c| c.to_string()).collect(),
    }
}

fn definition() -> Vec<ActionParameter> {
    vec![
        parameter("tone", "Tone", ParameterKind::Enum, true, Some("formal"), &["formal", "casual"]),
        parameter("count", "Count", ParameterKind::Number, false, None, &[]),
        parameter("loud", "Loud", ParameterKind::Boolean, true, None, &[]),
        parameter("notes", "Notes", ParameterKind::Text, false, None, &[]),
    ]
}

fn pairs(list: &[(&str, &str)]) -> Vec<(String, String)> {
    list.iter().map(|(k, v)| (k.to_string(), v.to_string())).collect()
}

fn failure(r: Result<Vec<(String, String)>, ActionError>) -> String {
    match r {
        Err(ActionError::Failed(m)) => m,
        other => panic!("expected a failure, got {other:?}"),
    }
}

#[test]
fn numbers_follow_the_decimal_float_grammar() {
    for text in ["1", "1.5", ".5", "5.", "-1e10", "+1E-3", "inf", "-Infinity", "NaN", "007"] {
        assert!(is_float_text(text), "{text}");
    }
    for text in ["", ".", "e5", "1e", "1.2.3", " 1", "1_000", "0x10", "infinit", "+", "1e+", "--1"] {
        assert!(!is_float_text(text), "{text}");
    }
}

#[test]
fn defaults_fill_in_and_values_are_checked() {
    let mut values = validate_parameters(&definition(), pairs(&[("loud", "true"), ("count", "2.5")])).expect("valid");
    values.sort();
    assert_eq!(values, pairs(&[("count", "2.5"), ("loud", "true"), ("tone", "formal")]));

    assert_eq!(failure(validate_parameters(&definition(), Vec::new())), "required parameter 'Loud' is missing");
    assert_eq!(
        failure(validate_parameters(&definition(), pairs(&[("loud", "yes")]))),
        "parameter 'Loud' has an invalid value"
    );
    assert_eq!(
        failure(validate_parameters(&definition(), pairs(&[("tone", "rude"), ("loud", "true")]))),
        "parameter 'Tone' has an invalid value"
    );
    assert_eq!(
        failure(validate_parameters(&definition(), pairs(&[("loud", "true"), ("count", "abc")]))),
        "parameter 'Count' has an invalid value"
    );
    let long = "x".repeat(257);
    assert_eq!(
        failure(validate_parameters(&definition(), pairs(&[("loud", "true"), ("notes", &long)]))),
        "parameter 'Notes' is too long"
    );
    assert_eq!(
        failure(validate_parameters(&definition(), pairs(&[("loud", "true"), ("zeta", "1"), ("alpha", "2")]))),
        "unknown parameter 'alpha'"
    );
}
