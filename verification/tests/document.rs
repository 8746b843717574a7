use over21::date::Date;
use over21::doc::{evaluate_document, Value};
use over21::json::to_json_pretty;
use over21::Error;

fn input_doc(dob: &str) -> Value {
    Value::Obj(vec![(
        "user".to_string(),
        Value::Obj(vec![
            ("name".to_string(), Value::Str("Jane Doe".to_string())),
            ("dob".to_string(), Value::Str(dob.to_string())),
        ]),
    )])
}

#[test]
fn evaluation_adds_the_flag() {
    let today = Date { year: 2024, month: 5, day: 1 };
    let out = evaluate_document(input_doc("2000-04-30"), &today).unwrap();
    let user = out.get("user").unwrap();
    assert_eq!(user.get("is_over_21").unwrap().as_bool(), Some(true));
    assert_eq!(user.get("name").unwrap().as_str().map(|s| s.as_str()), Some("Jane Doe"));
    assert_eq!(user.get("dob").unwrap().as_str().map(|s| s.as_str()), Some("2000-04-30"));
}

#[test]
fn evaluation_flags_a_minor_as_false() {
    let today = Date { year: 2024, month: 5, day: 1 };
    let out = evaluate_document(input_doc("2010-01-01"), &today).unwrap();
    let user = out.get("user").unwrap();
    assert_eq!(user.get("is_over_21").unwrap().as_bool(), Some(false));
}

#[test]
fn invalid_dob_yields_no_document() {
    let today = Date { year: 2024, month: 5, day: 1 };
    match evaluate_document(input_doc("2000-13-40"), &today) {
        Err(Error::InvalidDateFormat) => {}
        other => panic!("expected InvalidDateFormat, got {:?}", other.is_ok()),
    }
}

#[test]
fn impossible_threshold_date_is_reported() {
    let today = Date { year: 2025, month: 3, day: 1 };
    match evaluate_document(input_doc("2004-02-29"), &today) {
        Err(Error::InvalidDateCalculation) => {}
        other => panic!("expected InvalidDateCalculation, got {:?}", other.is_ok()),
    }
}

#[test]
fn missing_user_is_reported() {
    let today = Date { year: 2024, month: 5, day: 1 };
    let doc = Value::Obj(vec![("account".to_string(), Value::Bool(true))]);
    match evaluate_document(doc, &today) {
        Err(Error::MissingField) => {}
        other => panic!("expected MissingField, got {:?}", other.is_ok()),
    }
}

#[test]
fn missing_dob_is_reported() {
    let today = Date { year: 2024, month: 5, day: 1 };
    let doc = Value::Obj(vec![(
        "user".to_string(),
        Value::Obj(vec![("name".to_string(), Value::Str("Jane Doe".to_string()))]),
    )]);
    match evaluate_document(doc, &today) {
        Err(Error::MissingField) => {}
        other => panic!("expected MissingField, got {:?}", other.is_ok()),
    }
}

#[test]
fn non_string_dob_is_reported() {
    let today = Date { year: 2024, month: 5, day: 1 };
    let doc = Value::Obj(vec![(
        "user".to_string(),
        Value::Obj(vec![("dob".to_string(), Value::Bool(false))]),
    )]);
    match evaluate_document(doc, &today) {
        Err(Error::MissingField) => {}
        other => panic!("expected MissingField, got {:?}", other.is_ok()),
    }
}

#[test]
fn non_object_root_is_reported() {
    let today = Date { year: 2024, month: 5, day: 1 };
    match evaluate_document(Value::Str("user".to_string()), &today) {
        Err(Error::MissingField) => {}
        other => panic!("expected MissingField, got {:?}", other.is_ok()),
    }
}

#[test]
fn pretty_output_has_the_documented_shape() {
    let today = Date { year: 2024, month: 5, day: 1 };
    let out = evaluate_document(input_doc("2000-04-30"), &today).unwrap();
    let text = to_json_pretty(&out);
    let expected = "{\n  \"user\": {\n    \"name\": \"Jane Doe\",\n    \"dob\": \"2000-04-30\",\n    \"is_over_21\": true\n  }\n}";
    assert_eq!(text, expected);
}

#[test]
fn empty_object_prints_as_braces() {
    assert_eq!(to_json_pretty(&Value::Obj(vec![])), "{}");
}

#[test]
fn leaves_print_verbatim() {
    assert_eq!(to_json_pretty(&Value::Bool(false)), "false");
    assert_eq!(to_json_pretty(&Value::Str("dob".to_string())), "\"dob\"");
}

#[test]
fn serialized_output_round_trips_through_a_json_parser() {
    let today = Date { year: 2024, month: 5, day: 1 };
    let out = evaluate_document(input_doc("2000-04-30"), &today).unwrap();
    let text = to_json_pretty(&out);
    let parsed: serde_json::Value = serde_json::from_str(&text).unwrap();
    assert_eq!(parsed["user"]["is_over_21"], serde_json::Value::Bool(true));
    assert_eq!(
        parsed["user"]["dob"],
        serde_json::Value::String("2000-04-30".to_string())
    );
    assert_eq!(
        parsed["user"]["name"],
        serde_json::Value::String("Jane Doe".to_string())
    );
}

#[test]
fn re_evaluating_overwrites_in_place() {
    let today = Date { year: 2024, month: 5, day: 1 };
    let once = evaluate_document(input_doc("2000-04-30"), &today).unwrap();
    let text_once = to_json_pretty(&once);
    let twice = evaluate_document(once, &today).unwrap();
    assert_eq!(to_json_pretty(&twice), text_once);
}
