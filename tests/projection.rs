use wikidata_authors::binding::{get_member, get_values, result_rows, Json, LookupError};

fn text(s: &str) -> Json {
    Json::Str(s.to_string())
}

fn object(entries: Vec<(&str, Json)>) -> Json {
    Json::Object(entries.into_iter().map(|(k, v)| (k.to_string(), v)).collect())
}

fn var(value: &str) -> Json {
    object(vec![("type", text("literal")), ("value", text(value))])
}

#[test]
fn projection_keeps_requested_order() {
    let row = object(vec![("a", var("1")), ("b", var("2"))]);
    assert_eq!(get_values(&row, &["b", "a"]), Ok(vec!["2".to_string(), "1".to_string()]));
}

#[test]
fn projection_of_no_names_is_empty() {
    let row = object(vec![("a", var("1"))]);
    assert_eq!(get_values(&row, &[]), Ok(vec![]));
}

#[test]
fn missing_variable_fails() {
    let row = object(vec![("a", var("1")), ("b", var("2"))]);
    assert_eq!(get_values(&row, &["c"]), Err(LookupError::MissingBinding("c".to_string())));
}

#[test]
fn first_missing_variable_is_named() {
    let row = object(vec![("a", var("1"))]);
    assert_eq!(
        get_values(&row, &["a", "x", "y"]),
        Err(LookupError::MissingBinding("x".to_string()))
    );
}

#[test]
fn non_string_value_fails() {
    let row = object(vec![("a", object(vec![("value", Json::Bool(true))]))]);
    assert_eq!(get_values(&row, &["a"]), Err(LookupError::MissingBinding("a".to_string())));
}

#[test]
fn missing_value_key_fails() {
    let row = object(vec![("a", object(vec![("type", text("uri"))]))]);
    assert_eq!(get_values(&row, &["a"]), Err(LookupError::MissingBinding("a".to_string())));
}

#[test]
fn non_object_row_fails() {
    let row = Json::Array(vec![var("1")]);
    assert_eq!(get_values(&row, &["a"]), Err(LookupError::MissingBinding("a".to_string())));
}

#[test]
fn first_entry_of_a_key_wins() {
    let row = object(vec![("k", text("first")), ("k", text("second"))]);
    match get_member(&row, "k") {
        Some(Json::Str(s)) => assert_eq!(s, "first"),
        other => panic!("unexpected {:?}", other),
    }
    assert!(get_member(&row, "z").is_none());
}

#[test]
fn rows_are_found_under_results_bindings() {
    let response = object(vec![(
        "results",
        object(vec![("bindings", Json::Array(vec![var("1"), var("2")]))]),
    )]);
    assert_eq!(result_rows(&response).map(|r| r.len()), Ok(2));
}

#[test]
fn answer_without_bindings_is_malformed() {
    let response = object(vec![("results", object(vec![("bindings", text("none"))]))]);
    assert_eq!(result_rows(&response).map(|r| r.len()), Err(LookupError::MalformedResponse));
    assert_eq!(result_rows(&Json::Null).map(|r| r.len()), Err(LookupError::MalformedResponse));
}
