use wikidata_authors::binding::{Json, LookupError};
use wikidata_authors::records::{
    fields_from_response, get_last_segment, people_from_response, Field, Person, WebUrl,
};

fn text(s: &str) -> Json {
    Json::Str(s.to_string())
}

fn object(entries: Vec<(&str, Json)>) -> Json {
    Json::Object(entries.into_iter().map(|(k, v)| (k.to_string(), v)).collect())
}

fn var(value: &str) -> Json {
    object(vec![("value", text(value))])
}

fn answer(rows: Vec<Json>) -> Json {
    object(vec![
        ("head", object(vec![])),
        ("results", object(vec![("bindings", Json::Array(rows))])),
    ])
}

#[test]
fn identifier_is_last_path_segment() {
    let url = WebUrl::parse("https://example.org/entity/Q42").unwrap();
    assert_eq!(get_last_segment(&url), Ok("Q42".to_string()));
    assert_eq!(url.as_str(), "https://example.org/entity/Q42");
}

#[test]
fn url_without_path_segments_fails() {
    let url = WebUrl::parse("mailto:someone@example.org").unwrap();
    assert_eq!(get_last_segment(&url), Err(LookupError::NoPathSegments));
    let p = Person::new("n", "d", WebUrl::parse("mailto:someone@example.org").unwrap());
    assert!(matches!(p, Err(LookupError::NoPathSegments)));
}

#[test]
fn bare_host_has_an_empty_last_segment() {
    let url = WebUrl::parse("https://example.org").unwrap();
    assert_eq!(get_last_segment(&url), Ok(String::new()));
}

#[test]
fn text_that_is_not_a_url_fails() {
    assert!(matches!(
        WebUrl::parse("not a url"),
        Err(LookupError::InvalidUrl(s)) if s == "not a url"
    ));
    assert!(matches!(
        Field::new("P106", "occupation", "novelist"),
        Err(LookupError::InvalidUrl(s)) if s == "P106"
    ));
}

#[test]
fn person_new_derives_the_id() {
    let url = WebUrl::parse("https://www.wikidata.org/entity/Q42").unwrap();
    let p = Person::new("Douglas Adams", "English author", url).unwrap();
    assert_eq!(p.id, "Q42");
    assert_eq!(p.name, "Douglas Adams");
    assert_eq!(p.description, "English author");
    assert_eq!(p.id_url.as_str(), "https://www.wikidata.org/entity/Q42");
    assert_eq!(p.to_string(), "Q42: Douglas Adams (English author)");
}

#[test]
fn field_new_derives_the_property_id() {
    let f = Field::new("https://www.wikidata.org/prop/direct/P106", "occupation", "novelist")
        .unwrap();
    assert_eq!(f.label_id, "P106");
    assert_eq!(f.label, "occupation");
    assert_eq!(f.value, "novelist");
    assert_eq!(f.label_id_url.as_str(), "https://www.wikidata.org/prop/direct/P106");
    assert_eq!(f.to_string(), "occupation: novelist");
}

#[test]
fn search_answer_gives_people() {
    let row = object(vec![
        ("id", var("http://www.wikidata.org/entity/Q7976944")),
        ("name", var("William Carpenter")),
        ("description", var("English minister")),
    ]);
    let people = people_from_response(&answer(vec![row])).unwrap();
    assert_eq!(people.len(), 1);
    assert_eq!(people[0].id, "Q7976944");
    assert_eq!(people[0].name, "William Carpenter");
    assert_eq!(people[0].description, "English minister");
    assert_eq!(people[0].id_url.as_str(), "http://www.wikidata.org/entity/Q7976944");
}

#[test]
fn empty_answer_gives_no_people() {
    assert_eq!(people_from_response(&answer(vec![])).unwrap().len(), 0);
}

#[test]
fn bad_row_aborts_the_search() {
    let good = object(vec![
        ("id", var("http://www.wikidata.org/entity/Q1")),
        ("name", var("A")),
        ("description", var("B")),
    ]);
    let bad = object(vec![("id", var("http://www.wikidata.org/entity/Q2")), ("name", var("C"))]);
    let r = people_from_response(&answer(vec![good, bad]));
    assert!(matches!(r, Err(LookupError::MissingBinding(n)) if n == "description"));
}

#[test]
fn malformed_answer_aborts_the_search() {
    let r = people_from_response(&object(vec![("results", object(vec![]))]));
    assert!(matches!(r, Err(LookupError::MalformedResponse)));
}

#[test]
fn entity_answer_gives_fields_in_order() {
    let rows = vec![
        object(vec![
            ("propID", var("http://www.wikidata.org/prop/direct/P734")),
            ("propLabel", var("family name")),
            ("value", var("http://www.wikidata.org/entity/Q351735")),
            ("valueLabel", var("Adams")),
        ]),
        object(vec![
            ("propID", var("http://www.wikidata.org/prop/direct/P106")),
            ("propLabel", var("occupation")),
            ("valueLabel", var("novelist")),
        ]),
    ];
    let fields = fields_from_response(&answer(rows)).unwrap();
    assert_eq!(fields.len(), 2);
    assert_eq!(fields[0].label_id, "P734");
    assert_eq!(fields[0].to_string(), "family name: Adams");
    assert_eq!(fields[1].label_id, "P106");
    assert_eq!(fields[1].value, "novelist");
}

#[test]
fn field_row_with_bad_url_fails() {
    let row = object(vec![
        ("propID", var("P734")),
        ("propLabel", var("family name")),
        ("valueLabel", var("Adams")),
    ]);
    let r = fields_from_response(&answer(vec![row]));
    assert!(matches!(r, Err(LookupError::InvalidUrl(s)) if s == "P734"));
}
