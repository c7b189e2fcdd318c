use wikidata_authors::query::{
    entity_query, search_query, with_prefixes, Q, ENTITY_FILTER, SPARQL_PREFIXES,
};

#[test]
fn prefixes_come_first() {
    let q = with_prefixes("SELECT ?x WHERE {}");
    assert!(q.starts_with("\nPREFIX wikibase: <http://wikiba.se/ontology#>\n"));
    assert!(q.contains("PREFIX bd: <http://www.bigdata.com/rdf#>\n"));
    assert!(q.ends_with("\nSELECT ?x WHERE {}"));
    assert_eq!(q.len(), SPARQL_PREFIXES.len() + "SELECT ?x WHERE {}".len());
}

#[test]
fn search_query_quotes_the_escaped_name() {
    let q = search_query("William Carpenter");
    assert!(q.contains("VALUES ?name {\n    \"\"\"William Carpenter\"\"\"@en\n  }"));
    assert!(q.contains("?id wdt:P31 wd:Q5;"));
    assert!(q.contains("FILTER((LANG(?description)) = \"en\")"));
}

#[test]
fn search_query_escapes_quotes() {
    let q = search_query("a\"\"\"b");
    assert!(q.contains("\"\"\"a\\\"\\\"\\\"b\"\"\"@en"));
}

#[test]
fn entity_code_text() {
    assert_eq!(Q("42".to_string()).to_string(), "Q42");
    assert_eq!(Q("8006577".to_string()).to_string(), "Q8006577");
}

#[test]
fn entity_query_names_the_target() {
    let q = entity_query(&Q("42".to_string()), Some(true));
    assert!(q.contains("VALUES ?target {\n    wd:Q42\n  }"));
    assert!(q.contains("SERVICE wikibase:label"));
    assert!(q.ends_with("ORDER BY DESC(?propID)"));
}

#[test]
fn entity_filter_is_toggled() {
    let id = Q("42".to_string());
    let with = entity_query(&id, Some(true));
    let without = entity_query(&id, Some(false));
    assert!(with.contains("  FILTER(CONTAINS(STR(?value), \"/entity/Q\"))\n"));
    assert!(!without.contains("FILTER("));
    let at = with.find(ENTITY_FILTER).unwrap();
    let mut rebuilt = with[..at].to_string();
    rebuilt.push_str(&with[at + ENTITY_FILTER.len()..]);
    assert_eq!(rebuilt, without);
}

#[test]
fn entity_filter_is_on_by_default() {
    let id = Q("42".to_string());
    assert_eq!(entity_query(&id, None), entity_query(&id, Some(true)));
}
