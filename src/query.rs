use vstd::prelude::*;
use crate::escape::{escape_sparql, escaped};

verus! {

/// Namespace declarations put in front of every query sent to the endpoint.
pub const SPARQL_PREFIXES: &'static str = "
PREFIX wikibase: <http://wikiba.se/ontology#>
PREFIX wd: <http://www.wikidata.org/entity/>
PREFIX wdt: <http://www.wikidata.org/prop/direct/>
PREFIX p: <http://www.wikidata.org/prop/>
PREFIX ps: <http://www.wikidata.org/prop/statement/>
PREFIX bd: <http://www.bigdata.com/rdf#>
";

/// `query` with the shared namespace declarations in front of it.
pub fn with_prefixes(query: &str) -> (r: String)
    ensures
        r@ == SPARQL_PREFIXES@ + query@,
{
    let mut r = String::from_str(SPARQL_PREFIXES);
    r.append(query);
    r
}

/// The search-by-name query up to the quoted name.
pub const SEARCH_HEAD: &'static str = "
SELECT
  ?id          # Ex. Q42
  ?name        # Ex. Douglas Adams
  ?description # Ex. English author and humourist (1952–2001)
WHERE {
  VALUES ?name {
    \"\"\"";

/// The search-by-name query after the quoted name.
pub const SEARCH_TAIL: &'static str = "\"\"\"@en
  }

  ?id wdt:P31 wd:Q5;                 # The ID of an instance of human,
    rdfs:label ?name;                # ...whose entity label matches ?name,
    schema:description ?description. # ...and get their single-sentence entity description

  FILTER((LANG(?name)) = \"en\")        # Only names in English
  FILTER((LANG(?description)) = \"en\") # Only descriptions in English
}
";

/// The fetch-by-id query up to the entity code.
pub const ENTITY_HEAD: &'static str = "
SELECT DISTINCT
  ?propID     # Ex. P734
  ?propLabel  # Ex. family name
  ?value      # Ex. Q351735
  ?valueLabel # Ex. Adams
WHERE {
  VALUES ?target {
    wd:";

/// The fetch-by-id query from the entity code up to the entity filter.
pub const ENTITY_BODY: &'static str = "
  }

  ?target ?propID ?value.

  ?prop wikibase:directClaim ?propID.

  # Filters results to only those with Wikidata entries
  # Ex. Q84 but not douglasadams
";

/// The clause that keeps only values that are entity references.
pub const ENTITY_FILTER: &'static str = "  FILTER(CONTAINS(STR(?value), \"/entity/Q\"))
";

/// The fetch-by-id query after the entity filter. The order is by the
/// property identifier's text, so `P10` comes before `P9`.
pub const ENTITY_TAIL: &'static str = "
  # Fetches the label for every ?variable, the result of which is stored in ?variableLabel
  SERVICE wikibase:label { bd:serviceParam wikibase:language \"[AUTO_LANGUAGE],en\". }
}
ORDER BY DESC(?propID)";

/// The search-by-name query for a name whose escaped form is `escaped_name`.
pub open spec fn search_query_text(escaped_name: Seq<char>) -> Seq<char> {
    SEARCH_HEAD@ + escaped_name + SEARCH_TAIL@
}

/// The fetch-by-id query for the entity code `code`, with or without the
/// entity filter.
pub open spec fn entity_query_text(code: Seq<char>, only_wikidata_entities: bool) -> Seq<char> {
    if only_wikidata_entities {
        ENTITY_HEAD@ + code + ENTITY_BODY@ + ENTITY_FILTER@ + ENTITY_TAIL@
    } else {
        ENTITY_HEAD@ + code + ENTITY_BODY@ + ENTITY_TAIL@
    }
}

/// An entity identifier given by its number, as in `Q42`.
pub struct Q(pub String);

impl Q {
    /// The identifier's text: `Q` followed by the number.
    pub open spec fn code(&self) -> Seq<char> {
        seq!['Q'] + self.0@
    }

    /// The identifier's text, such as `Q42`.
    pub fn to_string(&self) -> (r: String)
        ensures
            r@ == self.code(),
    {
        let mut r = String::from_str("Q");
        proof {
            reveal_strlit("Q");
        }
        r.append(self.0.as_str());
        r
    }
}

/// The query that finds humans whose English label is `name`, with their
/// English description. The name is escaped before it is quoted.
pub fn search_query(name: &str) -> (r: String)
    ensures
        r@ == search_query_text(escaped(name@)),
{
    let escaped_name = escape_sparql(name);
    let mut r = String::from_str(SEARCH_HEAD);
    r.append(escaped_name.as_str());
    r.append(SEARCH_TAIL);
    r
}

/// The query that lists every property and value stated on the entity `id`,
/// with their labels. When `only_wikidata_entities` is true, or left out,
/// only values that are entity references are kept.
pub fn entity_query(id: &Q, only_wikidata_entities: Option<bool>) -> (r: String)
    ensures
        r@ == entity_query_text(
            id.code(),
            match only_wikidata_entities {
                Some(b) => b,
                None => true,
            },
        ),
{
    let only = match only_wikidata_entities {
        Some(b) => b,
        None => true,
    };
    let code = id.to_string();
    let mut r = String::from_str(ENTITY_HEAD);
    r.append(code.as_str());
    r.append(ENTITY_BODY);
    if only {
        r.append(ENTITY_FILTER);
    }
    r.append(ENTITY_TAIL);
    r
}

/// The fetch-by-id query with the entity filter is the query without it with
/// the filter clause put in at one place; the two agree on all other text.
pub proof fn lemma_entity_filter_toggles(code: Seq<char>)
    ensures
        ({
            let pre = ENTITY_HEAD@ + code + ENTITY_BODY@;
            &&& entity_query_text(code, true) == pre + ENTITY_FILTER@ + ENTITY_TAIL@
            &&& entity_query_text(code, false) == pre + ENTITY_TAIL@
        }),
{
}

} // verus!
