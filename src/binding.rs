use vstd::prelude::*;

verus! {

/// A JSON value as the endpoint returns it. An object keeps its entries in
/// the order they came; a key is looked up at its first entry.
#[derive(Debug)]
pub enum Json {
    Null,
    Bool(bool),
    Number(String),
    Str(String),
    Array(Vec<Json>),
    Object(Vec<(String, Json)>),
}

/// What fails while reading the endpoint's answer into records.
#[derive(Debug, PartialEq, Eq)]
pub enum LookupError {
    /// The answer has no `results.bindings` array.
    MalformedResponse,
    /// A row lacks the named variable, or its `value` is not a string.
    MissingBinding(String),
    /// The text is not a URL.
    InvalidUrl(String),
    /// The URL has no path segments to take an identifier from.
    NoPathSegments,
}

/// The value at the first entry of `entries` whose key is `key`.
pub open spec fn lookup(entries: Seq<(String, Json)>, key: Seq<char>) -> Option<Json>
    decreases entries.len(),
{
    if entries.len() == 0 {
        None
    } else if entries[0].0@ == key {
        Some(entries[0].1)
    } else {
        lookup(entries.subrange(1, entries.len() as int), key)
    }
}

/// The member `key` of `v`, when `v` is an object that has it.
pub open spec fn member(v: Json, key: Seq<char>) -> Option<Json> {
    match v {
        Json::Object(entries) => lookup(entries@, key),
        _ => None,
    }
}

/// The string under `row.name.value`, when the row has that shape.
pub open spec fn binding_value(row: Json, name: Seq<char>) -> Option<Seq<char>> {
    match member(row, name) {
        Some(inner) => match member(inner, "value"@) {
            Some(Json::Str(s)) => Some(s@),
            _ => None,
        },
        None => None,
    }
}

/// The rows under `results.bindings` of an endpoint answer.
pub open spec fn response_rows(response: Json) -> Option<Seq<Json>> {
    match member(response, "results"@) {
        Some(results) => match member(results, "bindings"@) {
            Some(Json::Array(rows)) => Some(rows@),
            _ => None,
        },
        None => None,
    }
}

/// The first of `names` that `row` has no string value for.
pub open spec fn first_missing(row: Json, names: Seq<Seq<char>>) -> Option<Seq<char>>
    decreases names.len(),
{
    if names.len() == 0 {
        None
    } else if binding_value(row, names[0]) is None {
        Some(names[0])
    } else {
        first_missing(row, names.subrange(1, names.len() as int))
    }
}

/// The views of a list of names.
pub open spec fn name_views(names: Seq<&str>) -> Seq<Seq<char>> {
    names.map_values(|n: &str| n@)
}

proof fn lemma_lookup_skip(entries: Seq<(String, Json)>, key: Seq<char>, i: int)
    requires
        0 <= i <= entries.len(),
        forall|j: int| 0 <= j < i ==> (#[trigger] entries[j]).0@ != key,
    ensures
        lookup(entries, key) == lookup(entries.subrange(i, entries.len() as int), key),
    decreases i,
{
    if i > 0 {
        let rest = entries.subrange(1, entries.len() as int);
        assert forall|j: int| 0 <= j < i - 1 implies (#[trigger] rest[j]).0@ != key by {
            assert(rest[j] == entries[j + 1]);
        }
        assert(entries[0].0@ != key);
        lemma_lookup_skip(rest, key, i - 1);
        assert(rest.subrange(i - 1, rest.len() as int) =~= entries.subrange(i, entries.len() as int));
    } else {
        assert(entries.subrange(0, entries.len() as int) =~= entries);
    }
}

proof fn lemma_first_missing_skip(row: Json, names: Seq<Seq<char>>, i: int)
    requires
        0 <= i <= names.len(),
        forall|j: int| 0 <= j < i ==> binding_value(row, #[trigger] names[j]) is Some,
    ensures
        first_missing(row, names) == first_missing(row, names.subrange(i, names.len() as int)),
    decreases i,
{
    if i > 0 {
        let rest = names.subrange(1, names.len() as int);
        assert forall|j: int| 0 <= j < i - 1 implies binding_value(row, #[trigger] rest[j]) is Some by {
            assert(rest[j] == names[j + 1]);
        }
        assert(binding_value(row, names[0]) is Some);
        lemma_first_missing_skip(row, rest, i - 1);
        assert(rest.subrange(i - 1, rest.len() as int) =~= names.subrange(i, names.len() as int));
    } else {
        assert(names.subrange(0, names.len() as int) =~= names);
    }
}

/// The member `key` of `v`, when `v` is an object that has it.
pub fn get_member<'a>(v: &'a Json, key: &str) -> (r: Option<&'a Json>)
    ensures
        match r {
            Some(x) => member(*v, key@) == Some(*x),
            None => member(*v, key@) is None,
        },
{
    match v {
        Json::Object(entries) => {
            let wanted = String::from_str(key);
            let mut i: usize = 0;
            while i < entries.len()
                invariant
                    0 <= i <= entries.len(),
                    wanted@ == key@,
                    member(*v, key@) == lookup(entries@, key@),
                    forall|j: int| 0 <= j < i ==> (#[trigger] entries@[j]).0@ != key@,
                decreases entries.len() - i,
            {
                if entries[i].0 == wanted {
                    proof {
                        lemma_lookup_skip(entries@, key@, i as int);
                        let sub = entries@.subrange(i as int, entries@.len() as int);
                        assert(sub[0] == entries@[i as int]);
                    }
                    return Some(&entries[i].1);
                }
                i = i + 1;
            }
            proof {
                lemma_lookup_skip(entries@, key@, i as int);
            }
            None
        },
        _ => None,
    }
}

/// The string under `row.name.value`, when the row has that shape.
pub fn binding_str<'a>(row: &'a Json, name: &str) -> (r: Option<&'a String>)
    ensures
        match r {
            Some(s) => binding_value(*row, name@) == Some(s@),
            None => binding_value(*row, name@) is None,
        },
{
    match get_member(row, name) {
        Some(inner) => match get_member(inner, "value") {
            Some(Json::Str(s)) => Some(s),
            _ => None,
        },
        None => None,
    }
}

/// The rows under `results.bindings` of an endpoint answer.
pub fn result_rows(response: &Json) -> (r: Result<&Vec<Json>, LookupError>)
    ensures
        match response_rows(*response) {
            Some(rows) => r is Ok && r->Ok_0@ == rows,
            None => r == Err::<&Vec<Json>, LookupError>(LookupError::MalformedResponse),
        },
{
    match get_member(response, "results") {
        Some(results) => match get_member(results, "bindings") {
            Some(Json::Array(rows)) => Ok(rows),
            _ => Err(LookupError::MalformedResponse),
        },
        None => Err(LookupError::MalformedResponse),
    }
}

/// The values of the variables `names` in `row`, in the order of `names`.
/// Fails with the first name that the row lacks or holds in another shape.
pub fn get_values(row: &Json, names: &[&str]) -> (r: Result<Vec<String>, LookupError>)
    ensures
        match first_missing(*row, name_views(names@)) {
            Some(n) => r is Err && r->Err_0 is MissingBinding && r->Err_0->MissingBinding_0@ == n,
            None => r is Ok && r->Ok_0@.len() == names@.len() && forall|i: int|
                0 <= i < names@.len() ==> binding_value(*row, names@[i]@) == Some(
                    #[trigger] r->Ok_0@[i]@,
                ),
        },
{
    let ghost ns = name_views(names@);
    let mut out: Vec<String> = Vec::new();
    let mut i: usize = 0;
    while i < names.len()
        invariant
            0 <= i <= names@.len(),
            ns == name_views(names@),
            out@.len() == i,
            forall|j: int| 0 <= j < i ==> binding_value(*row, names@[j]@) == Some(#[trigger] out@[j]@),
        decreases names@.len() - i,
    {
        match binding_str(row, names[i]) {
            Some(s) => {
                out.push(s.clone());
            },
            None => {
                proof {
                    assert forall|j: int| 0 <= j < i implies binding_value(*row, #[trigger] ns[j]) is Some by {
                        assert(binding_value(*row, names@[j]@) == Some(out@[j]@));
                    }
                    lemma_first_missing_skip(*row, ns, i as int);
                }
                return Err(LookupError::MissingBinding(String::from_str(names[i])));
            },
        }
        i = i + 1;
    }
    proof {
        assert forall|j: int| 0 <= j < i implies binding_value(*row, #[trigger] ns[j]) is Some by {
            assert(binding_value(*row, names@[j]@) == Some(out@[j]@));
        }
        lemma_first_missing_skip(*row, ns, i as int);
    }
    Ok(out)
}

} // verus!
