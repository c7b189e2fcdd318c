use vstd::prelude::*;
use crate::binding::{binding_value, first_missing, get_values, response_rows, result_rows, Json, LookupError};

verus! {

#[verifier::external_type_specification]
#[verifier::external_body]
pub struct ExParseError(url::ParseError);

/// A parsed URL as its serialization and, unless it cannot be a base, the
/// segments of its path.
pub type UrlView = (Seq<char>, Option<Seq<Seq<char>>>);

/// What parsing `s` as an absolute URL gives, when it parses.
pub uninterp spec fn parsed_url(s: Seq<char>) -> Option<UrlView>;

/// The last path segment of a parsed URL, when it has path segments.
pub open spec fn last_segment(u: UrlView) -> Option<Seq<char>> {
    match u.1 {
        Some(segments) => if segments.len() > 0 {
            Some(segments.last())
        } else {
            None
        },
        None => None,
    }
}

/// A parsed absolute URL.
#[derive(Debug)]
pub struct WebUrl {
    href: String,
    segments: Option<Vec<String>>,
}

impl View for WebUrl {
    type V = UrlView;

    closed spec fn view(&self) -> UrlView {
        (
            self.href@,
            match self.segments {
                Some(v) => Some(v@.map_values(|s: String| s@)),
                None => None,
            },
        )
    }
}

/// Relies on url::Url::parse, read back through Url::as_str (the
/// serialization) and Url::path_segments (the path split at each `/`, or
/// nothing for a URL that cannot be a base). The result depends on the text
/// alone.
#[verifier::external_body]
fn parse_url(s: &str) -> (r: Result<WebUrl, url::ParseError>)
    ensures
        match r {
            Ok(u) => parsed_url(s@) == Some(u@),
            Err(_) => parsed_url(s@) is None,
        },
{
    match url::Url::parse(s) {
        Ok(u) => Ok(WebUrl {
            href: u.as_str().to_string(),
            segments: u.path_segments().map(|p| p.map(|x| x.to_string()).collect()),
        }),
        Err(e) => Err(e),
    }
}

impl WebUrl {
    /// Parses `s` as an absolute URL.
    pub fn parse(s: &str) -> (r: Result<WebUrl, LookupError>)
        ensures
            match parsed_url(s@) {
                Some(u) => r is Ok && r->Ok_0@ == u,
                None => r is Err && r->Err_0 is InvalidUrl && r->Err_0->InvalidUrl_0@ == s@,
            },
    {
        match parse_url(s) {
            Ok(u) => Ok(u),
            Err(_) => Err(LookupError::InvalidUrl(String::from_str(s))),
        }
    }

    /// The URL's serialization.
    pub fn as_str(&self) -> (r: &str)
        ensures
            r@ == self@.0,
    {
        self.href.as_str()
    }
}

/// The last segment of the URL's path, such as `Q42` for
/// `https://example.org/entity/Q42`. Fails when the URL has no path segments.
pub fn get_last_segment(url: &WebUrl) -> (r: Result<String, LookupError>)
    ensures
        match last_segment(url@) {
            Some(seg) => r is Ok && r->Ok_0@ == seg,
            None => r == Err::<String, LookupError>(LookupError::NoPathSegments),
        },
{
    match &url.segments {
        Some(v) => {
            if v.len() > 0 {
                let last = v[v.len() - 1].clone();
                Ok(last)
            } else {
                Err(LookupError::NoPathSegments)
            }
        },
        None => Err(LookupError::NoPathSegments),
    }
}

/// A human found by name.
#[derive(Debug)]
pub struct Person {
    /// Ex. Douglas Adams
    pub name: String,
    /// Ex. English author and humourist (1952–2001)
    pub description: String,
    /// Ex. Q42
    pub id: String,
    /// Ex. https://www.wikidata.org/entity/Q42
    pub id_url: WebUrl,
}

/// One property of an entity with its value.
#[derive(Debug)]
pub struct Field {
    /// Ex. novelist
    pub value: String,
    /// Ex. occupation
    pub label: String,
    /// Ex. P106
    pub label_id: String,
    /// Ex. https://www.wikidata.org/prop/direct/P106
    pub label_id_url: WebUrl,
}

/// `p` holds these texts and this URL, with the URL's last path segment as
/// its identifier.
pub open spec fn person_is(p: Person, name: Seq<char>, description: Seq<char>, url: UrlView) -> bool {
    &&& p.name@ == name
    &&& p.description@ == description
    &&& p.id_url@ == url
    &&& last_segment(url) == Some(p.id@)
}

/// `f` holds these texts and this URL, with the URL's last path segment as
/// its property identifier.
pub open spec fn field_is(f: Field, label: Seq<char>, value: Seq<char>, url: UrlView) -> bool {
    &&& f.label@ == label
    &&& f.value@ == value
    &&& f.label_id_url@ == url
    &&& last_segment(url) == Some(f.label_id@)
}

/// The variables a search row is read from, in order.
pub open spec fn person_vars() -> Seq<Seq<char>> {
    seq!["name"@, "description"@, "id"@]
}

/// The variables an entity row is read from, in order.
pub open spec fn field_vars() -> Seq<Seq<char>> {
    seq!["propID"@, "propLabel"@, "valueLabel"@]
}

/// `r` is what reading a person from `row` gives: the first missing
/// variable, else a URL error, else the person.
pub open spec fn person_from_row(row: Json, r: Result<Person, LookupError>) -> bool {
    match first_missing(row, person_vars()) {
        Some(n) => r is Err && r->Err_0 is MissingBinding && r->Err_0->MissingBinding_0@ == n,
        None => {
            let id_text = binding_value(row, "id"@)->Some_0;
            match parsed_url(id_text) {
                None => r is Err && r->Err_0 is InvalidUrl && r->Err_0->InvalidUrl_0@ == id_text,
                Some(u) => match last_segment(u) {
                    None => r == Err::<Person, LookupError>(LookupError::NoPathSegments),
                    Some(_) => r is Ok && person_is(
                        r->Ok_0,
                        binding_value(row, "name"@)->Some_0,
                        binding_value(row, "description"@)->Some_0,
                        u,
                    ),
                },
            }
        },
    }
}

/// `r` is what reading a field from `row` gives: the first missing
/// variable, else a URL error, else the field.
pub open spec fn field_from_row(row: Json, r: Result<Field, LookupError>) -> bool {
    match first_missing(row, field_vars()) {
        Some(n) => r is Err && r->Err_0 is MissingBinding && r->Err_0->MissingBinding_0@ == n,
        None => {
            let id_text = binding_value(row, "propID"@)->Some_0;
            match parsed_url(id_text) {
                None => r is Err && r->Err_0 is InvalidUrl && r->Err_0->InvalidUrl_0@ == id_text,
                Some(u) => match last_segment(u) {
                    None => r == Err::<Field, LookupError>(LookupError::NoPathSegments),
                    Some(_) => r is Ok && field_is(
                        r->Ok_0,
                        binding_value(row, "propLabel"@)->Some_0,
                        binding_value(row, "valueLabel"@)->Some_0,
                        u,
                    ),
                },
            }
        },
    }
}

impl Person {
    /// A person with this name and description, identified by the last path
    /// segment of `id`. Fails when `id` has no path segments.
    pub fn new(name: &str, description: &str, id: WebUrl) -> (r: Result<Person, LookupError>)
        ensures
            match last_segment(id@) {
                Some(_) => r is Ok && person_is(r->Ok_0, name@, description@, id@),
                None => r == Err::<Person, LookupError>(LookupError::NoPathSegments),
            },
    {
        let short = get_last_segment(&id);
        match short {
            Ok(s) => Ok(Person {
                name: String::from_str(name),
                description: String::from_str(description),
                id: s,
                id_url: id,
            }),
            Err(e) => Err(e),
        }
    }

    /// The person that one row of a search answer describes.
    pub fn from_binding(row: &Json) -> (r: Result<Person, LookupError>)
        ensures
            person_from_row(*row, r),
    {
        let names: [&str; 3] = ["name", "description", "id"];
        proof {
            assert(crate::binding::name_views(names@) =~= person_vars());
        }
        let values = get_values(row, names.as_slice());
        match values {
            Ok(v) => {
                match WebUrl::parse(v[2].as_str()) {
                    Ok(url) => Person::new(v[0].as_str(), v[1].as_str(), url),
                    Err(e) => Err(e),
                }
            },
            Err(e) => Err(e),
        }
    }

    /// The text shown for a person: identifier, name and description.
    pub fn to_string(&self) -> (r: String)
        ensures
            r@ == self.id@ + ": "@ + self.name@ + " ("@ + self.description@ + ")"@,
    {
        let mut r = self.id.clone();
        r.append(": ");
        r.append(self.name.as_str());
        r.append(" (");
        r.append(self.description.as_str());
        r.append(")");
        r
    }
}

impl Field {
    /// A field for the property at `label_id_url`, identified by that URL's
    /// last path segment. Fails when the text is not a URL or the URL has no
    /// path segments.
    pub fn new(label_id_url: &str, label: &str, value: &str) -> (r: Result<Field, LookupError>)
        ensures
            match parsed_url(label_id_url@) {
                None => r is Err && r->Err_0 is InvalidUrl && r->Err_0->InvalidUrl_0@ == label_id_url@,
                Some(u) => match last_segment(u) {
                    None => r == Err::<Field, LookupError>(LookupError::NoPathSegments),
                    Some(_) => r is Ok && field_is(r->Ok_0, label@, value@, u),
                },
            },
    {
        let url = WebUrl::parse(label_id_url);
        match url {
            Ok(u) => {
                let short = get_last_segment(&u);
                match short {
                    Ok(s) => Ok(Field {
                        value: String::from_str(value),
                        label: String::from_str(label),
                        label_id: s,
                        label_id_url: u,
                    }),
                    Err(e) => Err(e),
                }
            },
            Err(e) => Err(e),
        }
    }

    /// The field that one row of an entity answer describes.
    pub fn from_binding(row: &Json) -> (r: Result<Field, LookupError>)
        ensures
            field_from_row(*row, r),
    {
        let names: [&str; 3] = ["propID", "propLabel", "valueLabel"];
        proof {
            assert(crate::binding::name_views(names@) =~= field_vars());
        }
        let values = get_values(row, names.as_slice());
        match values {
            Ok(v) => Field::new(v[0].as_str(), v[1].as_str(), v[2].as_str()),
            Err(e) => Err(e),
        }
    }

    /// The text shown for a field: its label and its value.
    pub fn to_string(&self) -> (r: String)
        ensures
            r@ == self.label@ + ": "@ + self.value@,
    {
        let mut r = self.label.clone();
        r.append(": ");
        r.append(self.value.as_str());
        r
    }
}

/// `row` is read into a person without error.
pub open spec fn person_row_ok(row: Json) -> bool {
    &&& first_missing(row, person_vars()) is None
    &&& parsed_url(binding_value(row, "id"@)->Some_0) matches Some(u) && last_segment(u) is Some
}

/// `row` is read into a field without error.
pub open spec fn field_row_ok(row: Json) -> bool {
    &&& first_missing(row, field_vars()) is None
    &&& parsed_url(binding_value(row, "propID"@)->Some_0) matches Some(u) && last_segment(u) is Some
}

/// `r` is what reading every row of `rows` into people gives: one person per
/// row, in order, or the error of the first row that cannot be read.
pub open spec fn people_from_rows(rows: Seq<Json>, r: Result<Vec<Person>, LookupError>) -> bool {
    match r {
        Ok(people) => {
            &&& people@.len() == rows.len()
            &&& forall|i: int| 0 <= i < rows.len() ==> person_from_row(rows[i], Ok(#[trigger] people@[i]))
        },
        Err(e) => exists|i: int|
            0 <= i < rows.len() && !person_row_ok(#[trigger] rows[i]) && person_from_row(rows[i], Err(e))
                && forall|j: int| 0 <= j < i ==> person_row_ok(#[trigger] rows[j]),
    }
}

/// `r` is what reading every row of `rows` into fields gives: one field per
/// row, in order, or the error of the first row that cannot be read.
pub open spec fn fields_from_rows(rows: Seq<Json>, r: Result<Vec<Field>, LookupError>) -> bool {
    match r {
        Ok(fields) => {
            &&& fields@.len() == rows.len()
            &&& forall|i: int| 0 <= i < rows.len() ==> field_from_row(rows[i], Ok(#[trigger] fields@[i]))
        },
        Err(e) => exists|i: int|
            0 <= i < rows.len() && !field_row_ok(#[trigger] rows[i]) && field_from_row(rows[i], Err(e))
                && forall|j: int| 0 <= j < i ==> field_row_ok(#[trigger] rows[j]),
    }
}

/// The people that a search answer lists, in its order. Fails when the
/// answer has no rows array, or with the error of its first bad row.
pub fn people_from_response(response: &Json) -> (r: Result<Vec<Person>, LookupError>)
    ensures
        match response_rows(*response) {
            None => r == Err::<Vec<Person>, LookupError>(LookupError::MalformedResponse),
            Some(rows) => people_from_rows(rows, r) && (r is Ok <==> forall|i: int|
                0 <= i < rows.len() ==> person_row_ok(#[trigger] rows[i])),
        },
{
    let rows = match result_rows(response) {
        Ok(rows) => rows,
        Err(e) => return Err(e),
    };
    let mut out: Vec<Person> = Vec::new();
    let mut i: usize = 0;
    while i < rows.len()
        invariant
            0 <= i <= rows@.len(),
            response_rows(*response) == Some(rows@),
            out@.len() == i,
            forall|j: int| 0 <= j < i ==> person_from_row(rows@[j], Ok(#[trigger] out@[j])),
            forall|j: int| 0 <= j < i ==> person_row_ok(#[trigger] rows@[j]),
        decreases rows@.len() - i,
    {
        let p = Person::from_binding(&rows[i]);
        match p {
            Ok(p) => {
                out.push(p);
            },
            Err(e) => {
                assert(!person_row_ok(rows@[i as int]));
                assert(person_from_row(rows@[i as int], Err(e)));
                return Err(e);
            },
        }
        i = i + 1;
    }
    Ok(out)
}

/// The fields that an entity answer lists, in its order. Fails when the
/// answer has no rows array, or with the error of its first bad row.
pub fn fields_from_response(response: &Json) -> (r: Result<Vec<Field>, LookupError>)
    ensures
        match response_rows(*response) {
            None => r == Err::<Vec<Field>, LookupError>(LookupError::MalformedResponse),
            Some(rows) => fields_from_rows(rows, r) && (r is Ok <==> forall|i: int|
                0 <= i < rows.len() ==> field_row_ok(#[trigger] rows[i])),
        },
{
    let rows = match result_rows(response) {
        Ok(rows) => rows,
        Err(e) => return Err(e),
    };
    let mut out: Vec<Field> = Vec::new();
    let mut i: usize = 0;
    while i < rows.len()
        invariant
            0 <= i <= rows@.len(),
            response_rows(*response) == Some(rows@),
            out@.len() == i,
            forall|j: int| 0 <= j < i ==> field_from_row(rows@[j], Ok(#[trigger] out@[j])),
            forall|j: int| 0 <= j < i ==> field_row_ok(#[trigger] rows@[j]),
        decreases rows@.len() - i,
    {
        let f = Field::from_binding(&rows[i]);
        match f {
            Ok(f) => {
                out.push(f);
            },
            Err(e) => {
                assert(!field_row_ok(rows@[i as int]));
                assert(field_from_row(rows@[i as int], Err(e)));
                return Err(e);
            },
        }
        i = i + 1;
    }
    Ok(out)
}

} // verus!
