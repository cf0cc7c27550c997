//! The interface document model: operations keyed by method and path, reusable
//! schemas under stable names, parameters, request bodies and responses, with
//! reference-or-value indirection throughout — and the resolution helpers that
//! follow a reference into the document's component tables.

use vstd::prelude::*;

use crate::chars;
use crate::json::JsonValue;

verus! {

/// A schema or a named reference to one.
#[derive(Debug)]
pub enum SchemaOrRef {
    Reference { reference: String },
    Item(Schema),
}

/// One type definition of the interface document.
#[derive(Debug)]
pub struct Schema {
    pub kind: SchemaKind,
    pub description: Option<String>,
    pub default: Option<JsonValue>,
    pub enum_values: Option<Vec<JsonValue>>,
}

/// The shape of a schema: a concrete type, a composition, or something the
/// conversion does not interpret.
#[derive(Debug)]
pub enum SchemaKind {
    Object {
        properties: Vec<(String, SchemaOrRef)>,
        required: Vec<String>,
        additional_properties: Option<Box<SchemaOrRef>>,
    },
    ArrayType { items: Option<Box<SchemaOrRef>> },
    StringType { format: Option<String> },
    NumberType,
    IntegerType,
    BooleanType,
    OneOf { variants: Vec<SchemaOrRef> },
    AnyOf { variants: Vec<SchemaOrRef> },
    AllOf { variants: Vec<SchemaOrRef> },
    Other,
}

/// Where a declared parameter is placed at call time.
#[derive(Debug, PartialEq, Eq, Structural, Clone, Copy)]
pub enum ParamLocation {
    Path,
    Query,
    Header,
    Cookie,
}

/// One declared parameter.
#[derive(Debug)]
pub struct Parameter {
    pub location: ParamLocation,
    pub name: String,
    pub description: Option<String>,
    pub required: bool,
    pub schema: Option<SchemaOrRef>,
}

/// A parameter or a named reference to one.
#[derive(Debug)]
pub enum ParameterOrRef {
    Item(Parameter),
    Reference { reference: String },
}

/// One media type entry of a request or response body.
#[derive(Debug)]
pub struct MediaType {
    pub schema: Option<SchemaOrRef>,
}

/// A declared request body: media types keyed by content type.
#[derive(Debug)]
pub struct RequestBody {
    pub content: Vec<(String, MediaType)>,
}

/// A request body or a named reference to one.
#[derive(Debug)]
pub enum RequestBodyOrRef {
    Item(RequestBody),
    Reference { reference: String },
}

/// One declared response.
#[derive(Debug)]
pub struct Response {
    pub description: String,
    pub content: Vec<(String, MediaType)>,
}

/// A response or a named reference to one.
#[derive(Debug)]
pub enum ResponseOrRef {
    Item(Response),
    Reference { reference: String },
}

/// The responses of an operation, keyed by status code text.
#[derive(Debug)]
pub struct Responses {
    pub responses: Vec<(String, ResponseOrRef)>,
}

/// One API operation.
#[derive(Debug)]
pub struct Operation {
    pub operation_id: Option<String>,
    pub summary: Option<String>,
    pub description: Option<String>,
    pub parameters: Vec<ParameterOrRef>,
    pub request_body: Option<RequestBodyOrRef>,
    pub responses: Option<Responses>,
}

/// The operations declared under one path template.
#[derive(Debug)]
pub struct PathItem {
    pub get: Option<Operation>,
    pub post: Option<Operation>,
    pub put: Option<Operation>,
    pub delete: Option<Operation>,
    pub patch: Option<Operation>,
}

/// The document's reusable component tables.
#[derive(Debug)]
pub struct Components {
    pub schemas: Vec<(String, SchemaOrRef)>,
    pub parameters: Vec<(String, ParameterOrRef)>,
    pub request_bodies: Vec<(String, RequestBodyOrRef)>,
    pub responses: Vec<(String, ResponseOrRef)>,
}

/// The parsed interface document.
#[derive(Debug)]
pub struct Document {
    pub servers: Vec<String>,
    pub paths: Vec<(String, PathItem)>,
    pub components: Option<Components>,
}

/// First-match lookup in an association list keyed by strings.
pub open spec fn spec_assoc<T>(s: Seq<(String, T)>, k: Seq<char>) -> Option<T>
    decreases s.len(),
{
    if s.len() == 0 {
        None
    } else if s[0].0@ == k {
        Some(s[0].1)
    } else {
        spec_assoc(s.drop_first(), k)
    }
}

/// Looks `k` up in an association list, matching `spec_assoc`.
pub fn assoc_get<'a, T>(m: &'a Vec<(String, T)>, k: &str) -> (r: Option<&'a T>)
    ensures
        match r {
            Some(t) => spec_assoc(m@, k@) == Some(*t),
            None => spec_assoc(m@, k@) is None,
        },
{
    let mut i: usize = 0;
    assert(m@.skip(0) =~= m@);
    while i < m.len()
        invariant
            i <= m@.len(),
            spec_assoc(m@, k@) == spec_assoc(m@.skip(i as int), k@),
        decreases m@.len() - i,
    {
        let ghost rest = m@.skip(i as int);
        assert(rest[0] == m@[i as int]);
        if chars::str_eq(m[i].0.as_str(), k) {
            return Some(&m[i].1);
        }
        i = i + 1;
        assert(rest.drop_first() =~= m@.skip(i as int));
    }
    assert(m@.skip(i as int) =~= Seq::<(String, T)>::empty());
    None
}

/// The reference prefix under which reusable schemas live.
pub open spec fn schemas_prefix() -> Seq<char> {
    "#/components/schemas/"@
}

/// Whether `c` occurs in `s`.
pub open spec fn spec_contains_char(s: Seq<char>, c: char) -> bool {
    exists|i: int| 0 <= i < s.len() && s[i] == c
}

/// Executable character search matching `spec_contains_char`.
pub fn contains_char(s: &str, c: char) -> (r: bool)
    ensures
        r == spec_contains_char(s@, c),
{
    let n = s.unicode_len();
    let mut i: usize = 0;
    while i < n
        invariant
            n == s@.len(),
            i <= n,
            forall|j: int| 0 <= j < i ==> s@[j] != c,
        decreases n - i,
    {
        if s.get_char(i) == c {
            return true;
        }
        i = i + 1;
    }
    false
}

/// The component schemas table, or empty when the document has none.
pub open spec fn spec_schemas(doc: Document) -> Seq<(String, SchemaOrRef)> {
    match doc.components {
        Some(c) => c.schemas@,
        None => Seq::empty(),
    }
}

/// What following a schema reference yields: the component schema under the
/// referenced name, provided the reference has the reusable-schema shape and
/// that component is a direct schema rather than another reference.
pub open spec fn spec_resolve_ref(doc: Document, r: Seq<char>) -> Option<Schema> {
    if chars::spec_starts_with(r, schemas_prefix()) && !spec_contains_char(
        r.skip(schemas_prefix().len() as int),
        '/',
    ) {
        match spec_assoc(spec_schemas(doc), r.skip(schemas_prefix().len() as int)) {
            Some(SchemaOrRef::Item(s)) => Some(s),
            _ => None,
        }
    } else {
        None
    }
}

/// Follows a schema reference into the component table, matching
/// `spec_resolve_ref`.
pub fn resolve_ref<'a>(doc: &'a Document, r: &str) -> (res: Option<&'a Schema>)
    ensures
        match res {
            Some(s) => spec_resolve_ref(*doc, r@) == Some(*s),
            None => spec_resolve_ref(*doc, r@) is None,
        },
{
    let prefix = "#/components/schemas/";
    proof {
        reveal_strlit("#/components/schemas/");
    }
    if !chars::starts_with(r, prefix) {
        return None;
    }
    let rv = chars::to_chars(r);
    let mut name_chars: Vec<char> = Vec::new();
    let mut i: usize = 21;
    assert(prefix@.len() == 21);
    while i < rv.len()
        invariant
            rv@ == r@,
            21 <= i <= rv@.len() || (rv@.len() < 21 && i == 21),
            name_chars@ =~= r@.subrange(21, i as int) || (i == 21 && name_chars@ =~= Seq::<
                char,
            >::empty()),
        decreases rv@.len() - i,
    {
        name_chars.push(rv[i]);
        i = i + 1;
        assert(name_chars@ =~= r@.subrange(21, i as int));
    }
    let name = chars::from_chars(&name_chars);
    assert(name@ =~= r@.skip(21));
    if contains_char(name.as_str(), '/') {
        return None;
    }
    match &doc.components {
        Some(c) => {
            match assoc_get(&c.schemas, name.as_str()) {
                Some(SchemaOrRef::Item(s)) => Some(s),
                _ => None,
            }
        },
        None => {
            assert(spec_schemas(*doc) =~= Seq::<(String, SchemaOrRef)>::empty());
            None
        },
    }
}

/// What resolving a parameter reference yields: a directly declared parameter
/// as itself; a reference followed one step into the component table, by its
/// verbatim reference string.
pub open spec fn spec_resolve_parameter(doc: Document, p: ParameterOrRef) -> Option<Parameter> {
    match p {
        ParameterOrRef::Item(param) => Some(param),
        ParameterOrRef::Reference { reference } => {
            match doc.components {
                Some(c) => {
                    match spec_assoc(c.parameters@, reference@) {
                        Some(ParameterOrRef::Item(param)) => Some(param),
                        _ => None,
                    }
                },
                None => None,
            }
        },
    }
}

/// Resolves a parameter reference, matching `spec_resolve_parameter`.
pub fn resolve_parameter<'a>(doc: &'a Document, p: &'a ParameterOrRef) -> (res: Option<
    &'a Parameter,
>)
    ensures
        match res {
            Some(param) => spec_resolve_parameter(*doc, *p) == Some(*param),
            None => spec_resolve_parameter(*doc, *p) is None,
        },
{
    match p {
        ParameterOrRef::Item(param) => Some(param),
        ParameterOrRef::Reference { reference } => {
            match &doc.components {
                Some(c) => {
                    match assoc_get(&c.parameters, reference.as_str()) {
                        Some(ParameterOrRef::Item(param)) => Some(param),
                        _ => None,
                    }
                },
                None => None,
            }
        },
    }
}

/// What resolving a request-body reference yields.
pub open spec fn spec_resolve_request_body(doc: Document, b: RequestBodyOrRef) -> Option<
    RequestBody,
> {
    match b {
        RequestBodyOrRef::Item(body) => Some(body),
        RequestBodyOrRef::Reference { reference } => {
            match doc.components {
                Some(c) => {
                    match spec_assoc(c.request_bodies@, reference@) {
                        Some(RequestBodyOrRef::Item(body)) => Some(body),
                        _ => None,
                    }
                },
                None => None,
            }
        },
    }
}

/// Resolves a request-body reference, matching `spec_resolve_request_body`.
pub fn resolve_request_body<'a>(doc: &'a Document, b: &'a RequestBodyOrRef) -> (res: Option<
    &'a RequestBody,
>)
    ensures
        match res {
            Some(body) => spec_resolve_request_body(*doc, *b) == Some(*body),
            None => spec_resolve_request_body(*doc, *b) is None,
        },
{
    match b {
        RequestBodyOrRef::Item(body) => Some(body),
        RequestBodyOrRef::Reference { reference } => {
            match &doc.components {
                Some(c) => {
                    match assoc_get(&c.request_bodies, reference.as_str()) {
                        Some(RequestBodyOrRef::Item(body)) => Some(body),
                        _ => None,
                    }
                },
                None => None,
            }
        },
    }
}

/// What resolving a response reference yields.
pub open spec fn spec_resolve_response(doc: Document, r: ResponseOrRef) -> Option<Response> {
    match r {
        ResponseOrRef::Item(resp) => Some(resp),
        ResponseOrRef::Reference { reference } => {
            match doc.components {
                Some(c) => {
                    match spec_assoc(c.responses@, reference@) {
                        Some(ResponseOrRef::Item(resp)) => Some(resp),
                        _ => None,
                    }
                },
                None => None,
            }
        },
    }
}

/// Resolves a response reference, matching `spec_resolve_response`.
pub fn resolve_response<'a>(doc: &'a Document, r: &'a ResponseOrRef) -> (res: Option<&'a Response>)
    ensures
        match res {
            Some(resp) => spec_resolve_response(*doc, *r) == Some(*resp),
            None => spec_resolve_response(*doc, *r) is None,
        },
{
    match r {
        ResponseOrRef::Item(resp) => Some(resp),
        ResponseOrRef::Reference { reference } => {
            match &doc.components {
                Some(c) => {
                    match assoc_get(&c.responses, reference.as_str()) {
                        Some(ResponseOrRef::Item(resp)) => Some(resp),
                        _ => None,
                    }
                },
                None => None,
            }
        },
    }
}

} // verus!
