//! The operation converter: merges an operation's parameters and request body
//! into one flat input schema, compiles its description with error-response
//! notes, computes a return schema, and assigns collision-free tool names.

use vstd::prelude::*;

use crate::chars;
use crate::json::{self, JsonValue, SpecJson};
use crate::convert::{self, spec_convert, spec_convert_item};
use crate::model::{
    self, Document, MediaType, Operation, Parameter, ParameterOrRef, PathItem, RequestBodyOrRef,
    ResponseOrRef, SchemaOrRef, spec_resolve_parameter, spec_resolve_request_body,
    spec_resolve_response, spec_schemas,
};

verus! {

/// One callable method derived from an operation.
#[derive(Debug)]
pub struct MCPMethod {
    pub name: String,
    pub description: String,
    pub input_schema: JsonValue,
    pub return_schema: Option<JsonValue>,
}

/// The tool grouping all converted methods.
#[derive(Debug)]
pub struct MCPTool {
    pub methods: Vec<MCPMethod>,
}

/// What the execution engine needs to find an operation again: its HTTP
/// method and path template in the document.
#[derive(Debug)]
pub struct OperationInfo {
    pub method: String,
    pub path: String,
}

/// The outcome of converting a whole document.
pub struct ConversionResult {
    pub tools: Vec<(String, MCPTool)>,
    pub openapi_lookup: Vec<(String, OperationInfo)>,
}

/// The mathematical mirror of one converted method.
#[verifier::ext_equal]
pub struct SpecMethod {
    pub name: Seq<char>,
    pub description: Seq<char>,
    pub input: SpecJson,
    pub ret: Option<SpecJson>,
}

/// The mathematical mirror of an operation-info record.
#[verifier::ext_equal]
pub struct SpecOpInfo {
    pub method: Seq<char>,
    pub path: Seq<char>,
}

/// The mirror of one method value.
pub open spec fn method_view(m: MCPMethod) -> SpecMethod {
    SpecMethod {
        name: m.name@,
        description: m.description@,
        input: m.input_schema@,
        ret: match m.return_schema {
            Some(j) => Some(j@),
            None => None,
        },
    }
}

/// The mirrors of a method list.
pub open spec fn mview_list(s: Seq<MCPMethod>) -> Seq<SpecMethod>
    decreases s.len(),
{
    if s.len() == 0 {
        Seq::empty()
    } else {
        seq![method_view(s[0])] + mview_list(s.drop_first())
    }
}

/// `mview_list` is the elementwise mirror.
pub proof fn lemma_mview_list_index(s: Seq<MCPMethod>)
    ensures
        mview_list(s).len() == s.len(),
        forall|i: int| 0 <= i < s.len() ==> #[trigger] mview_list(s)[i] == method_view(s[i]),
    decreases s.len(),
{
    if s.len() > 0 {
        lemma_mview_list_index(s.drop_first());
        assert forall|i: int| 0 <= i < s.len() implies #[trigger] mview_list(s)[i] == method_view(
            s[i],
        ) by {
            if i > 0 {
                assert(s.drop_first()[i - 1] == s[i]);
            }
        }
    }
}

/// The mirror of one lookup entry.
pub open spec fn lookup_view(e: (String, OperationInfo)) -> (Seq<char>, SpecOpInfo) {
    (e.0@, SpecOpInfo { method: e.1.method@, path: e.1.path@ })
}

/// The mirrors of a lookup table.
pub open spec fn lview_list(s: Seq<(String, OperationInfo)>) -> Seq<(Seq<char>, SpecOpInfo)>
    decreases s.len(),
{
    if s.len() == 0 {
        Seq::empty()
    } else {
        seq![lookup_view(s[0])] + lview_list(s.drop_first())
    }
}

/// `lview_list` is the elementwise mirror.
pub proof fn lemma_lview_list_index(s: Seq<(String, OperationInfo)>)
    ensures
        lview_list(s).len() == s.len(),
        forall|i: int| 0 <= i < s.len() ==> #[trigger] lview_list(s)[i] == lookup_view(s[i]),
    decreases s.len(),
{
    if s.len() > 0 {
        lemma_lview_list_index(s.drop_first());
        assert forall|i: int| 0 <= i < s.len() implies #[trigger] lview_list(s)[i] == lookup_view(
            s[i],
        ) by {
            if i > 0 {
                assert(s.drop_first()[i - 1] == s[i]);
            }
        }
    }
}

/// The shared definitions table: every component schema that is a direct
/// schema, fully resolved, under its component name.
pub open spec fn spec_defs_entries(doc: Document, s: Seq<(String, SchemaOrRef)>) -> Seq<
    (Seq<char>, SpecJson),
>
    decreases s.len(),
{
    if s.len() == 0 {
        Seq::empty()
    } else {
        let rest = spec_defs_entries(doc, s.drop_first());
        match s[0].1 {
            SchemaOrRef::Item(sch) => seq![
                (s[0].0@, spec_convert_item(doc, sch, Set::empty(), true).0),
            ] + rest,
            _ => rest,
        }
    }
}

/// The document's definitions table.
pub open spec fn spec_defs(doc: Document) -> Seq<(Seq<char>, SpecJson)> {
    spec_defs_entries(doc, spec_schemas(doc))
}

/// A parameter's converted schema node, with the parameter's own description
/// merged in when it has one.
pub open spec fn spec_param_node(doc: Document, p: Parameter, sref: SchemaOrRef) -> SpecJson {
    let node = spec_convert(doc, sref, Set::empty(), false).0;
    match p.description {
        Some(d) => match node {
            SpecJson::Obj(e) => SpecJson::Obj(
                json::spec_obj_insert(e, "description"@, SpecJson::Str(d@)),
            ),
            _ => node,
        },
        None => node,
    }
}

/// Merging declared parameters into the flat input schema: each resolvable
/// parameter with a schema adds a property under its name, and its name to
/// the required list exactly when it is declared required.
pub open spec fn spec_merge_params(
    doc: Document,
    params: Seq<ParameterOrRef>,
    props: Seq<(Seq<char>, SpecJson)>,
    reqs: Seq<Seq<char>>,
) -> (Seq<(Seq<char>, SpecJson)>, Seq<Seq<char>>)
    decreases params.len(),
{
    if params.len() == 0 {
        (props, reqs)
    } else {
        let rest = params.drop_first();
        match spec_resolve_parameter(doc, params[0]) {
            Some(p) => match p.schema {
                Some(sref) => {
                    let node = spec_param_node(doc, p, sref);
                    let props2 = json::spec_obj_insert(props, p.name@, node);
                    let reqs2 = if p.required {
                        reqs.push(p.name@)
                    } else {
                        reqs
                    };
                    spec_merge_params(doc, rest, props2, reqs2)
                },
                None => spec_merge_params(doc, rest, props, reqs),
            },
            None => spec_merge_params(doc, rest, props, reqs),
        }
    }
}

/// Inserts a run of entries into a property map, in order.
pub open spec fn spec_insert_all(
    props: Seq<(Seq<char>, SpecJson)>,
    entries: Seq<(Seq<char>, SpecJson)>,
) -> Seq<(Seq<char>, SpecJson)>
    decreases entries.len(),
{
    if entries.len() == 0 {
        props
    } else {
        spec_insert_all(
            json::spec_obj_insert(props, entries[0].0, entries[0].1),
            entries.drop_first(),
        )
    }
}

/// Appends every string element of a JSON array to the required list.
pub open spec fn spec_push_required(reqs: Seq<Seq<char>>, elems: Seq<SpecJson>) -> Seq<Seq<char>>
    decreases elems.len(),
{
    if elems.len() == 0 {
        reqs
    } else {
        let rest = elems.drop_first();
        match elems[0] {
            SpecJson::Str(s) => spec_push_required(reqs.push(s), rest),
            _ => spec_push_required(reqs, rest),
        }
    }
}

/// Whether a converted node describes an object schema.
pub open spec fn spec_is_object_schema(node: SpecJson) -> bool {
    match node {
        SpecJson::Obj(e) => json::spec_obj_get(e, "type"@) == Some(SpecJson::Str("object"@)),
        _ => false,
    }
}

/// Merges a converted body node's top-level properties and required list
/// into the flat input schema.
pub open spec fn spec_merge_object_body(
    node: SpecJson,
    props: Seq<(Seq<char>, SpecJson)>,
    reqs: Seq<Seq<char>>,
) -> (Seq<(Seq<char>, SpecJson)>, Seq<Seq<char>>) {
    match node {
        SpecJson::Obj(e) => {
            let props2 = match json::spec_obj_get(e, "properties"@) {
                Some(SpecJson::Obj(fp)) => spec_insert_all(props, fp),
                _ => props,
            };
            let reqs2 = match json::spec_obj_get(e, "required"@) {
                Some(SpecJson::Arr(fr)) => spec_push_required(reqs, fr),
                _ => reqs,
            };
            (props2, reqs2)
        },
        _ => (props, reqs),
    }
}

/// Merging the request body into the flat input schema. A multipart body
/// contributes its properties and required names; otherwise a JSON body
/// contributes the same when it is an object schema, and is nested under a
/// single required `body` property when it is not.
pub open spec fn spec_merge_body(
    doc: Document,
    body: Option<RequestBodyOrRef>,
    props: Seq<(Seq<char>, SpecJson)>,
    reqs: Seq<Seq<char>>,
) -> (Seq<(Seq<char>, SpecJson)>, Seq<Seq<char>>) {
    match body {
        None => (props, reqs),
        Some(bref) => match spec_resolve_request_body(doc, bref) {
            None => (props, reqs),
            Some(rb) => {
                match model::spec_assoc(rb.content@, "multipart/form-data"@) {
                    Some(mt) => match mt.schema {
                        Some(sref) => {
                            let node = spec_convert(doc, sref, Set::empty(), false).0;
                            spec_merge_object_body(node, props, reqs)
                        },
                        None => (props, reqs),
                    },
                    None => match model::spec_assoc(rb.content@, "application/json"@) {
                        Some(mt) => match mt.schema {
                            Some(sref) => {
                                let node = spec_convert(doc, sref, Set::empty(), false).0;
                                if spec_is_object_schema(node) {
                                    spec_merge_object_body(node, props, reqs)
                                } else {
                                    (
                                        json::spec_obj_insert(props, "body"@, node),
                                        reqs.push("body"@),
                                    )
                                }
                            },
                            None => (props, reqs),
                        },
                        None => (props, reqs),
                    },
                }
            },
        },
    }
}

/// The 4xx/5xx lines compiled into a description: `code: description` for
/// each error response, in declaration order.
pub open spec fn spec_error_lines(doc: Document, rs: Seq<(String, ResponseOrRef)>) -> Seq<
    Seq<char>,
>
    decreases rs.len(),
{
    if rs.len() == 0 {
        Seq::empty()
    } else {
        let rest = spec_error_lines(doc, rs.drop_first());
        let code = rs[0].0@;
        if code.len() > 0 && (code[0] == '4' || code[0] == '5') {
            let desc = match spec_resolve_response(doc, rs[0].1) {
                Some(resp) => resp.description@,
                None => Seq::empty(),
            };
            seq![code + ": "@ + desc] + rest
        } else {
            rest
        }
    }
}

/// An operation's compiled description: its summary, or failing that its
/// long description, followed by the error-response listing when any
/// error responses are declared.
pub open spec fn spec_description(doc: Document, op: Operation) -> Seq<char> {
    let base = match op.summary {
        Some(s) => s@,
        None => match op.description {
            Some(d) => d@,
            None => Seq::empty(),
        },
    };
    match op.responses {
        Some(rs) => {
            let lines = spec_error_lines(doc, rs.responses@);
            if lines.len() > 0 {
                base + "\nError Responses:\n"@ + chars::spec_join(lines, "\n"@)
            } else {
                base
            }
        },
        None => base,
    }
}

/// The first declared success response among the common success codes.
pub open spec fn spec_success_response(doc: Document, op: Operation) -> Option<ResponseOrRef> {
    match op.responses {
        None => None,
        Some(rs) => match model::spec_assoc(rs.responses@, "200"@) {
            Some(r) => Some(r),
            None => match model::spec_assoc(rs.responses@, "201"@) {
                Some(r) => Some(r),
                None => match model::spec_assoc(rs.responses@, "202"@) {
                    Some(r) => Some(r),
                    None => model::spec_assoc(rs.responses@, "204"@),
                },
            },
        },
    }
}

/// The return schema of an operation: the JSON success schema when one is
/// declared, with the definitions table attached and the response
/// description carried over; an image response degrades to a binary string
/// schema; anything else to a plain string schema with the response's
/// description.
pub open spec fn spec_return_schema(doc: Document, op: Operation) -> Option<SpecJson> {
    match spec_success_response(doc, op) {
        None => None,
        Some(rref) => match spec_resolve_response(doc, rref) {
            None => None,
            Some(resp) => {
                match model::spec_assoc(resp.content@, "application/json"@) {
                    Some(mt) => match mt.schema {
                        Some(sref) => {
                            let node = spec_convert(doc, sref, Set::empty(), false).0;
                            match node {
                                SpecJson::Obj(e) => {
                                    let defs = spec_defs(doc);
                                    let e2 = if defs.len() > 0 {
                                        json::spec_obj_insert(e, "$defs"@, SpecJson::Obj(defs))
                                    } else {
                                        e
                                    };
                                    let e3 = if resp.description@.len() > 0 && json::spec_obj_get(
                                        e2,
                                        "description"@,
                                    ) is None {
                                        json::spec_obj_insert(
                                            e2,
                                            "description"@,
                                            SpecJson::Str(resp.description@),
                                        )
                                    } else {
                                        e2
                                    };
                                    Some(SpecJson::Obj(e3))
                                },
                                _ => Some(node),
                            }
                        },
                        None => spec_fallback_return(doc, resp.description@, resp.content@),
                    },
                    None => spec_fallback_return(doc, resp.description@, resp.content@),
                }
            },
        },
    }
}

/// The degraded return schema when no JSON schema is declared.
pub open spec fn spec_fallback_return(
    doc: Document,
    desc: Seq<char>,
    content: Seq<(String, MediaType)>,
) -> Option<SpecJson> {
    if model::spec_assoc(content, "image/png"@) is Some || model::spec_assoc(
        content,
        "image/jpeg"@,
    ) is Some {
        Some(
            SpecJson::Obj(
                seq![
                    ("type"@, SpecJson::Str("string"@)),
                    ("format"@, SpecJson::Str("binary"@)),
                    ("description"@, SpecJson::Str(desc)),
                ],
            ),
        )
    } else {
        Some(
            SpecJson::Obj(
                seq![("type"@, SpecJson::Str("string"@)), ("description"@, SpecJson::Str(desc))],
            ),
        )
    }
}

/// The flat input schema of an operation: an object schema whose properties
/// and required list merge the declared parameters and request body, with
/// the definitions table attached when it is not empty.
pub open spec fn spec_input_schema(doc: Document, op: Operation) -> SpecJson {
    let (props, reqs) = spec_merge_params(doc, op.parameters@, Seq::empty(), Seq::empty());
    let (props2, reqs2) = spec_merge_body(doc, op.request_body, props, reqs);
    let base = seq![
        ("type"@, SpecJson::Str("object"@)),
        ("properties"@, SpecJson::Obj(props2)),
        ("required"@, SpecJson::Arr(Seq::new(reqs2.len(), |i: int| SpecJson::Str(reqs2[i])))),
    ];
    let defs = spec_defs(doc);
    if defs.len() > 0 {
        SpecJson::Obj(base.push(("$defs"@, SpecJson::Obj(defs))))
    } else {
        SpecJson::Obj(base)
    }
}

/// Converting one operation: `None` exactly when it has no stable
/// identifier; otherwise the method named by the identifier, with the flat
/// input schema, compiled description and return schema.
pub open spec fn spec_convert_operation(doc: Document, op: Operation) -> Option<SpecMethod> {
    match op.operation_id {
        None => None,
        Some(id) => Some(
            SpecMethod {
                name: id@,
                description: spec_description(doc, op),
                input: spec_input_schema(doc, op),
                ret: spec_return_schema(doc, op),
            },
        ),
    }
}

/// The next value of the naming counter; saturates at the type's limit.
pub open spec fn spec_next_counter(c: u32) -> u32 {
    if c < 0xffffffffu32 {
        (c + 1) as u32
    } else {
        c
    }
}

/// Collision-free naming: names at or under the length limit are never
/// rewritten; longer names are truncated and given a fresh zero-padded
/// counter suffix.
pub open spec fn spec_unique_name(name: Seq<char>, counter: u32) -> (Seq<char>, u32) {
    if name.len() <= 64 {
        (name, counter)
    } else {
        let c2 = spec_next_counter(counter);
        (name.subrange(0, 59) + "-"@ + chars::spec_pad4(c2 as nat), c2)
    }
}

/// Registering one optional operation under one HTTP method: a convertible
/// operation appends its method under a unique name and a lookup entry under
/// the tool key.
pub open spec fn spec_add_op(
    doc: Document,
    op_opt: Option<Operation>,
    mname: Seq<char>,
    path: Seq<char>,
    methods: Seq<SpecMethod>,
    lookup: Seq<(Seq<char>, SpecOpInfo)>,
    counter: u32,
) -> (Seq<SpecMethod>, Seq<(Seq<char>, SpecOpInfo)>, u32) {
    match op_opt {
        None => (methods, lookup, counter),
        Some(op) => match spec_convert_operation(doc, op) {
            None => (methods, lookup, counter),
            Some(m) => {
                let (un, c2) = spec_unique_name(m.name, counter);
                let m2 = SpecMethod { name: un, ..m };
                let key = "API-"@ + un;
                (
                    methods.push(m2),
                    lookup.push((key, SpecOpInfo { method: mname, path })),
                    c2,
                )
            },
        },
    }
}

/// Registering every operation of one path item, in the fixed method order.
pub open spec fn spec_add_path(
    doc: Document,
    path: Seq<char>,
    item: PathItem,
    methods: Seq<SpecMethod>,
    lookup: Seq<(Seq<char>, SpecOpInfo)>,
    counter: u32,
) -> (Seq<SpecMethod>, Seq<(Seq<char>, SpecOpInfo)>, u32) {
    let (m1, l1, c1) = spec_add_op(doc, item.get, "get"@, path, methods, lookup, counter);
    let (m2, l2, c2) = spec_add_op(doc, item.post, "post"@, path, m1, l1, c1);
    let (m3, l3, c3) = spec_add_op(doc, item.put, "put"@, path, m2, l2, c2);
    let (m4, l4, c4) = spec_add_op(doc, item.delete, "delete"@, path, m3, l3, c3);
    spec_add_op(doc, item.patch, "patch"@, path, m4, l4, c4)
}

/// Walking every path of the document, in order.
pub open spec fn spec_convert_all(
    doc: Document,
    paths: Seq<(String, PathItem)>,
    methods: Seq<SpecMethod>,
    lookup: Seq<(Seq<char>, SpecOpInfo)>,
    counter: u32,
) -> (Seq<SpecMethod>, Seq<(Seq<char>, SpecOpInfo)>, u32)
    decreases paths.len(),
{
    if paths.len() == 0 {
        (methods, lookup, counter)
    } else {
        let (m1, l1, c1) = spec_add_path(doc, paths[0].0@, paths[0].1, methods, lookup, counter);
        spec_convert_all(doc, paths.drop_first(), m1, l1, c1)
    }
}

/// The string views of a vector of strings.
pub open spec fn strs(s: Seq<String>) -> Seq<Seq<char>> {
    s.map(|i: int, x: String| x@)
}

/// The empty visited vector stands for the empty set.
proof fn lemma_vset_empty()
    ensures
        convert::vset(Seq::<String>::empty()) =~= Set::<Seq<char>>::empty(),
{
    let mapped = Seq::<String>::empty().map(|i: int, s: String| s@);
    assert(mapped.len() == 0);
    assert forall|x: Seq<char>| !convert::vset(Seq::<String>::empty()).contains(x) by {
        if mapped.contains(x) {
            let i = choose|i: int| 0 <= i < mapped.len() && mapped[i] == x;
        }
    }
}

/// Builds the shared definitions table, matching `spec_defs`.
#[verifier::loop_isolation(false)]
pub fn build_defs(doc: &Document) -> (r: Vec<(String, JsonValue)>)
    ensures
        json::jview_entries(r@) == spec_defs(*doc),
{
    let mut out: Vec<(String, JsonValue)> = Vec::new();
    match &doc.components {
        None => {
            proof {
                assert(spec_schemas(*doc) =~= Seq::<(String, SchemaOrRef)>::empty());
                assert(json::jview_entries(out@) =~= spec_defs_entries(*doc, spec_schemas(*doc)));
            }
            out
        },
        Some(c) => {
            let ghost schemas = c.schemas@;
            let mut i: usize = 0;
            proof {
                assert(schemas.skip(0) =~= schemas);
                assert(json::jview_entries(out@) =~= Seq::<(Seq<char>, SpecJson)>::empty());
            }
            while i < c.schemas.len()
                invariant
                    i <= schemas.len(),
                    spec_defs_entries(*doc, schemas) =~= json::jview_entries(out@)
                        + spec_defs_entries(*doc, schemas.skip(i as int)),
                decreases schemas.len() - i,
            {
                let ghost rest = schemas.skip(i as int);
                proof {
                    assert(rest[0] == schemas[i as int]);
                }
                match &c.schemas[i].1 {
                    SchemaOrRef::Item(sch) => {
                        let fresh: Vec<String> = Vec::new();
                        proof {
                            lemma_vset_empty();
                        }
                        let pair = convert::convert_item(doc, sch, fresh, true);
                        json::obj_push(&mut out, c.schemas[i].0.clone(), pair.0);
                    },
                    SchemaOrRef::Reference { .. } => {},
                }
                i = i + 1;
                proof {
                    assert(rest.drop_first() =~= schemas.skip(i as int));
                }
            }
            proof {
                assert(schemas.skip(i as int) =~= Seq::<(String, SchemaOrRef)>::empty());
                assert(spec_defs_entries(*doc, schemas.skip(i as int)) =~= Seq::<
                    (Seq<char>, SpecJson),
                >::empty());
                assert(json::jview_entries(out@) =~= spec_defs(*doc));
            }
            out
        },
    }
}

/// Merges the declared parameters into the accumulating properties and
/// required list, matching `spec_merge_params`.
#[verifier::loop_isolation(false)]
fn merge_params(
    doc: &Document,
    params: &Vec<ParameterOrRef>,
    props: &mut Vec<(String, JsonValue)>,
    reqs: &mut Vec<String>,
)
    ensures
        (json::jview_entries(final(props)@), strs(final(reqs)@)) == spec_merge_params(
            *doc,
            params@,
            json::jview_entries(old(props)@),
            strs(old(reqs)@),
        ),
{
    let ghost p0 = json::jview_entries(props@);
    let ghost r0 = strs(reqs@);
    let mut i: usize = 0;
    proof {
        assert(params@.skip(0) =~= params@);
    }
    while i < params.len()
        invariant
            i <= params@.len(),
            spec_merge_params(*doc, params@, p0, r0) == spec_merge_params(
                *doc,
                params@.skip(i as int),
                json::jview_entries(props@),
                strs(reqs@),
            ),
        decreases params@.len() - i,
    {
        let ghost rest = params@.skip(i as int);
        proof {
            assert(rest[0] == params@[i as int]);
        }
        match model::resolve_parameter(doc, &params[i]) {
            Some(p) => {
                match &p.schema {
                    Some(sref) => {
                        let fresh: Vec<String> = Vec::new();
                        proof {
                            lemma_vset_empty();
                        }
                        let pair = convert::convert_schema(doc, sref, fresh, false);
                        let node = match &p.description {
                            Some(d) => {
                                match pair.0 {
                                    JsonValue::Obj(mut e) => {
                                        json::obj_insert(
                                            &mut e,
                                            "description".to_owned(),
                                            JsonValue::Str(d.clone()),
                                        );
                                        JsonValue::Obj(e)
                                    },
                                    other => other,
                                }
                            },
                            None => pair.0,
                        };
                        proof {
                            assert(node@ == spec_param_node(*doc, *p, *sref));
                        }
                        json::obj_insert(props, p.name.clone(), node);
                        if p.required {
                            let ghost rbefore = reqs@;
                            reqs.push(p.name.clone());
                            proof {
                                assert(strs(reqs@) =~= strs(rbefore).push(p.name@));
                            }
                        }
                    },
                    None => {},
                }
            },
            None => {},
        }
        i = i + 1;
        proof {
            assert(rest.drop_first() =~= params@.skip(i as int));
        }
    }
    proof {
        assert(params@.skip(i as int) =~= Seq::<ParameterOrRef>::empty());
    }
}

/// Inserts every entry of `entries` into `props`, matching `spec_insert_all`.
#[verifier::loop_isolation(false)]
fn insert_all(props: &mut Vec<(String, JsonValue)>, entries: &Vec<(String, JsonValue)>)
    ensures
        json::jview_entries(final(props)@) == spec_insert_all(
            json::jview_entries(old(props)@),
            json::jview_entries(entries@),
        ),
{
    let ghost p0 = json::jview_entries(props@);
    let ghost ev = json::jview_entries(entries@);
    let mut i: usize = 0;
    proof {
        json::lemma_jview_entries_index(entries@);
        assert(ev.skip(0) =~= ev);
    }
    while i < entries.len()
        invariant
            i <= entries@.len(),
            ev.len() == entries@.len(),
            forall|j: int| 0 <= j < ev.len() ==> #[trigger] ev[j] == (entries@[j].0@, json::jview(
                entries@[j].1,
            )),
            spec_insert_all(p0, ev) == spec_insert_all(
                json::jview_entries(props@),
                ev.skip(i as int),
            ),
        decreases entries@.len() - i,
    {
        let ghost rest = ev.skip(i as int);
        proof {
            assert(rest[0] == ev[i as int]);
        }
        let v = json::json_clone(&entries[i].1);
        json::obj_insert(props, entries[i].0.clone(), v);
        i = i + 1;
        proof {
            assert(rest.drop_first() =~= ev.skip(i as int));
        }
    }
    proof {
        assert(ev.skip(i as int) =~= Seq::<(Seq<char>, SpecJson)>::empty());
    }
}

/// Appends the string elements of a JSON array to the required list,
/// matching `spec_push_required`.
#[verifier::loop_isolation(false)]
fn push_required(reqs: &mut Vec<String>, elems: &Vec<JsonValue>)
    ensures
        strs(final(reqs)@) == spec_push_required(strs(old(reqs)@), json::jview_list(elems@)),
{
    let ghost r0 = strs(reqs@);
    let ghost ev = json::jview_list(elems@);
    let mut i: usize = 0;
    proof {
        json::lemma_jview_list_index(elems@);
        assert(ev.skip(0) =~= ev);
    }
    while i < elems.len()
        invariant
            i <= elems@.len(),
            ev.len() == elems@.len(),
            forall|j: int| 0 <= j < ev.len() ==> #[trigger] ev[j] == json::jview(elems@[j]),
            spec_push_required(r0, ev) == spec_push_required(strs(reqs@), ev.skip(i as int)),
        decreases elems@.len() - i,
    {
        let ghost rest = ev.skip(i as int);
        proof {
            assert(rest[0] == ev[i as int]);
        }
        match &elems[i] {
            JsonValue::Str(s) => {
                let ghost rbefore = reqs@;
                reqs.push(s.clone());
                proof {
                    assert(strs(reqs@) =~= strs(rbefore).push(s@));
                }
            },
            _ => {},
        }
        i = i + 1;
        proof {
            assert(rest.drop_first() =~= ev.skip(i as int));
        }
    }
    proof {
        assert(ev.skip(i as int) =~= Seq::<SpecJson>::empty());
    }
}

/// Merges a converted body node into the flat schema, matching
/// `spec_merge_object_body`.
fn merge_object_body(
    node: &JsonValue,
    props: &mut Vec<(String, JsonValue)>,
    reqs: &mut Vec<String>,
)
    ensures
        (json::jview_entries(final(props)@), strs(final(reqs)@)) == spec_merge_object_body(
            node@,
            json::jview_entries(old(props)@),
            strs(old(reqs)@),
        ),
{
    match node {
        JsonValue::Obj(e) => {
            match json::obj_get(e, "properties") {
                Some(JsonValue::Obj(fp)) => {
                    let cloned: Vec<(String, JsonValue)> = clone_entries(fp);
                    insert_all(props, &cloned);
                },
                _ => {},
            }
            match json::obj_get(e, "required") {
                Some(JsonValue::Arr(fr)) => {
                    let cloned: Vec<JsonValue> = json::json_vec_clone(fr);
                    push_required(reqs, &cloned);
                },
                _ => {},
            }
        },
        _ => {},
    }
}

/// A structural copy of an entry list.
pub fn clone_entries(entries: &Vec<(String, JsonValue)>) -> (r: Vec<(String, JsonValue)>)
    ensures
        json::jview_entries(r@) == json::jview_entries(entries@),
{
    let mut out: Vec<(String, JsonValue)> = Vec::new();
    let mut i: usize = 0;
    proof {
        json::lemma_jview_entries_index(entries@);
        assert(json::jview_entries(out@) =~= json::jview_entries(entries@).subrange(0, 0));
    }
    while i < entries.len()
        invariant
            i <= entries@.len(),
            json::jview_entries(entries@).len() == entries@.len(),
            forall|j: int| 0 <= j < entries@.len() ==> #[trigger] json::jview_entries(entries@)[j]
                == (entries@[j].0@, json::jview(entries@[j].1)),
            json::jview_entries(out@) =~= json::jview_entries(entries@).subrange(0, i as int),
        decreases entries@.len() - i,
    {
        let v = json::json_clone(&entries[i].1);
        json::obj_push(&mut out, entries[i].0.clone(), v);
        proof {
            assert(json::jview_entries(out@) =~= json::jview_entries(entries@).subrange(
                0,
                i as int + 1,
            ));
        }
        i = i + 1;
    }
    proof {
        assert(json::jview_entries(entries@).subrange(0, i as int) =~= json::jview_entries(
            entries@,
        ));
    }
    out
}

/// Merges the request body into the flat schema, matching `spec_merge_body`.
fn merge_body(
    doc: &Document,
    body: &Option<RequestBodyOrRef>,
    props: &mut Vec<(String, JsonValue)>,
    reqs: &mut Vec<String>,
)
    ensures
        (json::jview_entries(final(props)@), strs(final(reqs)@)) == spec_merge_body(
            *doc,
            *body,
            json::jview_entries(old(props)@),
            strs(old(reqs)@),
        ),
{
    match body {
        None => {},
        Some(bref) => {
            match model::resolve_request_body(doc, bref) {
                None => {},
                Some(rb) => {
                    match model::assoc_get(&rb.content, "multipart/form-data") {
                        Some(mt) => {
                            match &mt.schema {
                                Some(sref) => {
                                    let fresh: Vec<String> = Vec::new();
                                    proof {
                                        lemma_vset_empty();
                                    }
                                    let pair = convert::convert_schema(doc, sref, fresh, false);
                                    merge_object_body(&pair.0, props, reqs);
                                },
                                None => {},
                            }
                        },
                        None => {
                            match model::assoc_get(&rb.content, "application/json") {
                                Some(mt) => {
                                    match &mt.schema {
                                        Some(sref) => {
                                            let fresh: Vec<String> = Vec::new();
                                            proof {
                                                lemma_vset_empty();
                                            }
                                            let pair = convert::convert_schema(
                                                doc,
                                                sref,
                                                fresh,
                                                false,
                                            );
                                            if is_object_schema(&pair.0) {
                                                merge_object_body(&pair.0, props, reqs);
                                            } else {
                                                json::obj_insert(props, "body".to_owned(), pair.0);
                                                let ghost rbefore = reqs@;
                                                reqs.push("body".to_owned());
                                                proof {
                                                    assert(strs(reqs@) =~= strs(rbefore).push(
                                                        "body"@,
                                                    ));
                                                }
                                            }
                                        },
                                        None => {},
                                    }
                                },
                                None => {},
                            }
                        },
                    }
                },
            }
        },
    }
}

/// Whether a converted node declares itself an object schema, matching
/// `spec_is_object_schema`.
fn is_object_schema(node: &JsonValue) -> (r: bool)
    ensures
        r == spec_is_object_schema(node@),
{
    match node {
        JsonValue::Obj(e) => {
            match json::obj_get(e, "type") {
                Some(JsonValue::Str(t)) => chars::str_eq(t.as_str(), "object"),
                _ => false,
            }
        },
        _ => false,
    }
}

/// Compiles the error-response lines, matching `spec_error_lines`.
#[verifier::loop_isolation(false)]
fn error_lines(doc: &Document, rs: &Vec<(String, ResponseOrRef)>) -> (r: Vec<String>)
    ensures
        strs(r@) == spec_error_lines(*doc, rs@),
{
    let mut out: Vec<String> = Vec::new();
    let mut i: usize = 0;
    proof {
        assert(rs@.skip(0) =~= rs@);
        assert(strs(out@) =~= Seq::<Seq<char>>::empty());
    }
    while i < rs.len()
        invariant
            i <= rs@.len(),
            spec_error_lines(*doc, rs@) =~= strs(out@) + spec_error_lines(
                *doc,
                rs@.skip(i as int),
            ),
        decreases rs@.len() - i,
    {
        let ghost rest = rs@.skip(i as int);
        proof {
            assert(rest[0] == rs@[i as int]);
        }
        let code = &rs[i].0;
        let n = code.as_str().unicode_len();
        let is_error = if n > 0 {
            let c0 = code.as_str().get_char(0);
            c0 == '4' || c0 == '5'
        } else {
            false
        };
        if is_error {
            let mut line = code.clone();
            line.append(": ");
            match model::resolve_response(doc, &rs[i].1) {
                Some(resp) => {
                    line.append(resp.description.as_str());
                    proof {
                        assert(line@ =~= code@ + ": "@ + resp.description@);
                    }
                },
                None => {
                    proof {
                        assert(line@ =~= code@ + ": "@ + Seq::<char>::empty());
                    }
                },
            }
            let ghost obefore = out@;
            out.push(line);
            proof {
                assert(strs(out@) =~= strs(obefore).push(line@));
            }
        }
        i = i + 1;
        proof {
            assert(rest.drop_first() =~= rs@.skip(i as int));
        }
    }
    proof {
        assert(rs@.skip(i as int) =~= Seq::<(String, ResponseOrRef)>::empty());
        assert(strs(out@) + Seq::<Seq<char>>::empty() =~= strs(out@));
    }
    out
}

/// Compiles an operation's description, matching `spec_description`.
fn build_description(doc: &Document, op: &Operation) -> (r: String)
    ensures
        r@ == spec_description(*doc, *op),
{
    let mut base = match &op.summary {
        Some(s) => s.clone(),
        None => match &op.description {
            Some(d) => d.clone(),
            None => String::new(),
        },
    };
    match &op.responses {
        Some(rs) => {
            let lines = error_lines(doc, &rs.responses);
            if lines.len() > 0 {
                let joined = chars::join_strs(&lines, "\n");
                proof {
                    assert(lines.deep_view() =~= strs(lines@));
                    assert(strs(lines@).len() > 0);
                }
                base.append("\nError Responses:\n");
                base.append(joined.as_str());
                proof {
                    assert(base@ =~= spec_description(*doc, *op));
                }
            } else {
                proof {
                    assert(strs(lines@).len() == 0);
                }
            }
        },
        None => {},
    }
    base
}

/// The degraded return schema, matching `spec_fallback_return`.
fn fallback_return(doc: &Document, desc: &String, content: &Vec<(String, MediaType)>) -> (r:
    JsonValue)
    ensures
        Some(r@) == spec_fallback_return(*doc, desc@, content@),
{
    let mut entries: Vec<(String, JsonValue)> = Vec::new();
    json::obj_push(&mut entries, "type".to_owned(), JsonValue::Str("string".to_owned()));
    let has_image = match model::assoc_get(content, "image/png") {
        Some(_) => true,
        None => match model::assoc_get(content, "image/jpeg") {
            Some(_) => true,
            None => false,
        },
    };
    if has_image {
        json::obj_push(&mut entries, "format".to_owned(), JsonValue::Str("binary".to_owned()));
    }
    json::obj_push(&mut entries, "description".to_owned(), JsonValue::Str(desc.clone()));
    let out = JsonValue::Obj(entries);
    proof {
        if has_image {
            assert(json::jview_entries(entries@) =~= seq![
                ("type"@, SpecJson::Str("string"@)),
                ("format"@, SpecJson::Str("binary"@)),
                ("description"@, SpecJson::Str(desc@)),
            ]);
        } else {
            assert(json::jview_entries(entries@) =~= seq![
                ("type"@, SpecJson::Str("string"@)),
                ("description"@, SpecJson::Str(desc@)),
            ]);
        }
    }
    out
}

/// Computes an operation's return schema, matching `spec_return_schema`.
pub fn extract_response_type(doc: &Document, op: &Operation) -> (r: Option<JsonValue>)
    ensures
        match r {
            Some(j) => spec_return_schema(*doc, *op) == Some(j@),
            None => spec_return_schema(*doc, *op) is None,
        },
{
    let rs = match &op.responses {
        Some(rs) => rs,
        None => {
            return None;
        },
    };
    let rref = match model::assoc_get(&rs.responses, "200") {
        Some(r) => r,
        None => match model::assoc_get(&rs.responses, "201") {
            Some(r) => r,
            None => match model::assoc_get(&rs.responses, "202") {
                Some(r) => r,
                None => match model::assoc_get(&rs.responses, "204") {
                    Some(r) => r,
                    None => {
                        return None;
                    },
                },
            },
        },
    };
    let resp = match model::resolve_response(doc, rref) {
        Some(resp) => resp,
        None => {
            return None;
        },
    };
    match model::assoc_get(&resp.content, "application/json") {
        Some(mt) => {
            match &mt.schema {
                Some(sref) => {
                    let fresh: Vec<String> = Vec::new();
                    proof {
                        lemma_vset_empty();
                    }
                    let pair = convert::convert_schema(doc, sref, fresh, false);
                    match pair.0 {
                        JsonValue::Obj(mut e) => {
                            let defs = build_defs(doc);
                            if defs.len() > 0 {
                                proof {
                                    json::lemma_jview_entries_index(defs@);
                                }
                                json::obj_insert(&mut e, "$defs".to_owned(), JsonValue::Obj(defs));
                            } else {
                                proof {
                                    json::lemma_jview_entries_index(defs@);
                                }
                            }
                            let desc_absent = match json::obj_get(&e, "description") {
                                Some(_) => false,
                                None => true,
                            };
                            if resp.description.as_str().unicode_len() > 0 && desc_absent {
                                json::obj_insert(
                                    &mut e,
                                    "description".to_owned(),
                                    JsonValue::Str(resp.description.clone()),
                                );
                            }
                            Some(JsonValue::Obj(e))
                        },
                        other => Some(other),
                    }
                },
                None => Some(fallback_return(doc, &resp.description, &resp.content)),
            }
        },
        None => Some(fallback_return(doc, &resp.description, &resp.content)),
    }
}

/// Builds an operation's flat input schema, matching `spec_input_schema`.
pub fn build_input_schema(doc: &Document, op: &Operation) -> (r: JsonValue)
    ensures
        r@ == spec_input_schema(*doc, *op),
{
    let mut props: Vec<(String, JsonValue)> = Vec::new();
    let mut reqs: Vec<String> = Vec::new();
    proof {
        assert(json::jview_entries(props@) =~= Seq::<(Seq<char>, SpecJson)>::empty());
        assert(strs(reqs@) =~= Seq::<Seq<char>>::empty());
    }
    merge_params(doc, &op.parameters, &mut props, &mut reqs);
    merge_body(doc, &op.request_body, &mut props, &mut reqs);
    let mut entries: Vec<(String, JsonValue)> = Vec::new();
    json::obj_push(&mut entries, "type".to_owned(), JsonValue::Str("object".to_owned()));
    json::obj_push(&mut entries, "properties".to_owned(), JsonValue::Obj(props));
    let mut req_arr: Vec<JsonValue> = Vec::new();
    let ghost rv = strs(reqs@);
    let ghost target = Seq::new(rv.len(), |i: int| SpecJson::Str(rv[i]));
    let mut i: usize = 0;
    proof {
        assert(json::jview_list(req_arr@) =~= target.subrange(0, 0));
    }
    while i < reqs.len()
        invariant
            i <= reqs@.len(),
            rv == strs(reqs@),
            rv.len() == reqs@.len(),
            target == Seq::new(rv.len(), |j: int| SpecJson::Str(rv[j])),
            json::jview_list(req_arr@) =~= target.subrange(0, i as int),
        decreases reqs@.len() - i,
    {
        json::arr_push(&mut req_arr, JsonValue::Str(reqs[i].clone()));
        proof {
            assert(rv[i as int] == reqs@[i as int]@);
            assert(json::jview_list(req_arr@) =~= target.subrange(0, i as int + 1));
        }
        i = i + 1;
    }
    proof {
        assert(target.subrange(0, i as int) =~= target);
    }
    json::obj_push(&mut entries, "required".to_owned(), JsonValue::Arr(req_arr));
    let defs = build_defs(doc);
    proof {
        json::lemma_jview_entries_index(defs@);
    }
    if defs.len() > 0 {
        json::obj_push(&mut entries, "$defs".to_owned(), JsonValue::Obj(defs));
        let out = JsonValue::Obj(entries);
        proof {
            assert(json::jview_entries(entries@) =~= ({
                let (props2, reqs2) = spec_merge_body(
                    *doc,
                    op.request_body,
                    spec_merge_params(*doc, op.parameters@, Seq::empty(), Seq::empty()).0,
                    spec_merge_params(*doc, op.parameters@, Seq::empty(), Seq::empty()).1,
                );
                seq![
                    ("type"@, SpecJson::Str("object"@)),
                    ("properties"@, SpecJson::Obj(props2)),
                    (
                        "required"@,
                        SpecJson::Arr(Seq::new(reqs2.len(), |i: int| SpecJson::Str(reqs2[i]))),
                    ),
                ].push(("$defs"@, SpecJson::Obj(spec_defs(*doc))))
            }));
        }
        out
    } else {
        let out = JsonValue::Obj(entries);
        proof {
            assert(json::jview_entries(entries@) =~= ({
                let (props2, reqs2) = spec_merge_body(
                    *doc,
                    op.request_body,
                    spec_merge_params(*doc, op.parameters@, Seq::empty(), Seq::empty()).0,
                    spec_merge_params(*doc, op.parameters@, Seq::empty(), Seq::empty()).1,
                );
                seq![
                    ("type"@, SpecJson::Str("object"@)),
                    ("properties"@, SpecJson::Obj(props2)),
                    (
                        "required"@,
                        SpecJson::Arr(Seq::new(reqs2.len(), |i: int| SpecJson::Str(reqs2[i]))),
                    ),
                ]
            }));
        }
        out
    }
}

/// Converts one operation into a callable method, matching
/// `spec_convert_operation`: `None` exactly when the operation has no
/// stable identifier.
pub fn convert_operation_to_mcp_method(doc: &Document, op: &Operation) -> (r: Option<MCPMethod>)
    ensures
        match r {
            Some(m) => spec_convert_operation(*doc, *op) == Some(method_view(m)),
            None => spec_convert_operation(*doc, *op) is None,
        },
{
    let id = match &op.operation_id {
        Some(id) => id,
        None => {
            return None;
        },
    };
    let input_schema = build_input_schema(doc, op);
    let description = build_description(doc, op);
    let return_schema = extract_response_type(doc, op);
    Some(
        MCPMethod {
            name: id.clone(),
            description,
            input_schema,
            return_schema,
        },
    )
}

/// Assigns a collision-free name, matching `spec_unique_name`: names at or
/// under the limit are returned unchanged with the counter untouched.
pub fn ensure_unique_name(name: &str, counter: u32) -> (r: (String, u32))
    ensures
        (r.0@, r.1) == spec_unique_name(name@, counter),
{
    let len = name.unicode_len();
    if len <= 64 {
        (name.to_owned(), counter)
    } else {
        let c2: u32 = if counter < 0xffffffffu32 {
            counter + 1
        } else {
            counter
        };
        let trunc = name.substring_char(0, 59);
        let mut out = trunc.to_owned();
        out.append("-");
        let suffix = chars::u32_to_padded4(c2);
        out.append(suffix.as_str());
        proof {
            assert(trunc@ =~= name@.subrange(0, 59));
            assert(out@ =~= name@.subrange(0, 59) + "-"@ + chars::spec_pad4(c2 as nat));
        }
        (out, c2)
    }
}

/// Registers one optional operation, matching `spec_add_op`.
fn add_op(
    doc: &Document,
    op_opt: &Option<Operation>,
    mname: &str,
    path: &String,
    methods: &mut Vec<MCPMethod>,
    lookup: &mut Vec<(String, OperationInfo)>,
    counter: u32,
) -> (c2: u32)
    ensures
        (mview_list(final(methods)@), lview_list(final(lookup)@), c2) == spec_add_op(
            *doc,
            *op_opt,
            mname@,
            path@,
            mview_list(old(methods)@),
            lview_list(old(lookup)@),
            counter,
        ),
{
    let op = match op_opt {
        Some(op) => op,
        None => {
            return counter;
        },
    };
    let m = match convert_operation_to_mcp_method(doc, op) {
        Some(m) => m,
        None => {
            return counter;
        },
    };
    let named = ensure_unique_name(m.name.as_str(), counter);
    let un = named.0;
    let c2 = named.1;
    let m2 = MCPMethod {
        name: un.clone(),
        description: m.description,
        input_schema: m.input_schema,
        return_schema: m.return_schema,
    };
    let ghost mbefore = methods@;
    let ghost m2v = method_view(m2);
    methods.push(m2);
    proof {
        lemma_mview_list_index(mbefore);
        lemma_mview_list_index(methods@);
        assert(methods@ =~= mbefore.push(methods@[mbefore.len() as int]));
        assert(mview_list(methods@) =~= mview_list(mbefore).push(m2v));
    }
    let mut key = "API-".to_owned();
    key.append(un.as_str());
    proof {
        assert(key@ =~= "API-"@ + un@);
    }
    let info = OperationInfo { method: mname.to_owned(), path: path.clone() };
    let ghost lbefore = lookup@;
    let ghost lv = lookup_view((key, info));
    let entry = (key, info);
    lookup.push(entry);
    proof {
        lemma_lview_list_index(lbefore);
        lemma_lview_list_index(lookup@);
        assert(lookup@ =~= lbefore.push(lookup@[lbefore.len() as int]));
        assert(lview_list(lookup@) =~= lview_list(lbefore).push(lv));
    }
    c2
}

/// Converts the whole document: walks every path and method, names each
/// tool, and builds the name-to-operation lookup, matching
/// `spec_convert_all` started from nothing.
#[verifier::loop_isolation(false)]
pub fn convert_to_mcp_tools(doc: &Document) -> (r: ConversionResult)
    ensures
        ({
            let (ms, lk, c) = spec_convert_all(
                *doc,
                doc.paths@,
                Seq::empty(),
                Seq::empty(),
                0u32,
            );
            &&& r.tools@.len() == 1
            &&& r.tools@[0].0@ == "API"@
            &&& mview_list(r.tools@[0].1.methods@) == ms
            &&& lview_list(r.openapi_lookup@) == lk
        }),
{
    let mut methods: Vec<MCPMethod> = Vec::new();
    let mut lookup: Vec<(String, OperationInfo)> = Vec::new();
    let mut counter: u32 = 0;
    let mut i: usize = 0;
    proof {
        assert(doc.paths@.skip(0) =~= doc.paths@);
        assert(mview_list(methods@) =~= Seq::<SpecMethod>::empty());
        assert(lview_list(lookup@) =~= Seq::<(Seq<char>, SpecOpInfo)>::empty());
    }
    while i < doc.paths.len()
        invariant
            i <= doc.paths@.len(),
            spec_convert_all(*doc, doc.paths@, Seq::empty(), Seq::empty(), 0u32)
                == spec_convert_all(
                *doc,
                doc.paths@.skip(i as int),
                mview_list(methods@),
                lview_list(lookup@),
                counter,
            ),
        decreases doc.paths@.len() - i,
    {
        let ghost rest = doc.paths@.skip(i as int);
        proof {
            assert(rest[0] == doc.paths@[i as int]);
        }
        let path = &doc.paths[i].0;
        counter = add_op(doc, &doc.paths[i].1.get, "get", path, &mut methods, &mut lookup, counter);
        counter = add_op(
            doc,
            &doc.paths[i].1.post,
            "post",
            path,
            &mut methods,
            &mut lookup,
            counter,
        );
        counter = add_op(doc, &doc.paths[i].1.put, "put", path, &mut methods, &mut lookup, counter);
        counter = add_op(
            doc,
            &doc.paths[i].1.delete,
            "delete",
            path,
            &mut methods,
            &mut lookup,
            counter,
        );
        counter = add_op(
            doc,
            &doc.paths[i].1.patch,
            "patch",
            path,
            &mut methods,
            &mut lookup,
            counter,
        );
        i = i + 1;
        proof {
            assert(rest.drop_first() =~= doc.paths@.skip(i as int));
        }
    }
    proof {
        assert(doc.paths@.skip(i as int) =~= Seq::<(String, PathItem)>::empty());
    }
    let mut tools: Vec<(String, MCPTool)> = Vec::new();
    tools.push(("API".to_owned(), MCPTool { methods }));
    ConversionResult { tools, openapi_lookup: lookup }
}

/// The names of the declared parameters that resolve, carry a schema, and
/// are marked required, in declaration order.
pub open spec fn spec_required_names(doc: Document, params: Seq<ParameterOrRef>) -> Seq<Seq<char>>
    decreases params.len(),
{
    if params.len() == 0 {
        Seq::empty()
    } else {
        let rest = spec_required_names(doc, params.drop_first());
        match spec_resolve_parameter(doc, params[0]) {
            Some(p) => match p.schema {
                Some(_) => if p.required {
                    seq![p.name@] + rest
                } else {
                    rest
                },
                None => rest,
            },
            None => rest,
        }
    }
}

/// Required propagation over the parameter merge: the required list that
/// comes out is the one that went in followed by exactly the names of the
/// parameters declared required — so every required parameter's name
/// appears, and no optional parameter adds its name.
pub proof fn lemma_merge_params_required(
    doc: Document,
    params: Seq<ParameterOrRef>,
    props: Seq<(Seq<char>, SpecJson)>,
    reqs: Seq<Seq<char>>,
)
    ensures
        spec_merge_params(doc, params, props, reqs).1 =~= reqs + spec_required_names(doc, params),
    decreases params.len(),
{
    if params.len() == 0 {
        assert(reqs + Seq::<Seq<char>>::empty() =~= reqs);
    } else {
        let rest = params.drop_first();
        match spec_resolve_parameter(doc, params[0]) {
            Some(p) => match p.schema {
                Some(sref) => {
                    let node = spec_param_node(doc, p, sref);
                    let props2 = json::spec_obj_insert(props, p.name@, node);
                    if p.required {
                        lemma_merge_params_required(doc, rest, props2, reqs.push(p.name@));
                        assert(reqs.push(p.name@) + spec_required_names(doc, rest) =~= reqs + (
                        seq![p.name@] + spec_required_names(doc, rest)));
                    } else {
                        lemma_merge_params_required(doc, rest, props2, reqs);
                    }
                },
                None => {
                    lemma_merge_params_required(doc, rest, props, reqs);
                },
            },
            None => {
                lemma_merge_params_required(doc, rest, props, reqs);
            },
        }
    }
}

/// Appending to the required list factors through the elements pushed: the
/// outcome is the incoming list followed by what the elements alone
/// contribute.
proof fn lemma_push_required_prefix(reqs: Seq<Seq<char>>, elems: Seq<SpecJson>)
    ensures
        spec_push_required(reqs, elems) =~= reqs + spec_push_required(Seq::empty(), elems),
    decreases elems.len(),
{
    if elems.len() == 0 {
    } else {
        let rest = elems.drop_first();
        match elems[0] {
            SpecJson::Str(s) => {
                lemma_push_required_prefix(reqs.push(s), rest);
                lemma_push_required_prefix(seq![s], rest);
                assert(Seq::<Seq<char>>::empty().push(s) =~= seq![s]);
                assert(reqs.push(s) + spec_push_required(Seq::empty(), rest) =~= reqs + (seq![s]
                    + spec_push_required(Seq::empty(), rest)));
            },
            _ => {
                lemma_push_required_prefix(reqs, rest);
            },
        }
    }
}

/// The required names the request body alone contributes to the flat input
/// schema.
pub open spec fn spec_body_required_names(doc: Document, body: Option<RequestBodyOrRef>) -> Seq<
    Seq<char>,
> {
    spec_merge_body(doc, body, Seq::empty(), Seq::empty()).1
}

/// Merging the request body only appends to the required list: the outcome
/// is the incoming list followed by the body's own contribution, whatever
/// properties were accumulated before.
pub proof fn lemma_merge_body_reqs(
    doc: Document,
    body: Option<RequestBodyOrRef>,
    props: Seq<(Seq<char>, SpecJson)>,
    reqs: Seq<Seq<char>>,
)
    ensures
        spec_merge_body(doc, body, props, reqs).1 =~= reqs + spec_body_required_names(doc, body),
{
    match body {
        None => {},
        Some(bref) => match spec_resolve_request_body(doc, bref) {
            None => {},
            Some(rb) => {
                match model::spec_assoc(rb.content@, "multipart/form-data"@) {
                    Some(mt) => match mt.schema {
                        Some(sref) => {
                            let node = spec_convert(doc, sref, Set::empty(), false).0;
                            lemma_merge_object_body_reqs(node, props, reqs);
                        },
                        None => {},
                    },
                    None => match model::spec_assoc(rb.content@, "application/json"@) {
                        Some(mt) => match mt.schema {
                            Some(sref) => {
                                let node = spec_convert(doc, sref, Set::empty(), false).0;
                                if spec_is_object_schema(node) {
                                    lemma_merge_object_body_reqs(node, props, reqs);
                                } else {
                                    assert(Seq::<Seq<char>>::empty().push("body"@)
                                        =~= seq!["body"@]);
                                }
                            },
                            None => {},
                        },
                        None => {},
                    },
                }
            },
        },
    }
}

/// Merging one converted body node only appends to the required list,
/// independently of the accumulated properties.
proof fn lemma_merge_object_body_reqs(
    node: SpecJson,
    props: Seq<(Seq<char>, SpecJson)>,
    reqs: Seq<Seq<char>>,
)
    ensures
        spec_merge_object_body(node, props, reqs).1 =~= reqs + spec_merge_object_body(
            node,
            Seq::empty(),
            Seq::empty(),
        ).1,
{
    match node {
        SpecJson::Obj(e) => {
            match json::spec_obj_get(e, "required"@) {
                Some(SpecJson::Arr(fr)) => {
                    lemma_push_required_prefix(reqs, fr);
                },
                _ => {},
            }
        },
        _ => {},
    }
}

/// Required propagation at the input schema, in general: the generated
/// `required` array holds exactly the names of the parameters declared
/// required, in order, followed by the request body's own contribution —
/// so every required parameter's name appears, and a parameter declared
/// optional never adds its name.
pub proof fn lemma_input_schema_required_general(doc: Document, op: Operation)
    ensures
        ({
            let names = spec_required_names(doc, op.parameters@) + spec_body_required_names(
                doc,
                op.request_body,
            );
            let entries = match spec_input_schema(doc, op) {
                SpecJson::Obj(e) => e,
                _ => Seq::empty(),
            };
            json::spec_obj_get(entries, "required"@) == Some(
                SpecJson::Arr(Seq::new(names.len(), |i: int| SpecJson::Str(names[i]))),
            )
        }),
{
    lemma_merge_params_required(doc, op.parameters@, Seq::empty(), Seq::empty());
    let names = spec_required_names(doc, op.parameters@) + spec_body_required_names(
        doc,
        op.request_body,
    );
    let (props, reqs) = spec_merge_params(doc, op.parameters@, Seq::empty(), Seq::empty());
    assert(reqs =~= spec_required_names(doc, op.parameters@));
    lemma_merge_body_reqs(doc, op.request_body, props, reqs);
    let (props2, reqs2) = spec_merge_body(doc, op.request_body, props, reqs);
    assert(reqs2 =~= names);
    let arr = SpecJson::Arr(Seq::new(reqs2.len(), |i: int| SpecJson::Str(reqs2[i])));
    let base = seq![
        ("type"@, SpecJson::Str("object"@)),
        ("properties"@, SpecJson::Obj(props2)),
        ("required"@, arr),
    ];
    reveal_strlit("type");
    reveal_strlit("properties");
    reveal_strlit("required");
    reveal_strlit("$defs");
    assert("type"@.len() == 4);
    assert("properties"@.len() == 10);
    assert("required"@.len() == 8);
    assert("$defs"@.len() == 5);
    assert(base[0].0 != "required"@);
    assert(base[1].0 != "required"@);
    assert(base.drop_first()[0] == base[1]);
    assert(base.drop_first().drop_first()[0] == base[2]);
    assert(json::spec_obj_get(base.drop_first().drop_first(), "required"@) == Some(arr));
    assert(json::spec_obj_get(base.drop_first(), "required"@) == Some(arr));
    assert(json::spec_obj_get(base, "required"@) == Some(arr));
    let defs = spec_defs(doc);
    if defs.len() > 0 {
        json::lemma_obj_get_push(base, ("$defs"@, SpecJson::Obj(defs)), "required"@);
    }
    assert(Seq::new(reqs2.len(), |i: int| SpecJson::Str(reqs2[i])) =~= Seq::new(
        names.len(),
        |i: int| SpecJson::Str(names[i]),
    ));
}

/// Required propagation for an operation without a request body: the
/// generated `required` array holds exactly the names of the parameters
/// declared required, each as a JSON string, in order.
pub proof fn lemma_input_schema_required(doc: Document, op: Operation)
    requires
        op.request_body is None,
    ensures
        ({
            let entries = match spec_input_schema(doc, op) {
                SpecJson::Obj(e) => e,
                _ => Seq::empty(),
            };
            json::spec_obj_get(entries, "required"@) == Some(
                SpecJson::Arr(
                    Seq::new(
                        spec_required_names(doc, op.parameters@).len(),
                        |i: int| SpecJson::Str(spec_required_names(doc, op.parameters@)[i]),
                    ),
                ),
            )
        }),
{
    lemma_input_schema_required_general(doc, op);
    let pnames = spec_required_names(doc, op.parameters@);
    assert(spec_body_required_names(doc, op.request_body) =~= Seq::<Seq<char>>::empty());
    let names = pnames + spec_body_required_names(doc, op.request_body);
    assert(names =~= pnames);
    assert(Seq::new(names.len(), |i: int| SpecJson::Str(names[i])) =~= Seq::new(
        pnames.len(),
        |i: int| SpecJson::Str(pnames[i]),
    ));
}

/// Name uniqueness: two names over the length limit, given out one after the
/// other, always come out distinct — even when they collide after
/// truncation — because each takes a fresh counter suffix. The bound on the
/// counter is a machine limit: at the type's maximum the counter saturates
/// and suffixes would repeat, which no document with fewer operations than
/// that can reach.
pub proof fn lemma_long_names_distinct(n1: Seq<char>, n2: Seq<char>, c0: u32)
    requires
        n1.len() > 64,
        n2.len() > 64,
        c0 < 0xfffffffeu32,
    ensures
        ({
            let (u1, c1) = spec_unique_name(n1, c0);
            let (u2, c2) = spec_unique_name(n2, c1);
            u1 != u2
        }),
{
    let (u1, c1) = spec_unique_name(n1, c0);
    let (u2, c2) = spec_unique_name(n2, c1);
    assert(c1 == c0 + 1);
    assert(c2 == c0 + 2);
    let p1 = chars::spec_pad4(c1 as nat);
    let p2 = chars::spec_pad4(c2 as nat);
    chars::lemma_pad4_injective(c1 as nat, c2 as nat);
    assert(u1 =~= n1.subrange(0, 59) + "-"@ + p1);
    assert(u2 =~= n2.subrange(0, 59) + "-"@ + p2);
    if u1 == u2 {
        assert("-"@.len() == 1) by {
            reveal_strlit("-");
        }
        assert(u1.len() == 60 + p1.len());
        assert(u2.len() == 60 + p2.len());
        assert(p1.len() == p2.len());
        assert(p1 =~= u1.subrange(60, u1.len() as int)) by {
            assert forall|i: int| 0 <= i < p1.len() implies u1.subrange(60, u1.len() as int)[i]
                == p1[i] by {
                assert(u1[60 + i] == p1[i]);
            }
        }
        assert(p2 =~= u2.subrange(60, u2.len() as int)) by {
            assert forall|i: int| 0 <= i < p2.len() implies u2.subrange(60, u2.len() as int)[i]
                == p2[i] by {
                assert(u2[60 + i] == p2[i]);
            }
        }
        assert(p1 == p2);
        assert(false);
    }
}

} // verus!
