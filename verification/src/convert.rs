//! The schema converter: turns one interface-document schema into a generic
//! JSON-schema-shaped value. Named references are emitted as forward
//! references into a shared definitions table unless full resolution is asked
//! for, and a reference reentered while being expanded is emitted as a
//! forward reference, so conversion terminates on cyclic definitions.

use vstd::prelude::*;
use vstd::set_lib::lemma_len_subset;

use crate::chars;
use crate::json::{JsonValue, SpecJson};
use crate::json;
use crate::model::{
    Document, Schema, SchemaKind, SchemaOrRef, schemas_prefix, spec_resolve_ref, spec_schemas,
};
use crate::model;

verus! {

/// The prefix under which the generated definitions table is addressed.
pub open spec fn defs_prefix() -> Seq<char> {
    "#/$defs/"@
}

/// The forward-reference node for a reference string: a one-entry object
/// whose `$ref` points into the definitions table.
pub open spec fn spec_ref_json(r: Seq<char>) -> SpecJson {
    SpecJson::Obj(
        seq![("$ref"@, SpecJson::Str(chars::spec_replace(r, schemas_prefix(), defs_prefix())))],
    )
}

/// The full reference strings under which the document's component schemas
/// can be addressed.
pub open spec fn ref_names(doc: Document) -> Set<Seq<char>> {
    spec_schemas(doc).map(|i: int, p: (String, SchemaOrRef)| schemas_prefix() + p.0@).to_set()
}

/// How many component references are not yet in the visited set: the
/// conversion's primary termination measure.
pub open spec fn refs_left(doc: Document, visited: Set<Seq<char>>) -> nat {
    ref_names(doc).difference(visited).len()
}

/// The set of component reference names is finite.
pub proof fn lemma_ref_names_finite(doc: Document)
    ensures
        ref_names(doc).finite(),
{
    broadcast use vstd::seq_lib::seq_to_set_is_finite;

}

/// Growing the visited set never increases the measure.
pub proof fn lemma_refs_left_union(doc: Document, v: Set<Seq<char>>, w: Set<Seq<char>>)
    ensures
        refs_left(doc, v.union(w)) <= refs_left(doc, v),
{
    lemma_ref_names_finite(doc);
    let names = ref_names(doc);
    lemma_len_subset(names.difference(v), names);
    assert(names.difference(v.union(w)).subset_of(names.difference(v)));
    lemma_len_subset(names.difference(v.union(w)), names.difference(v));
}

/// A subset of the visited set leaves at least as many references open.
pub proof fn lemma_refs_left_subset(doc: Document, v: Set<Seq<char>>, w: Set<Seq<char>>)
    requires
        v.subset_of(w),
    ensures
        refs_left(doc, w) <= refs_left(doc, v),
{
    lemma_refs_left_union(doc, v, w);
    assert(v.union(w) =~= w);
}

/// A resolvable reference is one of the component reference names.
pub proof fn lemma_resolvable_in_names(doc: Document, r: Seq<char>)
    requires
        spec_resolve_ref(doc, r) is Some,
    ensures
        ref_names(doc).contains(r),
{
    let rest = r.skip(schemas_prefix().len() as int);
    lemma_assoc_some_has_index(spec_schemas(doc), rest);
    let i = choose|i: int|
        0 <= i < spec_schemas(doc).len() && spec_schemas(doc)[i].0@ == rest;
    let mapped = spec_schemas(doc).map(
        |i: int, p: (String, SchemaOrRef)| schemas_prefix() + p.0@,
    );
    assert(mapped[i] == schemas_prefix() + rest);
    assert(schemas_prefix() + rest =~= r);
    assert(mapped.contains(r));
}

/// A successful association lookup has a witnessing index.
proof fn lemma_assoc_some_has_index<T>(s: Seq<(String, T)>, k: Seq<char>)
    requires
        model::spec_assoc(s, k) is Some,
    ensures
        exists|i: int| 0 <= i < s.len() && s[i].0@ == k,
    decreases s.len(),
{
    if s.len() > 0 {
        if s[0].0@ == k {
            assert(0 <= 0 < s.len() && s[0].0@ == k);
        } else {
            lemma_assoc_some_has_index(s.drop_first(), k);
            let i = choose|i: int|
                0 <= i < s.drop_first().len() && s.drop_first()[i].0@ == k;
            assert(s[i + 1].0@ == k);
        }
    }
}

/// Expanding a fresh resolvable reference strictly shrinks the measure.
pub proof fn lemma_refs_left_insert(doc: Document, v: Set<Seq<char>>, r: Seq<char>)
    requires
        spec_resolve_ref(doc, r) is Some,
        !v.contains(r),
    ensures
        refs_left(doc, v.insert(r)) < refs_left(doc, v),
{
    lemma_ref_names_finite(doc);
    lemma_resolvable_in_names(doc, r);
    ref_names(doc).lemma_set_insert_diff_decreases(v, r);
}

/// A size for schema values, driving structural recursion.
pub open spec fn size_sref(s: SchemaOrRef) -> nat
    decreases s,
{
    match s {
        SchemaOrRef::Reference { .. } => 1,
        SchemaOrRef::Item(sch) => 1 + size_schema(sch),
    }
}

/// The size of a schema is one more than the size of its kind.
pub open spec fn size_schema(sch: Schema) -> nat
    decreases sch,
{
    1 + size_kind(sch.kind)
}

/// The size of a schema kind: one more than its children together.
pub open spec fn size_kind(k: SchemaKind) -> nat
    decreases k,
{
    match k {
        SchemaKind::Object { properties, required, additional_properties } => {
            1 + size_props(properties@) + (match additional_properties {
                Some(b) => 1 + size_sref(*b),
                None => 0,
            })
        },
        SchemaKind::ArrayType { items } => {
            match items {
                Some(b) => 2 + size_sref(*b),
                None => 1,
            }
        },
        SchemaKind::OneOf { variants } => 1 + size_list(variants@),
        SchemaKind::AnyOf { variants } => 1 + size_list(variants@),
        SchemaKind::AllOf { variants } => 1 + size_list(variants@),
        _ => 1,
    }
}

/// The joint size of a property list.
pub open spec fn size_props(s: Seq<(String, SchemaOrRef)>) -> nat
    decreases s,
{
    if s.len() == 0 {
        0
    } else {
        1 + size_sref(s[0].1) + size_props(s.drop_first())
    }
}

/// The joint size of a schema list.
pub open spec fn size_list(s: Seq<SchemaOrRef>) -> nat
    decreases s,
{
    if s.len() == 0 {
        0
    } else {
        1 + size_sref(s[0]) + size_list(s.drop_first())
    }
}

/// What converting a schema-or-reference yields: the generated node and the
/// set of references expanded so far. A reference is emitted as a forward
/// reference when full resolution is off, when it was already expanded in
/// this pass, or when it cannot be resolved; otherwise it is expanded once.
pub open spec fn spec_convert(
    doc: Document,
    s: SchemaOrRef,
    visited: Set<Seq<char>>,
    resolve: bool,
) -> (SpecJson, Set<Seq<char>>)
    decreases refs_left(doc, visited), size_sref(s),
{
    match s {
        SchemaOrRef::Reference { reference } => {
            let r = reference@;
            if !resolve && chars::spec_starts_with(r, schemas_prefix()) {
                (spec_ref_json(r), visited)
            } else if visited.contains(r) {
                (spec_ref_json(r), visited)
            } else {
                let v2 = visited.insert(r);
                match spec_resolve_ref(doc, r) {
                    Some(sch) => {
                        proof {
                            lemma_refs_left_insert(doc, visited, r);
                        }
                        spec_convert_item(doc, sch, v2, resolve)
                    },
                    None => (spec_ref_json(r), v2),
                }
            }
        },
        SchemaOrRef::Item(sch) => spec_convert_item(doc, sch, visited, resolve),
    }
}

/// Converts one schema value: builds the kind-specific entries, then carries
/// over description, default and enumeration.
pub open spec fn spec_convert_item(
    doc: Document,
    sch: Schema,
    visited: Set<Seq<char>>,
    resolve: bool,
) -> (SpecJson, Set<Seq<char>>)
    decreases refs_left(doc, visited), size_schema(sch),
{
    let (entries, v1) = spec_convert_kind(doc, sch, visited, resolve);
    let with_desc = match sch.description {
        Some(d) => if json::spec_obj_get(entries, "description"@) is None {
            json::spec_obj_insert(entries, "description"@, SpecJson::Str(d@))
        } else {
            entries
        },
        None => entries,
    };
    let with_default = match sch.default {
        Some(d) => json::spec_obj_insert(with_desc, "default"@, d@),
        None => with_desc,
    };
    let with_enum = match sch.enum_values {
        Some(vs) => json::spec_obj_insert(
            with_default,
            "enum"@,
            SpecJson::Arr(json::jview_list(vs@)),
        ),
        None => with_default,
    };
    (SpecJson::Obj(with_enum), v1)
}

/// The kind-specific entries of a converted schema.
pub open spec fn spec_convert_kind(
    doc: Document,
    sch: Schema,
    visited: Set<Seq<char>>,
    resolve: bool,
) -> (Seq<(Seq<char>, SpecJson)>, Set<Seq<char>>)
    decreases refs_left(doc, visited), size_schema(sch), 1nat,
{
    match sch.kind {
        SchemaKind::Object { properties, required, additional_properties } => {
            let (props, va) = spec_convert_props(doc, properties@, visited, resolve);
            let base = seq![("type"@, SpecJson::Str("object"@))];
            let with_props = if properties@.len() > 0 {
                base.push(("properties"@, SpecJson::Obj(props)))
            } else {
                base
            };
            let with_req = if required@.len() > 0 {
                with_props.push(
                    (
                        "required"@,
                        SpecJson::Arr(
                            Seq::new(required@.len(), |i: int| SpecJson::Str(required@[i]@)),
                        ),
                    ),
                )
            } else {
                with_props
            };
            match additional_properties {
                Some(b) => {
                    proof {
                        lemma_refs_left_union(doc, visited, va);
                    }
                    let (aj, vb) = spec_convert(doc, *b, visited.union(va), resolve);
                    (with_req.push(("additionalProperties"@, aj)), vb)
                },
                None => (with_req.push(("additionalProperties"@, SpecJson::Bool(true))), va),
            }
        },
        SchemaKind::ArrayType { items } => {
            let base = seq![("type"@, SpecJson::Str("array"@))];
            match items {
                Some(b) => {
                    let (ij, va) = spec_convert(doc, *b, visited, resolve);
                    (base.push(("items"@, ij)), va)
                },
                None => (base, visited),
            }
        },
        SchemaKind::StringType { format } => {
            let base = seq![("type"@, SpecJson::Str("string"@))];
            match format {
                Some(f) => if f@ == "binary"@ {
                    (
                        base.push(("format"@, SpecJson::Str("uri-reference"@))).push(
                            ("description"@, SpecJson::Str(binary_description(sch.description))),
                        ),
                        visited,
                    )
                } else {
                    (base.push(("format"@, SpecJson::Str(f@))), visited)
                },
                None => (base, visited),
            }
        },
        SchemaKind::NumberType => (seq![("type"@, SpecJson::Str("number"@))], visited),
        SchemaKind::IntegerType => (seq![("type"@, SpecJson::Str("integer"@))], visited),
        SchemaKind::BooleanType => (seq![("type"@, SpecJson::Str("boolean"@))], visited),
        SchemaKind::OneOf { variants } => {
            let (vs, va) = spec_convert_list(doc, variants@, visited, resolve);
            (seq![("oneOf"@, SpecJson::Arr(vs))], va)
        },
        SchemaKind::AnyOf { variants } => {
            let (vs, va) = spec_convert_list(doc, variants@, visited, resolve);
            (seq![("anyOf"@, SpecJson::Arr(vs))], va)
        },
        SchemaKind::AllOf { variants } => {
            let (vs, va) = spec_convert_list(doc, variants@, visited, resolve);
            (seq![("allOf"@, SpecJson::Arr(vs))], va)
        },
        SchemaKind::Other => (Seq::empty(), visited),
    }
}

/// The description attached to a binary string schema: the declared text, if
/// any, with the file-path note appended.
pub open spec fn binary_description(d: Option<String>) -> Seq<char> {
    match d {
        Some(s) => s@ + " ("@ + "absolute paths to local files"@ + ")"@,
        None => "absolute paths to local files"@,
    }
}

/// Converts a property list left to right, threading the visited set.
pub open spec fn spec_convert_props(
    doc: Document,
    props: Seq<(String, SchemaOrRef)>,
    visited: Set<Seq<char>>,
    resolve: bool,
) -> (Seq<(Seq<char>, SpecJson)>, Set<Seq<char>>)
    decreases refs_left(doc, visited), size_props(props),
{
    if props.len() == 0 {
        (Seq::empty(), visited)
    } else {
        let (j, v1) = spec_convert(doc, props[0].1, visited, resolve);
        proof {
            lemma_refs_left_union(doc, visited, v1);
        }
        let (rest, v2) = spec_convert_props(doc, props.drop_first(), visited.union(v1), resolve);
        (seq![(props[0].0@, j)] + rest, v2)
    }
}

/// Converts a schema list left to right, threading the visited set.
pub open spec fn spec_convert_list(
    doc: Document,
    list: Seq<SchemaOrRef>,
    visited: Set<Seq<char>>,
    resolve: bool,
) -> (Seq<SpecJson>, Set<Seq<char>>)
    decreases refs_left(doc, visited), size_list(list),
{
    if list.len() == 0 {
        (Seq::empty(), visited)
    } else {
        let (j, v1) = spec_convert(doc, list[0], visited, resolve);
        proof {
            lemma_refs_left_union(doc, visited, v1);
        }
        let (rest, v2) = spec_convert_list(doc, list.drop_first(), visited.union(v1), resolve);
        (seq![j] + rest, v2)
    }
}

/// Conversion only ever adds to the visited set.
pub proof fn lemma_convert_mono(doc: Document, s: SchemaOrRef, visited: Set<Seq<char>>, resolve: bool)
    ensures
        visited.subset_of(spec_convert(doc, s, visited, resolve).1),
    decreases refs_left(doc, visited), size_sref(s),
{
    match s {
        SchemaOrRef::Reference { reference } => {
            let r = reference@;
            if !resolve && chars::spec_starts_with(r, schemas_prefix()) {
            } else if visited.contains(r) {
            } else {
                let v2 = visited.insert(r);
                match spec_resolve_ref(doc, r) {
                    Some(sch) => {
                        lemma_refs_left_insert(doc, visited, r);
                        lemma_convert_item_mono(doc, sch, v2, resolve);
                    },
                    None => {},
                }
            }
        },
        SchemaOrRef::Item(sch) => {
            lemma_convert_item_mono(doc, sch, visited, resolve);
        },
    }
}

/// Converting one schema only ever adds to the visited set.
pub proof fn lemma_convert_item_mono(
    doc: Document,
    sch: Schema,
    visited: Set<Seq<char>>,
    resolve: bool,
)
    ensures
        visited.subset_of(spec_convert_item(doc, sch, visited, resolve).1),
    decreases refs_left(doc, visited), size_schema(sch), 2nat,
{
    lemma_convert_kind_mono(doc, sch, visited, resolve);
}

/// Converting a schema's kind only ever adds to the visited set.
pub proof fn lemma_convert_kind_mono(
    doc: Document,
    sch: Schema,
    visited: Set<Seq<char>>,
    resolve: bool,
)
    ensures
        visited.subset_of(spec_convert_kind(doc, sch, visited, resolve).1),
    decreases refs_left(doc, visited), size_schema(sch), 1nat,
{
    match sch.kind {
        SchemaKind::Object { properties, required, additional_properties } => {
            lemma_convert_props_mono(doc, properties@, visited, resolve);
            let (props, va) = spec_convert_props(doc, properties@, visited, resolve);
            match additional_properties {
                Some(b) => {
                    lemma_refs_left_union(doc, visited, va);
                    lemma_convert_mono(doc, *b, visited.union(va), resolve);
                },
                None => {},
            }
        },
        SchemaKind::ArrayType { items } => {
            match items {
                Some(b) => {
                    lemma_convert_mono(doc, *b, visited, resolve);
                },
                None => {},
            }
        },
        SchemaKind::OneOf { variants } => {
            lemma_convert_list_mono(doc, variants@, visited, resolve);
        },
        SchemaKind::AnyOf { variants } => {
            lemma_convert_list_mono(doc, variants@, visited, resolve);
        },
        SchemaKind::AllOf { variants } => {
            lemma_convert_list_mono(doc, variants@, visited, resolve);
        },
        _ => {},
    }
}

/// Converting a property list only ever adds to the visited set.
pub proof fn lemma_convert_props_mono(
    doc: Document,
    props: Seq<(String, SchemaOrRef)>,
    visited: Set<Seq<char>>,
    resolve: bool,
)
    ensures
        visited.subset_of(spec_convert_props(doc, props, visited, resolve).1),
    decreases refs_left(doc, visited), size_props(props),
{
    if props.len() > 0 {
        lemma_convert_mono(doc, props[0].1, visited, resolve);
        let (j, v1) = spec_convert(doc, props[0].1, visited, resolve);
        lemma_refs_left_union(doc, visited, v1);
        lemma_convert_props_mono(doc, props.drop_first(), visited.union(v1), resolve);
    }
}

/// Converting a schema list only ever adds to the visited set.
pub proof fn lemma_convert_list_mono(
    doc: Document,
    list: Seq<SchemaOrRef>,
    visited: Set<Seq<char>>,
    resolve: bool,
)
    ensures
        visited.subset_of(spec_convert_list(doc, list, visited, resolve).1),
    decreases refs_left(doc, visited), size_list(list),
{
    if list.len() > 0 {
        lemma_convert_mono(doc, list[0], visited, resolve);
        let (j, v1) = spec_convert(doc, list[0], visited, resolve);
        lemma_refs_left_union(doc, visited, v1);
        lemma_convert_list_mono(doc, list.drop_first(), visited.union(v1), resolve);
    }
}

/// Every property's schema is smaller than the whole property list.
proof fn lemma_size_props_bound(s: Seq<(String, SchemaOrRef)>, i: int)
    requires
        0 <= i < s.len(),
    ensures
        size_sref(s[i].1) < size_props(s),
    decreases s.len(),
{
    if i == 0 {
    } else {
        lemma_size_props_bound(s.drop_first(), i - 1);
        assert(s.drop_first()[i - 1] == s[i]);
    }
}

/// Every element is smaller than the whole schema list.
proof fn lemma_size_list_bound(s: Seq<SchemaOrRef>, i: int)
    requires
        0 <= i < s.len(),
    ensures
        size_sref(s[i]) < size_list(s),
    decreases s.len(),
{
    if i == 0 {
    } else {
        lemma_size_list_bound(s.drop_first(), i - 1);
        assert(s.drop_first()[i - 1] == s[i]);
    }
}

/// Cycle termination, the general half: a reference reentered while being
/// expanded — whatever chain of other references led back to it — converts
/// to a forward reference into the definitions table, and is expanded no
/// further; the visited set is left as it was. With the monotonicity lemmas
/// below, which show that the visited set only ever grows during a pass,
/// this holds at every point of the expansion of any reference chain, so no
/// schema is ever inlined into itself. Termination itself is enforced by
/// construction: every conversion function decreases the count of
/// not-yet-expanded component references before anything else.
pub proof fn lemma_visited_reference_is_forward(
    doc: Document,
    reference: String,
    visited: Set<Seq<char>>,
    resolve: bool,
)
    requires
        visited.contains(reference@),
    ensures
        spec_convert(doc, SchemaOrRef::Reference { reference }, visited, resolve) == (
            spec_ref_json(reference@),
            visited,
        ),
{
}

/// A reference is expanded at most once per conversion pass: after any
/// conversion of a resolvable reference under full resolution, that
/// reference stands in the returned visited set — so by
/// `lemma_visited_reference_is_forward` every later occurrence in the same
/// pass converts to a forward reference instead of a second expansion.
pub proof fn lemma_expanded_reference_is_marked(
    doc: Document,
    reference: String,
    visited: Set<Seq<char>>,
)
    requires
        spec_resolve_ref(doc, reference@) is Some,
    ensures
        spec_convert(doc, SchemaOrRef::Reference { reference }, visited, true).1.contains(
            reference@,
        ),
{
    let r = reference@;
    if visited.contains(r) {
    } else {
        let v2 = visited.insert(r);
        lemma_refs_left_insert(doc, visited, r);
        let sch = spec_resolve_ref(doc, r)->Some_0;
        lemma_convert_item_mono(doc, sch, v2, true);
    }
}

/// Converting a property list yields one entry per property, under the
/// property's own name.
pub proof fn lemma_props_len(
    doc: Document,
    props: Seq<(String, SchemaOrRef)>,
    visited: Set<Seq<char>>,
    resolve: bool,
)
    ensures
        spec_convert_props(doc, props, visited, resolve).0.len() == props.len(),
    decreases refs_left(doc, visited), size_props(props),
{
    if props.len() > 0 {
        let (j, v1) = spec_convert(doc, props[0].1, visited, resolve);
        lemma_refs_left_union(doc, visited, v1);
        lemma_props_len(doc, props.drop_first(), visited.union(v1), resolve);
    }
}

/// A property that is a reference already in the visited set converts to a
/// forward reference, wherever it stands in the list.
pub proof fn lemma_props_ref_forward(
    doc: Document,
    props: Seq<(String, SchemaOrRef)>,
    visited: Set<Seq<char>>,
    resolve: bool,
    k: int,
    rr: String,
)
    requires
        0 <= k < props.len(),
        props[k].1 == (SchemaOrRef::Reference { reference: rr }),
        visited.contains(rr@),
    ensures
        spec_convert_props(doc, props, visited, resolve).0[k] == (props[k].0@, spec_ref_json(rr@)),
    decreases refs_left(doc, visited), size_props(props),
{
    let (j, v1) = spec_convert(doc, props[0].1, visited, resolve);
    lemma_refs_left_union(doc, visited, v1);
    let (rest, v2) = spec_convert_props(doc, props.drop_first(), visited.union(v1), resolve);
    if k == 0 {
        assert(spec_convert_props(doc, props, visited, resolve).0[0] == (props[0].0@, j));
    } else {
        lemma_convert_mono(doc, props[0].1, visited, resolve);
        assert(visited.union(v1).contains(rr@));
        assert(props.drop_first()[k - 1] == props[k]);
        lemma_props_ref_forward(doc, props.drop_first(), visited.union(v1), resolve, k - 1, rr);
        lemma_props_len(doc, props.drop_first(), visited.union(v1), resolve);
        assert(spec_convert_props(doc, props, visited, resolve).0[k] == rest[k - 1]);
    }
}

/// Cycle termination, made concrete for a direct self-reference: fully
/// resolving a component schema that holds a property referring back to the
/// same component terminates — every conversion does, by construction — and
/// the reentered reference is emitted as a forward reference into the
/// definitions table instead of being expanded again.
pub proof fn lemma_self_reference_breaks_cycle(
    doc: Document,
    rs: String,
    sch: Schema,
    properties: Vec<(String, SchemaOrRef)>,
    required: Vec<String>,
    k: int,
)
    requires
        spec_resolve_ref(doc, rs@) == Some(sch),
        sch.kind == (SchemaKind::Object { properties, required, additional_properties: None }),
        sch.default is None,
        sch.enum_values is None,
        0 <= k < properties@.len(),
        exists|rr: String|
            properties@[k].1 == (SchemaOrRef::Reference { reference: rr }) && rr@ == rs@,
    ensures
        ({
            let converted = spec_convert(
                doc,
                SchemaOrRef::Reference { reference: rs },
                Set::empty(),
                true,
            ).0;
            match converted {
                SpecJson::Obj(entries) => match json::spec_obj_get(entries, "properties"@) {
                    Some(SpecJson::Obj(pj)) => pj.len() == properties@.len() && pj[k] == (
                        properties@[k].0@,
                        spec_ref_json(rs@),
                    ),
                    _ => false,
                },
                _ => false,
            }
        }),
{
    let empty = Set::<Seq<char>>::empty();
    let r = rs@;
    let v2 = empty.insert(r);
    lemma_refs_left_insert(doc, empty, r);
    let rr = choose|rr: String|
        properties@[k].1 == (SchemaOrRef::Reference { reference: rr }) && rr@ == rs@;
    assert(v2.contains(rr@));
    let (pj, va) = spec_convert_props(doc, properties@, v2, true);
    lemma_props_len(doc, properties@, v2, true);
    lemma_props_ref_forward(doc, properties@, v2, true, k, rr);
    let (entries0, v1) = spec_convert_kind(doc, sch, v2, true);
    let base = seq![("type"@, SpecJson::Str("object"@))];
    let with_props = base.push(("properties"@, SpecJson::Obj(pj)));
    reveal_strlit("type");
    reveal_strlit("properties");
    reveal_strlit("required");
    reveal_strlit("additionalProperties");
    reveal_strlit("description");
    reveal_strlit("default");
    reveal_strlit("enum");
    assert("type"@.len() == 4);
    assert("properties"@.len() == 10);
    assert("type"@ != "properties"@);
    assert(json::spec_obj_get(base, "properties"@) is None) by {
        assert(base[0].0 == "type"@);
        assert(base.drop_first() =~= Seq::<(Seq<char>, SpecJson)>::empty());
        assert(json::spec_obj_get(base.drop_first(), "properties"@) is None);
    }
    json::lemma_obj_get_push(base, ("properties"@, SpecJson::Obj(pj)), "properties"@);
    assert(json::spec_obj_get(with_props, "properties"@) == Some(SpecJson::Obj(pj)));
    let with_req = if required@.len() > 0 {
        with_props.push(
            (
                "required"@,
                SpecJson::Arr(Seq::new(required@.len(), |i: int| SpecJson::Str(required@[i]@))),
            ),
        )
    } else {
        with_props
    };
    if required@.len() > 0 {
        json::lemma_obj_get_push(
            with_props,
            (
                "required"@,
                SpecJson::Arr(Seq::new(required@.len(), |i: int| SpecJson::Str(required@[i]@))),
            ),
            "properties"@,
        );
    }
    assert(json::spec_obj_get(with_req, "properties"@) == Some(SpecJson::Obj(pj)));
    let entries_k = with_req.push(("additionalProperties"@, SpecJson::Bool(true)));
    json::lemma_obj_get_push(with_req, ("additionalProperties"@, SpecJson::Bool(true)), "properties"@);
    assert(json::spec_obj_get(entries_k, "properties"@) == Some(SpecJson::Obj(pj)));
    assert(entries0 == entries_k);
    let with_desc = match sch.description {
        Some(d) => if json::spec_obj_get(entries0, "description"@) is None {
            json::spec_obj_insert(entries0, "description"@, SpecJson::Str(d@))
        } else {
            entries0
        },
        None => entries0,
    };
    match sch.description {
        Some(d) => {
            if json::spec_obj_get(entries0, "description"@) is None {
                json::lemma_obj_insert_other_get(
                    entries0,
                    "description"@,
                    SpecJson::Str(d@),
                    "properties"@,
                );
            }
        },
        None => {},
    }
    assert(json::spec_obj_get(with_desc, "properties"@) == Some(SpecJson::Obj(pj)));
    assert(spec_convert_item(doc, sch, v2, true).0 == SpecJson::Obj(with_desc));
    assert(spec_convert(doc, SchemaOrRef::Reference { reference: rs }, empty, true)
        == spec_convert_item(doc, sch, v2, true));
}

/// The set of reference strings a visited vector stands for.
pub open spec fn vset(v: Seq<String>) -> Set<Seq<char>> {
    v.map(|i: int, s: String| s@).to_set()
}

/// Whether the visited vector holds `r`, matching `vset` membership.
fn visited_contains(v: &Vec<String>, r: &str) -> (b: bool)
    ensures
        b == vset(v@).contains(r@),
{
    let ghost mapped = v@.map(|i: int, s: String| s@);
    let mut i: usize = 0;
    while i < v.len()
        invariant
            mapped == v@.map(|i: int, s: String| s@),
            i <= v@.len(),
            forall|j: int| 0 <= j < i ==> v@[j]@ != r@,
        decreases v@.len() - i,
    {
        if chars::str_eq(v[i].as_str(), r) {
            assert(mapped[i as int] == r@);
            assert(mapped.contains(r@));
            return true;
        }
        i = i + 1;
    }
    assert forall|j: int| 0 <= j < mapped.len() implies mapped[j] != r@ by {
        assert(mapped[j] == v@[j]@);
    }
    assert(!mapped.contains(r@));
    false
}

/// Records `r` as visited, matching `vset` insertion.
fn visited_push(v: &mut Vec<String>, r: &String)
    ensures
        vset(final(v)@) == vset(old(v)@).insert(r@),
{
    let ghost before = v@;
    v.push(r.clone());
    proof {
        let f = |i: int, s: String| s@;
        assert(v@.map(f) =~= before.map(f).push(r@));
        before.map(f).lemma_push_to_set_commute(r@);
        assert(vset(v@) =~= vset(before).insert(r@));
    }
}

/// The forward-reference node for `reference`, matching `spec_ref_json`.
fn ref_json(reference: &String) -> (r: JsonValue)
    ensures
        r@ == spec_ref_json(reference@),
{
    proof {
        reveal_strlit("#/components/schemas/");
    }
    let target = chars::replace_all(reference.as_str(), "#/components/schemas/", "#/$defs/");
    let mut entries: Vec<(String, JsonValue)> = Vec::new();
    json::obj_push(&mut entries, "$ref".to_owned(), JsonValue::Str(target));
    let out = JsonValue::Obj(entries);
    proof {
        assert(json::jview_entries(entries@) =~= seq![
            (
                "$ref"@,
                SpecJson::Str(
                    chars::spec_replace(reference@, schemas_prefix(), defs_prefix()),
                ),
            ),
        ]);
    }
    out
}

/// Converts one schema-or-reference, matching `spec_convert`; the returned
/// vector is the updated visited set.
#[verifier::loop_isolation(false)]
pub fn convert_schema(doc: &Document, s: &SchemaOrRef, visited: Vec<String>, resolve: bool) -> (res:
    (JsonValue, Vec<String>))
    ensures
        (res.0@, vset(res.1@)) == spec_convert(*doc, *s, vset(visited@), resolve),
    decreases refs_left(*doc, vset(visited@)), size_sref(*s),
{
    let ghost v0 = vset(visited@);
    match s {
        SchemaOrRef::Reference { reference } => {
            if !resolve && chars::starts_with(reference.as_str(), "#/components/schemas/") {
                (ref_json(reference), visited)
            } else if visited_contains(&visited, reference.as_str()) {
                (ref_json(reference), visited)
            } else {
                let mut visited2 = visited;
                visited_push(&mut visited2, reference);
                match model::resolve_ref(doc, reference.as_str()) {
                    Some(sch) => {
                        proof {
                            lemma_refs_left_insert(*doc, v0, reference@);
                        }
                        convert_item(doc, sch, visited2, resolve)
                    },
                    None => (ref_json(reference), visited2),
                }
            }
        },
        SchemaOrRef::Item(sch) => convert_item(doc, sch, visited, resolve),
    }
}

/// Converts one schema value, matching `spec_convert_item`.
#[verifier::loop_isolation(false)]
pub fn convert_item(doc: &Document, sch: &Schema, visited: Vec<String>, resolve: bool) -> (res: (
    JsonValue,
    Vec<String>,
))
    ensures
        (res.0@, vset(res.1@)) == spec_convert_item(*doc, *sch, vset(visited@), resolve),
    decreases refs_left(*doc, vset(visited@)), size_schema(*sch), 2nat,
{
    let (entries0, visited1) = convert_kind(doc, sch, visited, resolve);
    let mut entries = entries0;
    match &sch.description {
        Some(d) => {
            let absent = match json::obj_get(&entries, "description") {
                Some(_) => false,
                None => true,
            };
            if absent {
                json::obj_insert(&mut entries, "description".to_owned(), JsonValue::Str(d.clone()));
            }
        },
        None => {},
    }
    match &sch.default {
        Some(d) => {
            json::obj_insert(&mut entries, "default".to_owned(), json::json_clone(d));
        },
        None => {},
    }
    match &sch.enum_values {
        Some(vs) => {
            let cloned = json::json_vec_clone(vs);
            json::obj_insert(&mut entries, "enum".to_owned(), JsonValue::Arr(cloned));
        },
        None => {},
    }
    (JsonValue::Obj(entries), visited1)
}

/// Converts a schema's kind, matching `spec_convert_kind`.
#[verifier::loop_isolation(false)]
fn convert_kind(doc: &Document, sch: &Schema, visited: Vec<String>, resolve: bool) -> (res: (
    Vec<(String, JsonValue)>,
    Vec<String>,
))
    ensures
        ({
            let (ke, kv) = spec_convert_kind(*doc, *sch, vset(visited@), resolve);
            json::jview_entries(res.0@) == ke && vset(res.1@) == kv
        }),
    decreases refs_left(*doc, vset(visited@)), size_schema(*sch), 1nat,
{
    let ghost v0 = vset(visited@);
    let mut entries: Vec<(String, JsonValue)> = Vec::new();
    match &sch.kind {
        SchemaKind::Object { properties, required, additional_properties } => {
            let (props_vec, va) = convert_props(doc, properties, visited, resolve);
            json::obj_push(&mut entries, "type".to_owned(), JsonValue::Str("object".to_owned()));
            if properties.len() > 0 {
                json::obj_push(&mut entries, "properties".to_owned(), JsonValue::Obj(props_vec));
            }
            if required.len() > 0 {
                let mut req: Vec<JsonValue> = Vec::new();
                let ghost target = Seq::new(
                    required@.len(),
                    |i: int| SpecJson::Str(required@[i]@),
                );
                let mut i: usize = 0;
                proof {
                    assert(json::jview_list(req@) =~= target.subrange(0, 0));
                }
                while i < required.len()
                    invariant
                        i <= required@.len(),
                        json::jview_list(req@) =~= target.subrange(0, i as int),
                    decreases required@.len() - i,
                {
                    json::arr_push(&mut req, JsonValue::Str(required[i].clone()));
                    proof {
                        assert(json::jview_list(req@) =~= target.subrange(0, i as int + 1));
                    }
                    i = i + 1;
                }
                proof {
                    assert(target.subrange(0, required@.len() as int) =~= target);
                }
                json::obj_push(&mut entries, "required".to_owned(), JsonValue::Arr(req));
            }
            match additional_properties {
                Some(b) => {
                    proof {
                        lemma_convert_props_mono(*doc, properties@, v0, resolve);
                        assert(v0.union(vset(va@)) =~= vset(va@));
                        lemma_refs_left_union(*doc, v0, vset(va@));
                    }
                    let pair = convert_schema(doc, &**b, va, resolve);
                    json::obj_push(&mut entries, "additionalProperties".to_owned(), pair.0);
                    proof {
                        let (ke, kv) = spec_convert_kind(*doc, *sch, v0, resolve);
                        assert(json::jview_entries(entries@) =~= ke);
                    }
                    (entries, pair.1)
                },
                None => {
                    json::obj_push(
                        &mut entries,
                        "additionalProperties".to_owned(),
                        JsonValue::Bool(true),
                    );
                    proof {
                        let (ke, kv) = spec_convert_kind(*doc, *sch, v0, resolve);
                        assert(json::jview_entries(entries@) =~= ke);
                    }
                    (entries, va)
                },
            }
        },
        SchemaKind::ArrayType { items } => {
            json::obj_push(&mut entries, "type".to_owned(), JsonValue::Str("array".to_owned()));
            match items {
                Some(b) => {
                    let pair = convert_schema(doc, &**b, visited, resolve);
                    json::obj_push(&mut entries, "items".to_owned(), pair.0);
                    proof {
                        let (ke, kv) = spec_convert_kind(*doc, *sch, v0, resolve);
                        assert(json::jview_entries(entries@) =~= ke);
                    }
                    (entries, pair.1)
                },
                None => {
                    proof {
                        let (ke, kv) = spec_convert_kind(*doc, *sch, v0, resolve);
                        assert(json::jview_entries(entries@) =~= ke);
                    }
                    (entries, visited)
                },
            }
        },
        SchemaKind::StringType { format } => {
            json::obj_push(&mut entries, "type".to_owned(), JsonValue::Str("string".to_owned()));
            match format {
                Some(f) => {
                    if chars::str_eq(f.as_str(), "binary") {
                        json::obj_push(
                            &mut entries,
                            "format".to_owned(),
                            JsonValue::Str("uri-reference".to_owned()),
                        );
                        let desc = binary_description_exec(&sch.description);
                        json::obj_push(&mut entries, "description".to_owned(), JsonValue::Str(desc));
                    } else {
                        json::obj_push(&mut entries, "format".to_owned(), JsonValue::Str(f.clone()));
                    }
                },
                None => {},
            }
            proof {
                let (ke, kv) = spec_convert_kind(*doc, *sch, v0, resolve);
                assert(json::jview_entries(entries@) =~= ke);
            }
            (entries, visited)
        },
        SchemaKind::NumberType => {
            json::obj_push(&mut entries, "type".to_owned(), JsonValue::Str("number".to_owned()));
            proof {
                let (ke, kv) = spec_convert_kind(*doc, *sch, v0, resolve);
                assert(json::jview_entries(entries@) =~= ke);
            }
            (entries, visited)
        },
        SchemaKind::IntegerType => {
            json::obj_push(&mut entries, "type".to_owned(), JsonValue::Str("integer".to_owned()));
            proof {
                let (ke, kv) = spec_convert_kind(*doc, *sch, v0, resolve);
                assert(json::jview_entries(entries@) =~= ke);
            }
            (entries, visited)
        },
        SchemaKind::BooleanType => {
            json::obj_push(&mut entries, "type".to_owned(), JsonValue::Str("boolean".to_owned()));
            proof {
                let (ke, kv) = spec_convert_kind(*doc, *sch, v0, resolve);
                assert(json::jview_entries(entries@) =~= ke);
            }
            (entries, visited)
        },
        SchemaKind::OneOf { variants } => {
            let (vs, va) = convert_list(doc, variants, visited, resolve);
            json::obj_push(&mut entries, "oneOf".to_owned(), JsonValue::Arr(vs));
            proof {
                let (ke, kv) = spec_convert_kind(*doc, *sch, v0, resolve);
                assert(json::jview_entries(entries@) =~= ke);
            }
            (entries, va)
        },
        SchemaKind::AnyOf { variants } => {
            let (vs, va) = convert_list(doc, variants, visited, resolve);
            json::obj_push(&mut entries, "anyOf".to_owned(), JsonValue::Arr(vs));
            proof {
                let (ke, kv) = spec_convert_kind(*doc, *sch, v0, resolve);
                assert(json::jview_entries(entries@) =~= ke);
            }
            (entries, va)
        },
        SchemaKind::AllOf { variants } => {
            let (vs, va) = convert_list(doc, variants, visited, resolve);
            json::obj_push(&mut entries, "allOf".to_owned(), JsonValue::Arr(vs));
            proof {
                let (ke, kv) = spec_convert_kind(*doc, *sch, v0, resolve);
                assert(json::jview_entries(entries@) =~= ke);
            }
            (entries, va)
        },
        SchemaKind::Other => {
            proof {
                assert(json::jview_entries(entries@) =~= Seq::<(Seq<char>, SpecJson)>::empty());
            }
            (entries, visited)
        },
    }
}

/// Builds the binary-field description, matching `binary_description`.
fn binary_description_exec(d: &Option<String>) -> (r: String)
    ensures
        r@ == binary_description(*d),
{
    match d {
        Some(s) => {
            let mut out = s.clone();
            out.append(" (");
            out.append("absolute paths to local files");
            out.append(")");
            proof {
                assert(out@ =~= s@ + " ("@ + "absolute paths to local files"@ + ")"@);
            }
            out
        },
        None => "absolute paths to local files".to_owned(),
    }
}

/// Converts a property list, matching `spec_convert_props`.
#[verifier::loop_isolation(false)]
fn convert_props(
    doc: &Document,
    props: &Vec<(String, SchemaOrRef)>,
    visited: Vec<String>,
    resolve: bool,
) -> (res: (Vec<(String, JsonValue)>, Vec<String>))
    ensures
        ({
            let (pj, pv) = spec_convert_props(*doc, props@, vset(visited@), resolve);
            json::jview_entries(res.0@) == pj && vset(res.1@) == pv
        }),
    decreases refs_left(*doc, vset(visited@)), size_props(props@),
{
    let ghost v0 = vset(visited@);
    let mut out: Vec<(String, JsonValue)> = Vec::new();
    let mut vis = visited;
    let mut i: usize = 0;
    proof {
        assert(props@.skip(0) =~= props@);
        assert(json::jview_entries(out@) =~= Seq::<(Seq<char>, SpecJson)>::empty());
    }
    while i < props.len()
        invariant
            i <= props@.len(),
            refs_left(*doc, vset(vis@)) <= refs_left(*doc, v0),
            spec_convert_props(*doc, props@, v0, resolve) == ({
                let (tj, tv) = spec_convert_props(*doc, props@.skip(i as int), vset(vis@), resolve);
                (json::jview_entries(out@) + tj, tv)
            }),
        decreases props@.len() - i,
    {
        let ghost rest = props@.skip(i as int);
        let ghost vcur = vset(vis@);
        proof {
            assert(rest[0] == props@[i as int]);
            lemma_size_props_bound(props@, i as int);
        }
        let pair = convert_schema(doc, &props[i].1, vis, resolve);
        let j = pair.0;
        vis = pair.1;
        json::obj_push(&mut out, props[i].0.clone(), j);
        proof {
            lemma_convert_mono(*doc, props@[i as int].1, vcur, resolve);
            assert(vcur.union(vset(vis@)) =~= vset(vis@));
            assert(rest.drop_first() =~= props@.skip(i as int + 1));
            lemma_refs_left_subset(*doc, vcur, vset(vis@));
            let (tj, tv) = spec_convert_props(*doc, props@.skip(i as int + 1), vset(vis@), resolve);
            assert(json::jview_entries(out@) + tj =~= spec_convert_props(
                *doc,
                props@,
                v0,
                resolve,
            ).0);
        }
        i = i + 1;
    }
    proof {
        assert(props@.skip(i as int) =~= Seq::<(String, SchemaOrRef)>::empty());
        assert(json::jview_entries(out@) + Seq::<(Seq<char>, SpecJson)>::empty()
            =~= json::jview_entries(out@));
    }
    (out, vis)
}

/// Converts a schema list, matching `spec_convert_list`.
#[verifier::loop_isolation(false)]
fn convert_list(
    doc: &Document,
    list: &Vec<SchemaOrRef>,
    visited: Vec<String>,
    resolve: bool,
) -> (res: (Vec<JsonValue>, Vec<String>))
    ensures
        ({
            let (lj, lv) = spec_convert_list(*doc, list@, vset(visited@), resolve);
            json::jview_list(res.0@) == lj && vset(res.1@) == lv
        }),
    decreases refs_left(*doc, vset(visited@)), size_list(list@),
{
    let ghost v0 = vset(visited@);
    let mut out: Vec<JsonValue> = Vec::new();
    let mut vis = visited;
    let mut i: usize = 0;
    proof {
        assert(list@.skip(0) =~= list@);
        assert(json::jview_list(out@) =~= Seq::<SpecJson>::empty());
    }
    while i < list.len()
        invariant
            i <= list@.len(),
            refs_left(*doc, vset(vis@)) <= refs_left(*doc, v0),
            spec_convert_list(*doc, list@, v0, resolve) == ({
                let (tj, tv) = spec_convert_list(*doc, list@.skip(i as int), vset(vis@), resolve);
                (json::jview_list(out@) + tj, tv)
            }),
        decreases list@.len() - i,
    {
        let ghost rest = list@.skip(i as int);
        let ghost vcur = vset(vis@);
        proof {
            assert(rest[0] == list@[i as int]);
            lemma_size_list_bound(list@, i as int);
        }
        let pair = convert_schema(doc, &list[i], vis, resolve);
        let j = pair.0;
        vis = pair.1;
        json::arr_push(&mut out, j);
        proof {
            lemma_convert_mono(*doc, list@[i as int], vcur, resolve);
            assert(vcur.union(vset(vis@)) =~= vset(vis@));
            assert(rest.drop_first() =~= list@.skip(i as int + 1));
            lemma_refs_left_subset(*doc, vcur, vset(vis@));
            let (tj, tv) = spec_convert_list(*doc, list@.skip(i as int + 1), vset(vis@), resolve);
            assert(json::jview_list(out@) + tj =~= spec_convert_list(*doc, list@, v0, resolve).0);
        }
        i = i + 1;
    }
    proof {
        assert(list@.skip(i as int) =~= Seq::<SchemaOrRef>::empty());
        assert(json::jview_list(out@) + Seq::<SpecJson>::empty() =~= json::jview_list(out@));
    }
    (out, vis)
}

} // verus!
