//! The file-upload detector: finds which fields of an operation's multipart
//! request body stand for binary file payloads.

use vstd::prelude::*;

use crate::chars;
use crate::model::{self, Operation, RequestBodyOrRef, SchemaKind, SchemaOrRef};
use crate::operation::strs;

verus! {

/// Whether a schema describes a file payload: a string with the binary
/// format marker, or an array whose items do, recursively. References are
/// not followed here.
pub open spec fn spec_is_file_schema(s: SchemaOrRef) -> bool
    decreases s,
{
    match s {
        SchemaOrRef::Reference { .. } => false,
        SchemaOrRef::Item(sch) => match sch.kind {
            SchemaKind::StringType { format } => match format {
                Some(f) => f@ == "binary"@,
                None => false,
            },
            SchemaKind::ArrayType { items } => match items {
                Some(b) => spec_is_file_schema(*b),
                None => false,
            },
            _ => false,
        },
    }
}

/// The names of the file-schema properties in a property list, in order.
pub open spec fn spec_file_props(props: Seq<(String, SchemaOrRef)>) -> Seq<Seq<char>>
    decreases props.len(),
{
    if props.len() == 0 {
        Seq::empty()
    } else {
        let rest = spec_file_props(props.drop_first());
        if spec_is_file_schema(props[0].1) {
            seq![props[0].0@] + rest
        } else {
            rest
        }
    }
}

/// The file fields of an operation: the file-schema properties of its
/// directly declared multipart body schema; empty when there is no such
/// body, schema or object.
pub open spec fn spec_file_upload_params(op: Operation) -> Seq<Seq<char>> {
    match op.request_body {
        Some(RequestBodyOrRef::Item(rb)) => match model::spec_assoc(
            rb.content@,
            "multipart/form-data"@,
        ) {
            Some(mt) => match mt.schema {
                Some(SchemaOrRef::Item(sch)) => match sch.kind {
                    SchemaKind::Object { properties, .. } => spec_file_props(properties@),
                    _ => Seq::empty(),
                },
                _ => Seq::empty(),
            },
            None => Seq::empty(),
        },
        _ => Seq::empty(),
    }
}

/// Executable file-schema test matching `spec_is_file_schema`.
fn is_file_schema(s: &SchemaOrRef) -> (r: bool)
    ensures
        r == spec_is_file_schema(*s),
    decreases s,
{
    match s {
        SchemaOrRef::Reference { .. } => false,
        SchemaOrRef::Item(sch) => match &sch.kind {
            SchemaKind::StringType { format } => match format {
                Some(f) => chars::str_eq(f.as_str(), "binary"),
                None => false,
            },
            SchemaKind::ArrayType { items } => match items {
                Some(b) => is_file_schema(&**b),
                None => false,
            },
            _ => false,
        },
    }
}

/// Detects the declared multipart file fields of an operation, matching
/// `spec_file_upload_params`.
#[verifier::loop_isolation(false)]
pub fn is_file_upload_parameter(op: &Operation) -> (r: Vec<String>)
    ensures
        strs(r@) == spec_file_upload_params(*op),
{
    let mut out: Vec<String> = Vec::new();
    proof {
        assert(strs(out@) =~= Seq::<Seq<char>>::empty());
    }
    let rb = match &op.request_body {
        Some(RequestBodyOrRef::Item(rb)) => rb,
        _ => {
            return out;
        },
    };
    let mt = match model::assoc_get(&rb.content, "multipart/form-data") {
        Some(mt) => mt,
        None => {
            return out;
        },
    };
    let sch = match &mt.schema {
        Some(SchemaOrRef::Item(sch)) => sch,
        _ => {
            return out;
        },
    };
    match &sch.kind {
        SchemaKind::Object { properties, .. } => {
            let mut i: usize = 0;
            proof {
                assert(properties@.skip(0) =~= properties@);
            }
            while i < properties.len()
                invariant
                    i <= properties@.len(),
                    spec_file_props(properties@) =~= strs(out@) + spec_file_props(
                        properties@.skip(i as int),
                    ),
                decreases properties@.len() - i,
            {
                let ghost rest = properties@.skip(i as int);
                proof {
                    assert(rest[0] == properties@[i as int]);
                }
                if is_file_schema(&properties[i].1) {
                    let ghost obefore = out@;
                    out.push(properties[i].0.clone());
                    proof {
                        assert(strs(out@) =~= strs(obefore).push(properties@[i as int].0@));
                    }
                }
                i = i + 1;
                proof {
                    assert(rest.drop_first() =~= properties@.skip(i as int));
                }
            }
            proof {
                assert(properties@.skip(i as int) =~= Seq::<(String, SchemaOrRef)>::empty());
                assert(strs(out@) + Seq::<Seq<char>>::empty() =~= strs(out@));
            }
            out
        },
        _ => out,
    }
}

/// Multipart detection, characterized: a name is in the detected file-field
/// list exactly when some property under that name has a file schema — so a
/// binary-marked string property is detected, and a plain string property
/// under a name no other property uses is not.
pub proof fn lemma_file_props_membership(props: Seq<(String, SchemaOrRef)>, x: Seq<char>)
    ensures
        spec_file_props(props).contains(x) <==> exists|k: int|
            0 <= k < props.len() && props[k].0@ == x && spec_is_file_schema(props[k].1),
    decreases props.len(),
{
    if props.len() == 0 {
    } else {
        lemma_file_props_membership(props.drop_first(), x);
        let rest = spec_file_props(props.drop_first());
        if spec_file_props(props).contains(x) {
            if spec_is_file_schema(props[0].1) && props[0].0@ == x {
                assert(props[0].0@ == x && spec_is_file_schema(props[0].1));
            } else {
                assert(rest.contains(x)) by {
                    let whole = spec_file_props(props);
                    let i = choose|i: int| 0 <= i < whole.len() && whole[i] == x;
                    if spec_is_file_schema(props[0].1) {
                        assert(whole[0] == props[0].0@);
                        assert(i != 0);
                        assert(rest[i - 1] == x);
                    }
                }
                let k = choose|k: int|
                    0 <= k < props.drop_first().len() && props.drop_first()[k].0@ == x
                        && spec_is_file_schema(props.drop_first()[k].1);
                assert(props[k + 1].0@ == x && spec_is_file_schema(props[k + 1].1));
            }
        }
        if exists|k: int|
            0 <= k < props.len() && props[k].0@ == x && spec_is_file_schema(props[k].1) {
            let k = choose|k: int|
                0 <= k < props.len() && props[k].0@ == x && spec_is_file_schema(props[k].1);
            if k == 0 {
                assert(spec_file_props(props)[0] == x);
            } else {
                assert(props.drop_first()[k - 1] == props[k]);
                assert(rest.contains(x));
                let i = choose|i: int| 0 <= i < rest.len() && rest[i] == x;
                if spec_is_file_schema(props[0].1) {
                    assert(spec_file_props(props)[i + 1] == x);
                } else {
                    assert(spec_file_props(props)[i] == x);
                }
            }
        }
    }
}

} // verus!
