//! The execution engine: rebuilds path, query and header placement from a
//! tool call's argument bag, selects JSON, multipart or query-fallback
//! encoding, and interprets the HTTP outcome. The HTTP call itself is not
//! made here: this module computes an exact request plan and interprets the
//! response values handed back.

use vstd::prelude::*;

use crate::chars;
use crate::json::{self, JsonValue, SpecJson};
use crate::model::{self, Document, Operation, ParamLocation, ParameterOrRef};
use crate::operation::OperationInfo;
use crate::upload;

verus! {

/// Transport configuration: the base URL and the static outbound headers.
#[derive(Debug)]
pub struct HttpClientConfig {
    pub base_url: String,
    pub headers: Vec<(String, String)>,
}

/// A successful call's outcome: the response payload with its status and
/// headers preserved.
#[derive(Debug)]
pub struct HttpClientResponse {
    pub data: JsonValue,
    pub status: u16,
    pub headers: Vec<(String, String)>,
}

/// The failure taxonomy of a tool call: HTTP failures carry the upstream
/// status and whatever error payload could be recovered; transport, JSON,
/// file and operation errors are kept distinct so causes stay diagnosable.
#[derive(Debug)]
pub enum HttpClientError {
    RequestFailed {
        status: u16,
        message: String,
        data: Option<JsonValue>,
        headers: Option<Vec<(String, String)>>,
    },
    RequestError(String),
    JsonError(String),
    FileError(String),
    OperationError(String),
}

/// An HTTP method the engine can issue.
#[derive(Debug, Clone, Copy, PartialEq, Eq, Structural)]
pub enum HttpMethod {
    Get,
    Post,
    Put,
    Delete,
    Patch,
}

/// One file attached to a multipart form: its local path, the name it is
/// sent under, and its guessed content type.
#[derive(Debug)]
pub struct FilePart {
    pub path: String,
    pub file_name: String,
    pub mime: String,
}

/// What one multipart field carries.
#[derive(Debug)]
pub enum FormPartKind {
    Text(String),
    Files(Vec<FilePart>),
}

/// One multipart form field.
#[derive(Debug)]
pub struct FormPart {
    pub name: String,
    pub kind: FormPartKind,
}

/// How the request body is to be encoded.
#[derive(Debug)]
pub enum BodyPlan {
    Empty,
    Json(JsonValue),
    Multipart(Vec<FormPart>),
}

/// A fully determined outbound request.
#[derive(Debug)]
pub struct RequestPlan {
    pub method: HttpMethod,
    pub url: String,
    pub body: BodyPlan,
}

/// The mirror of a file part.
#[verifier::ext_equal]
pub struct SpecFilePart {
    pub path: Seq<char>,
    pub file_name: Seq<char>,
    pub mime: Seq<char>,
}

/// The mirror of a form field's content.
#[verifier::ext_equal]
pub enum SpecFormKind {
    Text(Seq<char>),
    Files(Seq<SpecFilePart>),
}

/// The mirror of a form field.
#[verifier::ext_equal]
pub struct SpecFormPart {
    pub name: Seq<char>,
    pub kind: SpecFormKind,
}

/// The mirror of a body plan.
#[verifier::ext_equal]
pub enum SpecBody {
    Empty,
    Json(SpecJson),
    Multipart(Seq<SpecFormPart>),
}

/// The mirror of a request plan.
#[verifier::ext_equal]
pub struct SpecPlan {
    pub method: HttpMethod,
    pub url: Seq<char>,
    pub body: SpecBody,
}

/// The mirror of an execution error.
#[verifier::ext_equal]
pub enum SpecHErr {
    RequestFailed {
        status: u16,
        message: Seq<char>,
        data: Option<SpecJson>,
        headers: Option<Seq<(Seq<char>, Seq<char>)>>,
    },
    RequestError(Seq<char>),
    JsonError(Seq<char>),
    FileError(Seq<char>),
    OperationError(Seq<char>),
}

/// The views of a vector of string pairs.
pub open spec fn pairs_view(s: Seq<(String, String)>) -> Seq<(Seq<char>, Seq<char>)> {
    s.map(|i: int, p: (String, String)| (p.0@, p.1@))
}

/// The mirror of one file part value.
pub open spec fn file_part_view(f: FilePart) -> SpecFilePart {
    SpecFilePart { path: f.path@, file_name: f.file_name@, mime: f.mime@ }
}

/// The mirrors of a file list.
pub open spec fn files_view(s: Seq<FilePart>) -> Seq<SpecFilePart> {
    s.map(|i: int, f: FilePart| file_part_view(f))
}

/// The mirror of one form part value.
pub open spec fn form_part_view(p: FormPart) -> SpecFormPart {
    SpecFormPart {
        name: p.name@,
        kind: match p.kind {
            FormPartKind::Text(s) => SpecFormKind::Text(s@),
            FormPartKind::Files(fs) => SpecFormKind::Files(files_view(fs@)),
        },
    }
}

/// The mirrors of a form part list.
pub open spec fn parts_view(s: Seq<FormPart>) -> Seq<SpecFormPart> {
    s.map(|i: int, p: FormPart| form_part_view(p))
}

/// The mirror of a body plan value.
pub open spec fn body_view(b: BodyPlan) -> SpecBody {
    match b {
        BodyPlan::Empty => SpecBody::Empty,
        BodyPlan::Json(j) => SpecBody::Json(j@),
        BodyPlan::Multipart(ps) => SpecBody::Multipart(parts_view(ps@)),
    }
}

/// The mirror of a request plan value.
pub open spec fn plan_view(p: RequestPlan) -> SpecPlan {
    SpecPlan { method: p.method, url: p.url@, body: body_view(p.body) }
}

/// The mirror of an error value.
pub open spec fn herr_view(e: HttpClientError) -> SpecHErr {
    match e {
        HttpClientError::RequestFailed { status, message, data, headers } => {
            SpecHErr::RequestFailed {
                status,
                message: message@,
                data: match data {
                    Some(d) => Some(d@),
                    None => None,
                },
                headers: match headers {
                    Some(h) => Some(pairs_view(h@)),
                    None => None,
                },
            }
        },
        HttpClientError::RequestError(m) => SpecHErr::RequestError(m@),
        HttpClientError::JsonError(m) => SpecHErr::JsonError(m@),
        HttpClientError::FileError(m) => SpecHErr::FileError(m@),
        HttpClientError::OperationError(m) => SpecHErr::OperationError(m@),
    }
}

/// Whether `c` passes through percent-encoding unchanged.
pub open spec fn spec_unreserved(c: char) -> bool {
    ('a' <= c && c <= 'z') || ('A' <= c && c <= 'Z') || ('0' <= c && c <= '9') || c == '-' || c
        == '_' || c == '.' || c == '~'
}

/// Whether every character of `s` passes through percent-encoding unchanged.
pub open spec fn spec_all_unreserved(s: Seq<char>) -> bool {
    forall|i: int| 0 <= i < s.len() ==> spec_unreserved(#[trigger] s[i])
}

/// What `urlencoding::encode` returns: a function of the characters alone.
pub uninterp spec fn url_encoded(s: Seq<char>) -> Seq<char>;

/// Relies on `urlencoding::encode`: percent-encodes every byte except ASCII
/// alphanumerics and `-`, `_`, `.`, `~`, so a string of those characters
/// alone comes back unchanged; the result depends on the characters alone.
#[verifier::external_body]
fn url_encode(s: &str) -> (r: String)
    ensures
        r@ == url_encoded(s@),
        spec_all_unreserved(s@) ==> r@ == s@,
{
    urlencoding::encode(s).into_owned()
}

/// What `mime_guess::from_path` (first guess, or the octet-stream default)
/// returns: a function of the path alone.
pub uninterp spec fn mime_of_path(p: Seq<char>) -> Seq<char>;

/// Relies on `mime_guess::from_path` and `first_or_octet_stream`: the
/// guessed content type depends on the path's characters alone.
#[verifier::external_body]
fn guess_mime(path: &str) -> (r: String)
    ensures
        r@ == mime_of_path(path@),
{
    mime_guess::from_path(path).first_or_octet_stream().to_string()
}

/// The HTTP methods the engine supports, by their lowercase names.
pub open spec fn spec_parse_method(m: Seq<char>) -> Option<HttpMethod> {
    if m == "get"@ {
        Some(HttpMethod::Get)
    } else if m == "post"@ {
        Some(HttpMethod::Post)
    } else if m == "put"@ {
        Some(HttpMethod::Put)
    } else if m == "delete"@ {
        Some(HttpMethod::Delete)
    } else if m == "patch"@ {
        Some(HttpMethod::Patch)
    } else {
        None
    }
}

/// Parses a method name, matching `spec_parse_method`.
pub fn parse_method(m: &str) -> (r: Option<HttpMethod>)
    ensures
        r == spec_parse_method(m@),
{
    if chars::str_eq(m, "get") {
        Some(HttpMethod::Get)
    } else if chars::str_eq(m, "post") {
        Some(HttpMethod::Post)
    } else if chars::str_eq(m, "put") {
        Some(HttpMethod::Put)
    } else if chars::str_eq(m, "delete") {
        Some(HttpMethod::Delete)
    } else if chars::str_eq(m, "patch") {
        Some(HttpMethod::Patch)
    } else {
        None
    }
}

/// The operation registered in the document under a path and method slot.
pub open spec fn spec_find_operation(doc: Document, path: Seq<char>, m: Seq<char>) -> Option<
    Operation,
> {
    match model::spec_assoc(doc.paths@, path) {
        None => None,
        Some(item) => match spec_parse_method(m) {
            Some(HttpMethod::Get) => item.get,
            Some(HttpMethod::Post) => item.post,
            Some(HttpMethod::Put) => item.put,
            Some(HttpMethod::Delete) => item.delete,
            Some(HttpMethod::Patch) => item.patch,
            None => None,
        },
    }
}

/// Finds the operation for a path and method, matching
/// `spec_find_operation`.
pub fn find_operation<'a>(doc: &'a Document, path: &str, m: &str) -> (r: Option<&'a Operation>)
    ensures
        match r {
            Some(op) => spec_find_operation(*doc, path@, m@) == Some(*op),
            None => spec_find_operation(*doc, path@, m@) is None,
        },
{
    let item = match model::assoc_get(&doc.paths, path) {
        Some(item) => item,
        None => {
            return None;
        },
    };
    match parse_method(m) {
        Some(HttpMethod::Get) => item.get.as_ref(),
        Some(HttpMethod::Post) => item.post.as_ref(),
        Some(HttpMethod::Put) => item.put.as_ref(),
        Some(HttpMethod::Delete) => item.delete.as_ref(),
        Some(HttpMethod::Patch) => item.patch.as_ref(),
        None => None,
    }
}

/// How an argument value appears in a URL: a string as itself, anything
/// else as its JSON text.
pub open spec fn spec_param_string(j: SpecJson) -> Seq<char> {
    match j {
        SpecJson::Str(s) => s,
        _ => json::spec_json_text(j),
    }
}

/// Renders an argument value for URL placement, matching
/// `spec_param_string`.
pub fn param_string(v: &JsonValue) -> (r: String)
    ensures
        r@ == spec_param_string(v@),
{
    match v {
        JsonValue::Str(s) => s.clone(),
        _ => json::to_text(v),
    }
}

/// The entry list with every entry under key `k` removed.
pub open spec fn spec_entries_remove(
    entries: Seq<(Seq<char>, SpecJson)>,
    k: Seq<char>,
) -> Seq<(Seq<char>, SpecJson)>
    decreases entries.len(),
{
    if entries.len() == 0 {
        Seq::empty()
    } else {
        let rest = spec_entries_remove(entries.drop_first(), k);
        if entries[0].0 == k {
            rest
        } else {
            seq![entries[0]] + rest
        }
    }
}

/// Removes every entry under key `k`, matching `spec_entries_remove`.
#[verifier::loop_isolation(false)]
fn entries_remove(entries: &mut Vec<(String, JsonValue)>, k: &str)
    ensures
        json::jview_entries(final(entries)@) == spec_entries_remove(
            json::jview_entries(old(entries)@),
            k@,
        ),
{
    let ghost ev = json::jview_entries(entries@);
    let mut out: Vec<(String, JsonValue)> = Vec::new();
    let mut i: usize = 0;
    proof {
        json::lemma_jview_entries_index(entries@);
        assert(ev.skip(0) =~= ev);
        assert(json::jview_entries(out@) =~= Seq::<(Seq<char>, SpecJson)>::empty());
    }
    while i < entries.len()
        invariant
            i <= entries@.len(),
            ev.len() == entries@.len(),
            forall|j: int| 0 <= j < ev.len() ==> #[trigger] ev[j] == (entries@[j].0@, json::jview(
                entries@[j].1,
            )),
            spec_entries_remove(ev, k@) =~= json::jview_entries(out@) + spec_entries_remove(
                ev.skip(i as int),
                k@,
            ),
        decreases entries@.len() - i,
    {
        let ghost rest = ev.skip(i as int);
        proof {
            assert(rest[0] == ev[i as int]);
        }
        if !chars::str_eq(entries[i].0.as_str(), k) {
            let v = json::json_clone(&entries[i].1);
            json::obj_push(&mut out, entries[i].0.clone(), v);
        }
        i = i + 1;
        proof {
            assert(rest.drop_first() =~= ev.skip(i as int));
        }
    }
    proof {
        assert(ev.skip(i as int) =~= Seq::<(Seq<char>, SpecJson)>::empty());
        assert(json::jview_entries(out@) + Seq::<(Seq<char>, SpecJson)>::empty()
            =~= json::jview_entries(out@));
    }
    *entries = out;
}

/// Where a declared parameter is placed: its own location when directly
/// declared, the query string for references.
pub open spec fn spec_param_location(p: ParameterOrRef) -> ParamLocation {
    match p {
        ParameterOrRef::Item(param) => param.location,
        ParameterOrRef::Reference { .. } => ParamLocation::Query,
    }
}

/// Placing the declared parameters: every supplied path parameter is
/// substituted into the URL, query parameters are collected, header
/// parameters are consumed, cookie parameters are left in place; every
/// consumed parameter is removed from the remaining arguments.
pub open spec fn spec_place_params(
    doc: Document,
    params: Seq<ParameterOrRef>,
    args: Seq<(Seq<char>, SpecJson)>,
    url: Seq<char>,
    query: Seq<(Seq<char>, Seq<char>)>,
    remaining: Seq<(Seq<char>, SpecJson)>,
) -> (Seq<char>, Seq<(Seq<char>, Seq<char>)>, Seq<(Seq<char>, SpecJson)>)
    decreases params.len(),
{
    if params.len() == 0 {
        (url, query, remaining)
    } else {
        let rest = params.drop_first();
        let loc = spec_param_location(params[0]);
        match model::spec_resolve_parameter(doc, params[0]) {
            Some(p) => match json::spec_obj_get(args, p.name@) {
                Some(v) => {
                    let vs = spec_param_string(v);
                    match loc {
                        ParamLocation::Path => spec_place_params(
                            doc,
                            rest,
                            args,
                            chars::spec_replace(url, "{"@ + p.name@ + "}"@, vs),
                            query,
                            spec_entries_remove(remaining, p.name@),
                        ),
                        ParamLocation::Query => spec_place_params(
                            doc,
                            rest,
                            args,
                            url,
                            query.push((p.name@, vs)),
                            spec_entries_remove(remaining, p.name@),
                        ),
                        ParamLocation::Header => spec_place_params(
                            doc,
                            rest,
                            args,
                            url,
                            query,
                            spec_entries_remove(remaining, p.name@),
                        ),
                        ParamLocation::Cookie => spec_place_params(
                            doc,
                            rest,
                            args,
                            url,
                            query,
                            remaining,
                        ),
                    }
                },
                None => spec_place_params(doc, rest, args, url, query, remaining),
            },
            None => spec_place_params(doc, rest, args, url, query, remaining),
        }
    }
}

/// The query-string text of collected query parameters: percent-encoded
/// keys and values joined with `&`.
pub open spec fn spec_query_join(q: Seq<(Seq<char>, Seq<char>)>) -> Seq<char> {
    chars::spec_join(
        q.map(|i: int, p: (Seq<char>, Seq<char>)| url_encoded(p.0) + "="@ + url_encoded(p.1)),
        "&"@,
    )
}

/// The fallback query text of leftover arguments: percent-encoded keys and
/// rendered values joined with `&`.
pub open spec fn spec_fallback_join(remaining: Seq<(Seq<char>, SpecJson)>) -> Seq<char> {
    chars::spec_join(
        remaining.map(
            |i: int, e: (Seq<char>, SpecJson)| url_encoded(e.0) + "="@ + url_encoded(
                spec_param_string(e.1),
            ),
        ),
        "&"@,
    )
}

/// The name a file is sent under: the path's last meaningful component, as
/// a file name would be read from it — trailing slashes and
/// current-directory dots are passed over, and a path that ends in a
/// parent-directory step, or holds nothing else, gets a plain default.
pub open spec fn spec_file_name(p: Seq<char>) -> Seq<char> {
    match chars::spec_last_component(chars::spec_split(p, '/')) {
        Some(c) => if c == ".."@ {
            "file"@
        } else {
            c
        },
        None => "file"@,
    }
}

/// The attachment built from one path.
pub open spec fn spec_file_of(path: Seq<char>) -> SpecFilePart {
    SpecFilePart { path, file_name: spec_file_name(path), mime: mime_of_path(path) }
}

/// The attachments of an array argument: each string element as a file,
/// other elements passed over.
pub open spec fn spec_files_of(elems: Seq<SpecJson>) -> Seq<SpecFilePart>
    decreases elems.len(),
{
    if elems.len() == 0 {
        Seq::empty()
    } else {
        let rest = spec_files_of(elems.drop_first());
        match elems[0] {
            SpecJson::Str(s) => seq![spec_file_of(s)] + rest,
            _ => rest,
        }
    }
}

/// The complaint for a file field whose value is neither a path nor an
/// array of paths.
pub open spec fn spec_file_err(k: Seq<char>) -> Seq<char> {
    "File parameter "@ + k + " must be a string path or array of string paths"@
}

/// Building the multipart form from the remaining arguments: file fields
/// take their string value, or each string of their array value, as local
/// file paths; other fields become text; a file field of any other shape is
/// an error.
pub open spec fn spec_form(
    remaining: Seq<(Seq<char>, SpecJson)>,
    files: Seq<Seq<char>>,
) -> Result<Seq<SpecFormPart>, Seq<char>>
    decreases remaining.len(),
{
    if remaining.len() == 0 {
        Ok(Seq::empty())
    } else {
        let (k, v) = remaining[0];
        if files.contains(k) {
            match v {
                SpecJson::Str(s) => match spec_form(remaining.drop_first(), files) {
                    Ok(rest) => Ok(
                        seq![
                            SpecFormPart { name: k, kind: SpecFormKind::Files(
                                seq![spec_file_of(s)],
                            ) },
                        ] + rest,
                    ),
                    Err(m) => Err(m),
                },
                SpecJson::Arr(elems) => match spec_form(remaining.drop_first(), files) {
                    Ok(rest) => Ok(
                        seq![
                            SpecFormPart { name: k, kind: SpecFormKind::Files(
                                spec_files_of(elems),
                            ) },
                        ] + rest,
                    ),
                    Err(m) => Err(m),
                },
                _ => Err(spec_file_err(k)),
            }
        } else {
            match spec_form(remaining.drop_first(), files) {
                Ok(rest) => Ok(
                    seq![
                        SpecFormPart { name: k, kind: SpecFormKind::Text(spec_param_string(v)) },
                    ] + rest,
                ),
                Err(m) => Err(m),
            }
        }
    }
}

/// What executing a tool call must send: the exact request plan for an
/// operation, argument bag and base URL — or the error owed. The method
/// must be one the engine supports and the operation must stand in the
/// document; a file field of the wrong shape is a file error.
pub open spec fn spec_build_request(
    doc: Document,
    method: Seq<char>,
    path: Seq<char>,
    args: Seq<(Seq<char>, SpecJson)>,
    base: Seq<char>,
) -> Result<SpecPlan, SpecHErr> {
    match spec_parse_method(method) {
        None => Err(SpecHErr::OperationError("Unsupported HTTP method: "@ + method)),
        Some(hm) => match spec_find_operation(doc, path, method) {
            None => Err(
                SpecHErr::OperationError("Operation not found: "@ + method + " "@ + path),
            ),
            Some(op) => {
                let url0 = base + path;
                let (url1, query, remaining) = spec_place_params(
                    doc,
                    op.parameters@,
                    args,
                    url0,
                    Seq::empty(),
                    args,
                );
                let url2 = if query.len() > 0 {
                    url1 + "?"@ + spec_query_join(query)
                } else {
                    url1
                };
                let files = upload::spec_file_upload_params(op);
                if files.len() > 0 {
                    match spec_form(remaining, files) {
                        Ok(parts) => Ok(
                            SpecPlan { method: hm, url: url2, body: SpecBody::Multipart(parts) },
                        ),
                        Err(m) => Err(SpecHErr::FileError(m)),
                    }
                } else if remaining.len() > 0 && (hm == HttpMethod::Post || hm == HttpMethod::Put
                    || hm == HttpMethod::Patch) {
                    if op.request_body is Some {
                        Ok(
                            SpecPlan {
                                method: hm,
                                url: url2,
                                body: SpecBody::Json(SpecJson::Obj(remaining)),
                            },
                        )
                    } else {
                        let sep: Seq<char> = if model::spec_contains_char(url2, '?') {
                            "&"@
                        } else {
                            "?"@
                        };
                        Ok(
                            SpecPlan {
                                method: hm,
                                url: url2 + sep + spec_fallback_join(remaining),
                                body: SpecBody::Empty,
                            },
                        )
                    }
                } else {
                    Ok(SpecPlan { method: hm, url: url2, body: SpecBody::Empty })
                }
            },
        },
    }
}

/// The file name of a path, matching `spec_file_name`.
fn file_name_of(path: &str) -> (r: String)
    ensures
        r@ == spec_file_name(path@),
{
    let parts = chars::split_str(path, '/');
    match chars::last_component(&parts) {
        Some(c) => {
            if chars::str_eq(c.as_str(), "..") {
                "file".to_owned()
            } else {
                c
            }
        },
        None => "file".to_owned(),
    }
}

/// The attachment for one path, matching `spec_file_of`.
fn make_file_part(path: &String) -> (r: FilePart)
    ensures
        file_part_view(r) == spec_file_of(path@),
{
    let file_name = file_name_of(path.as_str());
    let mime = guess_mime(path.as_str());
    FilePart { path: path.clone(), file_name, mime }
}

/// The attachments of an array argument, matching `spec_files_of`.
#[verifier::loop_isolation(false)]
fn files_of(elems: &Vec<JsonValue>) -> (r: Vec<FilePart>)
    ensures
        files_view(r@) == spec_files_of(json::jview_list(elems@)),
{
    let ghost ev = json::jview_list(elems@);
    let mut out: Vec<FilePart> = Vec::new();
    let mut i: usize = 0;
    proof {
        json::lemma_jview_list_index(elems@);
        assert(ev.skip(0) =~= ev);
        assert(files_view(out@) =~= Seq::<SpecFilePart>::empty());
    }
    while i < elems.len()
        invariant
            i <= elems@.len(),
            ev.len() == elems@.len(),
            forall|j: int| 0 <= j < ev.len() ==> #[trigger] ev[j] == json::jview(elems@[j]),
            spec_files_of(ev) =~= files_view(out@) + spec_files_of(ev.skip(i as int)),
        decreases elems@.len() - i,
    {
        let ghost rest = ev.skip(i as int);
        proof {
            assert(rest[0] == ev[i as int]);
        }
        match &elems[i] {
            JsonValue::Str(s) => {
                let fp = make_file_part(s);
                let ghost before = out@;
                let ghost fpv = file_part_view(fp);
                out.push(fp);
                proof {
                    assert(files_view(out@) =~= files_view(before).push(fpv));
                }
            },
            _ => {},
        }
        i = i + 1;
        proof {
            assert(rest.drop_first() =~= ev.skip(i as int));
        }
    }
    proof {
        assert(ev.skip(i as int) =~= Seq::<SpecJson>::empty());
        assert(files_view(out@) + Seq::<SpecFilePart>::empty() =~= files_view(out@));
    }
    out
}

/// The complaint for a badly shaped file field, matching `spec_file_err`.
fn file_err_message(k: &str) -> (r: String)
    ensures
        r@ == spec_file_err(k@),
{
    let mut m = "File parameter ".to_owned();
    m.append(k);
    m.append(" must be a string path or array of string paths");
    proof {
        assert(m@ =~= spec_file_err(k@));
    }
    m
}

/// Builds the multipart form, matching `spec_form`.
#[verifier::loop_isolation(false)]
fn build_form(remaining: &Vec<(String, JsonValue)>, files: &Vec<String>) -> (r: Result<
    Vec<FormPart>,
    String,
>)
    ensures
        match r {
            Ok(parts) => spec_form(
                json::jview_entries(remaining@),
                files@.map(|i: int, s: String| s@),
            ) == Ok::<Seq<SpecFormPart>, Seq<char>>(parts_view(parts@)),
            Err(m) => spec_form(json::jview_entries(remaining@), files@.map(|i: int, s: String| s@))
                == Err::<Seq<SpecFormPart>, Seq<char>>(m@),
        },
{
    let ghost rv = json::jview_entries(remaining@);
    let ghost fv = files@.map(|i: int, s: String| s@);
    let mut out: Vec<FormPart> = Vec::new();
    let mut i: usize = 0;
    proof {
        json::lemma_jview_entries_index(remaining@);
        assert(rv.skip(0) =~= rv);
        assert(parts_view(out@) =~= Seq::<SpecFormPart>::empty());
        assert(parts_view(out@) + Seq::<SpecFormPart>::empty() =~= parts_view(out@));
    }
    while i < remaining.len()
        invariant
            i <= remaining@.len(),
            rv.len() == remaining@.len(),
            forall|j: int| 0 <= j < rv.len() ==> #[trigger] rv[j] == (remaining@[j].0@, json::jview(
                remaining@[j].1,
            )),
            spec_form(rv, fv) == (match spec_form(rv.skip(i as int), fv) {
                Ok(t) => Ok::<Seq<SpecFormPart>, Seq<char>>(parts_view(out@) + t),
                Err(m) => Err::<Seq<SpecFormPart>, Seq<char>>(m),
            }),
        decreases remaining@.len() - i,
    {
        let ghost rest = rv.skip(i as int);
        proof {
            assert(rest[0] == rv[i as int]);
            assert(rest.drop_first() =~= rv.skip(i as int + 1));
        }
        let name = &remaining[i].0;
        if chars::list_contains(files, name.as_str()) {
            match &remaining[i].1 {
                JsonValue::Str(s) => {
                    let fp = make_file_part(s);
                    let mut fs: Vec<FilePart> = Vec::new();
                    let ghost fpv = file_part_view(fp);
                    fs.push(fp);
                    proof {
                        assert(files_view(fs@) =~= seq![fpv]);
                    }
                    let part = FormPart { name: name.clone(), kind: FormPartKind::Files(fs) };
                    let ghost pv = form_part_view(part);
                    let ghost before = out@;
                    out.push(part);
                    proof {
                        assert(parts_view(out@) =~= parts_view(before).push(pv));
                        assert(pv =~= SpecFormPart {
                            name: rest[0].0,
                            kind: SpecFormKind::Files(seq![spec_file_of(s@)]),
                        });
                        match spec_form(rest.drop_first(), fv) {
                            Ok(t) => {
                                assert(parts_view(out@) + t =~= parts_view(before) + (seq![pv]
                                    + t));
                            },
                            Err(m) => {},
                        }
                    }
                },
                JsonValue::Arr(elems) => {
                    let fs = files_of(elems);
                    let part = FormPart { name: name.clone(), kind: FormPartKind::Files(fs) };
                    let ghost pv = form_part_view(part);
                    let ghost before = out@;
                    out.push(part);
                    proof {
                        assert(parts_view(out@) =~= parts_view(before).push(pv));
                        assert(pv =~= SpecFormPart {
                            name: rest[0].0,
                            kind: SpecFormKind::Files(spec_files_of(json::jview_list(elems@))),
                        });
                        match spec_form(rest.drop_first(), fv) {
                            Ok(t) => {
                                assert(parts_view(out@) + t =~= parts_view(before) + (seq![pv]
                                    + t));
                            },
                            Err(m) => {},
                        }
                    }
                },
                _ => {
                    return Err(file_err_message(name.as_str()));
                },
            }
        } else {
            let text = param_string(&remaining[i].1);
            let part = FormPart { name: name.clone(), kind: FormPartKind::Text(text) };
            let ghost pv = form_part_view(part);
            let ghost before = out@;
            out.push(part);
            proof {
                assert(parts_view(out@) =~= parts_view(before).push(pv));
                assert(pv =~= SpecFormPart {
                    name: rest[0].0,
                    kind: SpecFormKind::Text(spec_param_string(rest[0].1)),
                });
                match spec_form(rest.drop_first(), fv) {
                    Ok(t) => {
                        assert(parts_view(out@) + t =~= parts_view(before) + (seq![pv] + t));
                    },
                    Err(m) => {},
                }
            }
        }
        i = i + 1;
    }
    proof {
        assert(rv.skip(i as int) =~= Seq::<(Seq<char>, SpecJson)>::empty());
    }
    Ok(out)
}

/// Renders the collected query parameters, matching `spec_query_join`.
#[verifier::loop_isolation(false)]
fn query_join(q: &Vec<(String, String)>) -> (r: String)
    ensures
        r@ == spec_query_join(pairs_view(q@)),
{
    let ghost qv = pairs_view(q@);
    let ghost f = |i: int, p: (Seq<char>, Seq<char>)| url_encoded(p.0) + "="@ + url_encoded(p.1);
    let ghost target = qv.map(f);
    let mut parts: Vec<String> = Vec::new();
    let mut i: usize = 0;
    proof {
        assert(parts.deep_view() =~= target.subrange(0, 0));
    }
    while i < q.len()
        invariant
            qv == pairs_view(q@),
            target == qv.map(f),
            target.len() == q@.len(),
            i <= q@.len(),
            parts.deep_view() =~= target.subrange(0, i as int),
        decreases q@.len() - i,
    {
        let ek = url_encode(q[i].0.as_str());
        let ev = url_encode(q[i].1.as_str());
        let mut part = ek;
        part.append("=");
        part.append(ev.as_str());
        proof {
            assert(qv[i as int] == (q@[i as int].0@, q@[i as int].1@));
            assert(part@ =~= f(i as int, qv[i as int]));
        }
        let ghost before = parts.deep_view();
        parts.push(part);
        proof {
            assert(parts.deep_view() =~= before.push(part@));
            assert(parts.deep_view() =~= target.subrange(0, i as int + 1));
        }
        i = i + 1;
    }
    proof {
        assert(target.subrange(0, i as int) =~= target);
    }
    chars::join_strs(&parts, "&")
}

/// Renders the leftover arguments as a fallback query, matching
/// `spec_fallback_join`.
#[verifier::loop_isolation(false)]
fn fallback_join(remaining: &Vec<(String, JsonValue)>) -> (r: String)
    ensures
        r@ == spec_fallback_join(json::jview_entries(remaining@)),
{
    let ghost rv = json::jview_entries(remaining@);
    let ghost f = |i: int, e: (Seq<char>, SpecJson)| url_encoded(e.0) + "="@ + url_encoded(
        spec_param_string(e.1),
    );
    let ghost target = rv.map(f);
    let mut parts: Vec<String> = Vec::new();
    let mut i: usize = 0;
    proof {
        json::lemma_jview_entries_index(remaining@);
        assert(parts.deep_view() =~= target.subrange(0, 0));
    }
    while i < remaining.len()
        invariant
            rv == json::jview_entries(remaining@),
            rv.len() == remaining@.len(),
            forall|j: int| 0 <= j < rv.len() ==> #[trigger] rv[j] == (remaining@[j].0@, json::jview(
                remaining@[j].1,
            )),
            target == rv.map(f),
            target.len() == rv.len(),
            i <= remaining@.len(),
            parts.deep_view() =~= target.subrange(0, i as int),
        decreases remaining@.len() - i,
    {
        let ek = url_encode(remaining[i].0.as_str());
        let vs = param_string(&remaining[i].1);
        let evs = url_encode(vs.as_str());
        let mut part = ek;
        part.append("=");
        part.append(evs.as_str());
        proof {
            assert(part@ =~= f(i as int, rv[i as int]));
        }
        let ghost before = parts.deep_view();
        parts.push(part);
        proof {
            assert(parts.deep_view() =~= before.push(part@));
            assert(parts.deep_view() =~= target.subrange(0, i as int + 1));
        }
        i = i + 1;
    }
    proof {
        assert(target.subrange(0, i as int) =~= target);
    }
    chars::join_strs(&parts, "&")
}

/// Computes the exact outbound request for one tool call, matching
/// `spec_build_request`: path parameters substituted into the URL, query
/// parameters appended percent-encoded, and the body encoded as multipart
/// when file fields are declared, as JSON when a body is declared for a
/// body-carrying method, as a query-string fallback when none is — and
/// never synthesized otherwise.
#[verifier::loop_isolation(false)]
pub fn build_request(
    doc: &Document,
    info: &OperationInfo,
    args: &Vec<(String, JsonValue)>,
    base_url: &str,
) -> (r: Result<RequestPlan, HttpClientError>)
    ensures
        match r {
            Ok(p) => spec_build_request(
                *doc,
                info.method@,
                info.path@,
                json::jview_entries(args@),
                base_url@,
            ) == Ok::<SpecPlan, SpecHErr>(plan_view(p)),
            Err(e) => spec_build_request(
                *doc,
                info.method@,
                info.path@,
                json::jview_entries(args@),
                base_url@,
            ) == Err::<SpecPlan, SpecHErr>(herr_view(e)),
        },
{
    let ghost argsv = json::jview_entries(args@);
    let hm = match parse_method(info.method.as_str()) {
        Some(hm) => hm,
        None => {
            let mut msg = "Unsupported HTTP method: ".to_owned();
            msg.append(info.method.as_str());
            proof {
                assert(msg@ =~= "Unsupported HTTP method: "@ + info.method@);
            }
            return Err(HttpClientError::OperationError(msg));
        },
    };
    let op = match find_operation(doc, info.path.as_str(), info.method.as_str()) {
        Some(op) => op,
        None => {
            let mut msg = "Operation not found: ".to_owned();
            msg.append(info.method.as_str());
            msg.append(" ");
            msg.append(info.path.as_str());
            proof {
                assert(msg@ =~= "Operation not found: "@ + info.method@ + " "@ + info.path@);
            }
            return Err(HttpClientError::OperationError(msg));
        },
    };
    let mut url = base_url.to_owned();
    url.append(info.path.as_str());
    let ghost url0 = base_url@ + info.path@;
    let mut query: Vec<(String, String)> = Vec::new();
    let mut remaining: Vec<(String, JsonValue)> = crate::operation::clone_entries(args);
    let mut i: usize = 0;
    proof {
        assert(op.parameters@.skip(0) =~= op.parameters@);
        assert(pairs_view(query@) =~= Seq::<(Seq<char>, Seq<char>)>::empty());
    }
    while i < op.parameters.len()
        invariant
            i <= op.parameters@.len(),
            spec_place_params(*doc, op.parameters@, argsv, url0, Seq::empty(), argsv)
                == spec_place_params(
                *doc,
                op.parameters@.skip(i as int),
                argsv,
                url@,
                pairs_view(query@),
                json::jview_entries(remaining@),
            ),
        decreases op.parameters@.len() - i,
    {
        let ghost rest = op.parameters@.skip(i as int);
        proof {
            assert(rest[0] == op.parameters@[i as int]);
            assert(rest.drop_first() =~= op.parameters@.skip(i as int + 1));
        }
        let loc: ParamLocation = match &op.parameters[i] {
            ParameterOrRef::Item(param) => param.location,
            ParameterOrRef::Reference { .. } => ParamLocation::Query,
        };
        match model::resolve_parameter(doc, &op.parameters[i]) {
            Some(p) => {
                match json::obj_get(args, p.name.as_str()) {
                    Some(v) => {
                        let vs = param_string(v);
                        match loc {
                            ParamLocation::Path => {
                                let mut ph = "{".to_owned();
                                ph.append(p.name.as_str());
                                ph.append("}");
                                proof {
                                    reveal_strlit("{");
                                    reveal_strlit("}");
                                    assert(ph@ =~= "{"@ + p.name@ + "}"@);
                                    assert(ph@.len() > 0);
                                }
                                let nu = chars::replace_all(url.as_str(), ph.as_str(), vs.as_str());
                                url = nu;
                                entries_remove(&mut remaining, p.name.as_str());
                            },
                            ParamLocation::Query => {
                                let ghost qbefore = query@;
                                query.push((p.name.clone(), vs));
                                proof {
                                    assert(pairs_view(query@) =~= pairs_view(qbefore).push(
                                        (p.name@, spec_param_string(json::jview(*v))),
                                    ));
                                }
                                entries_remove(&mut remaining, p.name.as_str());
                            },
                            ParamLocation::Header => {
                                entries_remove(&mut remaining, p.name.as_str());
                            },
                            ParamLocation::Cookie => {},
                        }
                    },
                    None => {},
                }
            },
            None => {},
        }
        i = i + 1;
    }
    proof {
        assert(op.parameters@.skip(i as int) =~= Seq::<ParameterOrRef>::empty());
    }
    let ghost placed = spec_place_params(*doc, op.parameters@, argsv, url0, Seq::empty(), argsv);
    if query.len() > 0 {
        proof {
            assert(pairs_view(query@).len() == query@.len());
        }
        let qs = query_join(&query);
        url.append("?");
        url.append(qs.as_str());
        proof {
            assert(url@ =~= placed.0 + "?"@ + spec_query_join(placed.1));
        }
    } else {
        proof {
            assert(pairs_view(query@).len() == query@.len());
        }
    }
    let ghost url2 = if placed.1.len() > 0 {
        placed.0 + "?"@ + spec_query_join(placed.1)
    } else {
        placed.0
    };
    let files = upload::is_file_upload_parameter(op);
    proof {
        assert(crate::operation::strs(files@).len() == files@.len());
        assert(json::jview_entries(remaining@).len() == remaining@.len()) by {
            json::lemma_jview_entries_index(remaining@);
        }
    }
    if files.len() > 0 {
        match build_form(&remaining, &files) {
            Ok(parts) => Ok(RequestPlan { method: hm, url, body: BodyPlan::Multipart(parts) }),
            Err(m) => Err(HttpClientError::FileError(m)),
        }
    } else if remaining.len() > 0 && (hm == HttpMethod::Post || hm == HttpMethod::Put || hm
        == HttpMethod::Patch) {
        let has_body = match &op.request_body {
            Some(_) => true,
            None => false,
        };
        if has_body {
            Ok(RequestPlan { method: hm, url, body: BodyPlan::Json(JsonValue::Obj(remaining)) })
        } else {
            let sep: &str = if model::contains_char(url.as_str(), '?') {
                "&"
            } else {
                "?"
            };
            let fj = fallback_join(&remaining);
            url.append(sep);
            url.append(fj.as_str());
            Ok(RequestPlan { method: hm, url, body: BodyPlan::Empty })
        }
    } else {
        Ok(RequestPlan { method: hm, url, body: BodyPlan::Empty })
    }
}

/// Whether the response headers declare a JSON payload: some header named
/// `content-type`, compared case-insensitively, whose value mentions the
/// JSON media type.
pub open spec fn spec_content_type_is_json(headers: Seq<(Seq<char>, Seq<char>)>) -> bool {
    exists|i: int|
        0 <= i < headers.len() && chars::lower_of(#[trigger] headers[i].0) == "content-type"@
            && chars::spec_contains_sub(headers[i].1, "application/json"@)
}

/// Checks the content type, matching `spec_content_type_is_json`.
pub fn content_type_is_json(headers: &Vec<(String, String)>) -> (r: bool)
    ensures
        r == spec_content_type_is_json(pairs_view(headers@)),
{
    let ghost hv = pairs_view(headers@);
    let mut i: usize = 0;
    while i < headers.len()
        invariant
            hv == pairs_view(headers@),
            i <= headers@.len(),
            forall|j: int| 0 <= j < i ==> !(chars::lower_of(#[trigger] hv[j].0) == "content-type"@
                && chars::spec_contains_sub(hv[j].1, "application/json"@)),
        decreases headers@.len() - i,
    {
        let lname = chars::lowercase(headers[i].0.as_str());
        if chars::str_eq(lname.as_str(), "content-type") && chars::contains_sub(
            headers[i].1.as_str(),
            "application/json",
        ) {
            proof {
                assert(hv[i as int] == (headers@[i as int].0@, headers@[i as int].1@));
                assert(chars::lower_of(hv[i as int].0) == "content-type"@);
                assert(chars::spec_contains_sub(hv[i as int].1, "application/json"@));
                assert(spec_content_type_is_json(hv));
            }
            return true;
        }
        i = i + 1;
    }
    false
}

/// Interprets an HTTP outcome: a success status yields the payload with
/// status and headers preserved; any other status yields a request-failed
/// error that still carries the status and whatever body was recovered.
/// `body` is the response payload: parsed JSON where the content type said
/// JSON and it parsed, the raw text as a string otherwise, and nothing only
/// when the body could not be read at all.
pub fn interpret_response(status: u16, headers: Vec<(String, String)>, body: Option<JsonValue>) -> (
    r: Result<HttpClientResponse, HttpClientError>)
    ensures
        match r {
            Ok(resp) => 200 <= status < 300 && (match body {
                Some(b) => resp.data == b,
                None => false,
            }) && resp.status == status && resp.headers == headers,
            Err(e) => herr_view(e) == (if 200 <= status < 300 {
                SpecHErr::RequestError("unreadable response body"@)
            } else {
                SpecHErr::RequestFailed {
                    status,
                    message: "Request failed with status "@ + chars::spec_digits(status as nat),
                    data: match body {
                        Some(b) => Some(b@),
                        None => None,
                    },
                    headers: Some(pairs_view(headers@)),
                }
            }) && (200 <= status < 300 ==> body is None),
        },
{
    if 200 <= status && status < 300 {
        match body {
            Some(b) => Ok(HttpClientResponse { data: b, status, headers }),
            None => Err(HttpClientError::RequestError("unreadable response body".to_owned())),
        }
    } else {
        let mut msg = "Request failed with status ".to_owned();
        let digits = chars::u64_to_string(status as u64);
        msg.append(digits.as_str());
        proof {
            assert(msg@ =~= "Request failed with status "@ + chars::spec_digits(status as nat));
        }
        Err(
            HttpClientError::RequestFailed {
                status,
                message: msg,
                data: body,
                headers: Some(headers),
            },
        )
    }
}

} // verus!
