//! The protocol bridge: turns converted methods into listed tools, finds the
//! operation behind a tool name, and shapes execution outcomes into the
//! calling protocol's result form, with HTTP failures marked as tool-level
//! errors rather than protocol faults.

use vstd::prelude::*;

use crate::chars;
use crate::execute::{HttpClientError, HttpClientResponse, RequestPlan, SpecHErr, herr_view};
use crate::execute;
use crate::json::{self, JsonValue, SpecJson};
use crate::model::{self, Document};
use crate::operation::{MCPTool, OperationInfo, SpecMethod, method_view, mview_list};
use crate::truncate_tool_name;

verus! {

/// What the server announces about itself.
#[derive(Debug)]
pub struct ServerOptions {
    pub name: String,
    pub version: String,
}

/// One listed tool: its name, description and input schema.
#[derive(Debug)]
pub struct Tool {
    pub name: String,
    pub description: String,
    pub input_schema: JsonValue,
}

/// A tool call's protocol-level result: content blocks and an error flag.
#[derive(Debug)]
pub struct CallToolResult {
    pub content: Vec<Content>,
    pub is_error: bool,
}

/// A content block of a tool result.
#[derive(Debug)]
pub enum Content {
    Text(TextContent),
}

/// A text content block.
#[derive(Debug)]
pub struct TextContent {
    pub text: String,
}

/// The line-oriented transport endpoint; reading and writing happen outside
/// the library.
#[derive(Debug)]
pub struct StdioServerTransport {
}

impl StdioServerTransport {
    /// A fresh transport endpoint.
    pub fn new() -> (r: StdioServerTransport) {
        StdioServerTransport {  }
    }
}

/// The mirror of one listed tool.
#[verifier::ext_equal]
pub struct SpecTool {
    pub name: Seq<char>,
    pub description: Seq<char>,
    pub input: SpecJson,
}

/// A tool name hard-truncated to the protocol limit.
pub open spec fn spec_truncate(n: Seq<char>) -> Seq<char> {
    if n.len() <= 64 {
        n
    } else {
        n.subrange(0, 64)
    }
}

/// The tools listed for one named tool group: one per method, named
/// `group-method` and truncated to the protocol limit.
pub open spec fn spec_tools_of(tname: Seq<char>, methods: Seq<SpecMethod>) -> Seq<SpecTool>
    decreases methods.len(),
{
    if methods.len() == 0 {
        Seq::empty()
    } else {
        seq![
            SpecTool {
                name: spec_truncate(tname + "-"@ + methods[0].name),
                description: methods[0].description,
                input: methods[0].input,
            },
        ] + spec_tools_of(tname, methods.drop_first())
    }
}

/// The tools listed for all tool groups, in order.
pub open spec fn spec_list_tools(ts: Seq<(Seq<char>, Seq<SpecMethod>)>) -> Seq<SpecTool>
    decreases ts.len(),
{
    if ts.len() == 0 {
        Seq::empty()
    } else {
        spec_tools_of(ts[0].0, ts[0].1) + spec_list_tools(ts.drop_first())
    }
}

/// The mirror of a tool group list.
pub open spec fn tools_input_view(ts: Seq<(String, MCPTool)>) -> Seq<(Seq<char>, Seq<SpecMethod>)> {
    ts.map(|i: int, t: (String, MCPTool)| (t.0@, mview_list(t.1.methods@)))
}

/// The mirror of a listed tool value.
pub open spec fn tool_view(t: Tool) -> SpecTool {
    SpecTool { name: t.name@, description: t.description@, input: t.input_schema@ }
}

/// The mirrors of a listed tool vector.
pub open spec fn tools_view(s: Seq<Tool>) -> Seq<SpecTool> {
    s.map(|i: int, t: Tool| tool_view(t))
}

/// Lists one protocol tool per converted method, matching
/// `spec_list_tools`: names are group and method joined with a dash, then
/// hard-truncated a second time at the protocol limit.
#[verifier::loop_isolation(false)]
pub fn list_tools(tools: &Vec<(String, MCPTool)>) -> (r: Vec<Tool>)
    ensures
        tools_view(r@) == spec_list_tools(tools_input_view(tools@)),
{
    let ghost tv = tools_input_view(tools@);
    let mut out: Vec<Tool> = Vec::new();
    let mut i: usize = 0;
    proof {
        assert(tv.skip(0) =~= tv);
        assert(tools_view(out@) =~= Seq::<SpecTool>::empty());
    }
    while i < tools.len()
        invariant
            i <= tools@.len(),
            tv == tools_input_view(tools@),
            tv.len() == tools@.len(),
            spec_list_tools(tv) =~= tools_view(out@) + spec_list_tools(tv.skip(i as int)),
        decreases tools@.len() - i,
    {
        let ghost rest = tv.skip(i as int);
        proof {
            assert(rest[0] == tv[i as int]);
            assert(tv[i as int] == (tools@[i as int].0@, mview_list(tools@[i as int].1.methods@)));
            assert(rest.drop_first() =~= tv.skip(i as int + 1));
        }
        let tname = &tools[i].0;
        let methods = &tools[i].1.methods;
        let ghost mv = mview_list(methods@);
        let mut k: usize = 0;
        let ghost before_outer = tools_view(out@);
        proof {
            crate::operation::lemma_mview_list_index(methods@);
            assert(mv.skip(0) =~= mv);
            assert(before_outer + spec_tools_of(tname@, mv.skip(0)) + spec_list_tools(
                tv.skip(i as int + 1),
            ) =~= before_outer + spec_tools_of(tname@, mv) + spec_list_tools(
                tv.skip(i as int + 1),
            ));
        }
        while k < methods.len()
            invariant
                k <= methods@.len(),
                mv == mview_list(methods@),
                mv.len() == methods@.len(),
                forall|j: int| 0 <= j < mv.len() ==> #[trigger] mv[j] == method_view(methods@[j]),
                tools_view(out@) + spec_tools_of(tname@, mv.skip(k as int)) =~= before_outer
                    + spec_tools_of(tname@, mv),
            decreases methods@.len() - k,
        {
            let ghost mrest = mv.skip(k as int);
            proof {
                assert(mrest[0] == mv[k as int]);
                assert(mrest.drop_first() =~= mv.skip(k as int + 1));
            }
            let mut full = tname.clone();
            full.append("-");
            full.append(methods[k].name.as_str());
            proof {
                assert(full@ =~= tname@ + "-"@ + methods@[k as int].name@);
            }
            let truncated = truncate_tool_name(full.as_str());
            let tool = Tool {
                name: truncated,
                description: methods[k].description.clone(),
                input_schema: json::json_clone(&methods[k].input_schema),
            };
            let ghost toolv = tool_view(tool);
            let ghost obefore = out@;
            out.push(tool);
            proof {
                assert(tools_view(out@) =~= tools_view(obefore).push(toolv));
                assert(toolv =~= SpecTool {
                    name: spec_truncate(tname@ + "-"@ + mv[k as int].name),
                    description: mv[k as int].description,
                    input: mv[k as int].input,
                });
                assert(tools_view(out@) + spec_tools_of(tname@, mv.skip(k as int + 1))
                    =~= tools_view(obefore) + (seq![toolv] + spec_tools_of(
                    tname@,
                    mv.skip(k as int + 1),
                )));
            }
            k = k + 1;
        }
        proof {
            assert(mv.skip(k as int) =~= Seq::<SpecMethod>::empty());
            assert(spec_tools_of(tname@, mv.skip(k as int)) =~= Seq::<SpecTool>::empty());
            assert(tools_view(out@) =~= before_outer + spec_tools_of(tname@, mv));
        }
        i = i + 1;
    }
    proof {
        assert(tv.skip(i as int) =~= Seq::<(Seq<char>, Seq<SpecMethod>)>::empty());
        assert(spec_list_tools(tv.skip(i as int)) =~= Seq::<SpecTool>::empty());
        assert(tools_view(out@) + Seq::<SpecTool>::empty() =~= tools_view(out@));
    }
    out
}

/// The base URL declared by the document: its first server entry.
pub fn base_url_of(doc: &Document) -> (r: Result<String, String>)
    ensures
        match r {
            Ok(u) => doc.servers@.len() > 0 && u@ == doc.servers@[0]@,
            Err(m) => doc.servers@.len() == 0 && m@ == "No base URL found in OpenAPI spec"@,
        },
{
    if doc.servers.len() > 0 {
        Ok(doc.servers[0].clone())
    } else {
        Err("No base URL found in OpenAPI spec".to_owned())
    }
}

/// The argument bag of a call: the entries of its JSON object.
pub fn extract_params_from_arguments(arguments: &JsonValue) -> (r: Result<
    Vec<(String, JsonValue)>,
    String,
>)
    ensures
        match r {
            Ok(entries) => arguments@ matches SpecJson::Obj(e) && json::jview_entries(entries@)
                == e,
            Err(m) => !(arguments@ matches SpecJson::Obj(_)) && m@
                == "Tool arguments must be an object"@,
        },
{
    match arguments {
        JsonValue::Obj(entries) => Ok(crate::operation::clone_entries(entries)),
        _ => Err("Tool arguments must be an object".to_owned()),
    }
}

/// Looks a tool name up and computes the exact request its call must issue;
/// an unknown tool or a non-object argument bag is rejected before any
/// request is built.
pub fn prepare_tool_call(
    doc: &Document,
    lookup: &Vec<(String, OperationInfo)>,
    tool_name: &str,
    arguments: &JsonValue,
    base_url: &str,
) -> (r: Result<RequestPlan, CallError>)
    ensures
        match r {
            Ok(plan) => ({
                &&& model::spec_assoc(lookup@, tool_name@) is Some
                &&& arguments@ matches SpecJson::Obj(entries)
                &&& ({
                    let info = model::spec_assoc(lookup@, tool_name@)->Some_0;
                    execute::spec_build_request(*doc, info.method@, info.path@, entries, base_url@)
                        == Ok::<execute::SpecPlan, SpecHErr>(execute::plan_view(plan))
                })
            }),
            Err(CallError::UnknownTool(m)) => model::spec_assoc(lookup@, tool_name@) is None && m@
                == "Method "@ + tool_name@ + " not found"@,
            Err(CallError::BadArguments(m)) => model::spec_assoc(lookup@, tool_name@) is Some && !(
            arguments@ matches SpecJson::Obj(_)) && m@ == "Tool arguments must be an object"@,
            Err(CallError::Execution(e)) => ({
                &&& model::spec_assoc(lookup@, tool_name@) is Some
                &&& arguments@ matches SpecJson::Obj(entries)
                &&& ({
                    let info = model::spec_assoc(lookup@, tool_name@)->Some_0;
                    execute::spec_build_request(*doc, info.method@, info.path@, entries, base_url@)
                        == Err::<execute::SpecPlan, SpecHErr>(herr_view(e))
                })
            }),
        },
{
    let info = match model::assoc_get(lookup, tool_name) {
        Some(info) => info,
        None => {
            let mut m = "Method ".to_owned();
            m.append(tool_name);
            m.append(" not found");
            proof {
                assert(m@ =~= "Method "@ + tool_name@ + " not found"@);
            }
            return Err(CallError::UnknownTool(m));
        },
    };
    let args = match arguments {
        JsonValue::Obj(entries) => entries,
        _ => {
            return Err(CallError::BadArguments("Tool arguments must be an object".to_owned()));
        },
    };
    match execute::build_request(doc, info, args, base_url) {
        Ok(plan) => Ok(plan),
        Err(e) => Err(CallError::Execution(e)),
    }
}

/// Why loading the interface document was rejected outright.
#[derive(Debug)]
pub enum ValidationError {
    ValidationFailed(Vec<String>),
}

/// Why a tool call could not even be issued: the tool is unknown, the
/// arguments are not an object, or the request could not be built.
#[derive(Debug)]
pub enum CallError {
    UnknownTool(String),
    BadArguments(String),
    Execution(HttpClientError),
}

/// One line of text describing an execution error, in place of a display
/// implementation.
pub fn describe_error(e: &HttpClientError) -> (r: String)
    ensures
        r@ == spec_describe_error(herr_view(*e)),
{
    match e {
        HttpClientError::RequestFailed { status, message, .. } => {
            let mut m = "HTTP request failed with status ".to_owned();
            let digits = chars::u64_to_string(*status as u64);
            m.append(digits.as_str());
            m.append(": ");
            m.append(message.as_str());
            proof {
                assert(m@ =~= "HTTP request failed with status "@ + chars::spec_digits(
                    *status as nat,
                ) + ": "@ + message@);
            }
            m
        },
        HttpClientError::RequestError(s) => {
            let mut m = "Request error: ".to_owned();
            m.append(s.as_str());
            proof {
                assert(m@ =~= "Request error: "@ + s@);
            }
            m
        },
        HttpClientError::JsonError(s) => {
            let mut m = "JSON serialization error: ".to_owned();
            m.append(s.as_str());
            proof {
                assert(m@ =~= "JSON serialization error: "@ + s@);
            }
            m
        },
        HttpClientError::FileError(s) => {
            let mut m = "File error: ".to_owned();
            m.append(s.as_str());
            proof {
                assert(m@ =~= "File error: "@ + s@);
            }
            m
        },
        HttpClientError::OperationError(s) => {
            let mut m = "Operation error: ".to_owned();
            m.append(s.as_str());
            proof {
                assert(m@ =~= "Operation error: "@ + s@);
            }
            m
        },
    }
}

/// The text of an execution error.
pub open spec fn spec_describe_error(e: SpecHErr) -> Seq<char> {
    match e {
        SpecHErr::RequestFailed { status, message, .. } => "HTTP request failed with status "@
            + chars::spec_digits(status as nat) + ": "@ + message,
        SpecHErr::RequestError(m) => "Request error: "@ + m,
        SpecHErr::JsonError(m) => "JSON serialization error: "@ + m,
        SpecHErr::FileError(m) => "File error: "@ + m,
        SpecHErr::OperationError(m) => "Operation error: "@ + m,
    }
}

/// The stand-in error payload when an HTTP failure carried no body.
pub open spec fn spec_default_error_body(status: u16) -> SpecJson {
    SpecJson::Obj(
        seq![
            ("status"@, SpecJson::Str("error"@)),
            ("message"@, SpecJson::Str("HTTP "@ + chars::spec_digits(status as nat) + " error"@)),
        ],
    )
}

/// Shapes an execution outcome into the protocol's result: success and HTTP
/// failure both become a single text block holding the payload's JSON text,
/// with the error flag saying which; an HTTP failure without a recovered
/// body gets a stand-in diagnostic object; any other failure is a
/// protocol-level error carrying the failure's description.
pub fn tool_result_of_outcome(outcome: Result<HttpClientResponse, HttpClientError>) -> (r: Result<
    CallToolResult,
    String,
>)
    ensures
        match r {
            Ok(res) => ({
                &&& res.content@.len() == 1
                &&& match outcome {
                    Ok(resp) => !res.is_error && (match res.content@[0] {
                        Content::Text(tc) => tc.text@ == json::spec_json_text(resp.data@),
                    }),
                    Err(HttpClientError::RequestFailed { status, data, .. }) => res.is_error && (
                    match res.content@[0] {
                        Content::Text(tc) => tc.text@ == json::spec_json_text(
                            match data {
                                Some(d) => d@,
                                None => spec_default_error_body(status),
                            },
                        ),
                    }),
                    _ => false,
                }
            }),
            Err(m) => match outcome {
                Ok(_) => false,
                Err(HttpClientError::RequestFailed { .. }) => false,
                Err(e) => m@ == "Failed to execute operation: "@ + spec_describe_error(
                    herr_view(e),
                ),
            },
        },
{
    match outcome {
        Ok(resp) => {
            let text = json::to_text(&resp.data);
            let mut content: Vec<Content> = Vec::new();
            content.push(Content::Text(TextContent { text }));
            Ok(CallToolResult { content, is_error: false })
        },
        Err(HttpClientError::RequestFailed { status, data, .. }) => {
            let body: JsonValue = match data {
                Some(d) => d,
                None => {
                    let mut entries: Vec<(String, JsonValue)> = Vec::new();
                    json::obj_push(
                        &mut entries,
                        "status".to_owned(),
                        JsonValue::Str("error".to_owned()),
                    );
                    let mut msg = "HTTP ".to_owned();
                    let digits = chars::u64_to_string(status as u64);
                    msg.append(digits.as_str());
                    msg.append(" error");
                    proof {
                        assert(msg@ =~= "HTTP "@ + chars::spec_digits(status as nat) + " error"@);
                    }
                    json::obj_push(&mut entries, "message".to_owned(), JsonValue::Str(msg));
                    let b = JsonValue::Obj(entries);
                    proof {
                        assert(json::jview_entries(entries@) =~= seq![
                            ("status"@, SpecJson::Str("error"@)),
                            (
                                "message"@,
                                SpecJson::Str(
                                    "HTTP "@ + chars::spec_digits(status as nat) + " error"@,
                                ),
                            ),
                        ]);
                    }
                    b
                },
            };
            let text = json::to_text(&body);
            let mut content: Vec<Content> = Vec::new();
            content.push(Content::Text(TextContent { text }));
            Ok(CallToolResult { content, is_error: true })
        },
        Err(e) => {
            let desc = describe_error(&e);
            let mut m = "Failed to execute operation: ".to_owned();
            m.append(desc.as_str());
            proof {
                assert(m@ =~= "Failed to execute operation: "@ + spec_describe_error(
                    herr_view(e),
                ));
            }
            Err(m)
        },
    }
}

/// The string-valued entries of a JSON object, as header pairs; anything
/// that is not an object contributes nothing.
pub open spec fn spec_string_headers(v: SpecJson) -> Seq<(Seq<char>, Seq<char>)> {
    match v {
        SpecJson::Obj(entries) => spec_string_entries(entries),
        _ => Seq::empty(),
    }
}

/// The string-valued entries of an entry list, in order.
pub open spec fn spec_string_entries(entries: Seq<(Seq<char>, SpecJson)>) -> Seq<
    (Seq<char>, Seq<char>),
>
    decreases entries.len(),
{
    if entries.len() == 0 {
        Seq::empty()
    } else {
        let rest = spec_string_entries(entries.drop_first());
        match entries[0].1 {
            SpecJson::Str(s) => seq![(entries[0].0, s)] + rest,
            _ => rest,
        }
    }
}

/// Keeps the string-valued entries of a parsed header object, matching
/// `spec_string_headers`; header values of any other shape are passed over.
#[verifier::loop_isolation(false)]
pub fn extract_string_headers(v: &JsonValue) -> (r: Vec<(String, String)>)
    ensures
        execute::pairs_view(r@) == spec_string_headers(v@),
{
    let mut out: Vec<(String, String)> = Vec::new();
    proof {
        assert(execute::pairs_view(out@) =~= Seq::<(Seq<char>, Seq<char>)>::empty());
    }
    match v {
        JsonValue::Obj(entries) => {
            let ghost ev = json::jview_entries(entries@);
            let mut i: usize = 0;
            proof {
                json::lemma_jview_entries_index(entries@);
                assert(ev.skip(0) =~= ev);
            }
            while i < entries.len()
                invariant
                    i <= entries@.len(),
                    ev.len() == entries@.len(),
                    forall|j: int| 0 <= j < ev.len() ==> #[trigger] ev[j] == (entries@[j].0@,
                    json::jview(entries@[j].1)),
                    spec_string_entries(ev) =~= execute::pairs_view(out@) + spec_string_entries(
                        ev.skip(i as int),
                    ),
                decreases entries@.len() - i,
            {
                let ghost rest = ev.skip(i as int);
                proof {
                    assert(rest[0] == ev[i as int]);
                    assert(rest.drop_first() =~= ev.skip(i as int + 1));
                }
                match &entries[i].1 {
                    JsonValue::Str(s) => {
                        let ghost obefore = out@;
                        out.push((entries[i].0.clone(), s.clone()));
                        proof {
                            assert(execute::pairs_view(out@) =~= execute::pairs_view(
                                obefore,
                            ).push((entries@[i as int].0@, s@)));
                        }
                    },
                    _ => {},
                }
                i = i + 1;
            }
            proof {
                assert(ev.skip(i as int) =~= Seq::<(Seq<char>, SpecJson)>::empty());
                assert(execute::pairs_view(out@) + Seq::<(Seq<char>, Seq<char>)>::empty()
                    =~= execute::pairs_view(out@));
            }
            out
        },
        _ => out,
    }
}

} // verus!
