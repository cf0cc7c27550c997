//! Source-control integration data types and the pure helpers around them:
//! resource-URI parsing, toolset catalogs, and the server scaffolding types.

use vstd::prelude::*;

use crate::chars;
use crate::execute::pairs_view;

verus! {

/// Connection settings for the source-control API.
#[derive(Debug, Clone)]
pub struct GitHubConfig {
    pub token: String,
    pub host: Option<String>,
    pub user_agent: String,
}

/// Server-level settings.
#[derive(Debug, Clone)]
pub struct GitHubServerConfig {
    pub version: String,
    pub host: Option<String>,
    pub token: String,
    pub enabled_toolsets: Vec<String>,
    pub dynamic_toolsets: bool,
    pub read_only: bool,
    pub enable_command_logging: bool,
}

/// Paging of list requests.
#[derive(Debug, Clone, Copy)]
pub struct PaginationParams {
    pub page: u32,
    pub per_page: u32,
}

impl Default for PaginationParams {
    /// The first page, thirty entries at a time.
    fn default() -> (r: PaginationParams)
        ensures
            r.page == 1,
            r.per_page == 30,
    {
        PaginationParams { page: 1, per_page: 30 }
    }
}

/// A license attached to a repository.
#[derive(Debug, Clone)]
pub struct License {
    pub key: String,
    pub name: String,
    pub spdx_id: Option<String>,
    pub url: Option<String>,
}

/// A label attached to an issue.
#[derive(Debug, Clone)]
pub struct Label {
    pub id: u64,
    pub name: String,
    pub color: String,
    pub description: Option<String>,
    pub default: bool,
}

/// Links from an issue to its pull request.
#[derive(Debug, Clone)]
pub struct PullRequestLink {
    pub url: String,
    pub html_url: String,
    pub diff_url: String,
    pub patch_url: String,
}

/// One file or directory entry of a repository.
#[derive(Debug, Clone)]
pub struct FileContent {
    pub name: String,
    pub path: String,
    pub sha: String,
    pub size: u64,
    pub url: String,
    pub html_url: String,
    pub git_url: String,
    pub download_url: Option<String>,
    pub entry_type: String,
    pub content: Option<String>,
    pub encoding: Option<String>,
    pub target: Option<String>,
    pub submodule_git_url: Option<String>,
}

/// A pointer into the object store.
#[derive(Debug, Clone)]
pub struct GitTree {
    pub sha: String,
    pub url: String,
}

/// A commit's parent reference.
#[derive(Debug, Clone)]
pub struct GitParent {
    pub sha: String,
    pub url: String,
    pub html_url: String,
}

/// One page of search results.
#[derive(Debug)]
pub struct SearchResults<T> {
    pub total_count: u32,
    pub incomplete_results: bool,
    pub items: Vec<T>,
}

/// A resource the server can read.
#[derive(Debug, Clone)]
pub struct Resource {
    pub uri: String,
    pub name: String,
    pub description: Option<String>,
    pub mime_type: Option<String>,
}

/// Start-up hooks; the callbacks themselves live outside the library.
#[derive(Debug)]
pub struct Hooks {
}

/// The server scaffold: its identity and the names of what was registered.
#[derive(Debug)]
pub struct McpServer {
    pub name: String,
    pub version: String,
}

impl McpServer {
    /// A server under the given name and version.
    pub fn new(name: &str, version: &str) -> (r: McpServer)
        ensures
            r.name@ == name@,
            r.version@ == version@,
    {
        McpServer { name: name.to_owned(), version: version.to_owned() }
    }

    /// Registers a tool handler; registration carries no observable state
    /// here, so the server is unchanged.
    pub fn add_tool_handler<F: Fn() + 'static>(&mut self, name: String, handler: F)
        ensures
            *final(self) == *old(self),
    {
    }

    /// Registers a resource handler; the server is unchanged.
    pub fn add_resource_handler<F: Fn() + 'static>(&mut self, template: String, handler: F)
        ensures
            *final(self) == *old(self),
    {
    }
}

/// Whether a URI could match a resource pattern: patterns naming an owner
/// and a repository match exactly the repository scheme.
pub fn uri_matches_pattern(uri: &str, pattern: &str) -> (r: bool)
    ensures
        r == (chars::spec_contains_sub(pattern@, "{owner}"@) && chars::spec_contains_sub(
            pattern@,
            "{repo}"@,
        ) && chars::spec_starts_with(uri@, "repo://"@)),
{
    if chars::contains_sub(pattern, "{owner}") && chars::contains_sub(pattern, "{repo}") {
        chars::starts_with(uri, "repo://")
    } else {
        false
    }
}

/// The segments of a repository URI: what follows the scheme, split on `/`.
pub open spec fn spec_uri_segments(u: Seq<char>) -> Seq<Seq<char>> {
    chars::spec_split(u.skip("repo://"@.len() as int), '/')
}

/// The path joined back from trailing segments.
pub open spec fn spec_tail_path(segs: Seq<Seq<char>>, from: int) -> Seq<char> {
    chars::spec_join(segs.skip(from), "/"@)
}

/// The parts parsed from a plain repository-contents URI.
pub open spec fn spec_parse_repo_uri(u: Seq<char>) -> Seq<(Seq<char>, Seq<char>)> {
    if chars::spec_starts_with(u, "repo://"@) {
        let segs = spec_uri_segments(u);
        if segs.len() >= 3 {
            let base = seq![("owner"@, segs[0]), ("repo"@, segs[1])];
            if segs.len() > 3 && segs[2] == "contents"@ {
                let path = spec_tail_path(segs, 3);
                if path.len() > 0 {
                    base.push(("path"@, path))
                } else {
                    base
                }
            } else {
                base
            }
        } else {
            Seq::empty()
        }
    } else {
        Seq::empty()
    }
}

/// The parts parsed from a branch-contents URI.
pub open spec fn spec_parse_branch_uri(u: Seq<char>) -> Seq<(Seq<char>, Seq<char>)> {
    spec_parse_ref_uri(u, "branch"@, 4, 5, 6)
}

/// The parts parsed from a commit-contents URI.
pub open spec fn spec_parse_commit_uri(u: Seq<char>) -> Seq<(Seq<char>, Seq<char>)> {
    spec_parse_ref_uri(u, "sha"@, 3, 4, 5)
}

/// The parts parsed from a tag-contents URI.
pub open spec fn spec_parse_tag_uri(u: Seq<char>) -> Seq<(Seq<char>, Seq<char>)> {
    spec_parse_ref_uri(u, "tag"@, 4, 5, 6)
}

/// The parts parsed from a pull-request-contents URI.
pub open spec fn spec_parse_pr_uri(u: Seq<char>) -> Seq<(Seq<char>, Seq<char>)> {
    spec_parse_ref_uri(u, "prNumber"@, 4, 6, 7)
}

/// The shared shape of the reference-style URIs: owner and repository first,
/// one labeled segment at `label_at`, and an optional path after a
/// `contents` segment at `contents_at`.
pub open spec fn spec_parse_ref_uri(
    u: Seq<char>,
    label: Seq<char>,
    label_at: int,
    contents_at: int,
    path_from: int,
) -> Seq<(Seq<char>, Seq<char>)> {
    if chars::spec_starts_with(u, "repo://"@) {
        let segs = spec_uri_segments(u);
        if segs.len() >= path_from - 1 && segs.len() >= label_at + 1 {
            let base = seq![("owner"@, segs[0]), ("repo"@, segs[1]), (label, segs[label_at])];
            if segs.len() > path_from - 1 && segs[contents_at] == "contents"@ {
                let path = spec_tail_path(segs, path_from);
                if path.len() > 0 {
                    base.push(("path"@, path))
                } else {
                    base
                }
            } else {
                base
            }
        } else {
            Seq::empty()
        }
    } else {
        Seq::empty()
    }
}

/// The URI's segments after the scheme, matching `spec_uri_segments`.
fn uri_segments(uri: &str) -> (r: Vec<String>)
    requires
        chars::spec_starts_with(uri@, "repo://"@),
    ensures
        r.deep_view() == spec_uri_segments(uri@),
{
    proof {
        reveal_strlit("repo://");
    }
    let n = uri.unicode_len();
    let stripped = uri.substring_char(7, n);
    proof {
        assert(stripped@ =~= uri@.skip(7));
    }
    chars::split_str(stripped, '/')
}

/// The trailing segments joined back with slashes, matching
/// `spec_tail_path`.
#[verifier::loop_isolation(false)]
fn tail_path(segs: &Vec<String>, from: usize) -> (r: String)
    requires
        from <= segs@.len(),
    ensures
        r@ == spec_tail_path(segs.deep_view(), from as int),
{
    let mut tail: Vec<String> = Vec::new();
    let mut i: usize = from;
    proof {
        assert(tail.deep_view() =~= segs.deep_view().skip(from as int).subrange(0, 0));
    }
    while i < segs.len()
        invariant
            from <= i <= segs@.len(),
            tail.deep_view() =~= segs.deep_view().skip(from as int).subrange(
                0,
                i - from,
            ),
        decreases segs@.len() - i,
    {
        let ghost before = tail.deep_view();
        tail.push(segs[i].clone());
        proof {
            assert(tail.deep_view() =~= before.push(segs@[i as int]@));
            assert(segs.deep_view().skip(from as int)[i - from] == segs.deep_view()[i as int]);
            assert(tail.deep_view() =~= segs.deep_view().skip(from as int).subrange(
                0,
                i - from + 1,
            ));
        }
        i = i + 1;
    }
    proof {
        assert(segs.deep_view().skip(from as int).subrange(
            0,
            i - from,
        ) =~= segs.deep_view().skip(from as int));
    }
    chars::join_strs(&tail, "/")
}

/// Parses a plain repository-contents URI, matching `spec_parse_repo_uri`;
/// a URI of another shape parses to nothing rather than failing.
pub fn parse_repo_uri(uri: &str) -> (r: Result<Vec<(String, String)>, String>)
    ensures
        r matches Ok(m) && pairs_view(m@) == spec_parse_repo_uri(uri@),
{
    let mut parts: Vec<(String, String)> = Vec::new();
    proof {
        assert(pairs_view(parts@) =~= Seq::<(Seq<char>, Seq<char>)>::empty());
    }
    if !chars::starts_with(uri, "repo://") {
        return Ok(parts);
    }
    let segs = uri_segments(uri);
    proof {
        assert(segs.deep_view().len() == segs@.len());
    }
    if segs.len() < 3 {
        return Ok(parts);
    }
    let ghost sv = segs.deep_view();
    proof {
        assert(sv =~= Seq::new(segs@.len(), |i: int| segs@[i].deep_view()));
        assert(sv[0] == segs@[0]@);
        assert(sv[1] == segs@[1]@);
        assert(sv[2] == segs@[2]@);
    }
    parts.push(("owner".to_owned(), segs[0].clone()));
    parts.push(("repo".to_owned(), segs[1].clone()));
    proof {
        assert(pairs_view(parts@) =~= seq![("owner"@, sv[0]), ("repo"@, sv[1])]);
    }
    if segs.len() > 3 && chars::str_eq(segs[2].as_str(), "contents") {
        let path = tail_path(&segs, 3);

        if path.as_str().unicode_len() > 0 {
            let ghost before = parts@;
            parts.push(("path".to_owned(), path));
            proof {
                assert(pairs_view(parts@) =~= pairs_view(before).push(
                    ("path"@, spec_tail_path(sv, 3)),
                ));
            }
        }
    }
    Ok(parts)
}

/// Parses one of the reference-style URIs, matching `spec_parse_ref_uri`
/// for the given label and segment positions.
#[verifier::loop_isolation(false)]
fn parse_ref_uri(
    uri: &str,
    label: &str,
    label_at: usize,
    contents_at: usize,
    path_from: usize,
) -> (r: Vec<(String, String)>)
    requires
        2 <= label_at < path_from,
        contents_at < path_from,
        path_from >= 1,
    ensures
        pairs_view(r@) == spec_parse_ref_uri(
            uri@,
            label@,
            label_at as int,
            contents_at as int,
            path_from as int,
        ),
{
    let mut parts: Vec<(String, String)> = Vec::new();
    proof {
        assert(pairs_view(parts@) =~= Seq::<(Seq<char>, Seq<char>)>::empty());
    }
    if !chars::starts_with(uri, "repo://") {
        return parts;
    }
    let segs = uri_segments(uri);
    proof {
        assert(segs.deep_view().len() == segs@.len());
    }
    if !(segs.len() >= path_from - 1 && segs.len() >= label_at + 1) {
        return parts;
    }
    let ghost sv = segs.deep_view();
    proof {
        assert(sv =~= Seq::new(segs@.len(), |i: int| segs@[i].deep_view()));
        assert(sv[0] == segs@[0]@);
        assert(sv[1] == segs@[1]@);
        assert(sv[label_at as int] == segs@[label_at as int]@);
    }
    parts.push(("owner".to_owned(), segs[0].clone()));
    parts.push(("repo".to_owned(), segs[1].clone()));
    parts.push((label.to_owned(), segs[label_at].clone()));
    proof {
        assert(pairs_view(parts@) =~= seq![
            ("owner"@, sv[0]),
            ("repo"@, sv[1]),
            (label@, sv[label_at as int]),
        ]);
    }
    if segs.len() > path_from - 1 && chars::str_eq(segs[contents_at].as_str(), "contents") {
        proof {
            assert(sv[contents_at as int] == segs@[contents_at as int]@);
        }
        let path = tail_path(&segs, path_from);
        if path.as_str().unicode_len() > 0 {
            let ghost before = parts@;
            parts.push(("path".to_owned(), path));
            proof {
                assert(pairs_view(parts@) =~= pairs_view(before).push(
                    ("path"@, spec_tail_path(sv, path_from as int)),
                ));
            }
        }
    } else {
        proof {
            if segs@.len() > path_from - 1 {
                assert(sv[contents_at as int] == segs@[contents_at as int]@);
            }
        }
    }
    parts
}

/// Parses a branch-contents URI, matching `spec_parse_branch_uri`.
pub fn parse_branch_uri(uri: &str) -> (r: Result<Vec<(String, String)>, String>)
    ensures
        r matches Ok(m) && pairs_view(m@) == spec_parse_branch_uri(uri@),
{
    Ok(parse_ref_uri(uri, "branch", 4, 5, 6))
}

/// Parses a commit-contents URI, matching `spec_parse_commit_uri`.
pub fn parse_commit_uri(uri: &str) -> (r: Result<Vec<(String, String)>, String>)
    ensures
        r matches Ok(m) && pairs_view(m@) == spec_parse_commit_uri(uri@),
{
    Ok(parse_ref_uri(uri, "sha", 3, 4, 5))
}

/// Parses a tag-contents URI, matching `spec_parse_tag_uri`.
pub fn parse_tag_uri(uri: &str) -> (r: Result<Vec<(String, String)>, String>)
    ensures
        r matches Ok(m) && pairs_view(m@) == spec_parse_tag_uri(uri@),
{
    Ok(parse_ref_uri(uri, "tag", 4, 5, 6))
}

/// Parses a pull-request-contents URI, matching `spec_parse_pr_uri`.
pub fn parse_pr_uri(uri: &str) -> (r: Result<Vec<(String, String)>, String>)
    ensures
        r matches Ok(m) && pairs_view(m@) == spec_parse_pr_uri(uri@),
{
    Ok(parse_ref_uri(uri, "prNumber", 4, 6, 7))
}

/// The description of each named toolset; unknown names get a stock line.
pub open spec fn spec_toolset_description(n: Seq<char>) -> Seq<char> {
    if n == "repos"@ {
        "Repository management tools"@
    } else if n == "issues"@ {
        "Issue management tools"@
    } else if n == "pull_requests"@ {
        "Pull request management tools"@
    } else if n == "users"@ {
        "User management tools"@
    } else if n == "code_security"@ {
        "Code security scanning tools"@
    } else if n == "secret_protection"@ {
        "Secret scanning tools"@
    } else if n == "notifications"@ {
        "Notification management tools"@
    } else if n == "context"@ {
        "Context tools for getting current user information"@
    } else if n == "dynamic"@ {
        "Dynamic toolset management tools"@
    } else {
        "Unknown toolset"@
    }
}

/// The short description of a named toolset, matching
/// `spec_toolset_description`.
pub fn get_toolset_description(name: &str) -> (r: &'static str)
    ensures
        r@ == spec_toolset_description(name@),
{
    if chars::str_eq(name, "repos") {
        "Repository management tools"
    } else if chars::str_eq(name, "issues") {
        "Issue management tools"
    } else if chars::str_eq(name, "pull_requests") {
        "Pull request management tools"
    } else if chars::str_eq(name, "users") {
        "User management tools"
    } else if chars::str_eq(name, "code_security") {
        "Code security scanning tools"
    } else if chars::str_eq(name, "secret_protection") {
        "Secret scanning tools"
    } else if chars::str_eq(name, "notifications") {
        "Notification management tools"
    } else if chars::str_eq(name, "context") {
        "Context tools for getting current user information"
    } else if chars::str_eq(name, "dynamic") {
        "Dynamic toolset management tools"
    } else {
        "Unknown toolset"
    }
}

/// The string views of a vector of borrowed strings.
pub open spec fn strs_ref(s: Seq<&str>) -> Seq<Seq<char>> {
    s.map(|i: int, x: &str| x@)
}

/// The tool names of each named toolset; unknown names offer nothing.
pub open spec fn spec_toolset_tool_names(n: Seq<char>) -> Seq<Seq<char>> {
    if n == "repos"@ {
        seq![
            "search_repositories"@,
            "get_file_contents"@,
            "get_repository"@,
            "create_or_update_file"@,
        ]
    } else if n == "issues"@ {
        seq!["get_issue"@, "list_issues"@, "create_issue"@]
    } else if n == "pull_requests"@ {
        seq!["get_pull_request"@, "list_pull_requests"@, "create_pull_request"@]
    } else if n == "users"@ {
        seq!["search_users"@]
    } else if n == "context"@ {
        seq!["get_me"@]
    } else if n == "dynamic"@ {
        seq!["list_available_toolsets"@, "get_toolset_tools"@, "enable_toolset"@]
    } else {
        Seq::empty()
    }
}

/// The tool names a named toolset offers, matching
/// `spec_toolset_tool_names`.
pub fn get_toolset_tool_names(name: &str) -> (r: Vec<&'static str>)
    ensures
        strs_ref(r@) == spec_toolset_tool_names(name@),
{
    let mut out: Vec<&'static str> = Vec::new();
    if chars::str_eq(name, "repos") {
        out.push("search_repositories");
        out.push("get_file_contents");
        out.push("get_repository");
        out.push("create_or_update_file");
    } else if chars::str_eq(name, "issues") {
        out.push("get_issue");
        out.push("list_issues");
        out.push("create_issue");
    } else if chars::str_eq(name, "pull_requests") {
        out.push("get_pull_request");
        out.push("list_pull_requests");
        out.push("create_pull_request");
    } else if chars::str_eq(name, "users") {
        out.push("search_users");
    } else if chars::str_eq(name, "context") {
        out.push("get_me");
    } else if chars::str_eq(name, "dynamic") {
        out.push("list_available_toolsets");
        out.push("get_toolset_tools");
        out.push("enable_toolset");
    }
    proof {
        assert(strs_ref(out@) =~= spec_toolset_tool_names(name@));
    }
    out
}

} // verus!
