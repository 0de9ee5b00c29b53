//! The decisions of the two bundled tools, `file_search` and
//! `github_pr_search`: their metadata, the checks on their arguments with
//! the exit codes they fail with, and the search request they build.
use vstd::prelude::*;
use crate::text::{chars_of, string_from_chars, extend_chars, owned, str_equals, decimal, push_decimal};
use crate::tool_error::{
    ArgSpec, ArgView, Capabilities, ErrorSpec, ErrorView, ToolMetadata, ToolMetadataView, WasiTarget,
};
use crate::urlencode::{urlencoding, spec_urlencoding};

verus! {

/// A tool ending early: the exit code and the message it prints to stderr.
#[derive(Debug)]
pub struct ToolExit {
    pub code: i32,
    pub message: String,
}

/// Whether a tool's metadata declares a tool-specific error code.
pub open spec fn declares_code(m: ToolMetadataView, code: i32) -> bool {
    exists|i: int| 0 <= i < m.errors.len() && #[trigger] m.errors[i].code == code
}

/// The metadata of `file_search`.
pub open spec fn file_search_metadata_view() -> ToolMetadataView {
    ToolMetadataView {
        name: "file_search"@,
        version: "1.0.0"@,
        description: "Searches for files matching a glob pattern in directories"@,
        args: seq![
            ArgView {
                name: "pattern"@,
                arg_type: "string"@,
                description: "Glob pattern to match files (e.g., '*.rs', '**/*.ts')"@,
                required: true,
                default: None,
            },
            ArgView {
                name: "directory"@,
                arg_type: "string"@,
                description: "Directory to search in"@,
                required: false,
                default: Some("."@),
            },
        ],
        errors: seq![
            ErrorView { code: 100, message: "Invalid glob pattern"@ },
            ErrorView { code: 101, message: "Directory does not exist"@ },
        ],
        capabilities: Capabilities { read: true, write: false, net: false },
        wasi_target: WasiTarget::Preview1,
    }
}

/// The metadata `file_search` prints for `--describe`.
pub fn file_search_metadata() -> (r: ToolMetadata)
    ensures
        r@ == file_search_metadata_view(),
{
    let args = vec![
        ArgSpec {
            name: owned("pattern"),
            arg_type: owned("string"),
            description: owned("Glob pattern to match files (e.g., '*.rs', '**/*.ts')"),
            required: true,
            default: None,
        },
        ArgSpec {
            name: owned("directory"),
            arg_type: owned("string"),
            description: owned("Directory to search in"),
            required: false,
            default: Some(owned(".")),
        },
    ];
    let errors = vec![
        ErrorSpec { code: 100, message: owned("Invalid glob pattern") },
        ErrorSpec { code: 101, message: owned("Directory does not exist") },
    ];
    let r = ToolMetadata {
        name: owned("file_search"),
        version: owned("1.0.0"),
        description: owned("Searches for files matching a glob pattern in directories"),
        args,
        errors,
        capabilities: Capabilities { read: true, write: false, net: false },
        wasi_target: WasiTarget::Preview1,
    };
    proof {
        let v = file_search_metadata_view();
        assert(r@.args[0] =~= v.args[0]);
        assert(r@.args[1] =~= v.args[1]);
        assert(r@.args =~= v.args);
        assert(r@.errors[0] =~= v.errors[0]);
        assert(r@.errors[1] =~= v.errors[1]);
        assert(r@.errors =~= v.errors);
        assert(r@ =~= v);
    }
    r
}

/// The pattern `file_search` globs for: `<directory>/<pattern>`.
pub open spec fn spec_full_pattern(directory: Seq<char>, pattern: Seq<char>) -> Seq<char> {
    directory + seq!['/'] + pattern
}

/// The checks of `file_search` before it searches: a missing pattern exits
/// with 1, a missing directory with 101; otherwise the full glob pattern.
/// `directory_exists` tells whether the directory exists.
pub fn plan_file_search(pattern: Option<String>, directory: &str, directory_exists: bool) -> (r:
    Result<String, ToolExit>)
    ensures
        match pattern {
            None => r matches Err(e) && e.code == 1 && e.message@
                == "Error: --pattern is required"@,
            Some(p) => if directory_exists {
                r matches Ok(full) && full@ == spec_full_pattern(directory@, p@)
            } else {
                r matches Err(e) && e.code == 101 && e.message@ == "Error: directory '"@
                    + directory@ + "' does not exist"@
            },
        },
{
    let p = match pattern {
        Some(p) => p,
        None => return Err(ToolExit { code: 1, message: owned("Error: --pattern is required") }),
    };
    if !directory_exists {
        let mut m = chars_of("Error: directory '");
        extend_chars(&mut m, &chars_of(directory));
        extend_chars(&mut m, &chars_of("' does not exist"));
        return Err(ToolExit { code: 101, message: string_from_chars(&m) });
    }
    let mut full = chars_of(directory);
    full.push('/');
    extend_chars(&mut full, &chars_of(p.as_str()));
    Ok(string_from_chars(&full))
}

/// How `file_search` exits on a pattern that glob rejects: code 100.
pub fn invalid_pattern_exit(detail: &str) -> (r: ToolExit)
    ensures
        r.code == 100,
        r.message@ == "Error: invalid glob pattern: "@ + detail@,
{
    let mut m = chars_of("Error: invalid glob pattern: ");
    extend_chars(&mut m, &chars_of(detail));
    ToolExit { code: 100, message: string_from_chars(&m) }
}

/// The metadata of `github_pr_search`.
pub open spec fn github_pr_search_metadata_view() -> ToolMetadataView {
    ToolMetadataView {
        name: "github_pr_search"@,
        version: "1.0.0"@,
        description: "Searches GitHub for related PRs"@,
        args: seq![
            ArgView {
                name: "query"@,
                arg_type: "string"@,
                description: "Search query for PR titles and descriptions"@,
                required: true,
                default: None,
            },
            ArgView {
                name: "owner"@,
                arg_type: "string"@,
                description: "GitHub repository owner"@,
                required: false,
                default: Some("anomalyco"@),
            },
            ArgView {
                name: "repo"@,
                arg_type: "string"@,
                description: "GitHub repository name"@,
                required: false,
                default: Some("opencode"@),
            },
            ArgView {
                name: "limit"@,
                arg_type: "number"@,
                description: "Maximum number of results to return"@,
                required: false,
                default: Some("10"@),
            },
            ArgView {
                name: "state"@,
                arg_type: "string"@,
                description: "PR state filter (open, closed, all)"@,
                required: false,
                default: Some("open"@),
            },
        ],
        errors: seq![
            ErrorView { code: 100, message: "GitHub API request failed"@ },
            ErrorView { code: 101, message: "Invalid response from GitHub"@ },
        ],
        capabilities: Capabilities { read: false, write: false, net: true },
        wasi_target: WasiTarget::Preview2,
    }
}

/// One argument entry of the metadata.
fn arg(name: &str, arg_type: &str, description: &str, required: bool, default: Option<&str>) -> (r:
    ArgSpec)
    ensures
        r@ == (ArgView {
            name: name@,
            arg_type: arg_type@,
            description: description@,
            required: required,
            default: match default {
                Some(d) => Some(d@),
                None => None,
            },
        }),
{
    let d = match default {
        Some(d) => Some(owned(d)),
        None => None,
    };
    let r = ArgSpec {
        name: owned(name),
        arg_type: owned(arg_type),
        description: owned(description),
        required,
        default: d,
    };
    proof {
        assert(r@.default == match default {
            Some(d) => Some(d@),
            None => None::<Seq<char>>,
        });
    }
    r
}

/// The metadata `github_pr_search` prints for `--describe`.
pub fn github_pr_search_metadata() -> (r: ToolMetadata)
    ensures
        r@ == github_pr_search_metadata_view(),
{
    let args = vec![
        arg("query", "string", "Search query for PR titles and descriptions", true, None),
        arg("owner", "string", "GitHub repository owner", false, Some("anomalyco")),
        arg("repo", "string", "GitHub repository name", false, Some("opencode")),
        arg("limit", "number", "Maximum number of results to return", false, Some("10")),
        arg("state", "string", "PR state filter (open, closed, all)", false, Some("open")),
    ];
    let errors = vec![
        ErrorSpec { code: 100, message: owned("GitHub API request failed") },
        ErrorSpec { code: 101, message: owned("Invalid response from GitHub") },
    ];
    let r = ToolMetadata {
        name: owned("github_pr_search"),
        version: owned("1.0.0"),
        description: owned("Searches GitHub for related PRs"),
        args,
        errors,
        capabilities: Capabilities { read: false, write: false, net: true },
        wasi_target: WasiTarget::Preview2,
    };
    proof {
        let v = github_pr_search_metadata_view();
        assert(r@.args[0] =~= v.args[0]);
        assert(r@.args[1] =~= v.args[1]);
        assert(r@.args[2] =~= v.args[2]);
        assert(r@.args[3] =~= v.args[3]);
        assert(r@.args[4] =~= v.args[4]);
        assert(r@.args =~= v.args);
        assert(r@.errors[0] =~= v.errors[0]);
        assert(r@.errors[1] =~= v.errors[1]);
        assert(r@.errors =~= v.errors);
        assert(r@ =~= v);
    }
    r
}

/// The PR states that can be searched for.
pub open spec fn valid_state(state: Seq<char>) -> bool {
    state == "open"@ || state == "closed"@ || state == "all"@
}

/// The GitHub search string:
/// `<query> repo:<owner>/<repo> type:pr`, then ` state:<state>` unless the
/// state is `all`.
pub open spec fn spec_search_query(
    query: Seq<char>,
    owner: Seq<char>,
    repo: Seq<char>,
    state: Seq<char>,
) -> Seq<char> {
    query + " repo:"@ + owner + "/"@ + repo + " type:pr"@ + if state != "all"@ {
        " state:"@ + state
    } else {
        seq![]
    }
}

/// The search URL: the encoded search string, the page size, most recently
/// updated first.
pub open spec fn spec_search_url(search: Seq<char>, limit: u32) -> Seq<char> {
    "https://api.github.com/search/issues?q="@ + spec_urlencoding(search) + "&per_page="@
        + decimal(limit as nat) + "&sort=updated&order=desc"@
}

/// The checks of `github_pr_search` before it searches: a missing query
/// exits with 1, so does a state other than `open`, `closed` or `all`;
/// otherwise the search URL.
pub fn plan_pr_search(
    query: Option<String>,
    owner: &str,
    repo: &str,
    limit: u32,
    state: &str,
) -> (r: Result<String, ToolExit>)
    ensures
        match query {
            None => r matches Err(e) && e.code == 1 && e.message@ == "Error: --query is required"@,
            Some(q) => if valid_state(state@) {
                r matches Ok(url) && url@ == spec_search_url(
                    spec_search_query(q@, owner@, repo@, state@),
                    limit,
                )
            } else {
                r matches Err(e) && e.code == 1 && e.message@
                    == "Error: --state must be one of: open, closed, all"@
            },
        },
{
    let q = match query {
        Some(q) => q,
        None => return Err(ToolExit { code: 1, message: owned("Error: --query is required") }),
    };
    if !(str_equals(state, "open") || str_equals(state, "closed") || str_equals(state, "all")) {
        return Err(
            ToolExit { code: 1, message: owned("Error: --state must be one of: open, closed, all") },
        );
    }
    let mut search = chars_of(q.as_str());
    extend_chars(&mut search, &chars_of(" repo:"));
    extend_chars(&mut search, &chars_of(owner));
    extend_chars(&mut search, &chars_of("/"));
    extend_chars(&mut search, &chars_of(repo));
    extend_chars(&mut search, &chars_of(" type:pr"));
    let ghost base = search@;
    if !str_equals(state, "all") {
        extend_chars(&mut search, &chars_of(" state:"));
        extend_chars(&mut search, &chars_of(state));
        assert(search@ =~= base + (" state:"@ + state@));
    } else {
        assert(search@ =~= base + Seq::<char>::empty());
    }
    assert(search@ =~= spec_search_query(q@, owner@, repo@, state@));
    let search_str = string_from_chars(&search);
    let encoded = urlencoding(search_str.as_str());
    let mut url = chars_of("https://api.github.com/search/issues?q=");
    extend_chars(&mut url, &chars_of(encoded.as_str()));
    extend_chars(&mut url, &chars_of("&per_page="));
    push_decimal(limit as u64, &mut url);
    extend_chars(&mut url, &chars_of("&sort=updated&order=desc"));
    Ok(string_from_chars(&url))
}

/// The `Authorization` header value for a GitHub token.
pub fn bearer_authorization(token: &str) -> (r: String)
    ensures
        r@ == "Bearer "@ + token@,
{
    let mut h = chars_of("Bearer ");
    extend_chars(&mut h, &chars_of(token));
    string_from_chars(&h)
}

/// How `github_pr_search` exits when the request fails: code 100.
pub fn request_failed_exit(detail: &str) -> (r: ToolExit)
    ensures
        r.code == 100,
        r.message@ == "Error: GitHub API request failed: "@ + detail@,
{
    let mut m = chars_of("Error: GitHub API request failed: ");
    extend_chars(&mut m, &chars_of(detail));
    ToolExit { code: 100, message: string_from_chars(&m) }
}

/// How `github_pr_search` exits when the response is not a search result:
/// code 101.
pub fn invalid_response_exit(detail: &str) -> (r: ToolExit)
    ensures
        r.code == 101,
        r.message@ == "Error: Invalid response from GitHub: "@ + detail@,
{
    let mut m = chars_of("Error: Invalid response from GitHub: ");
    extend_chars(&mut m, &chars_of(detail));
    ToolExit { code: 101, message: string_from_chars(&m) }
}

/// A pull request as the search API returns it.
#[derive(Debug)]
pub struct PullRequest {
    pub title: String,
    pub html_url: String,
    pub number: u32,
    pub state: String,
    /// The login of the PR's user.
    pub author: String,
}

/// A pull request as the tool prints it.
#[derive(Debug)]
pub struct PrOutput {
    pub number: u32,
    pub title: String,
    pub url: String,
    pub state: String,
    pub author: String,
}

/// What the tool prints.
#[derive(Debug)]
pub struct SearchOutput {
    pub total: u32,
    pub showing: usize,
    pub prs: Vec<PrOutput>,
}

/// Whether a printed PR is a returned one.
pub open spec fn shows(o: PrOutput, p: PullRequest) -> bool {
    &&& o.number == p.number
    &&& o.title@ == p.title@
    &&& o.url@ == p.html_url@
    &&& o.state@ == p.state@
    &&& o.author@ == p.author@
}

/// The output of a search: the total the API reports, how many PRs were
/// returned, and each of them in order.
pub fn search_output(total: u32, items: &Vec<PullRequest>) -> (r: SearchOutput)
    ensures
        r.total == total,
        r.showing == items@.len(),
        r.prs@.len() == items@.len(),
        forall|i: int| 0 <= i < items@.len() ==> shows(#[trigger] r.prs@[i], items@[i]),
{
    let mut prs: Vec<PrOutput> = Vec::new();
    let n = items.len();
    for i in 0..n
        invariant
            n == items@.len(),
            prs@.len() == i,
            forall|k: int| 0 <= k < i ==> shows(#[trigger] prs@[k], items@[k]),
    {
        let p = &items[i];
        prs.push(
            PrOutput {
                number: p.number,
                title: p.title.clone(),
                url: p.html_url.clone(),
                state: p.state.clone(),
                author: p.author.clone(),
            },
        );
    }
    SearchOutput { total, showing: n, prs }
}

/// Each tool exits with tool-specific codes only that its metadata
/// declares, and a tool granted the network targets preview2.
pub proof fn lemma_tool_metadata_consistent()
    ensures
        declares_code(file_search_metadata_view(), 100),
        declares_code(file_search_metadata_view(), 101),
        declares_code(github_pr_search_metadata_view(), 100),
        declares_code(github_pr_search_metadata_view(), 101),
        file_search_metadata_view().capabilities.net ==> file_search_metadata_view().wasi_target
            == WasiTarget::Preview2,
        github_pr_search_metadata_view().capabilities.net
            ==> github_pr_search_metadata_view().wasi_target == WasiTarget::Preview2,
{
    assert(file_search_metadata_view().errors[0].code == 100);
    assert(file_search_metadata_view().errors[1].code == 101);
    assert(github_pr_search_metadata_view().errors[0].code == 100);
    assert(github_pr_search_metadata_view().errors[1].code == 101);
}

} // verus!
