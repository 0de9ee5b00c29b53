use wasi_runner::tools::{
    bearer_authorization, file_search_metadata, github_pr_search_metadata, invalid_pattern_exit,
    invalid_response_exit, plan_file_search, plan_pr_search, request_failed_exit, search_output,
    PullRequest,
};
use wasi_runner::tool_error::WasiTarget;
use wasi_runner::urlencode::urlencoding;

#[test]
fn invalid_directory() {
    let directory = "/nonexistent/path";
    let exists = std::path::Path::new(directory).exists();
    let r = plan_file_search(Some("*.rs".to_string()), directory, exists);
    let e = r.expect_err("a missing directory must stop the search");
    assert_eq!(e.code, 101);
    assert_eq!(e.message, "Error: directory '/nonexistent/path' does not exist");
}

#[test]
fn no_pattern() {
    let r = plan_file_search(None, ".", true);
    let e = r.expect_err("a missing pattern must stop the search");
    assert_ne!(e.code, 0);
    assert_eq!(e.code, 1);
    assert_eq!(e.message, "Error: --pattern is required");
}

#[test]
fn file_search_full_pattern() {
    let r = plan_file_search(Some("**/*.rs".to_string()), "/work", true).unwrap();
    assert_eq!(r, "/work/**/*.rs");
}

#[test]
fn file_search_invalid_pattern_code() {
    let e = invalid_pattern_exit("Pattern syntax error near position 4: invalid range pattern");
    assert_eq!(e.code, 100);
    assert_eq!(
        e.message,
        "Error: invalid glob pattern: Pattern syntax error near position 4: invalid range pattern"
    );
}

#[test]
fn file_search_describe() {
    let m = file_search_metadata();
    assert_eq!(m.name, "file_search");
    assert_eq!(m.version, "1.0.0");
    assert!(m.capabilities.read);
    assert!(!m.capabilities.write);
    assert!(!m.capabilities.net);
    assert_eq!(m.wasi_target, WasiTarget::Preview1);
    let names: Vec<&str> = m.args.iter().map(|a| a.name.as_str()).collect();
    assert_eq!(names, vec!["pattern", "directory"]);
    assert_eq!(m.args[1].default.as_deref(), Some("."));
    let codes: Vec<i32> = m.errors.iter().map(|e| e.code).collect();
    assert_eq!(codes, vec![100, 101]);
}

#[test]
fn github_pr_search_describe() {
    let m = github_pr_search_metadata();
    assert_eq!(m.name, "github_pr_search");
    assert_eq!(m.version, "1.0.0");
    assert!(!m.capabilities.read);
    assert!(!m.capabilities.write);
    assert!(m.capabilities.net);
    let arg_names: Vec<&str> = m.args.iter().map(|a| a.name.as_str()).collect();
    assert!(arg_names.contains(&"query"));
    assert!(arg_names.contains(&"owner"));
    assert!(arg_names.contains(&"repo"));
    assert!(arg_names.contains(&"limit"));
    assert!(arg_names.contains(&"state"));
    assert_eq!(m.wasi_target, WasiTarget::Preview2);
    assert_eq!(m.args[3].arg_type, "number");
    assert_eq!(m.args[3].default.as_deref(), Some("10"));
}

#[test]
fn no_query() {
    let r = plan_pr_search(None, "anomalyco", "opencode", 10, "open");
    let e = r.expect_err("a missing query must stop the search");
    assert_ne!(e.code, 0);
    assert_eq!(e.message, "Error: --query is required");
}

#[test]
fn invalid_state() {
    let r = plan_pr_search(Some("test".to_string()), "anomalyco", "opencode", 10, "invalid");
    let e = r.expect_err("an unknown state must stop the search");
    assert_ne!(e.code, 0);
    assert_eq!(e.code, 1);
    assert_eq!(e.message, "Error: --state must be one of: open, closed, all");
}

#[test]
fn pr_search_url_all_states() {
    let url =
        plan_pr_search(Some("cargo script".to_string()), "rust-lang", "cargo", 5, "all").unwrap();
    assert_eq!(
        url,
        "https://api.github.com/search/issues?q=cargo%20script%20repo%3Arust-lang%2Fcargo%20type%3Apr&per_page=5&sort=updated&order=desc"
    );
}

#[test]
fn pr_search_url_with_state() {
    let url = plan_pr_search(Some("fix".to_string()), "anomalyco", "opencode", 10, "open").unwrap();
    assert_eq!(
        url,
        "https://api.github.com/search/issues?q=fix%20repo%3Aanomalyco%2Fopencode%20type%3Apr%20state%3Aopen&per_page=10&sort=updated&order=desc"
    );
    let url = plan_pr_search(Some("x".to_string()), "o", "r", 0, "closed").unwrap();
    assert!(url.contains("state%3Aclosed"));
    assert!(url.contains("&per_page=0&"));
}

#[test]
fn urlencoding_unreserved_and_ascii() {
    assert_eq!(urlencoding("aZ09-_.~"), "aZ09-_.~");
    assert_eq!(urlencoding("a b:c/d"), "a%20b%3Ac%2Fd");
    assert_eq!(urlencoding("&?=#+"), "%26%3F%3D%23%2B");
    assert_eq!(urlencoding(""), "");
}

#[test]
fn urlencoding_multibyte() {
    assert_eq!(urlencoding("é"), "%C3%A9");
    assert_eq!(urlencoding("€"), "%E2%82%AC");
    assert_eq!(urlencoding("😀"), "%F0%9F%98%80");
    assert_eq!(urlencoding("\u{7f}"), "%7F");
}

#[test]
fn urlencoding_decodes_back() {
    let s = "query with spaces/and:colons é€😀 & more";
    let enc = urlencoding(s);
    let mut bytes = Vec::new();
    let b = enc.as_bytes();
    let mut i = 0;
    while i < b.len() {
        if b[i] == b'%' {
            let hex = std::str::from_utf8(&b[i + 1..i + 3]).unwrap();
            bytes.push(u8::from_str_radix(hex, 16).unwrap());
            i += 3;
        } else {
            bytes.push(b[i]);
            i += 1;
        }
    }
    assert_eq!(bytes, s.as_bytes());
    assert!(enc.chars().all(|c| c.is_ascii_alphanumeric() || "-_.~%".contains(c)));
}

#[test]
fn bearer_header() {
    assert_eq!(bearer_authorization("abc123"), "Bearer abc123");
}

#[test]
fn pr_search_failure_codes() {
    let e = request_failed_exit("timeout");
    assert_eq!(e.code, 100);
    assert_eq!(e.message, "Error: GitHub API request failed: timeout");
    let e = invalid_response_exit("expected value");
    assert_eq!(e.code, 101);
    assert_eq!(e.message, "Error: Invalid response from GitHub: expected value");
    let m = github_pr_search_metadata();
    assert!(m.errors.iter().any(|x| x.code == 100));
    assert!(m.errors.iter().any(|x| x.code == 101));
}

#[test]
fn search_output_maps_items() {
    let items = vec![
        PullRequest {
            title: "Add cargo script".to_string(),
            html_url: "https://github.com/rust-lang/cargo/pull/1".to_string(),
            number: 1,
            state: "closed".to_string(),
            author: "epage".to_string(),
        },
        PullRequest {
            title: "Second".to_string(),
            html_url: "https://github.com/rust-lang/cargo/pull/2".to_string(),
            number: 2,
            state: "open".to_string(),
            author: "someone".to_string(),
        },
    ];
    let out = search_output(57, &items);
    assert_eq!(out.total, 57);
    assert_eq!(out.showing, 2);
    assert_eq!(out.prs.len(), 2);
    assert_eq!(out.prs[0].url, "https://github.com/rust-lang/cargo/pull/1");
    assert_eq!(out.prs[1].author, "someone");
    assert_eq!(out.prs[1].number, 2);
    let empty = search_output(0, &Vec::new());
    assert_eq!(empty.showing, 0);
    assert!(empty.prs.is_empty());
}
