use wasi_runner::codes;
use wasi_runner::compiler::{
    bin_name, build_target, cargo_build_args, compiled_wasm_path,
    tool_workspace_manifest,
};
use wasi_runner::executor::{
    preview1_exit_code, preview2_exit_code, sandbox_config, Capabilities, ComponentOutcome,
    DirAccess, ModuleOutcome,
};
use wasi_runner::text::{chars_of, split_lines, string_from_chars, trim_bounds};
use wasi_runner::tool_error::{BaseError, WasiTarget};

#[test]
fn base_error_codes() {
    assert_eq!(BaseError::InvalidArgs("x".into()).code(), 1);
    assert_eq!(BaseError::FileNotFound("x".into()).code(), 2);
    assert_eq!(BaseError::PermissionDenied("x".into()).code(), 3);
    assert_eq!(BaseError::NetworkError("x".into()).code(), 4);
    assert_eq!(BaseError::ParseError("x".into()).code(), 5);
    assert_eq!(BaseError::Timeout(30).code(), 6);
    assert_eq!(BaseError::Internal("x".into()).code(), 99);
    assert_eq!(codes::TOOL_SPECIFIC_START, 100);
    assert_eq!(codes::SUCCESS, 0);
}

#[test]
fn wasi_target_default() {
    assert_eq!(WasiTarget::default(), WasiTarget::Preview1);
}

#[test]
fn line_splitting_like_str_lines() {
    for s in ["", "a", "a\n", "a\nb", "a\r\nb\r\n", "\n\n", "x\r", "a\rb\n", "\r\n"] {
        let got: Vec<String> =
            split_lines(&chars_of(s)).iter().map(|l| string_from_chars(l)).collect();
        let want: Vec<String> = s.lines().map(|l| l.to_string()).collect();
        assert_eq!(got, want, "lines of {s:?}");
    }
}

#[test]
fn trimming_like_str_trim() {
    for s in ["", "  ", " a ", "\u{3000}x\u{85}", "\t---cargo\r", "a b"] {
        let c = chars_of(s);
        let (a, b) = trim_bounds(&c);
        assert_eq!(string_from_chars(&c[a..b]), s.trim(), "trim of {s:?}");
    }
}

#[test]
fn workspace_manifest_rewrite() {
    let ws = "[workspace]\nmembers = [\"crates/*\"]\nresolver = \"2\"\n  members = 1\n";
    assert_eq!(
        tool_workspace_manifest(ws),
        "[workspace]\nmembers = [\"tool\"]\nresolver = \"2\"\n  members = 1"
    );
}

#[test]
fn binary_name_of_manifest() {
    assert_eq!(
        bin_name("[package]\n  name = \"file_search\"\nedition = \"2024\"").as_deref(),
        Some("file_search")
    );
    assert_eq!(bin_name("[package]\nedition = \"2024\"").as_deref(), Some("tool"));
    assert_eq!(bin_name("name = unquoted\nname = \"later\"").as_deref(), Some("tool"));
    assert_eq!(bin_name("name = \"ok\"").as_deref(), Some("ok"));
    assert_eq!(bin_name("name = \"\"").as_deref(), Some(""));
    assert_eq!(bin_name("name = \"broken"), None);
}

#[test]
fn build_invocation() {
    let (t, tc) = build_target(WasiTarget::Preview1);
    assert_eq!((t.as_str(), tc.as_str()), ("wasm32-wasip1", "+nightly"));
    let (t, tc) = build_target(WasiTarget::Preview2);
    assert_eq!((t.as_str(), tc.as_str()), ("wasm32-wasip2", "+nightly-2024-12-15"));
    assert_eq!(
        cargo_build_args(WasiTarget::Preview2, "github_pr_search"),
        vec!["+nightly-2024-12-15", "build", "--release", "--target", "wasm32-wasip2", "-p", "github_pr_search"]
    );
    assert_eq!(
        compiled_wasm_path("/tmp/b", WasiTarget::Preview1, "file_search"),
        "/tmp/b/target/wasm32-wasip1/release/file_search.wasm"
    );
}

#[test]
fn sandbox_plan() {
    let caps = Capabilities {
        read_dirs: vec!["/r1".into(), "/gone".into()],
        write_dirs: vec!["/w".into()],
        allow_net: true,
    };
    let c = sandbox_config("/t.wasm", &vec!["--x".into()], &caps, &vec![true, false], &vec![true], WasiTarget::Preview1);
    assert_eq!(c.argv, vec!["/t.wasm", "--x"]);
    assert_eq!(c.preopens.len(), 2);
    assert_eq!(c.preopens[0].dir_index, 0);
    assert_eq!(c.preopens[0].guest_path, "/r1");
    assert_eq!(c.preopens[0].access, DirAccess::ReadOnly);
    assert_eq!(c.preopens[1].dir_index, 0);
    assert_eq!(c.preopens[1].guest_path, "/w");
    assert_eq!(c.preopens[1].access, DirAccess::ReadWrite);
    assert!(!c.inherit_network && !c.allow_ip_name_lookup && !c.link_http);
    assert!(c.env.is_empty());
    let c2 = sandbox_config("/t.wasm", &Vec::new(), &caps, &vec![true, true], &vec![false], WasiTarget::Preview2);
    assert!(c2.inherit_network && c2.allow_ip_name_lookup && c2.link_http);
    assert_eq!(c2.preopens.len(), 2);
    assert_eq!(c2.preopens[1].dir_index, 1);
    assert_eq!(c2.preopens[1].guest_path, "/gone");
    let no_net = Capabilities { read_dirs: Vec::new(), write_dirs: Vec::new(), allow_net: false };
    let c3 = sandbox_config("/t.wasm", &Vec::new(), &no_net, &Vec::new(), &Vec::new(), WasiTarget::Preview2);
    assert!(!c3.inherit_network && !c3.allow_ip_name_lookup && !c3.link_http);
    assert!(c3.env.is_empty());
    assert!(c2.preopens.iter().all(|p| p.access == DirAccess::ReadOnly));
}

#[test]
fn exit_codes() {
    assert_eq!(preview1_exit_code(ModuleOutcome::Returned), 0);
    assert_eq!(preview1_exit_code(ModuleOutcome::Exited(101)), 101);
    assert_eq!(preview1_exit_code(ModuleOutcome::Trapped), 1);
    assert_eq!(preview2_exit_code(ComponentOutcome::Succeeded), 0);
    assert_eq!(preview2_exit_code(ComponentOutcome::Failed), 1);
    assert_eq!(preview2_exit_code(ComponentOutcome::Trapped), 1);
}
