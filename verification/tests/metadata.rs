use wasi_runner::frontmatter::{
    manifest_target, parse_frontmatter, split_frontmatter, CompileError, FrontmatterError, ManifestError,
};
use wasi_runner::metadata::{
    describe_invocation, describe_output, extract_from_frontmatter, metadata_from_manifest,
    select_tool_files, ExtractError, MetadataError,
};
use wasi_runner::executor::ExecutionResult;
use wasi_runner::tool_error::WasiTarget;
use wasi_runner::toml_model::{parse_toml, TomlValue};

fn parse_manifest(text: &str) -> TomlValue {
    parse_toml(text).expect("manifest is TOML")
}

const TEST_TOOL: &str = r#"#!/usr/bin/env -S cargo +nightly -Zscript
---cargo
[package]
name = "test_tool"
edition = "2024"

[package.metadata.wasi-tool]
name = "test_tool"
version = "1.0.0"
description = "A test tool"

[package.metadata.wasi-tool.capabilities]
read = true
write = false
net = false

[[package.metadata.wasi-tool.args]]
name = "input"
type = "string"
description = "Input file"
required = true

[[package.metadata.wasi-tool.errors]]
code = 100
message = "Custom error"

[dependencies]
serde_json = "1"
---

fn main() {}
"#;

const LIST_FILES: &str = r#"#!/usr/bin/env -S cargo +nightly -Zscript
---cargo
[package]
name = "list_files"
edition = "2024"

[package.metadata.wasi-tool]
name = "list_files"
version = "1.0.0"
description = "Lists files in the current directory"

[package.metadata.wasi-tool.capabilities]
read = true
write = false
net = false

[dependencies]
---

fn main() {
    print!("[");
}
"#;

#[test]
fn test_extract_from_frontmatter() {
    let metadata = extract_from_frontmatter(TEST_TOOL).unwrap();
    assert_eq!(metadata.name, "test_tool");
    assert_eq!(metadata.version, "1.0.0");
    assert_eq!(metadata.description, "A test tool");
    assert!(metadata.capabilities.read);
    assert!(!metadata.capabilities.write);
    assert!(!metadata.capabilities.net);
    assert_eq!(metadata.args.len(), 1);
    assert_eq!(metadata.args[0].name, "input");
    assert_eq!(metadata.errors.len(), 1);
    assert_eq!(metadata.errors[0].code, 100);
}

#[test]
fn metadata_from_source() {
    let metadata = extract_from_frontmatter(LIST_FILES).expect("failed to extract metadata");
    assert_eq!(metadata.name, "list_files");
    assert_eq!(metadata.version, "1.0.0");
    assert_eq!(metadata.description, "Lists files in the current directory");
    assert!(metadata.capabilities.read);
    assert!(!metadata.capabilities.write);
    assert!(!metadata.capabilities.net);
}

#[test]
fn test_list_files_metadata_from_source() {
    let metadata = extract_from_frontmatter(LIST_FILES).expect("failed to extract metadata");
    assert_eq!(metadata.name, "list_files");
    assert_eq!(metadata.version, "1.0.0");
    assert_eq!(metadata.description, "Lists files in the current directory");
    assert!(metadata.capabilities.read);
    assert!(!metadata.capabilities.write);
    assert!(!metadata.capabilities.net);
    assert_eq!(metadata.wasi_target, WasiTarget::Preview1);
}

#[test]
fn frontmatter_split_parts() {
    let fm = split_frontmatter("#!shebang\r\n---cargo\r\n[package]\nname = \"x\"\n  ---  \ncode 1\r\ncode 2\n").unwrap();
    assert_eq!(fm.manifest, "[package]\nname = \"x\"");
    assert_eq!(fm.code, "code 1\ncode 2");
    let fm = split_frontmatter("---cargo\n---").unwrap();
    assert_eq!(fm.manifest, "");
    assert_eq!(fm.code, "");
}

#[test]
fn frontmatter_errors() {
    assert_eq!(split_frontmatter("fn main() {}").unwrap_err(), FrontmatterError::NoStartMarker);
    assert_eq!(split_frontmatter("---\n---cargo\n[package]\n").unwrap_err(), FrontmatterError::NoEndMarker);
    assert_eq!(split_frontmatter("").unwrap_err(), FrontmatterError::NoStartMarker);
}

#[test]
fn metadata_defaults_and_filtering() {
    let manifest = parse_manifest(
        r#"
[package.metadata.wasi-tool]
name = "t"
capabilities = { net = "yes" }
args = [
  { name = "a", type = "string" },
  { name = "no_type" },
  { name = "b", type = "number", description = "B", required = true, default = "3" },
]
errors = [
  { code = 4294967397, message = "wraps" },
  { code = "x", message = "dropped" },
  { code = 7 },
]
"#,
    );
    let m = metadata_from_manifest(&manifest).unwrap();
    assert_eq!(m.version, "0.0.0");
    assert_eq!(m.description, "");
    assert!(!m.capabilities.read && !m.capabilities.write && !m.capabilities.net);
    assert_eq!(m.args.len(), 2);
    assert_eq!(m.args[0].name, "a");
    assert_eq!(m.args[0].description, "");
    assert!(!m.args[0].required);
    assert_eq!(m.args[0].default, None);
    assert_eq!(m.args[1].name, "b");
    assert!(m.args[1].required);
    assert_eq!(m.args[1].default.as_deref(), Some("3"));
    assert_eq!(m.errors.len(), 1);
    assert_eq!(m.errors[0].code, 101);
    assert_eq!(m.wasi_target, WasiTarget::Preview1);
}

#[test]
fn metadata_errors() {
    let none = parse_manifest("[package]\nname = \"x\"\n");
    assert_eq!(metadata_from_manifest(&none).unwrap_err(), MetadataError::NoWasiToolSection);
    let no_name = parse_manifest("[package.metadata.wasi-tool]\nversion = \"1\"\n");
    assert_eq!(metadata_from_manifest(&no_name).unwrap_err(), MetadataError::MissingName);
    let bad_name = parse_manifest("[package.metadata.wasi-tool]\nname = 3\n");
    assert_eq!(metadata_from_manifest(&bad_name).unwrap_err(), MetadataError::MissingName);
}

#[test]
fn manifest_target_rules() {
    let p2 = parse_manifest(
        "[package.metadata.wasi-tool]\nwasi_target = \"preview2\"\n[package.metadata.wasi-tool.capabilities]\nnet = true\n",
    );
    assert_eq!(manifest_target(&p2), Ok(WasiTarget::Preview2));
    let p1_net = parse_manifest("[package.metadata.wasi-tool.capabilities]\nnet = true\n");
    assert_eq!(manifest_target(&p1_net), Err(ManifestError::NetRequiresPreview2));
    let other = parse_manifest("[package.metadata.wasi-tool]\nwasi_target = \"preview3\"\n");
    assert_eq!(manifest_target(&other), Ok(WasiTarget::Preview1));
    let empty = parse_manifest("");
    assert_eq!(manifest_target(&empty), Ok(WasiTarget::Preview1));
    let m = parse_manifest(
        "[package.metadata.wasi-tool]\nname = \"n\"\nwasi_target = \"preview2\"\n",
    );
    assert_eq!(metadata_from_manifest(&m).unwrap().wasi_target, WasiTarget::Preview2);
}

#[test]
fn list_tools_selection() {
    let names: Vec<String> = ["z.rs", "README.md", "a.rs", ".rs", "..rs", "b.rs.bak", "m.rs", "x.r", "d.rs"]
        .iter()
        .map(|s| s.to_string())
        .collect();
    let is_file = vec![true, true, true, true, true, true, true, true, false];
    let r = select_tool_files(&names, &is_file);
    let picked: Vec<&str> = r.iter().map(|&i| names[i].as_str()).collect();
    assert_eq!(picked, vec!["..rs", "a.rs", "m.rs", "z.rs"]);
    assert_eq!(r, vec![4, 2, 6, 0]);
    let names = vec!["é.rs".to_string(), "e.rs".to_string(), "E.rs".to_string()];
    let r = select_tool_files(&names, &vec![true, true, true]);
    assert_eq!(r, vec![2, 1, 0]);
    assert!(select_tool_files(&Vec::new(), &Vec::new()).is_empty());
}

#[test]
fn list_tools_skips_directories() {
    let names = vec!["x.rs".to_string(), "y.rs".to_string()];
    assert_eq!(select_tool_files(&names, &vec![false, true]), vec![1]);
    assert!(select_tool_files(&names, &vec![false, false]).is_empty());
}

#[test]
fn extract_errors() {
    assert_eq!(
        extract_from_frontmatter("fn main() {}").unwrap_err(),
        ExtractError::Frontmatter(FrontmatterError::NoStartMarker)
    );
    assert_eq!(
        extract_from_frontmatter("---cargo
name = \"a\"
").unwrap_err(),
        ExtractError::Frontmatter(FrontmatterError::NoEndMarker)
    );
    assert_eq!(extract_from_frontmatter("---cargo
[package
---
").unwrap_err(), ExtractError::Toml);
    assert_eq!(
        extract_from_frontmatter("---cargo
[package]
name = \"a\"
---
").unwrap_err(),
        ExtractError::Metadata(MetadataError::NoWasiToolSection)
    );
    assert_eq!(
        extract_from_frontmatter(
            "---cargo
[package.metadata.wasi-tool]
name = \"a\"
capabilities = { net = true }
---
"
        )
        .unwrap_err(),
        ExtractError::Metadata(MetadataError::NetRequiresPreview2)
    );
}

#[test]
fn extract_net_with_preview2() {
    let m = extract_from_frontmatter(
        "---cargo
[package.metadata.wasi-tool]
name = \"a\"
wasi_target = \"preview2\"
capabilities = { net = true }
---
",
    )
    .unwrap();
    assert!(m.capabilities.net);
    assert_eq!(m.wasi_target, WasiTarget::Preview2);
}

#[test]
fn extract_ignores_surrounding_text() {
    let s = "---cargo
[package.metadata.wasi-tool]
name = \"a\"
version = \"2.0.0\"
---
fn main() {}
";
    let p = "#!/usr/bin/env -S cargo +nightly -Zscript
// a comment
";
    let t = "---cargo
not toml [
---
";
    let whole = format!("{p}{s}{t}");
    let a = extract_from_frontmatter(s).unwrap();
    let b = extract_from_frontmatter(&whole).unwrap();
    assert_eq!(a.name, b.name);
    assert_eq!(a.version, "2.0.0");
    assert_eq!(b.version, "2.0.0");
}

#[test]
fn parse_frontmatter_rules() {
    let (fm, t) = parse_frontmatter(
        "---cargo
[package.metadata.wasi-tool]
wasi_target = \"preview2\"
---
fn main() {}",
    )
    .unwrap();
    assert_eq!(fm.manifest, "[package.metadata.wasi-tool]
wasi_target = \"preview2\"");
    assert_eq!(fm.code, "fn main() {}");
    assert_eq!(t, WasiTarget::Preview2);
    let (_, t) = parse_frontmatter("---cargo
[package]
name = \"x\"
---
").unwrap();
    assert_eq!(t, WasiTarget::Preview1);
    assert_eq!(
        parse_frontmatter("nothing").unwrap_err(),
        CompileError::Frontmatter(FrontmatterError::NoStartMarker)
    );
    assert_eq!(parse_frontmatter("---cargo
= =
---
").unwrap_err(), CompileError::Toml);
    assert_eq!(
        parse_frontmatter("---cargo
[package.metadata.wasi-tool.capabilities]
net = true
---
")
            .unwrap_err(),
        CompileError::NetRequiresPreview2
    );
}

#[test]
fn toml_parse_results() {
    assert!(parse_toml("a = [").is_none());
    match parse_toml("b = 2
a = \"x\"").unwrap() {
        TomlValue::Table(entries) => {
            let mut keys: Vec<&str> = entries.iter().map(|(k, _)| k.as_str()).collect();
            keys.sort();
            assert_eq!(keys, vec!["a", "b"]);
        }
        _ => panic!("a document parses to a table"),
    }
}

#[test]
fn describe_run_handling() {
    let (args, caps) = describe_invocation();
    assert_eq!(args, vec!["--describe"]);
    assert!(caps.read_dirs.is_empty() && caps.write_dirs.is_empty() && !caps.allow_net);
    let ok = ExecutionResult { exit_code: 0, stdout: "{\"name\":\"x\"}".to_string(), stderr: String::new() };
    assert_eq!(describe_output(&ok).unwrap(), "{\"name\":\"x\"}");
    let bad = ExecutionResult { exit_code: 3, stdout: String::new(), stderr: "boom".to_string() };
    let f = describe_output(&bad).unwrap_err();
    assert_eq!(f.exit_code, 3);
    assert_eq!(f.stderr, "boom");
}
