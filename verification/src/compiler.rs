//! Compiling a tool: where its WASM file goes, and the build workspace and
//! cargo invocation that produce it.
use vstd::prelude::*;
use crate::cache::{cached_wasm_path, spec_cached_wasm_path};
use crate::text::{
    chars_of, string_from_chars, split_lines, join_range, trim_bounds, starts_with_at, extend_chars,
    join_path, lines, join_lines, trim, starts_with, views, path_join,
};
use crate::tool_error::WasiTarget;

verus! {

/// Where a tool's WASM file is, and whether it must be compiled there.
#[derive(Debug)]
pub struct CompilePlan {
    pub wasm_path: String,
    pub compile: bool,
}

/// Ensure a tool is compiled: its WASM file is the cache file named after
/// the hash of its source, compiled only when the cache does not hold it
/// yet (`cached` tells whether it does).
pub fn ensure_compiled(project_root: &str, source_content: &[u8], cached: bool) -> (r:
    CompilePlan)
    ensures
        r.wasm_path@ == spec_cached_wasm_path(project_root@, source_content@),
        r.compile == !cached,
{
    let wasm_path = cached_wasm_path(project_root, source_content);
    CompilePlan { wasm_path, compile: !cached }
}

/// The line that replaces a workspace's `members` line.
pub open spec fn tool_members_line() -> Seq<char> {
    "members = [\"tool\"]"@
}

/// A workspace manifest line, with a line that starts with `members`
/// replaced so that the tool is the only member.
pub open spec fn workspace_line(l: Seq<char>) -> Seq<char> {
    if starts_with(l, "members"@) {
        tool_members_line()
    } else {
        l
    }
}

/// The build workspace's manifest: the project's workspace manifest with
/// every line that starts with `members` replaced, lines joined with `\n`.
pub open spec fn spec_tool_workspace_manifest(workspace_toml: Seq<char>) -> Seq<char> {
    join_lines(lines(workspace_toml).map_values(|l: Seq<char>| workspace_line(l)))
}

/// The manifest of the workspace in which a tool is built.
pub fn tool_workspace_manifest(workspace_toml: &str) -> (r: String)
    ensures
        r@ == spec_tool_workspace_manifest(workspace_toml@),
{
    let src = chars_of(workspace_toml);
    let ls = split_lines(&src);
    let members = chars_of("members");
    let replacement = chars_of("members = [\"tool\"]");
    let mut out: Vec<Vec<char>> = Vec::new();
    let n = ls.len();
    for i in 0..n
        invariant
            n == ls@.len(),
            members@ == "members"@,
            replacement@ == tool_members_line(),
            views(out@) == views(ls@).take(i as int).map_values(|l: Seq<char>| workspace_line(l)),
    {
        let ghost before = out@;
        let line = &ls[i];
        let mut new_line: Vec<char> = Vec::new();
        assert(line@.subrange(0, line@.len() as int) =~= line@);
        if starts_with_at(line.as_slice(), 0, members.as_slice()) {
            extend_chars(&mut new_line, replacement.as_slice());
        } else {
            extend_chars(&mut new_line, line.as_slice());
        }
        out.push(new_line);
        assert(views(out@) =~= views(before).push(workspace_line(ls@[i as int]@)));
        assert(views(ls@).take(i + 1) =~= views(ls@).take(i as int).push(ls@[i as int]@));
    }
    assert(views(ls@).take(n as int) =~= views(ls@));
    assert(views(ls@) == lines(workspace_toml@));
    let joined = join_range(&out, 0, n);
    assert(views(out@).subrange(0, n as int) =~= views(out@));
    string_from_chars(&joined)
}

/// The index of the first `"` in `l`, if any.
pub open spec fn first_quote(l: Seq<char>) -> Option<int>
    decreases l.len(),
{
    if l.len() == 0 {
        None
    } else if l[0] == '"' {
        Some(0)
    } else {
        match first_quote(l.drop_first()) {
            Some(i) => Some(i + 1),
            None => None,
        }
    }
}

/// The index of the last `"` in `l`, if any.
pub open spec fn last_quote(l: Seq<char>) -> Option<int>
    decreases l.len(),
{
    if l.len() == 0 {
        None
    } else if l.last() == '"' {
        Some(l.len() - 1)
    } else {
        last_quote(l.drop_last())
    }
}

/// The first manifest line that, trimmed, starts with `name = `.
pub open spec fn name_line(ls: Seq<Seq<char>>) -> Option<Seq<char>>
    decreases ls.len(),
{
    if ls.len() == 0 {
        None
    } else if starts_with(trim(ls[0]), "name = "@) {
        Some(ls[0])
    } else {
        name_line(ls.drop_first())
    }
}

/// Whether the first `name = ` line of a manifest holds a single `"`, so
/// that no name stands between two quotes.
pub open spec fn name_quote_unpaired(manifest: Seq<char>) -> bool {
    match name_line(lines(manifest)) {
        Some(l) => match (first_quote(l), last_quote(l)) {
            (Some(a), Some(b)) => a + 1 > b,
            _ => false,
        },
        None => false,
    }
}

/// The binary name a manifest declares: what stands between the first and
/// the last `"` of its first line that trims to something starting with
/// `name = `; `tool` when there is no such line or it has no `"`.
pub open spec fn spec_bin_name(manifest: Seq<char>) -> Seq<char> {
    match name_line(lines(manifest)) {
        Some(l) => match (first_quote(l), last_quote(l)) {
            (Some(a), Some(b)) => l.subrange(a + 1, b),
            _ => "tool"@,
        },
        None => "tool"@,
    }
}

/// The first `"` of a line.
fn find_first_quote(l: &[char]) -> (r: Option<usize>)
    ensures
        match r {
            Some(i) => first_quote(l@) == Some(i as int) && i < l@.len(),
            None => first_quote(l@) is None,
        },
{
    let n = l.len();
    let mut i: usize = 0;
    assert(l@.skip(0) =~= l@);
    while i < n
        invariant
            n == l@.len(),
            i <= n,
            forall|k: int| 0 <= k < i ==> l@[k] != '"',
            first_quote(l@) == match first_quote(l@.skip(i as int)) {
                Some(j) => Some(j + i),
                None => None,
            },
        decreases n - i,
    {
        if l[i] == '"' {
            return Some(i);
        }
        assert(l@.skip(i as int).drop_first() =~= l@.skip(i + 1));
        i = i + 1;
    }
    None
}

/// The last `"` of a line.
fn find_last_quote(l: &[char]) -> (r: Option<usize>)
    ensures
        match r {
            Some(i) => last_quote(l@) == Some(i as int) && i < l@.len(),
            None => last_quote(l@) is None,
        },
{
    let mut j: usize = l.len();
    assert(l@.take(j as int) =~= l@);
    while j > 0
        invariant
            j <= l@.len(),
            last_quote(l@) == last_quote(l@.take(j as int)),
        decreases j,
    {
        if l[j - 1] == '"' {
            return Some(j - 1);
        }
        assert(l@.take(j as int).drop_last() =~= l@.take(j - 1));
        j = j - 1;
    }
    None
}

/// The first manifest line that, trimmed, starts with `name = `.
fn find_name_line(ls: &Vec<Vec<char>>) -> (r: Option<usize>)
    ensures
        match r {
            Some(i) => i < ls@.len() && name_line(views(ls@)) == Some(ls@[i as int]@),
            None => name_line(views(ls@)) is None,
        },
{
    let prefix = chars_of("name = ");
    let n = ls.len();
    let mut i: usize = 0;
    assert(views(ls@).skip(0) =~= views(ls@));
    while i < n
        invariant
            n == ls@.len(),
            i <= n,
            prefix@ == "name = "@,
            name_line(views(ls@)) == name_line(views(ls@).skip(i as int)),
        decreases n - i,
    {
        let line = &ls[i];
        let (a, b) = trim_bounds(line.as_slice());
        let trimmed = &line.as_slice()[a..b];
        let ghost t = views(ls@).skip(i as int);
        assert(t[0] == line@);
        if starts_with_at(trimmed, 0, prefix.as_slice()) {
            assert(trimmed@.subrange(0, trimmed@.len() as int) =~= trimmed@);
            return Some(i);
        }
        assert(trimmed@.subrange(0, trimmed@.len() as int) =~= trimmed@);
        assert(t.drop_first() =~= views(ls@).skip(i + 1));
        i = i + 1;
    }
    None
}

/// Get the binary name from a manifest; `None` when its `name = ` line holds
/// a single `"`, so that no name stands between two quotes.
pub fn bin_name(manifest: &str) -> (r: Option<String>)
    ensures
        r is None <==> name_quote_unpaired(manifest@),
        r matches Some(s) ==> s@ == spec_bin_name(manifest@),
{
    let src = chars_of(manifest);
    let ls = split_lines(&src);
    match find_name_line(&ls) {
        Some(i) => {
            let line = &ls[i];
            match (find_first_quote(line.as_slice()), find_last_quote(line.as_slice())) {
                (Some(a), Some(b)) => {
                    if a < b {
                        let name = &line.as_slice()[a + 1..b];
                        return Some(string_from_chars(name));
                    } else {
                        return None;
                    }
                },
                _ => {},
            }
        },
        None => {},
    }
    Some(string_from_chars(&chars_of("tool")))
}

/// The compilation target of a WASI target.
pub open spec fn spec_target_triple(t: WasiTarget) -> Seq<char> {
    match t {
        WasiTarget::Preview1 => "wasm32-wasip1"@,
        WasiTarget::Preview2 => "wasm32-wasip2"@,
    }
}

/// The toolchain that builds for a WASI target: nightly for preview1;
/// `nightly-2024-12-15` for preview2, whose std matches WASI 0.2.2 (what
/// `wasi-http-client` needs).
pub open spec fn spec_toolchain(t: WasiTarget) -> Seq<char> {
    match t {
        WasiTarget::Preview1 => "+nightly"@,
        WasiTarget::Preview2 => "+nightly-2024-12-15"@,
    }
}

/// The target triple and the toolchain argument for a WASI target.
pub fn build_target(t: WasiTarget) -> (r: (String, String))
    ensures
        r.0@ == spec_target_triple(t),
        r.1@ == spec_toolchain(t),
{
    match t {
        WasiTarget::Preview1 => (
            string_from_chars(&chars_of("wasm32-wasip1")),
            string_from_chars(&chars_of("+nightly")),
        ),
        WasiTarget::Preview2 => (
            string_from_chars(&chars_of("wasm32-wasip2")),
            string_from_chars(&chars_of("+nightly-2024-12-15")),
        ),
    }
}

/// The arguments of the `cargo` call that builds the tool in release mode
/// for its target.
pub open spec fn spec_cargo_build_args(t: WasiTarget, bin: Seq<char>) -> Seq<Seq<char>> {
    seq![
        spec_toolchain(t),
        "build"@,
        "--release"@,
        "--target"@,
        spec_target_triple(t),
        "-p"@,
        bin,
    ]
}

/// The arguments of the `cargo` build call.
pub fn cargo_build_args(t: WasiTarget, bin: &str) -> (r: Vec<String>)
    ensures
        r@.map_values(|s: String| s@) == spec_cargo_build_args(t, bin@),
{
    let (target, toolchain) = build_target(t);
    let mut r: Vec<String> = Vec::new();
    r.push(toolchain);
    r.push(string_from_chars(&chars_of("build")));
    r.push(string_from_chars(&chars_of("--release")));
    r.push(string_from_chars(&chars_of("--target")));
    r.push(target);
    r.push(string_from_chars(&chars_of("-p")));
    r.push(string_from_chars(&chars_of(bin)));
    assert(r@.map_values(|s: String| s@) =~= spec_cargo_build_args(t, bin@));
    r
}

/// Where cargo leaves the tool's WASM file:
/// `<build_dir>/target/<triple>/release/<bin>.wasm`.
pub open spec fn spec_compiled_wasm_path(build_dir: Seq<char>, t: WasiTarget, bin: Seq<char>) -> Seq<
    char,
> {
    path_join(
        path_join(path_join(path_join(build_dir, "target"@), spec_target_triple(t)), "release"@),
        bin + ".wasm"@,
    )
}

/// The path of the WASM file that the build produces.
pub fn compiled_wasm_path(build_dir: &str, t: WasiTarget, bin: &str) -> (r: String)
    ensures
        r@ == spec_compiled_wasm_path(build_dir@, t, bin@),
        r@ == path_join(
            path_join(
                path_join(path_join(build_dir@, "target"@), spec_cargo_build_args(t, bin@)[4]),
                "release"@,
            ),
            bin@ + ".wasm"@,
        ),
{
    let (target, _) = build_target(t);
    let p1 = join_path(&chars_of(build_dir), &chars_of("target"));
    let p2 = join_path(&p1, &chars_of(target.as_str()));
    let p3 = join_path(&p2, &chars_of("release"));
    let mut file = chars_of(bin);
    extend_chars(&mut file, &chars_of(".wasm"));
    let p4 = join_path(&p3, &file);
    proof {
        lemma_compiled_wasm_path_follows_build(build_dir@, t, bin@);
    }
    string_from_chars(&p4)
}

/// The WASM file is looked for where the build puts it: under
/// `<build_dir>/target/<T>/release/`, where `T` is the triple that the
/// cargo arguments pass to `--target`, named `<bin>.wasm` after the package
/// they pass to `-p`; and the two targets build into distinct directories.
pub proof fn lemma_compiled_wasm_path_follows_build(build_dir: Seq<char>, t: WasiTarget, bin: Seq<char>)
    ensures
        spec_cargo_build_args(t, bin)[3] == "--target"@,
        spec_cargo_build_args(t, bin)[5] == "-p"@,
        spec_compiled_wasm_path(build_dir, t, bin) == path_join(
            path_join(
                path_join(path_join(build_dir, "target"@), spec_cargo_build_args(t, bin)[4]),
                "release"@,
            ),
            spec_cargo_build_args(t, bin)[6] + ".wasm"@,
        ),
        spec_target_triple(WasiTarget::Preview1) != spec_target_triple(WasiTarget::Preview2),
{
    reveal_strlit("wasm32-wasip1");
    reveal_strlit("wasm32-wasip2");
    assert(spec_target_triple(WasiTarget::Preview1)[12] != spec_target_triple(WasiTarget::Preview2)[12]);
}

} // verus!
