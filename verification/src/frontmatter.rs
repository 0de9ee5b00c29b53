//! The cargo frontmatter of a tool script and the settings its manifest
//! holds. Format:
//!
//! ```text
//! #!/usr/bin/env -S cargo +nightly -Zscript
//! ---cargo
//! [package]
//! name = "example"
//! ...
//! ---
//! <rust code>
//! ```
use vstd::prelude::*;
use crate::text::{
    chars_of, string_from_chars, split_lines, join_range, trim_bounds, range_equals, str_equals,
    lines, join_lines, trim, views,
};
use crate::toml_model::{TomlValue, toml_parse, parse_toml, wasi_tool_section, get_wasi_tool_section, opt_str, opt_bool};
use crate::tool_error::WasiTarget;

verus! {

/// The manifest and the code of a cargo script.
#[derive(Debug)]
pub struct Frontmatter {
    /// The lines between `---cargo` and the closing `---`.
    pub manifest: String,
    /// The lines after the closing `---`.
    pub code: String,
}

/// Why a script has no frontmatter.
#[derive(Debug, Clone, Copy, PartialEq, Eq, Structural)]
pub enum FrontmatterError {
    /// No `---cargo` line.
    NoStartMarker,
    /// No `---` line after the `---cargo` line.
    NoEndMarker,
}

/// The first index at or after `from` of a line that trims to `m`.
pub open spec fn first_marker(ls: Seq<Seq<char>>, from: int, m: Seq<char>) -> Option<int>
    decreases ls.len() - from,
{
    if from < 0 || from >= ls.len() {
        None
    } else if trim(ls[from]) == m {
        Some(from)
    } else {
        first_marker(ls, from + 1, m)
    }
}

/// Manifest and code of a script: the lines between the first line that
/// trims to `---cargo` and the next line that trims to `---`, and the lines
/// after that, each joined with `\n`.
pub open spec fn spec_split_frontmatter(source: Seq<char>) -> Result<
    (Seq<char>, Seq<char>),
    FrontmatterError,
> {
    let ls = lines(source);
    match first_marker(ls, 0, "---cargo"@) {
        None => Err(FrontmatterError::NoStartMarker),
        Some(start) => match first_marker(ls, start + 1, "---"@) {
            None => Err(FrontmatterError::NoEndMarker),
            Some(end) => Ok(
                (
                    join_lines(ls.subrange(start + 1, end)),
                    join_lines(ls.subrange(end + 1, ls.len() as int)),
                ),
            ),
        },
    }
}

/// A marker is found at or after where the search starts, within the lines.
pub proof fn lemma_first_marker_range(ls: Seq<Seq<char>>, from: int, m: Seq<char>)
    ensures
        first_marker(ls, from, m) matches Some(k) ==> from <= k < ls.len() && trim(ls[k]) == m,
    decreases ls.len() - from,
{
    if 0 <= from < ls.len() && trim(ls[from]) != m {
        lemma_first_marker_range(ls, from + 1, m);
    }
}

/// Lines that do not trim to `m` are passed over.
pub proof fn lemma_first_marker_skip(ls: Seq<Seq<char>>, from: int, to: int, m: Seq<char>)
    requires
        0 <= from <= to <= ls.len(),
        forall|i: int| from <= i < to ==> trim(#[trigger] ls[i]) != m,
    ensures
        first_marker(ls, from, m) == first_marker(ls, to, m),
    decreases to - from,
{
    if from < to {
        lemma_first_marker_skip(ls, from + 1, to, m);
    }
}

/// Searching behind a prefix of lines finds what searching without it
/// finds, shifted by the prefix's length.
pub proof fn lemma_first_marker_shift(x: Seq<Seq<char>>, y: Seq<Seq<char>>, j: int, m: Seq<char>)
    requires
        0 <= j,
    ensures
        first_marker(x + y, x.len() + j, m) == match first_marker(y, j, m) {
            Some(k) => Some(k + x.len()),
            None => None::<int>,
        },
    decreases y.len() - j,
{
    if j < y.len() {
        assert((x + y)[x.len() + j] == y[j]);
        lemma_first_marker_shift(x, y, j + 1, m);
    }
}

/// Lines added after a marker that was found do not change it.
pub proof fn lemma_first_marker_extend(x: Seq<Seq<char>>, y: Seq<Seq<char>>, j: int, m: Seq<char>)
    requires
        0 <= j,
        first_marker(x, j, m) is Some,
    ensures
        first_marker(x + y, j, m) == first_marker(x, j, m),
    decreases x.len() - j,
{
    if j < x.len() {
        assert((x + y)[j] == x[j]);
        if trim(x[j]) != m {
            lemma_first_marker_extend(x, y, j + 1, m);
        }
    }
}

/// The first line at or after `from` that trims to `m`.
fn find_marker(ls: &Vec<Vec<char>>, from: usize, m: &Vec<char>) -> (r: Option<usize>)
    requires
        from <= ls@.len(),
    ensures
        match r {
            Some(i) => first_marker(views(ls@), from as int, m@) == Some(i as int) && from <= i
                < ls@.len(),
            None => first_marker(views(ls@), from as int, m@) is None,
        },
{
    let n = ls.len();
    let mut i = from;
    while i < n
        invariant
            n == ls@.len(),
            from <= i <= n,
            first_marker(views(ls@), from as int, m@) == first_marker(views(ls@), i as int, m@),
        decreases n - i,
    {
        let line = &ls[i];
        let (a, b) = trim_bounds(line.as_slice());
        if range_equals(line.as_slice(), a, b, m.as_slice()) {
            return Some(i);
        }
        i = i + 1;
    }
    None
}

/// Splits a cargo script into its manifest and its code.
#[verifier::spinoff_prover]
pub fn split_frontmatter(source: &str) -> (r: Result<Frontmatter, FrontmatterError>)
    ensures
        match r {
            Ok(f) => spec_split_frontmatter(source@) == Ok::<(Seq<char>, Seq<char>), FrontmatterError>((f.manifest@, f.code@)),
            Err(e) => spec_split_frontmatter(source@) == Err::<(Seq<char>, Seq<char>), FrontmatterError>(e),
        },
{
    let chars = chars_of(source);
    let ls = split_lines(&chars);
    let open_marker = chars_of("---cargo");
    let close_marker = chars_of("---");
    let start = match find_marker(&ls, 0, &open_marker) {
        Some(s) => s,
        None => return Err(FrontmatterError::NoStartMarker),
    };
    let end = match find_marker(&ls, start + 1, &close_marker) {
        Some(e) => e,
        None => return Err(FrontmatterError::NoEndMarker),
    };
    let manifest = join_range(&ls, start + 1, end);
    let code = join_range(&ls, end + 1, ls.len());
    Ok(Frontmatter { manifest: string_from_chars(&manifest), code: string_from_chars(&code) })
}

/// The `wasi_target` that a manifest asks for: preview2 when
/// `[package.metadata.wasi-tool]` sets it to the string `"preview2"`,
/// preview1 otherwise (the default).
pub open spec fn spec_target_setting(manifest: TomlValue) -> WasiTarget {
    match wasi_tool_section(manifest) {
        Some(w) => match opt_str(w.spec_get("wasi_target"@)) {
            Some(s) => if s == "preview2"@ {
                WasiTarget::Preview2
            } else {
                WasiTarget::Preview1
            },
            None => WasiTarget::Preview1,
        },
        None => WasiTarget::Preview1,
    }
}

/// Whether a manifest grants network access: `capabilities.net` of
/// `[package.metadata.wasi-tool]`, false when missing or not a boolean.
pub open spec fn spec_net_setting(manifest: TomlValue) -> bool {
    match wasi_tool_section(manifest) {
        Some(w) => match w.spec_get("capabilities"@) {
            Some(c) => match opt_bool(c.spec_get("net"@)) {
                Some(b) => b,
                None => false,
            },
            None => false,
        },
        None => false,
    }
}

/// A manifest whose settings cannot be built.
#[derive(Debug, Clone, Copy, PartialEq, Eq, Structural)]
pub enum ManifestError {
    /// The net capability is set but the target is not preview2.
    NetRequiresPreview2,
}

/// The target a manifest builds for, refused when it asks for network
/// access without targeting preview2.
pub open spec fn spec_manifest_target(manifest: TomlValue) -> Result<WasiTarget, ManifestError> {
    if spec_net_setting(manifest) && spec_target_setting(manifest) != WasiTarget::Preview2 {
        Err(ManifestError::NetRequiresPreview2)
    } else {
        Ok(spec_target_setting(manifest))
    }
}

/// The `wasi_target` setting of a manifest.
pub fn target_setting(manifest: &TomlValue) -> (r: WasiTarget)
    ensures
        r == spec_target_setting(*manifest),
{
    match get_wasi_tool_section(manifest) {
        Some(w) => match w.get("wasi_target") {
            Some(v) => match v.as_str() {
                Some(s) => if str_equals(s.as_str(), "preview2") {
                    WasiTarget::Preview2
                } else {
                    WasiTarget::Preview1
                },
                None => WasiTarget::Preview1,
            },
            None => WasiTarget::Preview1,
        },
        None => WasiTarget::Preview1,
    }
}

/// The net capability of a manifest.
pub fn net_setting(manifest: &TomlValue) -> (r: bool)
    ensures
        r == spec_net_setting(*manifest),
{
    match get_wasi_tool_section(manifest) {
        Some(w) => match w.get("capabilities") {
            Some(c) => match c.get("net") {
                Some(v) => match v.as_bool() {
                    Some(b) => b,
                    None => false,
                },
                None => false,
            },
            None => false,
        },
        None => false,
    }
}

/// The WASI target of a tool whose manifest is given, checked against its
/// net capability.
pub fn manifest_target(manifest: &TomlValue) -> (r: Result<WasiTarget, ManifestError>)
    ensures
        r == spec_manifest_target(*manifest),
        r matches Ok(t) ==> (spec_net_setting(*manifest) ==> t == WasiTarget::Preview2),
{
    let target = target_setting(manifest);
    let net = net_setting(manifest);
    if net && target != WasiTarget::Preview2 {
        Err(ManifestError::NetRequiresPreview2)
    } else {
        Ok(target)
    }
}

/// Why a script cannot be built.
#[derive(Debug, Clone, Copy, PartialEq, Eq, Structural)]
pub enum CompileError {
    /// The script has no cargo frontmatter.
    Frontmatter(FrontmatterError),
    /// The manifest is not a TOML document.
    Toml,
    /// The net capability is set but the target is not preview2.
    NetRequiresPreview2,
}

/// The manifest, the code and the WASI target of a script: its frontmatter
/// split as `spec_split_frontmatter` does, the manifest parsed as TOML and
/// its target checked by `spec_manifest_target`.
pub open spec fn spec_parse_frontmatter(source: Seq<char>) -> Result<
    (Seq<char>, Seq<char>, WasiTarget),
    CompileError,
> {
    match spec_split_frontmatter(source) {
        Err(e) => Err(CompileError::Frontmatter(e)),
        Ok((manifest, code)) => match toml_parse(manifest) {
            None => Err(CompileError::Toml),
            Some(v) => match spec_manifest_target(v) {
                Ok(t) => Ok((manifest, code, t)),
                Err(_) => Err(CompileError::NetRequiresPreview2),
            },
        },
    }
}

/// Parse the cargo frontmatter of a script that is to be built: its
/// manifest, its code and the WASI target its manifest selects.
pub fn parse_frontmatter(source: &str) -> (r: Result<(Frontmatter, WasiTarget), CompileError>)
    ensures
        match r {
            Ok((f, t)) => spec_parse_frontmatter(source@) == Ok::<
                (Seq<char>, Seq<char>, WasiTarget),
                CompileError,
            >((f.manifest@, f.code@, t)),
            Err(e) => spec_parse_frontmatter(source@) == Err::<
                (Seq<char>, Seq<char>, WasiTarget),
                CompileError,
            >(e),
        },
{
    let fm = match split_frontmatter(source) {
        Ok(f) => f,
        Err(e) => return Err(CompileError::Frontmatter(e)),
    };
    let manifest = match parse_toml(fm.manifest.as_str()) {
        Some(v) => v,
        None => return Err(CompileError::Toml),
    };
    match manifest_target(&manifest) {
        Ok(t) => Ok((fm, t)),
        Err(_) => Err(CompileError::NetRequiresPreview2),
    }
}

/// A manifest that is accepted with the net capability targets preview2.
pub proof fn lemma_net_requires_preview2(manifest: TomlValue)
    ensures
        spec_manifest_target(manifest) matches Ok(t) ==> (spec_net_setting(manifest) ==> t
            == WasiTarget::Preview2),
        spec_manifest_target(manifest) is Err <==> spec_net_setting(manifest)
            && spec_target_setting(manifest) == WasiTarget::Preview1,
{
}

} // verus!
