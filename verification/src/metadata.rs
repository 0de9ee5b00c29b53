//! Tool metadata: read from the `[package.metadata.wasi-tool]` table of a
//! tool's manifest, and the selection of tool files in a directory.
use vstd::prelude::*;
use crate::frontmatter::{
    first_marker, lemma_first_marker_range, lemma_first_marker_skip, lemma_first_marker_shift,
    lemma_first_marker_extend, spec_target_setting, target_setting, spec_split_frontmatter, split_frontmatter, FrontmatterError,
};
use crate::text::{chars_of, string_from_chars, lines, trim, lemma_lines_append};
use crate::tool_error::{
    ArgSpec, ArgView, Capabilities, ErrorSpec, ErrorView, ToolMetadata, ToolMetadataView, WasiTarget,
};
use crate::toml_model::{TomlValue, toml_parse, parse_toml, wasi_tool_section, get_wasi_tool_section, opt_str, opt_bool, opt_integer, opt_array};

verus! {

/// Why a manifest yields no tool metadata.
#[derive(Debug, Clone, Copy, PartialEq, Eq, Structural)]
pub enum MetadataError {
    /// No `[package.metadata.wasi-tool]` table.
    NoWasiToolSection,
    /// The table has no string `name`.
    MissingName,
    /// The net capability is set but the target is not preview2.
    NetRequiresPreview2,
}

/// The string under `key` of a table, or `default` when it has none.
pub open spec fn str_or(v: TomlValue, key: Seq<char>, default: Seq<char>) -> Seq<char> {
    match opt_str(v.spec_get(key)) {
        Some(s) => s,
        None => default,
    }
}

/// The boolean under `key` of a table, false when it has none.
pub open spec fn flag(v: TomlValue, key: Seq<char>) -> bool {
    match opt_bool(v.spec_get(key)) {
        Some(b) => b,
        None => false,
    }
}

/// An argument entry: kept only when it has a string `name` and `type`;
/// `description` defaults to empty and `required` to false.
pub open spec fn spec_arg(item: TomlValue) -> Option<ArgView> {
    match opt_str(item.spec_get("name"@)) {
        Some(name) => match opt_str(item.spec_get("type"@)) {
            Some(ty) => Some(
                ArgView {
                    name: name,
                    arg_type: ty,
                    description: str_or(item, "description"@, seq![]),
                    required: flag(item, "required"@),
                    default: opt_str(item.spec_get("default"@)),
                },
            ),
            None => None,
        },
        None => None,
    }
}

/// The arguments of the entries that yield one, in order.
pub open spec fn spec_args(items: Seq<TomlValue>) -> Seq<ArgView>
    decreases items.len(),
{
    if items.len() == 0 {
        seq![]
    } else {
        spec_args(items.drop_last()) + match spec_arg(items.last()) {
            Some(a) => seq![a],
            None => seq![],
        }
    }
}

/// An error entry: kept only when it has an integer `code` (taken as
/// `i32`, wrapping as `as` does) and a string `message`.
pub open spec fn spec_error(item: TomlValue) -> Option<ErrorView> {
    match opt_integer(item.spec_get("code"@)) {
        Some(code) => match opt_str(item.spec_get("message"@)) {
            Some(message) => Some(ErrorView { code: code as i32, message: message }),
            None => None,
        },
        None => None,
    }
}

/// The errors of the entries that yield one, in order.
pub open spec fn spec_errors(items: Seq<TomlValue>) -> Seq<ErrorView>
    decreases items.len(),
{
    if items.len() == 0 {
        seq![]
    } else {
        spec_errors(items.drop_last()) + match spec_error(items.last()) {
            Some(e) => seq![e],
            None => seq![],
        }
    }
}

/// A capability flag of the `capabilities` table, false when missing.
pub open spec fn capability(section: TomlValue, key: Seq<char>) -> bool {
    match section.spec_get("capabilities"@) {
        Some(c) => flag(c, key),
        None => false,
    }
}

/// An argument entry is kept exactly when it has a string `name` and a
/// string `type`, and the argument carries them, the entry's `description`
/// string (empty only when it has none), its boolean `required` (false only
/// when it has none) and its `default` string if any.
pub proof fn lemma_arg_fields(item: TomlValue)
    ensures
        spec_arg(item) is Some <==> (opt_str(item.spec_get("name"@)) is Some && opt_str(
            item.spec_get("type"@),
        ) is Some),
        spec_arg(item) matches Some(a) ==> {
            &&& opt_str(item.spec_get("name"@)) == Some(a.name)
            &&& opt_str(item.spec_get("type"@)) == Some(a.arg_type)
            &&& (opt_str(item.spec_get("description"@)) matches Some(d) ==> a.description == d)
            &&& (opt_str(item.spec_get("description"@)) is None ==> a.description.len() == 0)
            &&& (opt_bool(item.spec_get("required"@)) matches Some(b) ==> a.required == b)
            &&& (opt_bool(item.spec_get("required"@)) is None ==> !a.required)
            &&& a.default == opt_str(item.spec_get("default"@))
        },
{
}

/// An error entry is kept exactly when it has an integer `code` and a
/// string `message`; the error carries the message and the code's low 32
/// bits (its value whenever it fits in `i32`).
pub proof fn lemma_error_fields(item: TomlValue)
    ensures
        spec_error(item) is Some <==> (opt_integer(item.spec_get("code"@)) is Some && opt_str(
            item.spec_get("message"@),
        ) is Some),
        spec_error(item) matches Some(e) ==> {
            &&& opt_str(item.spec_get("message"@)) == Some(e.message)
            &&& (opt_integer(item.spec_get("code"@)) matches Some(c) ==> (i32::MIN <= c
                <= i32::MAX ==> e.code == c))
        },
{
    if let Some(c) = opt_integer(item.spec_get("code"@)) {
        if i32::MIN <= c <= i32::MAX {
            assert((c as i32) == c);
        }
    }
}

/// The arguments of a list of entries are those of its parts, in order:
/// each entry contributes its own argument, or none.
pub proof fn lemma_args_concat(a: Seq<TomlValue>, b: Seq<TomlValue>)
    ensures
        spec_args(a + b) == spec_args(a) + spec_args(b),
        spec_args(seq![]) == Seq::<ArgView>::empty(),
        forall|x: TomlValue| #[trigger] spec_args(seq![x]) == match spec_arg(x) {
            Some(v) => seq![v],
            None => Seq::<ArgView>::empty(),
        },
    decreases b.len(),
{
    assert forall|x: TomlValue| #[trigger] spec_args(seq![x]) == match spec_arg(x) {
        Some(v) => seq![v],
        None => Seq::<ArgView>::empty(),
    } by {
        assert(seq![x].drop_last() =~= Seq::<TomlValue>::empty());
        assert(seq![x].last() == x);
        assert(spec_args(Seq::<TomlValue>::empty()) == Seq::<ArgView>::empty());
        let m = match spec_arg(x) {
            Some(v) => seq![v],
            None => Seq::<ArgView>::empty(),
        };
        assert(Seq::<ArgView>::empty() + m =~= m);
    }
    if b.len() == 0 {
        assert(a + b =~= a);
        assert(spec_args(a) + spec_args(b) =~= spec_args(a));
    } else {
        lemma_args_concat(a, b.drop_last());
        assert((a + b).drop_last() =~= a + b.drop_last());
        assert((a + b).last() == b.last());
        let tail = match spec_arg(b.last()) {
            Some(v) => seq![v],
            None => Seq::<ArgView>::empty(),
        };
        assert(spec_args(a) + spec_args(b) =~= spec_args(a) + spec_args(b.drop_last()) + tail);
    }
}

/// The errors of a list of entries are those of its parts, in order: each
/// entry contributes its own error, or none.
pub proof fn lemma_errors_concat(a: Seq<TomlValue>, b: Seq<TomlValue>)
    ensures
        spec_errors(a + b) == spec_errors(a) + spec_errors(b),
        spec_errors(seq![]) == Seq::<ErrorView>::empty(),
        forall|x: TomlValue| #[trigger] spec_errors(seq![x]) == match spec_error(x) {
            Some(v) => seq![v],
            None => Seq::<ErrorView>::empty(),
        },
    decreases b.len(),
{
    assert forall|x: TomlValue| #[trigger] spec_errors(seq![x]) == match spec_error(x) {
        Some(v) => seq![v],
        None => Seq::<ErrorView>::empty(),
    } by {
        assert(seq![x].drop_last() =~= Seq::<TomlValue>::empty());
        assert(seq![x].last() == x);
        assert(spec_errors(Seq::<TomlValue>::empty()) == Seq::<ErrorView>::empty());
        let m = match spec_error(x) {
            Some(v) => seq![v],
            None => Seq::<ErrorView>::empty(),
        };
        assert(Seq::<ErrorView>::empty() + m =~= m);
    }
    if b.len() == 0 {
        assert(a + b =~= a);
        assert(spec_errors(a) + spec_errors(b) =~= spec_errors(a));
    } else {
        lemma_errors_concat(a, b.drop_last());
        assert((a + b).drop_last() =~= a + b.drop_last());
        assert((a + b).last() == b.last());
        let tail = match spec_error(b.last()) {
            Some(v) => seq![v],
            None => Seq::<ErrorView>::empty(),
        };
        assert(spec_errors(a) + spec_errors(b) =~= spec_errors(a) + spec_errors(b.drop_last())
            + tail);
    }
}

/// The metadata that a manifest describes: `name` is required; `version`
/// defaults to `0.0.0`, `description` to empty, capabilities to false and
/// `args` and `errors` to none. A tool granted the network must target
/// preview2.
pub open spec fn spec_metadata(manifest: TomlValue) -> Result<ToolMetadataView, MetadataError> {
    match wasi_tool_section(manifest) {
        None => Err(MetadataError::NoWasiToolSection),
        Some(md) => match opt_str(md.spec_get("name"@)) {
            None => Err(MetadataError::MissingName),
            Some(name) => if capability(md, "net"@) && spec_target_setting(manifest)
                != WasiTarget::Preview2 {
                Err(MetadataError::NetRequiresPreview2)
            } else {
                Ok(
                ToolMetadataView {
                    name: name,
                    version: str_or(md, "version"@, "0.0.0"@),
                    description: str_or(md, "description"@, seq![]),
                    args: match opt_array(md.spec_get("args"@)) {
                        Some(items) => spec_args(items),
                        None => seq![],
                    },
                    errors: match opt_array(md.spec_get("errors"@)) {
                        Some(items) => spec_errors(items),
                        None => seq![],
                    },
                    capabilities: Capabilities {
                        read: capability(md, "read"@),
                        write: capability(md, "write"@),
                        net: capability(md, "net"@),
                    },
                    wasi_target: spec_target_setting(manifest),
                },
            )
            },
        },
    }
}

/// A manifest describes a tool exactly when its wasi-tool table has a
/// string `name` and it does not ask for the network without preview2; the
/// metadata carries that name, the table's `version` string (`0.0.0` only
/// when it has none) and `description` string (empty only when it has none).
pub proof fn lemma_metadata_fields(manifest: TomlValue)
    ensures
        spec_metadata(manifest) == Err::<ToolMetadataView, MetadataError>(
            MetadataError::NoWasiToolSection,
        ) <==> wasi_tool_section(manifest) is None,
        spec_metadata(manifest) matches Ok(m) ==> {
            let md = wasi_tool_section(manifest)->Some_0;
            &&& wasi_tool_section(manifest) is Some
            &&& opt_str(md.spec_get("name"@)) == Some(m.name)
            &&& (opt_str(md.spec_get("version"@)) matches Some(x) ==> m.version == x)
            &&& (opt_str(md.spec_get("version"@)) is None ==> m.version == "0.0.0"@)
            &&& (opt_str(md.spec_get("description"@)) matches Some(x) ==> m.description == x)
            &&& (opt_str(md.spec_get("description"@)) is None ==> m.description.len() == 0)
            &&& m.capabilities.net == capability(md, "net"@)
            &&& (m.capabilities.net ==> m.wasi_target == WasiTarget::Preview2)
        },
        (wasi_tool_section(manifest) matches Some(md) && opt_str(md.spec_get("name"@)) is None)
            ==> spec_metadata(manifest) == Err::<ToolMetadataView, MetadataError>(
            MetadataError::MissingName,
        ),
{
}

/// The string under `key`, or `default`.
fn string_or(v: &TomlValue, key: &str, default: &str) -> (r: String)
    ensures
        r@ == str_or(*v, key@, default@),
{
    match v.get(key) {
        Some(x) => match x.as_str() {
            Some(s) => s.clone(),
            None => string_from_chars(&chars_of(default)),
        },
        None => string_from_chars(&chars_of(default)),
    }
}

/// The string under `key`, or the empty string.
fn string_or_empty(v: &TomlValue, key: &str) -> (r: String)
    ensures
        r@ == str_or(*v, key@, seq![]),
{
    match optional_string(v, key) {
        Some(s) => s,
        None => String::new(),
    }
}

/// The boolean under `key`, or false.
fn flag_of(v: &TomlValue, key: &str) -> (r: bool)
    ensures
        r == flag(*v, key@),
{
    match v.get(key) {
        Some(x) => match x.as_bool() {
            Some(b) => b,
            None => false,
        },
        None => false,
    }
}

/// The string under `key`, if there is one.
fn optional_string(v: &TomlValue, key: &str) -> (r: Option<String>)
    ensures
        match r {
            Some(s) => opt_str(v.spec_get(key@)) == Some(s@),
            None => opt_str(v.spec_get(key@)) is None,
        },
{
    match v.get(key) {
        Some(x) => match x.as_str() {
            Some(s) => Some(s.clone()),
            None => None,
        },
        None => None,
    }
}

/// The argument that an entry describes.
fn arg_of(item: &TomlValue) -> (r: Option<ArgSpec>)
    ensures
        match r {
            Some(a) => spec_arg(*item) == Some(a@),
            None => spec_arg(*item) is None,
        },
{
    let name = optional_string(item, "name")?;
    let arg_type = optional_string(item, "type")?;
    let description = string_or_empty(item, "description");
    let required = flag_of(item, "required");
    let default = optional_string(item, "default");
    let a = ArgSpec { name, arg_type, description, required, default };
    assert(a@ =~= spec_arg(*item)->Some_0);
    Some(a)
}

/// The error that an entry describes.
fn error_of(item: &TomlValue) -> (r: Option<ErrorSpec>)
    ensures
        match r {
            Some(e) => spec_error(*item) == Some(e@),
            None => spec_error(*item) is None,
        },
{
    let code = match item.get("code") {
        Some(x) => x.as_integer()?,
        None => return None,
    };
    let message = optional_string(item, "message")?;
    let e = ErrorSpec { code: code as i32, message };
    assert(spec_error(*item) == Some(e@));
    Some(e)
}

/// The arguments described by an array of entries.
fn args_of(items: &Vec<TomlValue>) -> (r: Vec<ArgSpec>)
    ensures
        r@.map_values(|a: ArgSpec| a@) == spec_args(items@),
{
    let mut out: Vec<ArgSpec> = Vec::new();
    let n = items.len();
    for i in 0..n
        invariant
            n == items@.len(),
            out@.map_values(|a: ArgSpec| a@) == spec_args(items@.take(i as int)),
    {
        let ghost before = out@;
        assert(items@.take(i + 1).drop_last() =~= items@.take(i as int));
        assert(items@.take(i + 1).last() == items@[i as int]);
        match arg_of(&items[i]) {
            Some(a) => {
                out.push(a);
                assert(out@.map_values(|a: ArgSpec| a@) =~= before.map_values(|a: ArgSpec| a@)
                    + seq![a@]);
            },
            None => {},
        }
    }
    assert(items@.take(n as int) =~= items@);
    out
}

/// The errors described by an array of entries.
fn errors_of(items: &Vec<TomlValue>) -> (r: Vec<ErrorSpec>)
    ensures
        r@.map_values(|e: ErrorSpec| e@) == spec_errors(items@),
{
    let mut out: Vec<ErrorSpec> = Vec::new();
    let n = items.len();
    for i in 0..n
        invariant
            n == items@.len(),
            out@.map_values(|e: ErrorSpec| e@) == spec_errors(items@.take(i as int)),
    {
        let ghost before = out@;
        assert(items@.take(i + 1).drop_last() =~= items@.take(i as int));
        assert(items@.take(i + 1).last() == items@[i as int]);
        match error_of(&items[i]) {
            Some(e) => {
                out.push(e);
                assert(out@.map_values(|e: ErrorSpec| e@) =~= before.map_values(
                    |e: ErrorSpec| e@,
                ) + seq![e@]);
            },
            None => {},
        }
    }
    assert(items@.take(n as int) =~= items@);
    out
}

/// A capability flag of a `[package.metadata.wasi-tool]` table.
fn capability_of(section: &TomlValue, key: &str) -> (r: bool)
    ensures
        r == capability(*section, key@),
{
    match section.get("capabilities") {
        Some(c) => flag_of(c, key),
        None => false,
    }
}

/// Parse metadata from the manifest of a tool's cargo frontmatter: its
/// `[package.metadata.wasi-tool]` table.
pub fn metadata_from_manifest(manifest: &TomlValue) -> (r: Result<ToolMetadata, MetadataError>)
    ensures
        match r {
            Ok(m) => spec_metadata(*manifest) == Ok::<ToolMetadataView, MetadataError>(m@),
            Err(e) => spec_metadata(*manifest) == Err::<ToolMetadataView, MetadataError>(e),
        },
        r matches Ok(m) ==> (m.capabilities.net ==> m.wasi_target == WasiTarget::Preview2),
{
    let md = match get_wasi_tool_section(manifest) {
        Some(md) => md,
        None => return Err(MetadataError::NoWasiToolSection),
    };
    let name = match optional_string(md, "name") {
        Some(n) => n,
        None => return Err(MetadataError::MissingName),
    };
    let version = string_or(md, "version", "0.0.0");
    let description = string_or_empty(md, "description");
    let capabilities = Capabilities {
        read: capability_of(md, "read"),
        write: capability_of(md, "write"),
        net: capability_of(md, "net"),
    };
    let args = match md.get("args") {
        Some(a) => match a.as_array() {
            Some(items) => args_of(items),
            None => Vec::new(),
        },
        None => Vec::new(),
    };
    let errors = match md.get("errors") {
        Some(e) => match e.as_array() {
            Some(items) => errors_of(items),
            None => Vec::new(),
        },
        None => Vec::new(),
    };
    let wasi_target = target_setting(manifest);
    if capabilities.net && wasi_target != WasiTarget::Preview2 {
        return Err(MetadataError::NetRequiresPreview2);
    }
    let m = ToolMetadata { name, version, description, args, errors, capabilities, wasi_target };
    proof {
        let expected = spec_metadata(*manifest)->Ok_0;
        assert(m@.args =~= expected.args);
        assert(m@.errors =~= expected.errors);
        assert(m@ =~= expected);
    }
    Ok(m)
}

/// Why a script yields no tool metadata.
#[derive(Debug, Clone, Copy, PartialEq, Eq, Structural)]
pub enum ExtractError {
    /// The script has no cargo frontmatter.
    Frontmatter(FrontmatterError),
    /// The manifest is not a TOML document.
    Toml,
    /// The manifest describes no tool.
    Metadata(MetadataError),
}

/// The metadata that the frontmatter of a script describes: the manifest
/// between its markers, parsed as TOML, read as `spec_metadata` reads it.
pub open spec fn spec_extract_from_frontmatter(source: Seq<char>) -> Result<
    ToolMetadataView,
    ExtractError,
> {
    match spec_split_frontmatter(source) {
        Err(e) => Err(ExtractError::Frontmatter(e)),
        Ok((manifest, _code)) => match toml_parse(manifest) {
            None => Err(ExtractError::Toml),
            Some(v) => match spec_metadata(v) {
                Ok(m) => Ok(m),
                Err(e) => Err(ExtractError::Metadata(e)),
            },
        },
    }
}

/// Parse metadata from the cargo frontmatter of a script.
pub fn extract_from_frontmatter(source: &str) -> (r: Result<ToolMetadata, ExtractError>)
    ensures
        match r {
            Ok(m) => spec_extract_from_frontmatter(source@) == Ok::<ToolMetadataView, ExtractError>(m@),
            Err(e) => spec_extract_from_frontmatter(source@) == Err::<ToolMetadataView, ExtractError>(e),
        },
        r matches Ok(m) ==> (m.capabilities.net ==> m.wasi_target == WasiTarget::Preview2),
{
    let fm = match split_frontmatter(source) {
        Ok(f) => f,
        Err(e) => return Err(ExtractError::Frontmatter(e)),
    };
    let manifest = match parse_toml(fm.manifest.as_str()) {
        Some(v) => v,
        None => return Err(ExtractError::Toml),
    };
    match metadata_from_manifest(&manifest) {
        Ok(m) => Ok(m),
        Err(e) => Err(ExtractError::Metadata(e)),
    }
}

/// Text before the frontmatter of a script and text after its closing
/// `---` line change neither its manifest nor the metadata it describes:
/// when `s` holds a frontmatter and ends with a line break, and `p` is empty
/// or ends with a line break and has no line that trims to `---cargo`, the
/// script `p + s + t` has the manifest of `s` and describes what `s`
/// describes.
pub proof fn lemma_extract_ignores_surrounding_text(p: Seq<char>, s: Seq<char>, t: Seq<char>)
    requires
        spec_split_frontmatter(s) is Ok,
        s.len() > 0 && s.last() == '\n',
        p.len() == 0 || p.last() == '\n',
        forall|i: int| 0 <= i < lines(p).len() ==> trim(#[trigger] lines(p)[i]) != "---cargo"@,
    ensures
        spec_split_frontmatter(p + s + t) is Ok,
        spec_split_frontmatter(p + s + t)->Ok_0.0 == spec_split_frontmatter(s)->Ok_0.0,
        spec_extract_from_frontmatter(p + s + t) == spec_extract_from_frontmatter(s),
{
    let pl = lines(p);
    let sl = lines(s);
    let tl = lines(t);
    lemma_lines_append(p, s);
    assert((p + s).last() == s.last());
    lemma_lines_append(p + s, t);
    let all = lines(p + s + t);
    let st = sl + tl;
    assert(all =~= pl + st);
    let open_m = "---cargo"@;
    let close_m = "---"@;
    let start = first_marker(sl, 0, open_m)->Some_0;
    let end = first_marker(sl, start + 1, close_m)->Some_0;
    lemma_first_marker_range(sl, 0, open_m);
    lemma_first_marker_range(sl, start + 1, close_m);
    assert forall|i: int| 0 <= i < pl.len() implies trim(#[trigger] all[i]) != open_m by {
        assert(all[i] == pl[i]);
    }
    lemma_first_marker_skip(all, 0, pl.len() as int, open_m);
    lemma_first_marker_shift(pl, st, 0, open_m);
    lemma_first_marker_extend(sl, tl, 0, open_m);
    assert(first_marker(all, 0, open_m) == Some(start + pl.len()));
    lemma_first_marker_shift(pl, st, start + 1, close_m);
    lemma_first_marker_extend(sl, tl, start + 1, close_m);
    assert(first_marker(all, start + pl.len() + 1, close_m) == Some(end + pl.len()));
    assert(all.subrange(start + pl.len() + 1, end + pl.len()) =~= sl.subrange(start + 1, end));
}

} // verus!

verus! {

/// Whether a file name has the extension `rs`, as `Path::extension` reads
/// it: the part after the last `.`, when something comes before that `.`.
pub open spec fn has_rs_extension(name: Seq<char>) -> bool {
    name.len() >= 4 && name.subrange(name.len() - 3, name.len() as int) == seq!['.', 'r', 's']
}

/// The names with extension `rs` are exactly a non-empty stem followed by
/// `.rs`, whatever the stem's length; `.rs` alone (a hidden file with no
/// extension) has none.
pub proof fn lemma_rs_extension(stem: Seq<char>, name: Seq<char>)
    ensures
        stem.len() >= 1 ==> has_rs_extension(stem + ".rs"@),
        has_rs_extension(name) ==> name.len() >= 4 && name == name.subrange(0, name.len() - 3)
            + ".rs"@,
        !has_rs_extension(".rs"@),
{
    reveal_strlit(".rs");
    let n = stem + ".rs"@;
    assert(n.subrange(n.len() - 3, n.len() as int) =~= seq!['.', 'r', 's']);
    if has_rs_extension(name) {
        assert(name =~= name.subrange(0, name.len() - 3) + ".rs"@);
    }
}

/// Executable `has_rs_extension`.
pub fn is_rs_file_name(name: &[char]) -> (r: bool)
    ensures
        r == has_rs_extension(name@),
{
    let n = name.len();
    if n < 4 {
        return false;
    }
    let r = name[n - 3] == '.' && name[n - 2] == 'r' && name[n - 1] == 's';
    assert(r == (name@.subrange(n - 3, n as int) =~= seq!['.', 'r', 's']));
    r
}

/// Lexicographic order of character sequences by code point, which is the
/// byte order of their UTF-8 encodings.
pub open spec fn lex_le(a: Seq<char>, b: Seq<char>) -> bool
    decreases a.len(),
{
    if a.len() == 0 {
        true
    } else if b.len() == 0 {
        false
    } else if (a[0] as u32) != (b[0] as u32) {
        (a[0] as u32) < (b[0] as u32)
    } else {
        lex_le(a.drop_first(), b.drop_first())
    }
}

/// `lex_le` is total.
pub proof fn lemma_lex_total(a: Seq<char>, b: Seq<char>)
    ensures
        lex_le(a, b) || lex_le(b, a),
    decreases a.len(),
{
    if a.len() > 0 && b.len() > 0 && (a[0] as u32) == (b[0] as u32) {
        lemma_lex_total(a.drop_first(), b.drop_first());
    }
}

/// `lex_le` is transitive.
pub proof fn lemma_lex_transitive(a: Seq<char>, b: Seq<char>, c: Seq<char>)
    requires
        lex_le(a, b),
        lex_le(b, c),
    ensures
        lex_le(a, c),
    decreases a.len(),
{
    if a.len() > 0 && b.len() > 0 && c.len() > 0 && (a[0] as u32) == (b[0] as u32) && (b[0] as u32)
        == (c[0] as u32) {
        lemma_lex_transitive(a.drop_first(), b.drop_first(), c.drop_first());
    }
}

/// Executable `lex_le`.
fn lex_le_exec(a: &Vec<char>, b: &Vec<char>) -> (r: bool)
    ensures
        r == lex_le(a@, b@),
{
    let mut i: usize = 0;
    assert(a@.skip(0) =~= a@ && b@.skip(0) =~= b@);
    while i < a.len() && i < b.len() && (a[i] as u32) == (b[i] as u32)
        invariant
            i <= a@.len(),
            i <= b@.len(),
            lex_le(a@, b@) == lex_le(a@.skip(i as int), b@.skip(i as int)),
        decreases a@.len() - i,
    {
        assert(a@.skip(i as int).drop_first() =~= a@.skip(i + 1));
        assert(b@.skip(i as int).drop_first() =~= b@.skip(i + 1));
        i = i + 1;
    }
    if i == a.len() {
        true
    } else if i == b.len() {
        false
    } else {
        (a[i] as u32) < (b[i] as u32)
    }
}

/// Whether a directory entry is a tool: a file whose name has extension `rs`.
pub open spec fn is_tool_file(name: Seq<char>, is_file: bool) -> bool {
    is_file && has_rs_extension(name)
}

/// The indices of the first `n` entries that are tools, in order.
pub open spec fn tool_indices(names: Seq<Seq<char>>, is_file: Seq<bool>, n: int) -> Seq<int>
    decreases n,
{
    if n <= 0 {
        seq![]
    } else if is_tool_file(names[n - 1], is_file[n - 1]) {
        tool_indices(names, is_file, n - 1).push(n - 1)
    } else {
        tool_indices(names, is_file, n - 1)
    }
}

/// The views of a sequence of strings.
pub open spec fn string_views(v: Seq<String>) -> Seq<Seq<char>> {
    v.map_values(|s: String| s@)
}

/// A sequence of indices as integers.
pub open spec fn index_ints(v: Seq<usize>) -> Seq<int> {
    v.map_values(|i: usize| i as int)
}

/// Whether the entries at `order` come in `lex_le` order of their names.
pub open spec fn sorted_by_name(keys: Seq<Seq<char>>, order: Seq<usize>) -> bool {
    forall|a: int, b: int|
        0 <= a < b < order.len() ==> lex_le(keys[#[trigger] order[a] as int], keys[#[trigger] order[b] as int])
}

/// The position in `idx` of an entry whose key is least.
fn index_of_least(keys: &Vec<Vec<char>>, idx: &Vec<usize>) -> (r: usize)
    requires
        idx@.len() > 0,
        forall|k: int| 0 <= k < idx@.len() ==> #[trigger] idx@[k] < keys@.len(),
    ensures
        r < idx@.len(),
        forall|k: int|
            0 <= k < idx@.len() ==> lex_le(
                keys@[idx@[r as int] as int]@,
                #[trigger] keys@[idx@[k] as int]@,
            ),
{
    let mut best: usize = 0;
    let n = idx.len();
    proof {
        lemma_lex_total(keys@[idx@[0] as int]@, keys@[idx@[0] as int]@);
    }
    for i in 1..n
        invariant
            n == idx@.len(),
            best < n,
            forall|k: int| 0 <= k < idx@.len() ==> #[trigger] idx@[k] < keys@.len(),
            forall|k: int|
                0 <= k < i ==> lex_le(
                    keys@[idx@[best as int] as int]@,
                    #[trigger] keys@[idx@[k] as int]@,
                ),
    {
        let ghost kb = keys@[idx@[best as int] as int]@;
        let ghost ki = keys@[idx@[i as int] as int]@;
        if !lex_le_exec(&keys[idx[best]], &keys[idx[i]]) {
            proof {
                lemma_lex_total(kb, ki);
                assert forall|k: int| 0 <= k < i + 1 implies lex_le(
                    ki,
                    #[trigger] keys@[idx@[k] as int]@,
                ) by {
                    if k < i {
                        lemma_lex_transitive(ki, kb, keys@[idx@[k] as int]@);
                    } else {
                        lemma_lex_total(ki, ki);
                    }
                }
            }
            best = i;
        }
    }
    best
}

/// The tool files among a directory's entries, given by their names and
/// whether each is a file: the indices of the files with extension `rs`,
/// ordered by name (the selection and order of `list_tools`).
pub fn select_tool_files(names: &Vec<String>, is_file: &Vec<bool>) -> (r: Vec<usize>)
    requires
        is_file@.len() == names@.len(),
    ensures
        forall|k: int| 0 <= k < r@.len() ==> #[trigger] r@[k] < names@.len(),
        sorted_by_name(string_views(names@), r@),
        index_ints(r@).to_multiset() == tool_indices(
            string_views(names@),
            is_file@,
            names@.len() as int,
        ).to_multiset(),
{
    broadcast use vstd::seq_lib::group_to_multiset_ensures;

    let n = names.len();
    let mut keys: Vec<Vec<char>> = Vec::new();
    let mut rest: Vec<usize> = Vec::new();
    for i in 0..n
        invariant
            n == names@.len(),
            n == is_file@.len(),
            keys@.len() == i,
            forall|k: int| 0 <= k < i ==> (#[trigger] keys@[k])@ == names@[k]@,
            forall|k: int| 0 <= k < rest@.len() ==> #[trigger] rest@[k] < i,
            index_ints(rest@) == tool_indices(string_views(names@), is_file@, i as int),
    {
        let c = chars_of(names[i].as_str());
        let ghost before = rest@;
        if is_file[i] && is_rs_file_name(&c) {
            rest.push(i);
            assert(index_ints(rest@) =~= index_ints(before).push(i as int));
        }
        keys.push(c);
    }
    let ghost all = index_ints(rest@);
    assert(string_views(names@).len() == n);
    let mut sorted: Vec<usize> = Vec::new();
    while rest.len() > 0
        invariant
            keys@.len() == n,
            n == names@.len(),
            forall|k: int| 0 <= k < n ==> (#[trigger] keys@[k])@ == names@[k]@,
            forall|k: int| 0 <= k < rest@.len() ==> #[trigger] rest@[k] < n,
            forall|k: int| 0 <= k < sorted@.len() ==> #[trigger] sorted@[k] < n,
            sorted_by_name(crate::text::views(keys@), sorted@),
            forall|a: int, b: int|
                0 <= a < sorted@.len() && 0 <= b < rest@.len() ==> lex_le(
                    keys@[#[trigger] sorted@[a] as int]@,
                    keys@[#[trigger] rest@[b] as int]@,
                ),
            index_ints(sorted@).to_multiset().add(index_ints(rest@).to_multiset())
                == all.to_multiset(),
        decreases rest@.len(),
    {
        let k = index_of_least(&keys, &rest);
        let ghost old_rest = rest@;
        let ghost old_sorted = sorted@;
        let m = rest.remove(k);
        sorted.push(m);
        proof {
            assert(index_ints(rest@) =~= index_ints(old_rest).remove(k as int));
            assert(index_ints(sorted@) =~= index_ints(old_sorted).push(m as int));
            assert forall|a: int, b: int|
                0 <= a < sorted@.len() && 0 <= b < rest@.len() implies lex_le(
                    keys@[#[trigger] sorted@[a] as int]@,
                    keys@[#[trigger] rest@[b] as int]@,
                ) by {
                let b0 = if b < k { b } else { b + 1 };
                assert(rest@[b] == old_rest[b0]);
                if a < old_sorted.len() {
                    assert(sorted@[a] == old_sorted[a]);
                } else {
                    assert(sorted@[a] == m);
                }
            }
            assert forall|i: int, j: int| 0 <= i < j < sorted@.len() implies lex_le(
                crate::text::views(keys@)[#[trigger] sorted@[i] as int],
                crate::text::views(keys@)[#[trigger] sorted@[j] as int],
            ) by {
                assert(sorted@[i] == old_sorted[i]);
                if j == old_sorted.len() {
                    assert(old_rest[k as int] == m);
                    assert(sorted@[j] == m);
                } else {
                    assert(sorted@[j] == old_sorted[j]);
                }
            }
            let vs = index_ints(old_sorted);
            let vr = index_ints(old_rest);
            assert(vr[k as int] == m as int);
            vs.to_multiset_ensures();
            vr.to_multiset_ensures();
            assert(vs.push(m as int).to_multiset() =~= vs.to_multiset().insert(m as int));
            assert(vr.remove(k as int).to_multiset() =~= vr.to_multiset().remove(m as int));
            assert(vs.to_multiset().insert(m as int).add(vr.to_multiset().remove(m as int))
                =~= vs.to_multiset().add(vr.to_multiset()));
        }
    }
    proof {
        assert(index_ints(rest@) =~= Seq::<int>::empty());
        assert(index_ints(sorted@).to_multiset() =~= all.to_multiset());
        assert(crate::text::views(keys@) =~= string_views(names@));
    }
    sorted
}

} // verus!

verus! {

/// A tool that failed to describe itself.
#[derive(Debug)]
pub struct DescribeFailure {
    pub exit_code: i32,
    pub stderr: String,
}

/// The arguments and capabilities of the run that asks a compiled tool for
/// its metadata: the single argument `--describe`, no directories, no
/// network.
pub fn describe_invocation() -> (r: (Vec<String>, crate::executor::Capabilities))
    ensures
        crate::executor::str_views(r.0@) == seq!["--describe"@],
        r.1.read_dirs@.len() == 0,
        r.1.write_dirs@.len() == 0,
        !r.1.allow_net,
{
    let mut args: Vec<String> = Vec::new();
    args.push(string_from_chars(&chars_of("--describe")));
    assert(crate::executor::str_views(args@) =~= seq!["--describe"@]);
    let caps = crate::executor::Capabilities {
        read_dirs: Vec::new(),
        write_dirs: Vec::new(),
        allow_net: false,
    };
    (args, caps)
}

/// The metadata JSON that a `--describe` run printed, or the failure of a
/// run that exited with a nonzero code.
pub fn describe_output(result: &crate::executor::ExecutionResult) -> (r: Result<
    String,
    DescribeFailure,
>)
    ensures
        r is Ok <==> result.exit_code == 0,
        r matches Ok(s) ==> s@ == result.stdout@,
        r matches Err(f) ==> f.exit_code == result.exit_code && f.stderr@ == result.stderr@,
{
    if result.exit_code != 0 {
        Err(DescribeFailure { exit_code: result.exit_code, stderr: result.stderr.clone() })
    } else {
        Ok(result.stdout.clone())
    }
}

} // verus!
