//! What the sandbox of a tool run looks like: its arguments, the
//! directories it may open and how, network access, and how the outcome of
//! the run becomes an exit code.
use vstd::prelude::*;
use crate::text::{chars_of, string_from_chars};
use crate::tool_error::WasiTarget;

verus! {

/// The directories and network access granted to a run.
pub struct Capabilities {
    /// Directories the tool may read.
    pub read_dirs: Vec<String>,
    /// Directories the tool may read and write.
    pub write_dirs: Vec<String>,
    pub allow_net: bool,
}

/// What a run produced.
pub struct ExecutionResult {
    pub exit_code: i32,
    pub stdout: String,
    pub stderr: String,
}

/// How a preopened directory may be used.
#[derive(Debug, Clone, Copy, PartialEq, Eq, Structural)]
pub enum DirAccess {
    /// Directory and file permissions: read only.
    ReadOnly,
    /// All directory and file permissions.
    ReadWrite,
}

/// A granted host directory made visible to the tool.
pub struct Preopen {
    /// The directory's position in the list it was granted by:
    /// `read_dirs` for read-only access, `write_dirs` for read-write.
    pub dir_index: usize,
    /// The path under which the tool sees it.
    pub guest_path: String,
    pub access: DirAccess,
}

/// The value of a `Preopen`.
pub struct PreopenView {
    pub dir_index: int,
    pub guest_path: Seq<char>,
    pub access: DirAccess,
}

impl View for Preopen {
    type V = PreopenView;

    open spec fn view(&self) -> PreopenView {
        PreopenView {
            dir_index: self.dir_index as int,
            guest_path: self.guest_path@,
            access: self.access,
        }
    }
}

/// The configuration of a tool's WASI context.
pub struct SandboxConfig {
    /// Program name followed by the tool's arguments.
    pub argv: Vec<String>,
    pub preopens: Vec<Preopen>,
    /// Whether the host network is inherited.
    pub inherit_network: bool,
    /// Whether IP name lookup is allowed.
    pub allow_ip_name_lookup: bool,
    /// Whether the `wasi:http` interfaces, which send requests to the
    /// network, are linked.
    pub link_http: bool,
    /// The environment variables the tool sees, as name and value; none of
    /// the host's are passed on.
    pub env: Vec<(String, String)>,
}

/// The views of a sequence of strings.
pub open spec fn str_views(v: Seq<String>) -> Seq<Seq<char>> {
    v.map_values(|s: String| s@)
}

/// The views of a sequence of preopens.
pub open spec fn preopen_views(v: Seq<Preopen>) -> Seq<PreopenView> {
    v.map_values(|p: Preopen| p@)
}

/// Each directory that exists, in order, preopened under its own path with
/// the given access, by its index in the list.
pub open spec fn spec_preopens(dirs: Seq<Seq<char>>, present: Seq<bool>, access: DirAccess) -> Seq<
    PreopenView,
>
    decreases dirs.len(),
{
    if dirs.len() == 0 {
        seq![]
    } else {
        let rest = spec_preopens(dirs.drop_last(), present.drop_last(), access);
        if present[dirs.len() - 1] {
            rest.push(
                PreopenView { dir_index: dirs.len() - 1, guest_path: dirs.last(), access: access },
            )
        } else {
            rest
        }
    }
}

/// The sandbox of a run: the program name (the WASM path) then the
/// arguments; each existing read directory read-only, then each existing
/// write directory with all permissions; network (inherited, with name
/// lookup and `wasi:http`) only for a preview2 component granted network
/// access; no environment variables.
pub open spec fn spec_sandbox_argv(wasm_path: Seq<char>, args: Seq<String>) -> Seq<Seq<char>> {
    seq![wasm_path] + str_views(args)
}

/// The preopens of a run.
pub open spec fn spec_sandbox_preopens(
    caps: Capabilities,
    read_present: Seq<bool>,
    write_present: Seq<bool>,
) -> Seq<PreopenView> {
    spec_preopens(str_views(caps.read_dirs@), read_present, DirAccess::ReadOnly) + spec_preopens(
        str_views(caps.write_dirs@),
        write_present,
        DirAccess::ReadWrite,
    )
}

/// Whether a run gets network access.
pub open spec fn spec_sandbox_network(caps: Capabilities, target: WasiTarget) -> bool {
    caps.allow_net && target == WasiTarget::Preview2
}

/// Preopens for the existing ones of `dirs`.
fn preopens_for(
    dirs: &Vec<String>,
    present: &Vec<bool>,
    access: DirAccess,
    out: &mut Vec<Preopen>,
)
    requires
        present@.len() == dirs@.len(),
    ensures
        preopen_views(final(out)@) == preopen_views(old(out)@) + spec_preopens(
            str_views(dirs@),
            present@,
            access,
        ),
{
    let n = dirs.len();
    let ghost start = preopen_views(out@);
    for i in 0..n
        invariant
            n == dirs@.len(),
            present@.len() == n,
            preopen_views(out@) == start + spec_preopens(
                str_views(dirs@).take(i as int),
                present@.take(i as int),
                access,
            ),
    {
        let ghost before = preopen_views(out@);
        let ghost d = str_views(dirs@).take(i + 1);
        assert(d.drop_last() =~= str_views(dirs@).take(i as int));
        assert(present@.take(i + 1).drop_last() =~= present@.take(i as int));
        assert(present@.take(i + 1)[i as int] == present@[i as int]);
        if present[i] {
            let p = Preopen { dir_index: i, guest_path: dirs[i].clone(), access: access };
            out.push(p);
            assert(preopen_views(out@) =~= before.push(p@));
        }
    }
    assert(str_views(dirs@).take(n as int) =~= str_views(dirs@));
    assert(present@.take(n as int) =~= present@);
}

/// The WASI context configuration of a run: `read_present[i]` and
/// `write_present[i]` tell whether the granted directory exists on the host.
/// The tool gets no environment variables, so none of the host's reach it.
pub fn sandbox_config(
    wasm_path: &str,
    args: &Vec<String>,
    caps: &Capabilities,
    read_present: &Vec<bool>,
    write_present: &Vec<bool>,
    target: WasiTarget,
) -> (r: SandboxConfig)
    requires
        read_present@.len() == caps.read_dirs@.len(),
        write_present@.len() == caps.write_dirs@.len(),
    ensures
        str_views(r.argv@) == spec_sandbox_argv(wasm_path@, args@),
        r.argv@.len() == args@.len() + 1,
        r.argv@[0]@ == wasm_path@,
        forall|i: int| 0 <= i < args@.len() ==> (#[trigger] r.argv@[i + 1])@ == args@[i]@,
        preopen_views(r.preopens@) == spec_sandbox_preopens(*caps, read_present@, write_present@),
        r.inherit_network == spec_sandbox_network(*caps, target),
        r.allow_ip_name_lookup == spec_sandbox_network(*caps, target),
        r.link_http == spec_sandbox_network(*caps, target),
        r.env@.len() == 0,
{
    let mut argv: Vec<String> = Vec::new();
    argv.push(string_from_chars(&chars_of(wasm_path)));
    let n = args.len();
    for i in 0..n
        invariant
            n == args@.len(),
            str_views(argv@) == seq![wasm_path@] + str_views(args@).take(i as int),
    {
        let ghost before = argv@;
        argv.push(args[i].clone());
        assert(str_views(argv@) =~= str_views(before).push(args@[i as int]@));
        assert(str_views(args@).take(i + 1) =~= str_views(args@).take(i as int).push(
            args@[i as int]@,
        ));
    }
    assert(str_views(args@).take(n as int) =~= str_views(args@));
    assert(argv@.len() == str_views(argv@).len());
    assert(argv@[0]@ == str_views(argv@)[0]);
    assert forall|i: int| 0 <= i < args@.len() implies (#[trigger] argv@[i + 1])@ == args@[i]@ by {
        assert(argv@[i + 1]@ == str_views(argv@)[i + 1]);
        assert(str_views(args@)[i] == args@[i]@);
    }
    let mut preopens: Vec<Preopen> = Vec::new();
    assert(preopen_views(preopens@) =~= Seq::<PreopenView>::empty());
    preopens_for(&caps.read_dirs, read_present, DirAccess::ReadOnly, &mut preopens);
    preopens_for(&caps.write_dirs, write_present, DirAccess::ReadWrite, &mut preopens);
    let net = caps.allow_net && target == WasiTarget::Preview2;
    SandboxConfig {
        argv,
        preopens,
        inherit_network: net,
        allow_ip_name_lookup: net,
        link_http: net,
        env: Vec::new(),
    }
}

/// Each preopen of `spec_preopens` is a directory of the list that exists,
/// seen under its own path, with the list's access.
pub proof fn lemma_preopens_granted(
    dirs: Seq<Seq<char>>,
    present: Seq<bool>,
    access: DirAccess,
    k: int,
)
    requires
        present.len() == dirs.len(),
        0 <= k < spec_preopens(dirs, present, access).len(),
    ensures
        0 <= spec_preopens(dirs, present, access)[k].dir_index < dirs.len(),
        present[spec_preopens(dirs, present, access)[k].dir_index],
        spec_preopens(dirs, present, access)[k].guest_path == dirs[spec_preopens(
            dirs,
            present,
            access,
        )[k].dir_index],
        spec_preopens(dirs, present, access)[k].access == access,
    decreases dirs.len(),
{
    let rest = spec_preopens(dirs.drop_last(), present.drop_last(), access);
    if k < rest.len() {
        lemma_preopens_granted(dirs.drop_last(), present.drop_last(), access, k);
    }
}

/// A tool can open only what it was granted, as it was granted: each
/// preopen is an existing directory of `read_dirs` (read-only) or of
/// `write_dirs` (read-write), seen under its own path; and the network
/// (sockets, name lookup and `wasi:http`) is reached only by a preview2
/// component granted it.
pub proof fn lemma_sandbox_confinement(
    caps: Capabilities,
    read_present: Seq<bool>,
    write_present: Seq<bool>,
    target: WasiTarget,
    k: int,
)
    requires
        read_present.len() == caps.read_dirs@.len(),
        write_present.len() == caps.write_dirs@.len(),
        0 <= k < spec_sandbox_preopens(caps, read_present, write_present).len(),
    ensures
        ({
            let p = spec_sandbox_preopens(caps, read_present, write_present)[k];
            match p.access {
                DirAccess::ReadOnly => 0 <= p.dir_index < caps.read_dirs@.len()
                    && read_present[p.dir_index] && p.guest_path
                    == caps.read_dirs@[p.dir_index]@,
                DirAccess::ReadWrite => 0 <= p.dir_index < caps.write_dirs@.len()
                    && write_present[p.dir_index] && p.guest_path
                    == caps.write_dirs@[p.dir_index]@,
            }
        }),
        spec_sandbox_network(caps, target) <==> caps.allow_net && target == WasiTarget::Preview2,
{
    let r = spec_preopens(str_views(caps.read_dirs@), read_present, DirAccess::ReadOnly);
    let w = spec_preopens(str_views(caps.write_dirs@), write_present, DirAccess::ReadWrite);
    let all = spec_sandbox_preopens(caps, read_present, write_present);
    if k < r.len() {
        lemma_preopens_granted(str_views(caps.read_dirs@), read_present, DirAccess::ReadOnly, k);
        assert(all[k] == r[k]);
    } else {
        lemma_preopens_granted(
            str_views(caps.write_dirs@),
            write_present,
            DirAccess::ReadWrite,
            k - r.len(),
        );
        assert(all[k] == w[k - r.len()]);
    }
}

/// How running a preview1 module's `_start` ended.
#[derive(Debug, Clone, Copy, PartialEq, Eq, Structural)]
pub enum ModuleOutcome {
    /// `_start` returned.
    Returned,
    /// The module called `proc_exit` with this code.
    Exited(i32),
    /// Any other trap.
    Trapped,
}

/// The exit code of a preview1 run: 0 when `_start` returns, the code the
/// module exited with, 1 on any other trap.
pub fn preview1_exit_code(outcome: ModuleOutcome) -> (r: i32)
    ensures
        r == match outcome {
            ModuleOutcome::Returned => 0,
            ModuleOutcome::Exited(code) => code,
            ModuleOutcome::Trapped => 1,
        },
{
    match outcome {
        ModuleOutcome::Returned => 0,
        ModuleOutcome::Exited(code) => code,
        ModuleOutcome::Trapped => 1,
    }
}

/// How a preview2 component's `wasi:cli/run` ended.
#[derive(Debug, Clone, Copy, PartialEq, Eq, Structural)]
pub enum ComponentOutcome {
    /// `run` returned `Ok`.
    Succeeded,
    /// `run` returned `Err`.
    Failed,
    /// The call trapped.
    Trapped,
}

/// The exit code of a preview2 run: 0 on success, 1 otherwise (the
/// `wasi:cli/run` interface carries no other code).
pub fn preview2_exit_code(outcome: ComponentOutcome) -> (r: i32)
    ensures
        r == (if outcome == ComponentOutcome::Succeeded {
            0i32
        } else {
            1i32
        }),
        r == 0 || r == 1,
{
    match outcome {
        ComponentOutcome::Succeeded => 0,
        ComponentOutcome::Failed => 1,
        ComponentOutcome::Trapped => 1,
    }
}

} // verus!
