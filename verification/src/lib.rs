//! Verified core of a runner for sandboxed WASI tools written as cargo
//! scripts: the content-addressed cache of compiled tools, the frontmatter
//! and manifest of a tool script, tool metadata, the sandbox a tool runs in,
//! and the decisions of the bundled tools.
use vstd::prelude::*;

pub mod cache;
pub mod codes;
pub mod compiler;
pub mod executor;
pub mod frontmatter;
pub mod metadata;
pub mod text;
pub mod tool_error;
pub mod tools;
pub mod toml_model;
pub mod urlencode;

verus! {

} // verus!
