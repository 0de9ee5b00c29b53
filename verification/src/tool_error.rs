//! Types shared by tools and the runner: base errors with their exit codes,
//! the WASI target, and the metadata a tool describes itself with.
use vstd::prelude::*;
use crate::codes;

verus! {

/// Base errors that all tools can use or extend.
#[derive(Debug)]
pub enum BaseError {
    InvalidArgs(String),
    FileNotFound(String),
    PermissionDenied(String),
    NetworkError(String),
    ParseError(String),
    Timeout(u64),
    Internal(String),
}

impl BaseError {
    /// The exit code of each kind of base error.
    pub open spec fn spec_code(&self) -> i32 {
        match self {
            BaseError::InvalidArgs(_) => codes::INVALID_ARGS,
            BaseError::FileNotFound(_) => codes::FILE_NOT_FOUND,
            BaseError::PermissionDenied(_) => codes::PERMISSION_DENIED,
            BaseError::NetworkError(_) => codes::NETWORK_ERROR,
            BaseError::ParseError(_) => codes::PARSE_ERROR,
            BaseError::Timeout(_) => codes::TIMEOUT,
            BaseError::Internal(_) => codes::INTERNAL_ERROR,
        }
    }

    /// The exit code that a tool reports for this error.
    #[must_use]
    pub fn code(&self) -> (r: i32)
        ensures
            r == self.spec_code(),
    {
        match self {
            BaseError::InvalidArgs(_) => codes::INVALID_ARGS,
            BaseError::FileNotFound(_) => codes::FILE_NOT_FOUND,
            BaseError::PermissionDenied(_) => codes::PERMISSION_DENIED,
            BaseError::NetworkError(_) => codes::NETWORK_ERROR,
            BaseError::ParseError(_) => codes::PARSE_ERROR,
            BaseError::Timeout(_) => codes::TIMEOUT,
            BaseError::Internal(_) => codes::INTERNAL_ERROR,
        }
    }
}

/// Every base error exits with a code in the range reserved for common
/// errors: neither success nor a tool-specific code.
pub proof fn lemma_base_codes_reserved(e: BaseError)
    ensures
        codes::SUCCESS < e.spec_code() < codes::TOOL_SPECIFIC_START,
{
}

/// Two base errors share an exit code only when they are of the same kind.
pub proof fn lemma_base_codes_distinct(a: BaseError, b: BaseError)
    requires
        a.spec_code() == b.spec_code(),
    ensures
        (a is InvalidArgs) == (b is InvalidArgs),
        (a is FileNotFound) == (b is FileNotFound),
        (a is PermissionDenied) == (b is PermissionDenied),
        (a is NetworkError) == (b is NetworkError),
        (a is ParseError) == (b is ParseError),
        (a is Timeout) == (b is Timeout),
        (a is Internal) == (b is Internal),
{
}

/// WASI target for compilation and execution.
#[derive(Debug, Clone, Copy, PartialEq, Eq, Structural)]
pub enum WasiTarget {
    /// WASI preview1: simpler, full exit code support, no networking.
    Preview1,
    /// WASI preview2: networking support via wasi-http, exit codes limited to 0/1.
    Preview2,
}

impl Default for WasiTarget {
    fn default() -> (r: Self)
        ensures
            r == WasiTarget::Preview1,
    {
        WasiTarget::Preview1
    }
}

/// What a tool may access.
#[derive(Debug, Clone, Copy, PartialEq, Eq, Structural)]
pub struct Capabilities {
    pub read: bool,
    pub write: bool,
    pub net: bool,
}

impl Default for Capabilities {
    fn default() -> (r: Self)
        ensures
            r == (Capabilities { read: false, write: false, net: false }),
    {
        Capabilities { read: false, write: false, net: false }
    }
}

/// One argument that a tool accepts.
#[derive(Debug, Clone)]
pub struct ArgSpec {
    pub name: String,
    /// "string", "number", "boolean" or "array".
    pub arg_type: String,
    pub description: String,
    pub required: bool,
    pub default: Option<String>,
}

/// One tool-specific error.
#[derive(Debug, Clone)]
pub struct ErrorSpec {
    pub code: i32,
    pub message: String,
}

/// Tool metadata, as a tool prints it for `--describe`.
#[derive(Debug, Clone)]
pub struct ToolMetadata {
    pub name: String,
    pub version: String,
    pub description: String,
    pub args: Vec<ArgSpec>,
    pub errors: Vec<ErrorSpec>,
    pub capabilities: Capabilities,
    /// Required to be preview2 if the net capability is set.
    pub wasi_target: WasiTarget,
}

/// The value of an `ArgSpec`.
#[verifier::ext_equal]
pub struct ArgView {
    pub name: Seq<char>,
    pub arg_type: Seq<char>,
    pub description: Seq<char>,
    pub required: bool,
    pub default: Option<Seq<char>>,
}

/// The value of an `ErrorSpec`.
#[verifier::ext_equal]
pub struct ErrorView {
    pub code: i32,
    pub message: Seq<char>,
}

/// The value of a `ToolMetadata`.
#[verifier::ext_equal]
pub struct ToolMetadataView {
    pub name: Seq<char>,
    pub version: Seq<char>,
    pub description: Seq<char>,
    pub args: Seq<ArgView>,
    pub errors: Seq<ErrorView>,
    pub capabilities: Capabilities,
    pub wasi_target: WasiTarget,
}

impl View for ArgSpec {
    type V = ArgView;

    open spec fn view(&self) -> ArgView {
        ArgView {
            name: self.name@,
            arg_type: self.arg_type@,
            description: self.description@,
            required: self.required,
            default: match self.default {
                Some(d) => Some(d@),
                None => None,
            },
        }
    }
}

impl View for ErrorSpec {
    type V = ErrorView;

    open spec fn view(&self) -> ErrorView {
        ErrorView { code: self.code, message: self.message@ }
    }
}

impl View for ToolMetadata {
    type V = ToolMetadataView;

    open spec fn view(&self) -> ToolMetadataView {
        ToolMetadataView {
            name: self.name@,
            version: self.version@,
            description: self.description@,
            args: self.args@.map_values(|a: ArgSpec| a@),
            errors: self.errors@.map_values(|e: ErrorSpec| e@),
            capabilities: self.capabilities,
            wasi_target: self.wasi_target,
        }
    }
}

} // verus!
