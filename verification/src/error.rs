//! The compiler's errors.
use crate::ast::Span;
use vstd::prelude::*;

verus! {

/// A place in a source file.
#[derive(Clone, Debug, PartialEq, Eq)]
pub struct ErrorContext {
    pub file: String,
    pub source: String,
    pub span: Span,
}

/// The contents of a place in a source file.
pub struct ContextV {
    pub file: Seq<char>,
    pub source: Seq<char>,
    pub span: Span,
}

impl View for ErrorContext {
    type V = ContextV;

    open spec fn view(&self) -> ContextV {
        ContextV { file: self.file@, source: self.source@, span: self.span }
    }
}

/// An error of the compiler. One that arose inside something with a place in a source file is
/// wrapped in the places that it passed, from the innermost to the outermost.
#[derive(Debug, PartialEq, Eq)]
pub enum CompilationError {
    ParseError(String),
    TypeError(String),
    CompileError(String),
    CircularImport { cycle: String },
    DuplicateSymbol { name: String, module: String },
    ModuleNotFound { path: String },
    UnsupportedToolchain(String),
    ToolchainNotFound,
    InvalidOutputPath,
    Located { error: Box<CompilationError>, context: ErrorContext },
}

/// The contents of an error.
pub enum ErrorV {
    ParseError(Seq<char>),
    TypeError(Seq<char>),
    CompileError(Seq<char>),
    CircularImport { cycle: Seq<char> },
    DuplicateSymbol { name: Seq<char>, module: Seq<char> },
    ModuleNotFound { path: Seq<char> },
    UnsupportedToolchain(Seq<char>),
    ToolchainNotFound,
    InvalidOutputPath,
    Located { error: Box<ErrorV>, context: ContextV },
}

/// The contents of an error.
pub open spec fn error_v(e: CompilationError) -> ErrorV
    decreases e,
{
    match e {
        CompilationError::ParseError(s) => ErrorV::ParseError(s@),
        CompilationError::TypeError(s) => ErrorV::TypeError(s@),
        CompilationError::CompileError(s) => ErrorV::CompileError(s@),
        CompilationError::CircularImport { cycle } => ErrorV::CircularImport { cycle: cycle@ },
        CompilationError::DuplicateSymbol { name, module } => ErrorV::DuplicateSymbol {
            name: name@,
            module: module@,
        },
        CompilationError::ModuleNotFound { path } => ErrorV::ModuleNotFound { path: path@ },
        CompilationError::UnsupportedToolchain(s) => ErrorV::UnsupportedToolchain(s@),
        CompilationError::ToolchainNotFound => ErrorV::ToolchainNotFound,
        CompilationError::InvalidOutputPath => ErrorV::InvalidOutputPath,
        CompilationError::Located { error, context } => ErrorV::Located {
            error: Box::new(error_v(*error)),
            context: context@,
        },
    }
}

impl View for CompilationError {
    type V = ErrorV;

    open spec fn view(&self) -> ErrorV {
        error_v(*self)
    }
}

/// Copies an error.
pub fn copy_error(e: &CompilationError) -> (r: CompilationError)
    ensures
        r@ == e@,
    decreases e,
{
    match e {
        CompilationError::ParseError(s) => CompilationError::ParseError(s.clone()),
        CompilationError::TypeError(s) => CompilationError::TypeError(s.clone()),
        CompilationError::CompileError(s) => CompilationError::CompileError(s.clone()),
        CompilationError::CircularImport { cycle } => CompilationError::CircularImport { cycle: cycle.clone() },
        CompilationError::DuplicateSymbol { name, module } => CompilationError::DuplicateSymbol {
            name: name.clone(),
            module: module.clone(),
        },
        CompilationError::ModuleNotFound { path } => CompilationError::ModuleNotFound { path: path.clone() },
        CompilationError::UnsupportedToolchain(s) => CompilationError::UnsupportedToolchain(s.clone()),
        CompilationError::ToolchainNotFound => CompilationError::ToolchainNotFound,
        CompilationError::InvalidOutputPath => CompilationError::InvalidOutputPath,
        CompilationError::Located { error, context } => CompilationError::Located {
            error: Box::new(copy_error(error)),
            context: ErrorContext {
                file: context.file.clone(),
                source: context.source.clone(),
                span: context.span,
            },
        },
    }
}

/// The result of a compiler step.
pub type CompileResult<T> = Result<T, CompilationError>;

/// The text in which an error is shown.
pub open spec fn message_of(e: ErrorV) -> Seq<char>
    decreases e,
{
    match e {
        ErrorV::ParseError(s) => "Parse error: "@ + s,
        ErrorV::TypeError(s) => "Type error: "@ + s,
        ErrorV::CompileError(s) => "Compile error: "@ + s,
        ErrorV::CircularImport { cycle } => "Circular import: "@ + cycle,
        ErrorV::DuplicateSymbol { name, module } => "Duplicate symbol '"@ + name + "' in "@ + module,
        ErrorV::ModuleNotFound { path } => "Module not found: "@ + path,
        ErrorV::UnsupportedToolchain(s) => "Unsupported toolchain: "@ + s,
        ErrorV::ToolchainNotFound => "No C compiler found"@,
        ErrorV::InvalidOutputPath => "Invalid output path"@,
        ErrorV::Located { error, .. } => message_of(*error),
    }
}

impl CompilationError {
    /// This error, which arose at a place.
    pub fn with_context(self, context: ErrorContext) -> (r: Self)
        ensures
            r@ == (ErrorV::Located { error: Box::new(self@), context: context@ }),
    {
        CompilationError::Located { error: Box::new(self), context }
    }

    /// The text in which this error is shown; its places are not part of it.
    pub fn to_string(&self) -> (r: String)
        ensures
            r@ == message_of(self@),
        decreases *self,
    {
        match self {
            CompilationError::ParseError(s) => "Parse error: ".to_owned().concat(s.as_str()),
            CompilationError::TypeError(s) => "Type error: ".to_owned().concat(s.as_str()),
            CompilationError::CompileError(s) => "Compile error: ".to_owned().concat(s.as_str()),
            CompilationError::CircularImport { cycle } => "Circular import: ".to_owned().concat(cycle.as_str()),
            CompilationError::DuplicateSymbol { name, module } => "Duplicate symbol '".to_owned().concat(
                name.as_str(),
            ).concat("' in ").concat(module.as_str()),
            CompilationError::ModuleNotFound { path } => "Module not found: ".to_owned().concat(path.as_str()),
            CompilationError::UnsupportedToolchain(s) => "Unsupported toolchain: ".to_owned().concat(s.as_str()),
            CompilationError::ToolchainNotFound => "No C compiler found".to_owned(),
            CompilationError::InvalidOutputPath => "Invalid output path".to_owned(),
            CompilationError::Located { error, .. } => error.to_string(),
        }
    }
}

} // verus!
