use vstd::prelude::*;

verus! {

/// Every failure the library reports, grouped by where it arises.
#[derive(Debug, Clone, PartialEq, Eq)]
pub enum ForgeError {
    /// A filesystem operation failed.
    Io(String),
    /// A target triple could not be parsed.
    InvalidTarget(String),
    /// The project description is unreadable or malformed.
    Config(String),
    /// A build step failed (missing profile, missing test entry file, ...).
    Build(String),
    /// The compiler or linker could not be run or exited with failure.
    Compiler(String),
    /// The persistent cache store could not be read or written, or is corrupt.
    Cache(String),
    /// A required file does not exist.
    FileNotFound(String),
    /// A workspace-level problem (no member matches a filter, duplicate member).
    Workspace(String),
    /// Members depend on each other in a cycle; names a member on that cycle.
    DependencyCycle(String),
    /// A member declares a dependency on a name that is not a member.
    UnknownDependency(String),
    /// A persisted value could not be encoded or decoded.
    Serialization(String),
    /// The configuration text is not valid TOML for the expected shape.
    Toml(String),
}

impl ForgeError {
    /// A copy of this error.
    pub fn duplicate(&self) -> (r: ForgeError)
        ensures
            r == *self,
    {
        match self {
            ForgeError::Io(m) => ForgeError::Io(m.clone()),
            ForgeError::InvalidTarget(m) => ForgeError::InvalidTarget(m.clone()),
            ForgeError::Config(m) => ForgeError::Config(m.clone()),
            ForgeError::Build(m) => ForgeError::Build(m.clone()),
            ForgeError::Compiler(m) => ForgeError::Compiler(m.clone()),
            ForgeError::Cache(m) => ForgeError::Cache(m.clone()),
            ForgeError::FileNotFound(m) => ForgeError::FileNotFound(m.clone()),
            ForgeError::Workspace(m) => ForgeError::Workspace(m.clone()),
            ForgeError::DependencyCycle(m) => ForgeError::DependencyCycle(m.clone()),
            ForgeError::UnknownDependency(m) => ForgeError::UnknownDependency(m.clone()),
            ForgeError::Serialization(m) => ForgeError::Serialization(m.clone()),
            ForgeError::Toml(m) => ForgeError::Toml(m.clone()),
        }
    }
}

/// The result type used throughout the library.
pub type ForgeResult<T> = Result<T, ForgeError>;

} // verus!
