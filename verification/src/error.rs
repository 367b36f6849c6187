//! Runtime errors of project loading.
use vstd::prelude::*;

verus! {

/// Why loading a project failed.
#[derive(Debug, Clone, PartialEq, Eq)]
pub enum RuntimeError {
    /// A file could not be read; the message describes the I/O failure.
    Io { message: String },
    /// A TOML file is malformed; the message describes the parse failure.
    TomlParse { message: String },
    /// There is no `aster.toml` under the given project root.
    ProjectNotFound(String),
    /// The entry scene named in `aster.toml` has no `.aster` file under `scripts/`.
    EntrySceneNotFound { entry_scene: String },
    /// A `.asterchar` file could not be parsed.
    CharacterParseError { path: String, message: String },
}

} // verus!
