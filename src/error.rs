//! The fatal errors of a migration run.
use vstd::prelude::*;

verus! {

/// Why a run stopped. Each variant carries the offending path.
pub enum MigrationError {
    /// The mod folder holds no `romfs` folder; nothing has been written.
    MissingSourceFolder(String),
    /// A walked entry does not lie under the source root.
    NotUnderRoot(String),
    /// A message bundle lies outside the locale message folder; the path is
    /// relative to the source root, one component per item.
    MessageOutsideLocale(Vec<String>),
    /// A container could not be decoded: the file and the decoder's reason.
    DecodeFailure(String, String),
}

} // verus!
