use vstd::prelude::*;

pub mod errors;
pub mod listing;
pub mod paths;
pub mod cmd;
pub mod copier;
pub mod pattern;

pub use errors::UtilError;
pub use listing::{ls, LsEntry, LsKind};
pub use paths::LexPath;
pub use pattern::is_interested_file;
pub use copier::{Copier, CopierBuilder, WalkEntry, CopyAction};
pub use cmd::{ArgParser, Cmd, CmdBuilder, decode_output};

verus! {

} // verus!
