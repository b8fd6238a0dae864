//! The secondary defaults file: global editor and shell settings that fill
//! in keys a workspace record leaves out.
//!
//! The merge itself happens over the serialized form, outside this crate;
//! here live the decoded shape and the resolution of the file's path.

use vstd::prelude::*;

use crate::workspace::Editor;
use crate::workspace::Shell;

verus! {

/// Global defaults: what the defaults file decodes to.
#[derive(Debug, Clone, PartialEq)]
pub struct Config {
    /// Editor configuration.
    pub editor: Option<Editor>,
    /// Shell configuration.
    pub shell: Option<Shell>,
}

/// Resolves the path of the defaults file inside the configuration directory
/// `root`.
pub fn config_path(root: &str) -> (p: String)
    ensures
        p@ == root@ + "/config.toml"@,
{
    let mut p = root.to_owned();
    p.append("/config.toml");
    p
}

} // verus!
