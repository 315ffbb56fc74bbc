//! One package's build instructions: which stage it belongs to, how its
//! source archive and unpacked directory are named, the commands to run,
//! and any extra environment entries.

use vstd::prelude::*;

verus! {

/// The build instructions of one package.  `name` keys into the package
/// catalog, which supplies the version.
pub struct Instruction {
    pub stage: String,
    pub generic_name: Option<String>,
    pub name: String,
    pub file_name: Option<String>,
    pub dir_name: Option<String>,
    pub commands: Vec<String>,
    pub env: Option<Vec<(String, String)>>,
}

} // verus!
