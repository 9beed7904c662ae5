use vstd::prelude::*;

verus! {

/// One record of the system identity directory: the fields the core reads
/// of a user — numeric ids, login shell and home directory.
pub struct UserRecord {
    pub name: String,
    pub uid: u32,
    pub gid: u32,
    pub shell: String,
    pub home: String,
}

} // verus!
