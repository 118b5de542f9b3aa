//! The controller's own state: its enrollment, kept in a file that only its
//! owner may read.
use vstd::prelude::*;
use crate::protocol::EnrollmentRecord;

verus! {

/// What the controller keeps between runs.
#[derive(Clone, Debug, PartialEq, Eq)]
pub struct ControllerState {
    pub enrollment: EnrollmentRecord,
}

/// Whether file permission bits leave a file to its owner alone: no bit for
/// the group or others.
pub open spec fn owner_only_mode(mode: u32) -> bool {
    mode & 0o077 == 0
}

/// Whether file permission bits leave a file to its owner alone.
pub fn is_owner_only(mode: u32) -> (r: bool)
    ensures
        r == owner_only_mode(mode),
{
    mode & 0o077 == 0
}

} // verus!
