//! Actions on a file-index search result.
use vstd::prelude::*;

verus! {

/// What to do with a selected file-index result.
#[derive(Debug, Clone, Copy, PartialEq, Eq, Structural)]
pub enum IndexAction {
    Open,
    CopyPath,
    Back,
}

impl IndexAction {
    /// The action numbered `value`: 0 opens, 1 copies the path, 2 goes back.
    pub fn from(value: u64) -> (r: Self)
        requires
            value < 3,
        ensures
            value == 0 ==> r == IndexAction::Open,
            value == 1 ==> r == IndexAction::CopyPath,
            value == 2 ==> r == IndexAction::Back,
    {
        if value == 0 {
            IndexAction::Open
        } else if value == 1 {
            IndexAction::CopyPath
        } else {
            IndexAction::Back
        }
    }
}

} // verus!
