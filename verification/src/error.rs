//! The failures of a withdraw request.

use vstd::prelude::*;

verus! {

/// Why a withdraw request was turned down as a whole.
#[derive(Clone, Copy, Debug, PartialEq, Eq, Structural)]
pub enum ContractError {
    /// Every attempt of the request is still cooling down.
    AllPending,
    /// The lists of the request are not of one length.
    InvalidParameters,
}

} // verus!
