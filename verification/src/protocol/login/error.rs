//! Why a login was refused.

use vstd::prelude::*;

verus! {

/// Why the identity chain of a login was refused.
#[derive(Debug, PartialEq, Eq, Structural)]
pub enum LoginError {
    /// The chain did not hold three tokens; it held this many.
    InvalidChainLength(usize),
    /// No token of the chain was issued under the trusted key.
    NotAuthenticated,
    /// No token of the chain carried the player's data.
    WrongClaim,
    /// The client token did not verify under the player's key.
    WrongSkinData,
}

} // verus!
