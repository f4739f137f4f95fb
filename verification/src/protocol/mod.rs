pub mod compresstion;
pub mod login;
pub mod packets;

use vstd::prelude::*;

verus! {

} // verus!
