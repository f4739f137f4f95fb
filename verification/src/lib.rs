//! Wire-format primitives and packet codecs for a Minecraft Bedrock server.

pub mod network;
pub mod player;
pub mod protocol;
pub mod protodef;

use vstd::prelude::*;

verus! {

} // verus!
