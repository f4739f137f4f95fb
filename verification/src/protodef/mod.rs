pub mod codec;
pub mod endian;
pub mod mcbe;
pub mod native_types;
pub mod reader;
pub mod strings;
pub mod writer;

use vstd::prelude::*;

verus! {

} // verus!
