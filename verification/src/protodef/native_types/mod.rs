pub mod reader;
pub mod writer;

use vstd::prelude::*;

verus! {

} // verus!
