pub mod error;

use vstd::prelude::*;

verus! {

} // verus!
