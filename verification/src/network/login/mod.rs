pub mod login_verify;

use vstd::prelude::*;

verus! {

} // verus!
