use vstd::prelude::*;

pub mod buffer;
pub mod frame;
pub mod layout;
pub mod window;
pub mod laws;

verus! {

} // verus!
