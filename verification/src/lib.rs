use vstd::prelude::*;

pub mod text;
pub mod greeter;
pub mod armor;
pub mod keys;
pub mod assets;
pub mod window;
pub mod messages;

verus! {

} // verus!
