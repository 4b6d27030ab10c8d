//! Round-based orchestration of FROST threshold signatures for parties that exchange every
//! message by copy-paste through a relay: distributed key generation in three phases, then
//! signing in three phases, each phase resuming from the state the previous one stored.
use vstd::prelude::*;

pub mod codec;
pub mod collab;
pub mod keygen;
pub mod signing;
pub mod store;

verus! {

/// What a command hands back: explanatory output apart from the copy-paste result.
#[derive(Debug, Clone)]
pub struct CommandResult {
    pub output: String,
    pub result: String,
}

/// A fixed greeting that shows the library is linked and callable.
pub fn test_wasm() -> (r: String)
    ensures
        r@ == "WASM is working!"@,
{
    String::from_str("WASM is working!")
}

} // verus!
