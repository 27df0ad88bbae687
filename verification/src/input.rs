//! Input events decoded from client messages.

use vstd::prelude::*;

verus! {

/// One input event produced by decoding a client message: a pointer click at
/// integer coordinates, or a named key event. Each event is consumed exactly
/// once by the simulation step that drains the input mailbox.
#[derive(Clone, PartialEq, Eq, Debug)]
pub enum Input {
    Click { x: u32, y: u32 },
    Key(String),
}

} // verus!
