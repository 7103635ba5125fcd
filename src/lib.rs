// Leader election on a ring of shop nodes: the wire codec, ring arithmetic
// and the skip-dead-node send, the per-node election state machine, and the
// pieces of order processing and input handling that the nodes run.
use vstd::prelude::*;

pub mod codec;
pub mod election;
pub mod errors;
pub mod input_controller;
pub mod machine;
pub mod ring;

verus! {

} // verus!
