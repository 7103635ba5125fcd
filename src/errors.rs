use vstd::prelude::*;

verus! {

/// Failures reported by the election core and the input loader.
#[derive(Debug, Clone, Copy, PartialEq, Eq, Structural)]
pub enum Error {
    /// A ring send went all the way round without an acknowledgment.
    Timeout,
    /// The leader wait resolved to an inconsistent state.
    CantGetLeaderId,
    /// The leader could not be compared with this node's id.
    CantGetShopId,
    /// A guarded cell could not be locked.
    CantLockLeaderId,
    /// The transport failed to receive a frame.
    CantReceiveMessage,
    /// A received frame does not decode to a message.
    MalformedMessage,
    /// No orders file name was given.
    NotFileInput,
    /// No shop id was given.
    NotShopIdInput,
    /// The shop id given is not a decimal integer.
    InvalidShopId,
    /// The orders file does not exist.
    FileNotFound,
    /// The orders file does not hold a list of orders.
    WrongFileFormat,
    /// The accounting service refused a payment in points.
    NotEnoughPoints,
}

} // verus!
