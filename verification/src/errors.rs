//! The reasons for which an operation is refused.

use vstd::prelude::*;

verus! {

/// Why an operation was refused. A refused operation changes nothing.
#[derive(Debug, Clone, Copy, PartialEq, Eq, Structural)]
pub enum ErrorCode {
    /// The caller is not the event's creator.
    UnauthorizedCreator,
    /// The event is not active.
    EventInactive,
    /// Every ticket the event may issue has been issued.
    MaxSupplyReached,
    /// The ticket does not belong to the event it was presented with.
    InvalidQRCode,
    /// The presented secret does not hash to the ticket's commitment.
    InvalidSecretKey,
    /// The ticket has been redeemed before.
    QRCodeAlreadyClaimed,
    /// The ticket's expiry time has passed.
    QRCodeExpired,
    /// The recomputed root differs from the expected one.
    InvalidMerkleProof,
    /// An event must allow at least one ticket.
    InvalidMaxSupply,
    /// The accumulator holds as many leaves as its height allows.
    AccumulatorFull,
    /// The hasher refused an input.
    InvalidHashInput,
    /// The tree height is above the largest one supported.
    InvalidTreeHeight,
}

} // verus!
