//! The per-user dialog markers.

use vstd::prelude::*;

verus! {

/// The single pending dialog step stored per user: it decides how the next
/// free-form message or button press is interpreted. `Idle` is the resting
/// state — no input is pending; every other state expects exactly one more
/// input event.
#[derive(Clone, Copy, Debug, PartialEq, Eq, Structural)]
pub enum InputtingStatus {
    /// Resting: no pending input.
    Idle,
    /// A new contact's account handle is awaited.
    NewContactTelegramUsername,
    /// A display name for the contact just added is awaited.
    NewContactInternalName,
    /// A replacement display name for the selected contact is awaited.
    EditContactInternalName,
    /// Contact removal; a named extension point with no behaviour yet.
    DeleteContact,
    /// A contact pick (button press) for a new transfer is awaited.
    SelectContactForTransaction,
    /// A transfer direction pick (button press) is awaited.
    SelectDirectionForTransaction,
    /// The transfer amount text is awaited.
    TransactionAmount,
}

/// Which side of a pending transfer the owner takes: `Gave` makes the owner
/// the sender, `Took` makes the selected contact the sender.
#[derive(Clone, Copy, Debug, PartialEq, Eq, Structural)]
pub enum Direction {
    Gave,
    Took,
}

} // verus!
