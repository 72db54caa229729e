//! Popups of a room.

use vstd::prelude::*;

verus! {

#[verifier::external_type_specification]
#[verifier::external_body]
pub struct ExIoError(std::io::Error);

/// A popup shown above a room.
pub enum RoomPopup {
    Error { description: String, reason: String },
}

/// How a popup reacted to an input event.
pub enum PopupResult {
    NotHandled,
    Handled,
    Close,
    SwitchToRoom { name: String },
    ErrorOpeningLink { link: String, error: std::io::Error },
}

} // verus!
