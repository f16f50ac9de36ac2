//! What the screen shows below the menu.

use vstd::prelude::*;

verus! {

/// What fills the screen below the menu: the list of rooms, or the chat of
/// one room.
#[derive(Debug, Clone, PartialEq, Eq)]
pub enum View {
    RoomList,
    RoomChat { name: String },
}

} // verus!
