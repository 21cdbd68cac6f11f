//! The code under which players join the room that is selected.
use crate::room::Room;
use crate::store::KeyedStore;
use crate::tui::{is_code, kept, TuiState};
use vstd::prelude::*;

verus! {

/// The code under which players join the room that is selected.
pub struct QrView<'a>(pub &'a mut TuiState);

impl<'a> QrView<'a> {
    /// What is drawn: the code, or nothing where no room is selected. There is no code only where
    /// the address is too long for one.
    pub fn render(self, rooms: &KeyedStore<Room>) -> (r: Option<String>)
        requires
            rooms.wf(),
        ensures
            *final(self.0) == old(self.0).with_room(
                kept(old(self.0).rooms_list_state, rooms.listing().len()),
            ),
            is_code(
                old(self.0).accessible_host@,
                rooms.listing(),
                final(self.0).rooms_list_state,
                r,
            ),
    {
        self.0.generate_room_qr(rooms)
    }
}

} // verus!
