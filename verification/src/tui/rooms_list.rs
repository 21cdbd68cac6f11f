//! The list of the rooms.
use crate::room::Room;
use crate::store::KeyedStore;
use crate::text::{concat3, texts};
use crate::tui::TuiState;
use vstd::prelude::*;

verus! {

/// The list of the rooms.
pub struct RoomsList<'a>(pub &'a mut TuiState);

/// What is drawn of the rooms.
#[derive(Debug)]
pub enum RoomsPicture {
    /// That there are none.
    Notice(&'static str),
    /// One line for each, and the place of the one that is selected.
    Items { items: Vec<String>, selected: Option<usize> },
}

/// The line of a room: its code and its application.
pub open spec fn room_line(room: Room) -> Seq<char> {
    room.room_config.code@ + " - "@ + room.room_config.app_tag@
}

/// The lines of rooms.
pub open spec fn room_lines(rooms: Seq<Room>) -> Seq<Seq<char>> {
    rooms.map_values(|room: Room| room_line(room))
}

/// Whether a picture shows the rooms.
pub open spec fn shows_rooms(state: TuiState, rooms: Seq<Room>, picture: RoomsPicture) -> bool {
    match picture {
        RoomsPicture::Notice(text) => rooms.len() == 0 && text@
            == "No rooms have been created yet"@,
        RoomsPicture::Items { items, selected } => {
            &&& rooms.len() > 0
            &&& texts(items@) == room_lines(rooms)
            &&& selected == state.rooms_list_state
        },
    }
}

impl<'a> RoomsList<'a> {
    /// What is drawn.
    pub fn render(self, rooms: &KeyedStore<Room>) -> (r: RoomsPicture)
        requires
            rooms.wf(),
        ensures
            *final(self.0) == *old(self.0),
            shows_rooms(*old(self.0), rooms.listing(), r),
    {
        if rooms.len() == 0 {
            return RoomsPicture::Notice("No rooms have been created yet");
        }
        let mut items: Vec<String> = Vec::new();
        let mut i: usize = 0;
        while i < rooms.len()
            invariant
                i <= rooms.listing().len(),
                items.len() == i,
                forall|j: int|
                    0 <= j < i ==> (#[trigger] items@[j])@ == room_line(rooms.listing()[j]),
            decreases rooms.listing().len() - i,
        {
            let room = rooms.at(i);
            items.push(
                concat3(room.room_config.code.as_str(), " - ", room.room_config.app_tag.as_str()),
            );
            i = i + 1;
        }
        assert(texts(items@) =~= room_lines(rooms.listing()));
        RoomsPicture::Items { items, selected: self.0.rooms_list_state }
    }
}

} // verus!
