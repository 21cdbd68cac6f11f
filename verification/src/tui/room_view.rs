//! What is shown of the room that is selected.
use crate::entity::JBEntity;
use crate::room::{Client, Room};
use crate::store::{Keyed, KeyedStore};
use crate::text::texts;
use crate::tui::{join_url, kept, qr_code, AppFocus, RoomTabs, TuiState};
use vstd::prelude::*;

verus! {

/// What is shown of the room that is selected.
pub struct RoomView<'a>(pub &'a mut TuiState);

/// What is drawn of a room.
pub enum RoomPicture {
    /// The code under which players join, or nothing where no room is selected; none where the
    /// address is too long for a code.
    Code { code: Option<String> },
    /// Nothing.
    Blank,
    /// The keys of the entities, the place of the one that is selected, and that one.
    Entities { keys: Vec<String>, selected: Option<usize>, entity: Option<JBEntity> },
    /// The names of the players, and the place of the one that is selected.
    Players { names: Vec<String>, selected: Option<usize> },
}

/// The keys of entities.
pub open spec fn entity_keys(entities: Seq<JBEntity>) -> Seq<Seq<char>> {
    entities.map_values(|entity: JBEntity| entity.item_key())
}

/// The name under which a connection is shown: `Host` where it has none.
pub open spec fn shown_name(client: Client) -> Seq<char> {
    if client.profile.name@.len() == 0 {
        "Host"@
    } else {
        client.profile.name@
    }
}

/// The names under which connections are shown.
pub open spec fn shown_names(clients: Seq<Client>) -> Seq<Seq<char>> {
    clients.map_values(|client: Client| shown_name(client))
}

/// The screen after a room was drawn on it: what is selected is there.
pub open spec fn drawn(state: TuiState, rooms: Seq<Room>) -> TuiState {
    let with_room = state.with_room(kept(state.rooms_list_state, rooms.len()));
    match (state.room_tab, with_room.rooms_list_state) {
        (RoomTabs::Entities, Some(place)) => TuiState {
            rooms_entity_list_state: kept(
                state.rooms_entity_list_state,
                rooms[place as int].entities.listing().len(),
            ),
            ..with_room
        },
        (RoomTabs::Players, Some(place)) => TuiState {
            rooms_entity_list_state: kept(
                state.rooms_entity_list_state,
                rooms[place as int].connections.listing().len(),
            ),
            ..with_room
        },
        _ => with_room,
    }
}

/// Whether a picture shows the room at a place.
pub open spec fn shows(state: TuiState, rooms: Seq<Room>, picture: RoomPicture) -> bool {
    let after = drawn(state, rooms);
    match (state.room_tab, after.rooms_list_state) {
        (RoomTabs::QRCode, Some(place)) => {
            &&& picture matches RoomPicture::Code { code }
            &&& qr_code(
                join_url(state.accessible_host@, rooms[place as int].room_config.code@),
            ) == match code {
                Some(code) => Some(code@),
                None => None,
            }
        },
        (RoomTabs::QRCode, None) => {
            &&& picture matches RoomPicture::Code { code: Some(code) }
            &&& code@.len() == 0
        },
        (_, None) => picture is Blank,
        (RoomTabs::Entities, Some(place)) => {
            let entities = rooms[place as int].entities.listing();
            &&& picture matches RoomPicture::Entities { keys, selected, entity }
            &&& texts(keys@) == entity_keys(entities)
            &&& selected == after.rooms_entity_list_state
            &&& match selected {
                Some(index) => entity matches Some(entity) && entity@ == entities[index as int]@,
                None => entity is None,
            }
        },
        (RoomTabs::Players, Some(place)) => {
            &&& picture matches RoomPicture::Players { names, selected }
            &&& texts(names@) == shown_names(rooms[place as int].connections.listing())
            &&& selected == after.rooms_entity_list_state
        },
    }
}

/// A selection among `count` items: none where it lies behind the end.
fn keep(selected: Option<usize>, count: usize) -> (r: Option<usize>)
    ensures
        r == kept(selected, count as nat),
{
    match selected {
        Some(place) => if place < count {
            Some(place)
        } else {
            None
        },
        None => None,
    }
}

/// The keys of the entities of a room.
fn keys_of(room: &Room) -> (r: Vec<String>)
    ensures
        texts(r@) == entity_keys(room.entities.listing()),
{
    let mut keys: Vec<String> = Vec::new();
    let mut i: usize = 0;
    while i < room.entities.len()
        invariant
            i <= room.entities.listing().len(),
            keys.len() == i,
            forall|j: int|
                0 <= j < i ==> (#[trigger] keys@[j])@ == room.entities.listing()[j].item_key(),
        decreases room.entities.listing().len() - i,
    {
        keys.push(room.entities.at(i).1.key.clone());
        i = i + 1;
    }
    assert(texts(keys@) =~= entity_keys(room.entities.listing()));
    keys
}

/// The names under which the connections of a room are shown.
fn names_of(room: &Room) -> (r: Vec<String>)
    ensures
        texts(r@) == shown_names(room.connections.listing()),
{
    let mut names: Vec<String> = Vec::new();
    let mut i: usize = 0;
    while i < room.connections.len()
        invariant
            i <= room.connections.listing().len(),
            names.len() == i,
            forall|j: int|
                0 <= j < i ==> (#[trigger] names@[j])@ == shown_name(
                    room.connections.listing()[j],
                ),
        decreases room.connections.listing().len() - i,
    {
        let client = room.connections.at(i);
        if client.profile.name.as_str().unicode_len() == 0 {
            names.push("Host".to_owned());
        } else {
            names.push(client.profile.name.clone());
        }
        i = i + 1;
    }
    assert(texts(names@) =~= shown_names(room.connections.listing()));
    names
}

impl<'a> RoomView<'a> {
    /// What is drawn: the place of the tab, whether the keys go here, and the picture. A selection
    /// that lies behind the end is given up.
    pub fn render(self, rooms: &KeyedStore<Room>) -> (r: (usize, bool, RoomPicture))
        requires
            rooms.wf(),
        ensures
            *final(self.0) == drawn(*old(self.0), rooms.listing()),
            r.0 == old(self.0).room_tab.place(),
            r.1 == (old(self.0).app_focus == AppFocus::EntityList),
            shows(*old(self.0), rooms.listing(), r.2),
    {
        let state = self.0;
        let tab: usize = state.room_tab.index();
        let focused: bool = state.app_focus == AppFocus::EntityList;
        let picture = match state.room_tab {
            RoomTabs::QRCode => RoomPicture::Code { code: state.generate_room_qr(rooms) },
            RoomTabs::Entities => match state.selected_room(rooms) {
                Some(room) => {
                    let keys = keys_of(room);
                    state.rooms_entity_list_state = keep(
                        state.rooms_entity_list_state,
                        room.entities.len(),
                    );
                    let selected: Option<usize> = state.rooms_entity_list_state;
                    let entity: Option<JBEntity> = match selected {
                        Some(index) => Some(room.entities.at(index).clone()),
                        None => None,
                    };
                    RoomPicture::Entities { keys, selected, entity }
                },
                None => RoomPicture::Blank,
            },
            RoomTabs::Players => match state.selected_room(rooms) {
                Some(room) => {
                    let names = names_of(room);
                    state.rooms_entity_list_state = keep(
                        state.rooms_entity_list_state,
                        room.connections.len(),
                    );
                    RoomPicture::Players { names, selected: state.rooms_entity_list_state }
                },
                None => RoomPicture::Blank,
            },
        };
        (tab, focused, picture)
    }
}

} // verus!
