//! What holds of the screen: what keys do, what stays selected, and what is drawn.
use crate::room::{Room, RoomState};
use crate::tui::room_view::{drawn, shows, RoomPicture};
use crate::tui::rooms_list::{room_lines, shows_rooms, RoomsPicture};
use crate::tui::{
    is_code, is_selected, join_url, kept, keyed, moved, qr_code, without_room, AppFocus, Key,
    RoomTabs, TuiState, TuiStep,
};
use vstd::prelude::*;

verus! {

/// Whether two screens are alike but for what is selected, scrolled or looked at.
pub open spec fn same_setting(a: TuiState, b: TuiState) -> bool {
    &&& a.log == b.log
    &&& a.accessible_host == b.accessible_host
}

/// A selection goes one place up or down, not above the first place; the first place is selected where
/// nothing was; and no other key moves it.
pub proof fn selections_move_by_one(place: usize, key: Key)
    ensures
        moved(None, Key::Up) == Some(0usize),
        moved(None, Key::Down) == Some(0usize),
        place < usize::MAX ==> {
            &&& moved(Some(place), Key::Down) matches Some(below)
            &&& below == place + 1
            &&& moved(Some(below), Key::Up) == Some(place)
        },
        moved(Some(0usize), Key::Up) == Some(0usize),
        key != Key::Up && key != Key::Down ==> moved(Some(place), key) == Some(place) && moved(
            None,
            key,
        ) is None,
{
}

/// A selection is kept where there is something at its place, and given up where there is not.
pub proof fn selections_are_kept_where_something_is(selected: Option<usize>, count: nat)
    ensures
        kept(selected, count) is Some ==> kept(selected, count) == selected,
        kept(selected, count) is Some <==> (selected is Some && selected->Some_0 < count),
{
}

/// While the keys go to the rooms, up and down select the room above and below; below the last room
/// nothing is selected. Nothing else changes.
pub proof fn rooms_are_gone_through(state: TuiState, rooms: nat)
    requires
        state.app_focus == AppFocus::RoomList,
        rooms < usize::MAX,
    ensures
        ({
            let up = state.arrowed(Key::Up, rooms);
            let down = state.arrowed(Key::Down, rooms);
            &&& up == (TuiState { rooms_list_state: up.rooms_list_state, ..state })
            &&& down == (TuiState { rooms_list_state: down.rooms_list_state, ..state })
            &&& state.rooms_list_state is None && rooms > 0 ==> up.rooms_list_state == Some(0usize)
                && down.rooms_list_state == Some(0usize)
            &&& rooms == 0 ==> up.rooms_list_state is None && down.rooms_list_state is None
            &&& state.rooms_list_state matches Some(place) ==> place < rooms ==> {
                &&& up.rooms_list_state matches Some(above)
                &&& above == 0 || above + 1 == place
                &&& above == place ==> place == 0
                &&& down.rooms_list_state is Some <==> place + 1 < rooms
                &&& down.rooms_list_state matches Some(below) ==> below == place + 1
            }
        }),
{
}

/// While the keys go to what a room holds, up and down select what is above and below. Nothing else
/// changes.
pub proof fn entities_are_gone_through(state: TuiState, rooms: nat)
    requires
        state.app_focus == AppFocus::EntityList,
    ensures
        ({
            let up = state.arrowed(Key::Up, rooms);
            let down = state.arrowed(Key::Down, rooms);
            &&& up == (TuiState { rooms_entity_list_state: up.rooms_entity_list_state, ..state })
            &&& down == (TuiState {
                rooms_entity_list_state: down.rooms_entity_list_state,
                ..state
            })
            &&& state.rooms_entity_list_state is None ==> up.rooms_entity_list_state == Some(0usize)
                && down.rooms_entity_list_state == Some(0usize)
            &&& state.rooms_entity_list_state matches Some(place) ==> place < usize::MAX ==> {
                &&& up.rooms_entity_list_state matches Some(above)
                &&& above + 1 == place || (above == 0 && place == 0)
                &&& down.rooms_entity_list_state matches Some(below)
                &&& below == place + 1
            }
        }),
{
}

/// While the keys go to the log, up and down scroll it by one line, from its end where it was not
/// scrolled, and not beyond its ends. Nothing else changes.
pub proof fn logs_are_scrolled_by_a_line(state: TuiState, rooms: nat)
    requires
        state.app_focus == AppFocus::Tracing,
        state.log_count() <= usize::MAX,
    ensures
        ({
            let count = state.log_count();
            let at = match state.log_scroll_state {
                Some(at) => at as nat,
                None => count,
            };
            let up = state.arrowed(Key::Up, rooms);
            let down = state.arrowed(Key::Down, rooms);
            &&& up == (TuiState { log_scroll_state: up.log_scroll_state, ..state })
            &&& down == (TuiState { log_scroll_state: down.log_scroll_state, ..state })
            &&& up.log_scroll_state matches Some(above)
            &&& at > 0 ==> above + 1 == at
            &&& at == 0 ==> above == 0
            &&& down.log_scroll_state matches Some(below)
            &&& at < count ==> below == at + 1
            &&& at >= count ==> below == count
        }),
{
}

/// The keys go to the rooms after left, with the end of the log shown, and to the log after right, with
/// the log scrolled to its end. Nothing else changes, and no other arrow key sends the keys elsewhere.
pub proof fn left_and_right_say_what_keys_go_to(state: TuiState, key: Key, rooms: nat)
    requires
        state.log_count() <= usize::MAX,
    ensures
        ({
            let left = state.arrowed(Key::Left, rooms);
            let right = state.arrowed(Key::Right, rooms);
            &&& left == (TuiState {
                app_focus: AppFocus::RoomList,
                log_scroll_state: None,
                ..state
            })
            &&& right.app_focus == AppFocus::Tracing
            &&& right.log_scroll_state matches Some(at) && at == state.log_count()
            &&& right == (TuiState {
                app_focus: right.app_focus,
                log_scroll_state: right.log_scroll_state,
                ..state
            })
            &&& key != Key::Left && key != Key::Right ==> state.arrowed(key, rooms).app_focus
                == state.app_focus
            &&& state.arrowed(key, rooms).room_tab == state.room_tab
            &&& same_setting(state.arrowed(key, rooms), state)
        }),
{
}

/// The next of what is shown of a room is shown; the keys go to it unless it is the code, and with the
/// code nothing is selected in it. Three times the key lead back.
pub proof fn tabs_are_gone_through(state: TuiState)
    ensures
        ({
            let next = state.tabbed();
            &&& next.room_tab.place() == (state.room_tab.place() + 1) % 3
            &&& next.room_tab == RoomTabs::QRCode ==> next.app_focus == AppFocus::RoomList
                && next.rooms_entity_list_state is None
            &&& next.room_tab != RoomTabs::QRCode ==> next.app_focus == AppFocus::EntityList
                && next.rooms_entity_list_state == state.rooms_entity_list_state
            &&& next.rooms_list_state == state.rooms_list_state
            &&& next.log_scroll_state == state.log_scroll_state
            &&& same_setting(next, state)
            &&& next.tabbed().tabbed().room_tab == state.room_tab
            &&& RoomTabs::QRCode.place() == 0 && RoomTabs::Entities.place() == 1
                && RoomTabs::Players.place() == 2
        }),
{
}

/// Whether a key is an arrow.
pub open spec fn is_arrow(key: Key) -> bool {
    key == Key::Up || key == Key::Down || key == Key::Left || key == Key::Right
}

/// The server ends by the two keys for that and by no other, the room is closed by the two keys for that
/// and by no other, and the screen changes by the tabulator and by arrows that are pressed alone.
pub proof fn keys_do_what_they_are_for(state: TuiState, key: Key, pressed: bool, rooms: nat)
    ensures
        ({
            let (after, step) = keyed(state, key, pressed, rooms);
            &&& step == TuiStep::Quit <==> key == Key::Esc || key == Key::Char('q')
            &&& step == TuiStep::CloseRoom <==> key == Key::Backspace || key == Key::Delete
            &&& key == Key::Tab ==> after == state.tabbed()
            &&& is_arrow(key) && pressed ==> after == state.arrowed(key, rooms)
            &&& key != Key::Tab && !(is_arrow(key) && pressed) ==> after == state
        }),
{
}

/// How many lines stand beside what is drawn of a room.
pub open spec fn listed(room: Room, tab: RoomTabs) -> Option<nat> {
    match tab {
        RoomTabs::QRCode => None,
        RoomTabs::Entities => Some(room.entities.listing().len()),
        RoomTabs::Players => Some(room.connections.listing().len()),
    }
}

/// Drawing gives up selections at places where there is nothing, and changes nothing else; drawing again
/// changes nothing more.
pub proof fn drawing_gives_up_lost_selections(state: TuiState, rooms: Seq<Room>)
    ensures
        ({
            let after = drawn(state, rooms);
            &&& after == (TuiState {
                rooms_list_state: after.rooms_list_state,
                rooms_entity_list_state: after.rooms_entity_list_state,
                ..state
            })
            &&& after.rooms_list_state == state.rooms_list_state || (after.rooms_list_state is None
                && state.rooms_list_state->Some_0 >= rooms.len())
            &&& after.rooms_list_state matches Some(place) ==> place < rooms.len()
            &&& after.rooms_list_state is None ==> after.rooms_entity_list_state
                == state.rooms_entity_list_state
            &&& after.rooms_list_state matches Some(place) ==> match listed(
                rooms[place as int],
                state.room_tab,
            ) {
                None => after.rooms_entity_list_state == state.rooms_entity_list_state,
                Some(count) => {
                    &&& after.rooms_entity_list_state is Some <==> (
                    state.rooms_entity_list_state is Some && state.rooms_entity_list_state->Some_0
                        < count)
                    &&& after.rooms_entity_list_state is Some ==> after.rooms_entity_list_state
                        == state.rooms_entity_list_state
                },
            }
            &&& drawn(after, rooms) == after
        }),
{
}

/// A picture of the room that is selected shows its code as the address to join it under, or the key of
/// each of its entities and the one that is selected, or the name of each who is in it, whoever has no
/// name as the host.
pub proof fn pictures_show_the_selected_room(
    state: TuiState,
    rooms: Seq<Room>,
    place: usize,
    picture: RoomPicture,
)
    requires
        state.rooms_list_state == Some(place),
        place < rooms.len(),
        shows(state, rooms, picture),
    ensures
        ({
            let room = rooms[place as int];
            match state.room_tab {
                RoomTabs::QRCode => {
                    &&& picture matches RoomPicture::Code { code }
                    &&& qr_code(
                        "https://"@ + state.accessible_host@ + "?code="@ + room.room_config.code@,
                    ) == match code {
                        Some(code) => Some(code@),
                        None => None,
                    }
                },
                RoomTabs::Entities => {
                    &&& picture matches RoomPicture::Entities { keys, selected, entity }
                    &&& keys.len() == room.entities.listing().len()
                    &&& forall|i: int|
                        0 <= i < keys.len() ==> (#[trigger] keys@[i])@
                            == room.entities.listing()[i].1.key@
                    &&& selected is Some ==> selected == state.rooms_entity_list_state
                    &&& selected is Some <==> (state.rooms_entity_list_state is Some
                        && state.rooms_entity_list_state->Some_0 < keys.len())
                    &&& selected is Some <==> entity is Some
                    &&& selected is Some ==> entity->Some_0@
                        == room.entities.listing()[selected->Some_0 as int]@
                },
                RoomTabs::Players => {
                    &&& picture matches RoomPicture::Players { names, selected }
                    &&& names.len() == room.connections.listing().len()
                    &&& forall|i: int|
                        0 <= i < names.len() ==> {
                            let name = room.connections.listing()[i].profile.name@;
                            (#[trigger] names@[i])@ == if name.len() > 0 {
                                name
                            } else {
                                "Host"@
                            }
                        }
                    &&& selected is Some ==> selected == state.rooms_entity_list_state
                    &&& selected is Some <==> (state.rooms_entity_list_state is Some
                        && state.rooms_entity_list_state->Some_0 < names.len())
                },
            }
        }),
{
    let room = rooms[place as int];
    match picture {
        RoomPicture::Entities { keys, selected, entity } => {
            if state.room_tab == RoomTabs::Entities {
                let shown = crate::text::texts(keys@);
                assert(shown.len() == room.entities.listing().len());
                assert forall|i: int| 0 <= i < keys.len() implies (#[trigger] keys@[i])@
                    == room.entities.listing()[i].1.key@ by {
                    assert(shown[i] == keys@[i]@);
                }
            }
        },
        RoomPicture::Players { names, selected } => {
            if state.room_tab == RoomTabs::Players {
                let shown = crate::text::texts(names@);
                assert(shown.len() == room.connections.listing().len());
                assert forall|i: int| 0 <= i < names.len() implies ({
                    let name = room.connections.listing()[i].profile.name@;
                    (#[trigger] names@[i])@ == if name.len() > 0 {
                        name
                    } else {
                        "Host"@
                    }
                }) by {
                    assert(shown[i] == names@[i]@);
                }
            }
        },
        _ => {},
    }
}

/// Where no room is selected, nothing is drawn, and an empty code in the place of the code.
pub proof fn nothing_is_drawn_of_no_room(state: TuiState, rooms: Seq<Room>, picture: RoomPicture)
    requires
        state.rooms_list_state matches Some(place) ==> place >= rooms.len(),
        shows(state, rooms, picture),
    ensures
        match picture {
            RoomPicture::Blank => state.room_tab != RoomTabs::QRCode,
            RoomPicture::Code { code } => {
                &&& state.room_tab == RoomTabs::QRCode
                &&& code matches Some(code) && code@.len() == 0
            },
            _ => false,
        },
{
}

/// The address to join a room under is a secure one of this server, and ends in the code of the room.
pub proof fn addresses_end_in_the_code(host: Seq<char>, code: Seq<char>)
    ensures
        join_url(host, code).len() == 14 + host.len() + code.len(),
        join_url(host, code).take(8int + host.len()) == "https://"@ + host,
        join_url(host, code).skip(8int + host.len()) == "?code="@ + code,
{
    reveal_strlit("https://");
    reveal_strlit("?code=");
    assert("https://"@.len() == 8);
    assert("?code="@.len() == 6);
    let whole = join_url(host, code);
    assert(whole.take(8int + host.len()) =~= "https://"@ + host);
    assert(whole.skip(8int + host.len()) =~= "?code="@ + code);
}

/// Each room has its line, at its place, which begins with its code and ends in its application.
pub proof fn each_room_has_its_line(rooms: Seq<Room>, i: int)
    requires
        0 <= i < rooms.len(),
    ensures
        room_lines(rooms).len() == rooms.len(),
        ({
            let config = rooms[i].room_config;
            room_lines(rooms)[i] == config.code@ + " - "@ + config.app_tag@
        }),
{
}

/// The room that is selected is the one at the place that is selected, and its code is that of the address to
/// join it under; where none is selected there is none, and its code is empty.
pub proof fn the_selected_room_is_the_one_at_its_place(
    host: Seq<char>,
    rooms: Seq<Room>,
    selected: Option<usize>,
    room: Option<Room>,
    code: Option<String>,
)
    requires
        is_selected(rooms, selected, room),
        is_code(host, rooms, selected, code),
    ensures
        selected is None <==> room is None,
        selected matches Some(place) ==> room == Some(rooms[place as int]),
        selected matches Some(place) ==> qr_code(
            "https://"@ + host + "?code="@ + rooms[place as int].room_config.code@,
        ) == match code {
            Some(code) => Some(code@),
            None => None,
        },
        selected is None ==> (code matches Some(code) && code@.len() == 0),
{
}

/// Where there are rooms, each has its line, at its place, and the place of the one that is selected is told;
/// where there are none, that is said.
pub proof fn rooms_are_listed(state: TuiState, rooms: Seq<Room>, picture: RoomsPicture)
    requires
        shows_rooms(state, rooms, picture),
    ensures
        rooms.len() == 0 <==> picture is Notice,
        picture matches RoomsPicture::Notice(text) ==> text@ == "No rooms have been created yet"@,
        picture matches RoomsPicture::Items { items, selected } ==> {
            &&& selected == state.rooms_list_state
            &&& items.len() == rooms.len()
            &&& forall|i: int|
                0 <= i < items.len() ==> (#[trigger] items@[i])@ == rooms[i].room_config.code@
                    + " - "@ + rooms[i].room_config.app_tag@
        },
{
    if picture is Items {
        let shown = crate::text::texts(picture->items@);
        assert(shown.len() == rooms.len());
        assert forall|i: int| 0 <= i < picture->items.len() implies (
        #[trigger] picture->items@[i])@ == rooms[i].room_config.code@ + " - "@
            + rooms[i].room_config.app_tag@ by {
            assert(shown[i] == picture->items@[i]@);
        }
    }
}

/// A room that is closed is gone and every other room stays as it is; the selection is given up only where
/// there is no room at its place any more, and nothing else on the screen changes.
pub proof fn closed_rooms_are_gone(
    state: TuiState,
    rooms: Map<Seq<char>, RoomState>,
    code: Seq<char>,
    other: Seq<char>,
    count: nat,
)
    ensures
        !without_room(rooms, code).contains_key(code),
        other != code ==> (without_room(rooms, code).contains_key(other) <==> rooms.contains_key(
            other,
        )),
        other != code && rooms.contains_key(other) ==> without_room(rooms, code)[other]
            == rooms[other],
        ({
            let after = state.left_with(count);
            &&& after == (TuiState { rooms_list_state: after.rooms_list_state, ..state })
            &&& after.rooms_list_state is Some <==> (state.rooms_list_state is Some
                && state.rooms_list_state->Some_0 < count)
            &&& after.rooms_list_state is Some ==> after.rooms_list_state == state.rooms_list_state
        }),
{
}

} // verus!
