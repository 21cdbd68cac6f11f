//! The screen on which an operator watches the rooms.
use crate::room::{Room, RoomState};
use crate::store::{Keyed, KeyedStore};
use crate::text::concat2;
use qrcode::render::unicode;
use qrcode::QrCode;
use tracing_writer::TuiWriter;
use vstd::prelude::*;

pub mod qr_view;
pub mod room_view;
pub mod rooms_list;
pub mod tracing_writer;

verus! {

/// What the keys of the operator go to.
#[derive(Clone, Copy, Debug, PartialEq, Eq, Structural)]
pub enum AppFocus {
    RoomList,
    Tracing,
    EntityList,
}

/// What is shown of a room.
#[derive(Clone, Copy, Debug, PartialEq, Eq, Structural)]
pub enum RoomTabs {
    QRCode,
    Entities,
    Players,
}

impl RoomTabs {
    /// The names of what can be shown.
    pub open spec fn names() -> Seq<Seq<char>> {
        seq!["QR Code"@, "Entities"@, "Players"@]
    }

    /// The names of what can be shown.
    pub fn list() -> (r: [&'static str; 3])
        ensures
            r@.map_values(|name: &'static str| name@) == RoomTabs::names(),
    {
        let r = ["QR Code", "Entities", "Players"];
        assert(r@.map_values(|name: &'static str| name@) =~= RoomTabs::names());
        r
    }

    /// The place among what can be shown.
    pub open spec fn place(self) -> usize {
        match self {
            RoomTabs::QRCode => 0,
            RoomTabs::Entities => 1,
            RoomTabs::Players => 2,
        }
    }

    /// The place among what can be shown.
    pub fn index(&self) -> (r: usize)
        ensures
            r == self.place(),
    {
        match self {
            RoomTabs::QRCode => 0,
            RoomTabs::Entities => 1,
            RoomTabs::Players => 2,
        }
    }

    /// What is shown next.
    pub open spec fn after(self) -> RoomTabs {
        match self {
            RoomTabs::QRCode => RoomTabs::Entities,
            RoomTabs::Entities => RoomTabs::Players,
            RoomTabs::Players => RoomTabs::QRCode,
        }
    }

    /// Goes on to what is shown next.
    pub fn next(&mut self)
        ensures
            *final(self) == old(self).after(),
    {
        match *self {
            RoomTabs::QRCode => {
                *self = RoomTabs::Entities;
            },
            RoomTabs::Entities => {
                *self = RoomTabs::Players;
            },
            RoomTabs::Players => {
                *self = RoomTabs::QRCode;
            },
        }
    }
}

/// What is shown comes round in the order of the names, and each of them comes.
pub proof fn tabs_come_round(tab: RoomTabs)
    ensures
        tab.after().place() == (tab.place() + 1) % 3,
        tab.after().after().after() == tab,
        tab.after() != tab,
        tab.after().after() != tab,
{
}

/// A key.
#[derive(Clone, Copy, Debug, PartialEq, Eq, Structural)]
pub enum Key {
    Up,
    Down,
    Left,
    Right,
    Tab,
    Backspace,
    Delete,
    Esc,
    Char(char),
    /// Any other.
    Other,
}

/// What the operator sees.
pub struct TuiState {
    /// The line up to which the log is scrolled, or none when its end is shown.
    pub log_scroll_state: Option<usize>,
    /// The place of the room that is selected.
    pub rooms_list_state: Option<usize>,
    /// The place of the entity or player that is selected.
    pub rooms_entity_list_state: Option<usize>,
    pub log: Option<TuiWriter>,
    pub accessible_host: String,
    pub app_focus: AppFocus,
    pub room_tab: RoomTabs,
}

/// What [`QrCode`] and [`unicode::Dense1x2`] make of a text, where it can be made into a code.
pub uninterp spec fn qr_code(text: Seq<char>) -> Option<Seq<char>>;

/// [`QrCode::new`] makes a code of a text unless it is too long, and
/// [`qrcode::render::Renderer::build`] draws it with characters.
#[verifier::external_body]
fn draw_qr(text: &str) -> (r: Option<String>)
    ensures
        qr_code(text@) == match r {
            Some(code) => Some(code@),
            None => None,
        },
{
    let code = QrCode::new(text).ok()?;
    Some(code.render::<unicode::Dense1x2>().build())
}

/// The address under which players join a room.
pub open spec fn join_url(accessible_host: Seq<char>, code: Seq<char>) -> Seq<char> {
    "https://"@ + accessible_host + "?code="@ + code
}

/// The address under which players join a room.
pub fn join_address(accessible_host: &str, code: &str) -> (r: String)
    ensures
        r@ == join_url(accessible_host@, code@),
{
    let mut url = concat2("https://", accessible_host);
    url.push_str("?code=");
    url.push_str(code);
    url
}

/// What is selected after an arrow key: the place before or behind, or the first where nothing was
/// selected.
pub open spec fn moved(selected: Option<usize>, key: Key) -> Option<usize> {
    match key {
        Key::Up => Some(
            match selected {
                Some(place) => if place > 0 {
                    (place - 1) as usize
                } else {
                    0
                },
                None => 0,
            },
        ),
        Key::Down => Some(
            match selected {
                Some(place) => place.wrapping_add(1),
                None => 0,
            },
        ),
        _ => selected,
    }
}

/// What is selected after an arrow key.
fn move_selection(selected: Option<usize>, key: Key) -> (r: Option<usize>)
    ensures
        r == moved(selected, key),
{
    match key {
        Key::Up => Some(
            match selected {
                Some(place) => if place > 0 {
                    place - 1
                } else {
                    0
                },
                None => 0,
            },
        ),
        Key::Down => Some(
            match selected {
                Some(place) => place.wrapping_add(1),
                None => 0,
            },
        ),
        _ => selected,
    }
}

/// The rooms without the one with a code.
pub open spec fn without_room(rooms: Map<Seq<char>, RoomState>, code: Seq<char>) -> Map<
    Seq<char>,
    RoomState,
> {
    rooms.remove(code)
}

/// A selection among `count` items: none where it lies behind the end.
pub open spec fn kept(selected: Option<usize>, count: nat) -> Option<usize> {
    match selected {
        Some(place) => if place < count {
            Some(place)
        } else {
            None
        },
        None => None,
    }
}

/// Whether a room is the one at the place that is selected, or none is selected.
pub open spec fn is_selected(rooms: Seq<Room>, selected: Option<usize>, room: Option<Room>) -> bool {
    match room {
        Some(room) => {
            &&& selected matches Some(place)
            &&& room == rooms[place as int]
            &&& room.wf()
        },
        None => selected is None,
    }
}

/// Whether a text is the code under which players join the room that is selected, or empty where none is.
pub open spec fn is_code(
    accessible_host: Seq<char>,
    rooms: Seq<Room>,
    selected: Option<usize>,
    code: Option<String>,
) -> bool {
    match selected {
        Some(place) => qr_code(
            join_url(accessible_host, rooms[place as int].room_config.code@),
        ) == match code {
            Some(code) => Some(code@),
            None => None,
        },
        None => code matches Some(code) && code@.len() == 0,
    }
}

impl TuiState {
    /// The number of lines of the log.
    pub open spec fn log_count(self) -> nat {
        match self.log {
            Some(log) => log@.len(),
            None => 0,
        }
    }

    /// Nothing is selected, and the keys go to the rooms.
    pub fn new(log: Option<TuiWriter>, accessible_host: String) -> (r: TuiState)
        ensures
            r == (TuiState {
                log_scroll_state: None,
                rooms_list_state: None,
                rooms_entity_list_state: None,
                log,
                accessible_host,
                app_focus: AppFocus::RoomList,
                room_tab: RoomTabs::QRCode,
            }),
    {
        TuiState {
            log_scroll_state: None,
            rooms_list_state: None,
            rooms_entity_list_state: None,
            log,
            accessible_host,
            app_focus: AppFocus::RoomList,
            room_tab: RoomTabs::QRCode,
        }
    }

    /// The number of lines of the log.
    fn lines(&self) -> (r: usize)
        ensures
            r == self.log_count(),
    {
        match &self.log {
            Some(log) => log.count(),
            None => 0,
        }
    }

    /// The screen with another selection among the rooms.
    pub open spec fn with_room(self, selected: Option<usize>) -> TuiState {
        TuiState { rooms_list_state: selected, ..self }
    }

    /// The screen after an arrow key, where there are `rooms` rooms: left and right choose what the
    /// keys go to, up and down move there.
    pub open spec fn arrowed(self, key: Key, rooms: nat) -> TuiState {
        let count = self.log_count();
        match (key, self.app_focus) {
            (Key::Left, _) => TuiState {
                app_focus: AppFocus::RoomList,
                log_scroll_state: None,
                ..self
            },
            (Key::Right, _) => TuiState {
                app_focus: AppFocus::Tracing,
                log_scroll_state: Some(count as usize),
                ..self
            },
            (_, AppFocus::RoomList) => self.with_room(
                kept(moved(self.rooms_list_state, key), rooms),
            ),
            (_, AppFocus::EntityList) => TuiState {
                rooms_entity_list_state: moved(self.rooms_entity_list_state, key),
                ..self
            },
            (Key::Up, AppFocus::Tracing) => {
                let at = match self.log_scroll_state {
                    Some(at) => at as int,
                    None => count as int,
                };
                TuiState {
                    log_scroll_state: Some(
                        if at > 0 {
                            (at - 1) as usize
                        } else {
                            0
                        },
                    ),
                    ..self
                }
            },
            (Key::Down, AppFocus::Tracing) => {
                let at = match self.log_scroll_state {
                    Some(at) => at as int,
                    None => count as int,
                };
                TuiState {
                    log_scroll_state: Some(
                        if at < count {
                            (at + 1) as usize
                        } else {
                            count as usize
                        },
                    ),
                    ..self
                }
            },
            _ => self,
        }
    }

    /// Goes where an arrow key leads.
    pub fn arrow_key(&mut self, key: Key, rooms: &KeyedStore<Room>)
        requires
            rooms.wf(),
        ensures
            *final(self) == old(self).arrowed(key, rooms.listing().len()),
    {
        let count: usize = self.lines();
        match key {
            Key::Left => {
                self.app_focus = AppFocus::RoomList;
                self.log_scroll_state = None;
                return;
            },
            Key::Right => {
                self.app_focus = AppFocus::Tracing;
                self.log_scroll_state = Some(count);
                return;
            },
            _ => {},
        }
        match self.app_focus {
            AppFocus::RoomList => {
                self.rooms_list_state = move_selection(self.rooms_list_state, key);
                let _ = self.selected_room(rooms);
            },
            AppFocus::EntityList => {
                self.rooms_entity_list_state = move_selection(self.rooms_entity_list_state, key);
            },
            AppFocus::Tracing => {
                let at: usize = match self.log_scroll_state {
                    Some(at) => at,
                    None => count,
                };
                match key {
                    Key::Up => {
                        self.log_scroll_state = Some(
                            if at > 0 {
                                at - 1
                            } else {
                                0
                            },
                        );
                    },
                    Key::Down => {
                        self.log_scroll_state = Some(
                            if at < count {
                                at + 1
                            } else {
                                count
                            },
                        );
                    },
                    _ => {},
                }
            },
        }
    }

    /// The room that is selected. Where there is none at the place, nothing is selected any more.
    pub fn selected_room<'a>(&mut self, rooms: &'a KeyedStore<Room>) -> (r: Option<&'a Room>)
        requires
            rooms.wf(),
        ensures
            *final(self) == old(self).with_room(
                kept(old(self).rooms_list_state, rooms.listing().len()),
            ),
            is_selected(
                rooms.listing(),
                final(self).rooms_list_state,
                match r {
                    Some(room) => Some(*room),
                    None => None,
                },
            ),
    {
        match self.rooms_list_state {
            Some(place) => {
                if place < rooms.len() {
                    proof {
                        rooms.lemma_listing();
                        assert(rooms.listing()[place as int].item_wf());
                    }
                    Some(rooms.at(place))
                } else {
                    self.rooms_list_state = None;
                    None
                }
            },
            None => None,
        }
    }

    /// The code under which players join the room that is selected, or nothing where none is. There
    /// is no code only where the address is too long for one.
    pub fn generate_room_qr(&mut self, rooms: &KeyedStore<Room>) -> (r: Option<String>)
        requires
            rooms.wf(),
        ensures
            *final(self) == old(self).with_room(
                kept(old(self).rooms_list_state, rooms.listing().len()),
            ),
            is_code(
                old(self).accessible_host@,
                rooms.listing(),
                final(self).rooms_list_state,
                r,
            ),
    {
        match self.selected_room(rooms) {
            Some(room) => {
                let url = join_address(
                    self.accessible_host.as_str(),
                    room.room_config.code.as_str(),
                );
                draw_qr(url.as_str())
            },
            None => Some(String::new()),
        }
    }

    /// The screen once rooms were closed, of which so many are left.
    pub open spec fn left_with(self, rooms: nat) -> TuiState {
        self.with_room(kept(self.rooms_list_state, rooms))
    }

    /// Takes a room that was closed away.
    pub fn close_room(&mut self, rooms: &mut KeyedStore<Room>, code: &String)
        requires
            old(rooms).wf(),
        ensures
            final(rooms).wf(),
            final(rooms)@ == without_room(old(rooms)@, code@),
            *final(self) == old(self).left_with(final(rooms).listing().len()),
    {
        let _ = rooms.take(code);
        let _ = self.selected_room(rooms);
    }

    /// Whether a room is shown beside the log.
    pub fn shows_room(&self) -> (r: bool)
        ensures
            r == self.rooms_list_state is Some,
    {
        self.rooms_list_state.is_some()
    }

    /// The screen after the key that goes on to what is shown next of a room.
    pub open spec fn tabbed(self) -> TuiState {
        let tab = self.room_tab.after();
        match tab {
            RoomTabs::QRCode => TuiState {
                room_tab: tab,
                app_focus: AppFocus::RoomList,
                rooms_entity_list_state: None,
                ..self
            },
            _ => TuiState { room_tab: tab, app_focus: AppFocus::EntityList, ..self },
        }
    }
}

/// What is done about a key beyond the screen.
#[derive(Clone, Copy, Debug, PartialEq, Eq, Structural)]
pub enum TuiStep {
    /// Nothing.
    Stay,
    /// The server ends.
    Quit,
    /// The room that is selected is closed.
    CloseRoom,
}

/// What a key does: the screen after it, and what is done beyond the screen. Arrow keys count when
/// they are pressed, all others also when they are let go.
pub open spec fn keyed(state: TuiState, key: Key, pressed: bool, rooms: nat) -> (TuiState, TuiStep) {
    match key {
        Key::Char(c) => if c == 'q' {
            (state, TuiStep::Quit)
        } else {
            (state, TuiStep::Stay)
        },
        Key::Esc => (state, TuiStep::Quit),
        Key::Tab => (state.tabbed(), TuiStep::Stay),
        Key::Backspace => (state, TuiStep::CloseRoom),
        Key::Delete => (state, TuiStep::CloseRoom),
        Key::Other => (state, TuiStep::Stay),
        _ => if pressed {
            (state.arrowed(key, rooms), TuiStep::Stay)
        } else {
            (state, TuiStep::Stay)
        },
    }
}

/// Does what a key does.
pub fn tui(state: &mut TuiState, key: Key, pressed: bool, rooms: &KeyedStore<Room>) -> (r: TuiStep)
    requires
        rooms.wf(),
    ensures
        (*final(state), r) == keyed(*old(state), key, pressed, rooms.listing().len()),
{
    match key {
        Key::Char(c) => {
            if c == 'q' {
                return TuiStep::Quit;
            }
        },
        Key::Esc => {
            return TuiStep::Quit;
        },
        Key::Up | Key::Down | Key::Left | Key::Right => {
            if pressed {
                state.arrow_key(key, rooms);
            }
        },
        Key::Tab => {
            state.room_tab.next();
            match state.room_tab {
                RoomTabs::Entities | RoomTabs::Players => {
                    state.app_focus = AppFocus::EntityList;
                },
                RoomTabs::QRCode => {
                    state.app_focus = AppFocus::RoomList;
                    state.rooms_entity_list_state = None;
                },
            }
        },
        Key::Backspace | Key::Delete => {
            return TuiStep::CloseRoom;
        },
        Key::Other => {},
    }
    TuiStep::Stay
}

/// Once the keys have moved among the rooms, what is selected is a room that is there, or nothing.
pub proof fn selected_rooms_are_there(state: TuiState, key: Key, rooms: nat)
    requires
        state.app_focus == AppFocus::RoomList,
        key == Key::Up || key == Key::Down,
    ensures
        state.arrowed(key, rooms).rooms_list_state matches Some(place) ==> place < rooms,
        rooms > 0 && state.rooms_list_state is None ==> state.arrowed(key, rooms).rooms_list_state
            == Some(0usize),
{
}

/// The log is never scrolled beyond its end by a key, and not at all while the keys go elsewhere.
pub proof fn logs_are_scrolled_within(state: TuiState, key: Key, rooms: nat)
    requires
        state.log_count() <= usize::MAX,
        state.log_scroll_state matches Some(at) ==> at <= state.log_count(),
    ensures
        state.arrowed(key, rooms).log_scroll_state matches Some(at) ==> at <= state.log_count(),
        state.arrowed(Key::Left, rooms).log_scroll_state is None,
{
}

} // verus!
