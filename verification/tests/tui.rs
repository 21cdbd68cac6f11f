use johnbox::acl::Role;
use johnbox::ecast::ws::connect_socket;
use johnbox::ecast::WSQuery;
use johnbox::entity::{
    JBAttributes, JBEntity, JBObject, JBRestrictions, JBType, JBValue,
};
use johnbox::room::{JBRoom, Room, Token};
use johnbox::store::KeyedStore;
use johnbox::tui::qr_view::QrView;
use johnbox::tui::room_view::{RoomPicture, RoomView};
use johnbox::tui::rooms_list::{RoomsList, RoomsPicture};
use johnbox::tui::tracing_writer::{
    event_line, level_to_color, scroll_rows, FieldRecord, LogColor, LogLevel, LogLine, ScopeSpan,
    SpanStyle, TuiWriter,
};
use johnbox::tui::{join_address, tui, AppFocus, Key, RoomTabs, TuiState, TuiStep};
use qrcode::render::unicode;
use qrcode::QrCode;

fn room(code: &str) -> Room {
    Room::new(JBRoom {
        app_id: "app".to_owned(),
        app_tag: "tag".to_owned(),
        audience_enabled: false,
        code: code.to_owned(),
        host: "h".to_owned(),
        audience_host: "h".to_owned(),
        locked: false,
        full: false,
        moderation_enabled: false,
        password_required: false,
        twitch_locked: false,
        locale: "en".to_owned(),
        keepalive: false,
    })
}

fn rooms() -> KeyedStore<Room> {
    let mut rooms = KeyedStore::new();
    let mut first = room("AAAA");
    first.entities.put(JBEntity(
        JBType::Text,
        JBObject {
            key: "k".to_owned(),
            val: JBValue::Text { val: "v".to_owned() },
            restrictions: JBRestrictions::default(),
            version: 3,
            from: 1,
        },
        JBAttributes::default(),
    ));
    for (role, name) in [(Role::Host, ""), (Role::Player, "ann")] {
        let query = WSQuery {
            user_id: "u".to_owned(),
            format: "json".to_owned(),
            name: name.to_owned(),
            role,
            host_token: None,
            secret: None,
            id: 0,
        };
        connect_socket(&mut first, query, Token(1)).unwrap();
    }
    rooms.put(first);
    rooms.put(room("BBBB"));
    rooms
}

fn state() -> TuiState {
    TuiState::new(None, "here.example".to_owned())
}

fn press(state: &mut TuiState, key: Key, rooms: &KeyedStore<Room>) -> TuiStep {
    tui(state, key, true, rooms)
}

#[test]
fn tabs_go_round() {
    assert_eq!(RoomTabs::list(), ["QR Code", "Entities", "Players"]);
    let mut tab = RoomTabs::QRCode;
    tab.next();
    assert_eq!(tab, RoomTabs::Entities);
    assert_eq!(tab.index(), 1);
    tab.next();
    assert_eq!(tab, RoomTabs::Players);
    tab.next();
    assert_eq!(tab, RoomTabs::QRCode);
}

#[test]
fn rooms_are_selected() {
    let rooms = rooms();
    let mut s = state();
    press(&mut s, Key::Down, &rooms);
    assert_eq!(s.rooms_list_state, Some(0));
    press(&mut s, Key::Down, &rooms);
    assert_eq!(s.rooms_list_state, Some(1));
    press(&mut s, Key::Down, &rooms);
    assert_eq!(s.rooms_list_state, None);
    press(&mut s, Key::Up, &rooms);
    assert_eq!(s.rooms_list_state, Some(0));
    press(&mut s, Key::Up, &rooms);
    assert_eq!(s.rooms_list_state, Some(0));
    assert!(s.shows_room());
    assert_eq!(s.selected_room(&rooms).unwrap().room_config.code, "AAAA");
    // a key that is let go does nothing
    assert_eq!(tui(&mut s, Key::Down, false, &rooms), TuiStep::Stay);
    assert_eq!(s.rooms_list_state, Some(0));
}

#[test]
fn nothing_is_selected_without_rooms() {
    let rooms: KeyedStore<Room> = KeyedStore::new();
    let mut s = state();
    press(&mut s, Key::Down, &rooms);
    assert_eq!(s.rooms_list_state, None);
    assert_eq!(s.generate_room_qr(&rooms), Some(String::new()));
}

#[test]
fn keys_have_meanings() {
    let rooms = rooms();
    let mut s = state();
    assert_eq!(press(&mut s, Key::Char('q'), &rooms), TuiStep::Quit);
    assert_eq!(press(&mut s, Key::Char('x'), &rooms), TuiStep::Stay);
    assert_eq!(press(&mut s, Key::Esc, &rooms), TuiStep::Quit);
    assert_eq!(press(&mut s, Key::Backspace, &rooms), TuiStep::CloseRoom);
    assert_eq!(press(&mut s, Key::Delete, &rooms), TuiStep::CloseRoom);
    assert_eq!(press(&mut s, Key::Other, &rooms), TuiStep::Stay);
    assert_eq!(press(&mut s, Key::Tab, &rooms), TuiStep::Stay);
    assert_eq!(s.app_focus, AppFocus::EntityList);
    s.rooms_entity_list_state = Some(1);
    press(&mut s, Key::Tab, &rooms);
    assert_eq!(s.room_tab, RoomTabs::Players);
    assert_eq!(s.rooms_entity_list_state, Some(1));
    press(&mut s, Key::Tab, &rooms);
    assert_eq!(s.app_focus, AppFocus::RoomList);
    assert_eq!(s.rooms_entity_list_state, None);
}

#[test]
fn logs_are_scrolled() {
    let rooms = rooms();
    let mut log = TuiWriter::new();
    for _ in 0..3 {
        log.format_event(LogLevel::Info, &Vec::new(), "t", &Vec::new());
    }
    let mut s = TuiState::new(Some(log), "h".to_owned());
    press(&mut s, Key::Right, &rooms);
    assert_eq!(s.app_focus, AppFocus::Tracing);
    assert_eq!(s.log_scroll_state, Some(3));
    press(&mut s, Key::Down, &rooms);
    assert_eq!(s.log_scroll_state, Some(3));
    press(&mut s, Key::Up, &rooms);
    assert_eq!(s.log_scroll_state, Some(2));
    press(&mut s, Key::Down, &rooms);
    assert_eq!(s.log_scroll_state, Some(3));
    for _ in 0..5 {
        press(&mut s, Key::Up, &rooms);
    }
    assert_eq!(s.log_scroll_state, Some(0));
    press(&mut s, Key::Left, &rooms);
    assert_eq!(s.log_scroll_state, None);
    assert_eq!(s.app_focus, AppFocus::RoomList);
}

#[test]
fn entities_are_selected() {
    let rooms = rooms();
    let mut s = state();
    press(&mut s, Key::Down, &rooms);
    press(&mut s, Key::Tab, &rooms);
    press(&mut s, Key::Down, &rooms);
    assert_eq!(s.rooms_entity_list_state, Some(0));
    let (tab, focused, picture) = RoomView(&mut s).render(&rooms);
    assert_eq!(tab, 1);
    assert!(focused);
    match picture {
        RoomPicture::Entities { keys, selected, entity } => {
            assert_eq!(keys, vec!["k"]);
            assert_eq!(selected, Some(0));
            assert_eq!(entity.unwrap().1.version, 3);
        }
        _ => panic!(),
    }
    press(&mut s, Key::Down, &rooms);
    assert_eq!(s.rooms_entity_list_state, Some(1));
    match RoomView(&mut s).render(&rooms).2 {
        RoomPicture::Entities { selected, entity, .. } => {
            assert_eq!(selected, None);
            assert!(entity.is_none());
        }
        _ => panic!(),
    }
    assert_eq!(s.rooms_entity_list_state, None);
    press(&mut s, Key::Up, &rooms);
    assert_eq!(s.rooms_entity_list_state, Some(0));
}

#[test]
fn players_are_named() {
    let rooms = rooms();
    let mut s = state();
    s.room_tab = RoomTabs::Players;
    assert!(matches!(RoomView(&mut s).render(&rooms).2, RoomPicture::Blank));
    s.rooms_list_state = Some(0);
    match RoomView(&mut s).render(&rooms).2 {
        RoomPicture::Players { names, selected } => {
            assert_eq!(names, vec!["Host", "ann"]);
            assert_eq!(selected, None);
        }
        _ => panic!(),
    }
}

#[test]
fn codes_are_drawn() {
    assert_eq!(join_address("here.example", "AAAA"), "https://here.example?code=AAAA");
    let expected = QrCode::new("https://here.example?code=BBBB")
        .unwrap()
        .render::<unicode::Dense1x2>()
        .build();
    let rooms = rooms();
    let mut s = state();
    s.rooms_list_state = Some(1);
    assert_eq!(QrView(&mut s).render(&rooms), Some(expected.clone()));
    match RoomView(&mut s).render(&rooms).2 {
        RoomPicture::Code { code } => assert_eq!(code, Some(expected)),
        _ => panic!(),
    }
    s.rooms_list_state = Some(9);
    assert_eq!(QrView(&mut s).render(&rooms), Some(String::new()));
    assert_eq!(s.rooms_list_state, None);
    let mut long = TuiState::new(None, "x".repeat(4000));
    long.rooms_list_state = Some(0);
    assert_eq!(QrView(&mut long).render(&rooms), None);
}

#[test]
fn lists_show_rooms() {
    let mut s = state();
    let none: KeyedStore<Room> = KeyedStore::new();
    assert!(matches!(
        RoomsList(&mut s).render(&none),
        RoomsPicture::Notice("No rooms have been created yet")
    ));
    s.rooms_list_state = Some(1);
    match RoomsList(&mut s).render(&rooms()) {
        RoomsPicture::Items { items, selected } => {
            assert_eq!(items, vec!["AAAA - tag", "BBBB - tag"]);
            assert_eq!(selected, Some(1));
        }
        _ => panic!(),
    }
}

#[test]
fn closed_rooms_are_gone() {
    let mut rooms = rooms();
    let mut s = state();
    s.rooms_list_state = Some(1);
    s.close_room(&mut rooms, &"BBBB".to_owned());
    assert_eq!(rooms.len(), 1);
    assert!(rooms.get("BBBB").is_none());
    assert_eq!(s.rooms_list_state, None);
}

fn parts(line: &LogLine) -> Vec<(&str, SpanStyle)> {
    line.spans.iter().map(|s| (s.text.as_str(), s.style)).collect()
}

#[test]
fn events_are_lines() {
    let scope = vec![
        ScopeSpan { name: "outer".to_owned(), fields: Some("a=1".to_owned()) },
        ScopeSpan { name: "inner".to_owned(), fields: Some(String::new()) },
        ScopeSpan { name: "bare".to_owned(), fields: None },
    ];
    let text = |name: &str, value: &str| FieldRecord::Text {
        name: name.to_owned(),
        value: value.to_owned(),
        debug: format!("{:?}", value),
    };
    let records = vec![
        text("message", "hi"),
        text("name", "x"),
        FieldRecord::Debug { name: "log.file".to_owned(), debug: "f".to_owned() },
        FieldRecord::Debug { name: "r#type".to_owned(), debug: "3".to_owned() },
        FieldRecord::Failure {
            name: "error".to_owned(),
            value: "bad".to_owned(),
            sources: vec!["one".to_owned(), "two".to_owned()],
        },
        FieldRecord::Failure {
            name: "error".to_owned(),
            value: "bad".to_owned(),
            sources: Vec::new(),
        },
    ];
    let line = event_line(LogLevel::Warn, &scope, "johnbox", &records);
    assert_eq!(
        parts(&line),
        vec![
            (" WARN ", SpanStyle::Colored(LogColor::LightYellow)),
            ("outer", SpanStyle::Bold),
            ("{", SpanStyle::Bold),
            ("a=1", SpanStyle::Plain),
            ("}", SpanStyle::Bold),
            (":", SpanStyle::Dim),
            ("inner", SpanStyle::Bold),
            (":", SpanStyle::Dim),
            ("bare", SpanStyle::Bold),
            (":", SpanStyle::Dim),
            (" ", SpanStyle::Plain),
            ("johnbox: ", SpanStyle::Dim),
            ("hi ", SpanStyle::Plain),
            ("name", SpanStyle::Italic),
            ("=\"x\" ", SpanStyle::Plain),
            ("type", SpanStyle::Italic),
            ("=3 ", SpanStyle::Plain),
            ("bad, ", SpanStyle::Plain),
            ("error.sources", SpanStyle::Bold),
            (": [one, two]", SpanStyle::Plain),
            ("error", SpanStyle::Italic),
            ("=bad ", SpanStyle::Plain),
        ]
    );
    let line = event_line(LogLevel::Error, &Vec::new(), "t", &Vec::new());
    assert_eq!(
        parts(&line),
        vec![
            ("ERROR ", SpanStyle::Colored(LogColor::LightRed)),
            ("t: ", SpanStyle::Dim),
        ]
    );
}

#[test]
fn levels_have_colors() {
    assert_eq!(level_to_color(LogLevel::Info), LogColor::LightGreen);
    assert_eq!(level_to_color(LogLevel::Debug), LogColor::LightBlue);
    assert_eq!(level_to_color(LogLevel::Trace), LogColor::LightCyan);
    assert_eq!(LogLevel::Trace.as_str(), "TRACE");
}

#[test]
fn lines_are_shown() {
    let mut log = TuiWriter::new();
    for i in 0..5 {
        log.format_event(LogLevel::Info, &Vec::new(), &format!("t{}", i), &Vec::new());
    }
    assert_eq!(log.count(), 5);
    let targets = |lines: Vec<LogLine>| -> Vec<String> {
        lines.iter().map(|l| l.spans[1].text.clone()).collect()
    };
    assert_eq!(targets(log.text(1..3)), vec!["t1: ", "t2: "]);
    assert_eq!(targets(log.text(4..9)), vec!["t4: "]);
    assert_eq!(targets(log.text(7..9)), Vec::<String>::new());
    assert_eq!(targets(log.text(3..3)), Vec::<String>::new());
    assert_eq!(targets(log.shown(None, 2)), vec!["t3: ", "t4: "]);
    assert_eq!(targets(log.shown(Some(2), 9)), vec!["t0: ", "t1: "]);
    assert_eq!(scroll_rows(10, 4), 6);
    assert_eq!(scroll_rows(4, 10), 0);
    assert_eq!(scroll_rows(0x1_0003, 1), 2);
}
