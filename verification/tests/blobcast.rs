use johnbox::acl::Role;
use johnbox::blobcast::ws::{
    app_tag, connect_socket, create_room_text, handle_socket, handle_socket_proxy, is_acceptable,
    process_message, ConnectError, FrameError, JBAction, JBEvent, JBMessage, JBMessageArgs,
    JBResponse, JBResponseArgs, JBResultAction, JBSessionModule, JBSessionModuleWithArgs,
    JBSessionModuleWithResponse, WSMessage,
};
use johnbox::ecast::ws::{JBResult, ProcessError};
use johnbox::ecast::WSQuery;
use johnbox::effect::Effect;
use johnbox::entity::{JBCountGroup, JBValue};
use johnbox::frame::{logged, Flow, Frame, RelayError, SocketAction, SocketEvent};
use johnbox::json::Json;
use johnbox::room::{Client, ClientType, Room, Token};

fn action(action: JBAction) -> JBMessage {
    JBMessage::Msg(JBMessageArgs::Action {
        app_id: "app-1".to_owned(),
        user_id: "user-1".to_owned(),
        action,
    })
}

fn tags() -> Vec<(String, String)> {
    vec![
        ("app-0".to_owned(), "fibbage".to_owned()),
        ("app-1".to_owned(), "drawful".to_owned()),
        ("app-1".to_owned(), "other".to_owned()),
    ]
}

/// A room with its host (1) and two players (2, 3).
fn room() -> (Room, Client) {
    let opened = connect_socket(
        Some(action(JBAction::CreateRoom { options: "{}".to_owned() })),
        &tags(),
        "ABCD".to_owned(),
        "here.example".to_owned(),
        Token(1),
    )
    .unwrap_or_else(|_| panic!());
    let mut room = opened.room;
    let host = opened.client;
    room.connections.put(host.clone());
    for name in ["ann", "bob"] {
        let query = WSQuery {
            user_id: name.to_owned(),
            format: "json".to_owned(),
            name: name.to_owned(),
            role: Role::Player,
            host_token: None,
            secret: None,
            id: 0,
        };
        johnbox::ecast::ws::connect_socket(&mut room, query, Token(2)).unwrap();
    }
    (room, host)
}

fn send(room: &mut Room, host: &Client, a: JBAction) -> Vec<Effect> {
    let message = action(a);
    assert!(is_acceptable(&message, room));
    let effects = process_message(host, message, room).unwrap_or_else(|_| panic!());
    let mut kept = Vec::new();
    for effect in effects {
        match effect {
            Effect::Change { change } => room.apply(change),
            other => kept.push(other),
        }
    }
    kept
}

fn result_of(effect: &Effect) -> &JBResultAction {
    match effect {
        Effect::Blobcast { to, response: JBResponse::Msg([JBResponseArgs::Outcome { result, success }]) } => {
            assert_eq!(*to, vec![1]);
            assert!(*success);
            result
        }
        _ => panic!(),
    }
}

#[test]
fn frames_are_read() {
    let m = WSMessage::from_str("5:::{\"name\":\"msg\"}").unwrap();
    assert_eq!(m._opcode, 5);
    assert_eq!(m.message, Some("{\"name\":\"msg\"}".to_owned()));
    let m = WSMessage::from_str("2::").unwrap();
    assert_eq!(m._opcode, 2);
    assert_eq!(m.message, None);
    let m = WSMessage::from_str("+5::x::y").unwrap();
    assert_eq!(m.message, Some("::y".to_owned()));
    assert_eq!(WSMessage::from_str("5:::").unwrap().message, Some(String::new()));
    assert_eq!(WSMessage::from_str("255::").unwrap()._opcode, 255);
}

#[test]
fn bad_frames_are_refused() {
    assert_eq!(WSMessage::from_str("hello").err(), Some(FrameError::NoSeparator));
    assert_eq!(WSMessage::from_str("x::").err(), Some(FrameError::InvalidOpcode));
    assert_eq!(WSMessage::from_str("::").err(), Some(FrameError::InvalidOpcode));
    assert_eq!(WSMessage::from_str("+::").err(), Some(FrameError::InvalidOpcode));
    assert_eq!(WSMessage::from_str("256::").err(), Some(FrameError::InvalidOpcode));
    assert_eq!(WSMessage::from_str("-1::").err(), Some(FrameError::InvalidOpcode));
    assert_eq!(WSMessage::from_str("5::").err(), Some(FrameError::NoMessage));
    assert_eq!(WSMessage::from_str("5::\u{e4}x").err(), Some(FrameError::NoMessage));
}

#[test]
fn rooms_are_opened_for_hosts() {
    let opened = connect_socket(
        Some(action(JBAction::CreateRoom { options: "{}".to_owned() })),
        &tags(),
        "ABCD".to_owned(),
        "here.example".to_owned(),
        Token(8),
    )
    .unwrap_or_else(|_| panic!());
    assert_eq!(opened.room.room_config.app_tag, "drawful");
    assert_eq!(opened.room.room_config.app_id, "app-1");
    assert_eq!(opened.room.room_config.code, "ABCD");
    assert_eq!(opened.room.room_config.host, "here.example");
    assert!(opened.room.room_config.audience_enabled);
    assert_eq!(opened.room.room_serial, 2);
    assert_eq!(opened.room.connections.len(), 0);
    assert_eq!(opened.client.profile.id, 1);
    assert_eq!(opened.client.profile.role, Role::Host);
    assert_eq!(opened.client.profile.user_id, "user-1");
    assert_eq!(opened.client.client_type, ClientType::Blobcast);
    assert_eq!(opened.client.secret, Token(8));
    let JBResponse::Msg([args]) = opened.response;
    assert!(matches!(
        args,
        JBResponseArgs::Outcome { result: JBResultAction::CreateRoom { room_id }, success: true }
            if room_id == "ABCD"
    ));
}

#[test]
fn other_first_messages_are_refused() {
    let open = |message| {
        connect_socket(message, &tags(), "A".to_owned(), "h".to_owned(), Token(0)).err()
    };
    assert_eq!(open(None), Some(ConnectError::NoMessage));
    let lock = action(JBAction::LockRoom { room_id: "A".to_owned() });
    assert_eq!(open(Some(lock)), Some(ConnectError::NotCreateRoom));
    assert_eq!(create_room_text(Frame::Binary(vec![])), Err(ConnectError::NotText));
    assert_eq!(create_room_text(Frame::Text("t".to_owned())), Ok("t".to_owned()));
    assert_eq!(app_tag(&tags(), "app-9"), "");
}

#[test]
fn room_blob_reaches_all() {
    let (mut room, host) = room();
    for version in 0..2 {
        let effects = send(
            &mut room,
            &host,
            JBAction::SetRoomBlob { blob: "{\"a\":1}".to_owned(), room_id: "ABCD".to_owned() },
        );
        assert_eq!(effects.len(), 3);
        match &effects[0] {
            Effect::Ecast { to, message } => {
                let mut to = to.clone();
                to.sort();
                assert_eq!(to, vec![2, 3]);
                assert!(matches!(&message.result, JBResult::Object(o) if o.version == version));
            }
            _ => panic!(),
        }
        match &effects[1] {
            Effect::Blobcast { to, response: JBResponse::Msg([JBResponseArgs::Event { room_id, event }]) } => {
                assert_eq!(*to, vec![1]);
                assert_eq!(room_id, "ABCD");
                assert!(matches!(
                    event,
                    JBEvent::RoomBlobChanged { blob: JBValue::Object { val } } if val == "{\"a\":1}"
                ));
            }
            _ => panic!(),
        }
        assert!(matches!(result_of(&effects[2]), JBResultAction::SetRoomBlob {}));
    }
    assert_eq!(room.entities.get("bc:room").unwrap().1.version, 1);
}

#[test]
fn customer_blob_reaches_one() {
    let (mut room, host) = room();
    let blob = |user: &str| JBAction::SetCustomerBlob {
        blob: "{}".to_owned(),
        customer_user_id: user.to_owned(),
        room_id: "ABCD".to_owned(),
    };
    let effects = send(&mut room, &host, blob("bob"));
    assert_eq!(effects.len(), 1);
    match &effects[0] {
        Effect::Ecast { to, message } => {
            assert_eq!(*to, vec![3]);
            assert!(matches!(&message.result, JBResult::Object(o) if o.key == "bc:customer:bob"));
        }
        _ => panic!(),
    }
    let entity = room.entities.get("bc:customer:bob").unwrap();
    assert!(entity.2.is_readable_by(Role::Player, 3));
    assert!(!entity.2.is_readable_by(Role::Player, 2));
    assert!(!entity.2.is_writable_by(Role::Player, 3));
    assert_eq!(send(&mut room, &host, blob("nobody")).len(), 0);
    assert!(room.entities.get("bc:customer:nobody").unwrap().2.is_readable_by(Role::Player, 0));
}

#[test]
fn rooms_are_locked() {
    let (mut room, host) = room();
    let effects = send(&mut room, &host, JBAction::LockRoom { room_id: "other".to_owned() });
    assert!(matches!(
        result_of(&effects[0]),
        JBResultAction::LockRoom { room_id } if room_id == "ABCD"
    ));
    assert!(room.room_config.locked);
}

#[test]
fn second_rooms_are_refused() {
    let (room, host) = room();
    let message = action(JBAction::CreateRoom { options: String::new() });
    assert_eq!(
        process_message(&host, message, &room).err(),
        Some(ProcessError::AlreadyCreated)
    );
}

fn group() -> JBCountGroup {
    let options = vec![Json::Text("a".to_owned()), Json::Text("b".to_owned())];
    JBCountGroup::from_options(&options, None).unwrap()
}

#[test]
fn votes_are_started_asked_for_and_stopped() {
    let (mut room, host) = room();
    let name = || "vote".to_owned();
    let id = || "ABCD".to_owned();
    let effects = send(
        &mut room,
        &host,
        JBAction::StartSession {
            module: JBSessionModuleWithArgs::Vote(group()),
            name: name(),
            room_id: id(),
        },
    );
    assert_eq!(effects.len(), 2);
    match &effects[0] {
        Effect::Ecast { to, message } => {
            assert_eq!(to.len(), 2);
            assert!(matches!(message.result, JBResult::AudienceCountGroup(_)));
        }
        _ => panic!(),
    }
    assert!(matches!(
        result_of(&effects[1]),
        JBResultAction::StartSession { module: JBSessionModuleWithResponse::Vote(c), name }
            if c.len() == 2 && name == "vote"
    ));
    let mut changed = room.entities.take(&name()).unwrap();
    if let JBValue::AudienceCountGroup(group) = &mut changed.1.val {
        group.add_votes(&"b".to_owned(), 3);
    }
    room.entities.put(changed);
    let status = JBAction::GetSessionStatus {
        module: JBSessionModule::Vote,
        name: name(),
        room_id: id(),
    };
    let effects = send(&mut room, &host, status);
    match result_of(&effects[0]) {
        JBResultAction::GetSessionStatus { module: JBSessionModuleWithResponse::Vote(c), .. } => {
            assert_eq!(c.get("b"), Some(&3));
            assert_eq!(c.get("a"), Some(&0));
        }
        _ => panic!(),
    }
    let stop = || JBAction::StopSession {
        module: JBSessionModule::Vote,
        name: name(),
        room_id: id(),
    };
    let effects = send(&mut room, &host, stop());
    match result_of(&effects[0]) {
        JBResultAction::StopSession { module: JBSessionModuleWithResponse::Vote(c), .. } => {
            assert_eq!(c.get("b"), Some(&3));
        }
        _ => panic!(),
    }
    assert!(room.entities.get("vote").is_none());
    assert_eq!(send(&mut room, &host, stop()).len(), 0);
    let status = JBAction::GetSessionStatus {
        module: JBSessionModule::Vote,
        name: name(),
        room_id: id(),
    };
    assert_eq!(send(&mut room, &host, status).len(), 0);
}

#[test]
fn audiences_are_answered_with_their_count() {
    let (mut room, host) = room();
    let start = || JBAction::StartSession {
        module: JBSessionModuleWithArgs::Audience,
        name: "audience".to_owned(),
        room_id: "ABCD".to_owned(),
    };
    let count = |action: &JBResultAction| match action {
        JBResultAction::StartSession { module: JBSessionModuleWithResponse::Audience(v), .. }
        | JBResultAction::StopSession { module: JBSessionModuleWithResponse::Audience(v), .. }
        | JBResultAction::GetSessionStatus {
            module: JBSessionModuleWithResponse::Audience(v), ..
        } => match v {
            JBValue::AudiencePnCounter { count } => *count,
            _ => panic!(),
        },
        _ => panic!(),
    };
    assert_eq!(count(result_of(&send(&mut room, &host, start())[0])), 0);
    let query = WSQuery {
        user_id: "e".to_owned(),
        format: "json".to_owned(),
        name: "e".to_owned(),
        role: Role::Audience,
        host_token: None,
        secret: None,
        id: 0,
    };
    johnbox::ecast::ws::connect_socket(&mut room, query, Token(2)).unwrap();
    assert_eq!(count(result_of(&send(&mut room, &host, start())[0])), 1);
    let status = JBAction::GetSessionStatus {
        module: JBSessionModule::Audience,
        name: "audience".to_owned(),
        room_id: "ABCD".to_owned(),
    };
    assert_eq!(count(result_of(&send(&mut room, &host, status)[0])), 1);
    let stop = JBAction::StopSession {
        module: JBSessionModule::Audience,
        name: "audience".to_owned(),
        room_id: "ABCD".to_owned(),
    };
    assert_eq!(count(result_of(&send(&mut room, &host, stop)[0])), 1);
    assert!(room.entities.get("audience").is_none());
}

#[test]
fn stopping_what_is_no_vote_is_not_acceptable() {
    let (mut room, host) = room();
    send(
        &mut room,
        &host,
        JBAction::SetRoomBlob { blob: "{}".to_owned(), room_id: String::new() },
    );
    let stop = |name: &str| {
        action(JBAction::StopSession {
            module: JBSessionModule::Vote,
            name: name.to_owned(),
            room_id: String::new(),
        })
    };
    assert!(!is_acceptable(&stop("bc:room"), &room));
    assert!(is_acceptable(&stop("missing"), &room));
}

#[test]
fn modules_have_kinds() {
    assert_eq!(JBSessionModule::from(JBSessionModuleWithArgs::Audience), JBSessionModule::Audience);
    assert_eq!(
        JBSessionModule::from(JBSessionModuleWithArgs::Vote(group())),
        JBSessionModule::Vote
    );
}

#[test]
fn hosts_are_kept_alive() {
    assert!(matches!(
        handle_socket(SocketEvent::Idle),
        (SocketAction::Send(t), Flow::Announce) if t == "2:::"
    ));
    assert!(matches!(handle_socket(SocketEvent::Ended), (SocketAction::Idle, Flow::Leave)));
    assert!(matches!(
        handle_socket_proxy(Frame::Text("x".to_owned())),
        Ok(Frame::Text(t)) if t == "x"
    ));
    assert_eq!(handle_socket_proxy(Frame::Raw).err(), Some(RelayError::RawFrame));
}

#[test]
fn logs_name_the_opcode() {
    assert_eq!(logged("5:::{}"), ("5".to_owned(), Some("{}".to_owned())));
    assert_eq!(logged("2::"), ("2::".to_owned(), None));
    assert_eq!(logged("5:::a:::b"), ("5".to_owned(), Some("a".to_owned())));
}
