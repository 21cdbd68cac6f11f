use johnbox::acl::{Acl, Interest, Principle, Role};
use johnbox::blobcast::ws::{JBEvent, JBResponse as Hosted, JBResponseArgs};
use johnbox::ecast::ws::{
    audience, connect_socket, greet, handle_socket, handle_socket_proxy, is_acceptable,
    number_step, process_message, ConnectError, CreateValue, DoodleConfig, JBClientSendParams,
    JBCountGroupIncrementParams, JBCounterIncrementParams, JBCreateParams, JBKeyParam,
    JBKeyWithLine, JBParams, JBResult, NumberStep, ProcessError, WSMessage, ONE,
};
use johnbox::ecast::{
    app_config_handler, app_config_url, play_handler, play_url, room_url, rooms_get_handler,
    rooms_handler, rooms_url, AppConfigPlan, JBResponse, JBResponseBody, OpMode, PlayPlan,
    RoomError, RoomRequest, RoomResponse, RoomSource, WSQuery,
};
use johnbox::effect::{recipients, Effect, Target};
use johnbox::entity::{
    Color, JBCountGroup, JBDoodle, JBLine, JBPoint, JBRestrictions, JBSize, JBType, JBValue,
};
use johnbox::frame::{Flow, Frame, RelayError, SocketAction, SocketEvent};
use johnbox::json::Json;
use johnbox::room::{
    change_room, join_room, Client, ClientType, JBProfile, JBProfileRoles, JBRoom, Room,
    RoomChange, Token,
};
use johnbox::store::KeyedStore;

fn config(code: &str) -> JBRoom {
    JBRoom {
        app_id: "app".to_owned(),
        app_tag: "quiplash2".to_owned(),
        audience_enabled: true,
        code: code.to_owned(),
        host: "upstream.example".to_owned(),
        audience_host: "here.example".to_owned(),
        locked: false,
        full: false,
        moderation_enabled: false,
        password_required: false,
        twitch_locked: false,
        locale: "en".to_owned(),
        keepalive: false,
    }
}

fn query(role: Role, name: &str) -> WSQuery {
    WSQuery {
        user_id: format!("user-{}", name),
        format: "json".to_owned(),
        name: name.to_owned(),
        role,
        host_token: None,
        secret: None,
        id: 0,
    }
}

fn doodle(max_layer: usize) -> JBDoodle {
    JBDoodle {
        colors: Vec::new(),
        live: true,
        max_points: 100,
        max_layer,
        size: JBSize { width: 10, height: 20 },
        weights: None,
        lines: Vec::new(),
    }
}

fn line(index: usize) -> JBLine {
    JBLine {
        color: Color { r: 1, g: 2, b: 3, a: 255 },
        weight: 0,
        layer: 0,
        points: vec![JBPoint { x: 0, y: 0 }],
        index,
    }
}

fn create(key: &str, val: Option<CreateValue>) -> JBCreateParams {
    JBCreateParams {
        key: key.to_owned(),
        acl: Acl::default_vec(),
        val,
        restrictions: JBRestrictions::default(),
        doodle: doodle(0),
        count_group: JBCountGroup::new(None),
    }
}

fn text(s: &str) -> Option<CreateValue> {
    Some(CreateValue::Val(Json::Text(s.to_owned())))
}

fn key(key: &str) -> JBKeyParam {
    JBKeyParam { key: key.to_owned() }
}

const QUIET: DoodleConfig = DoodleConfig { render: false };

/// Lets a connection send a message, applies the changes, and gives back the effects.
fn send(room: &mut Room, client: &Client, params: JBParams) -> Vec<Effect> {
    send_with(room, client, params, QUIET, 0).unwrap()
}

fn send_with(
    room: &mut Room,
    client: &Client,
    params: JBParams,
    cfg: DoodleConfig,
    next: u64,
) -> Result<Vec<Effect>, ProcessError> {
    let message = WSMessage { params, seq: 7 };
    assert!(is_acceptable(&message, room));
    let effects = process_message(client, message, room, &cfg, next)?;
    let mut kept = Vec::new();
    for effect in effects {
        match effect {
            Effect::Change { change } => {
                kept.push(Effect::Change { change: RoomChange::LockRoom });
                room.apply(change);
            }
            other => kept.push(other),
        }
    }
    Ok(kept)
}

/// A room with a host (1), two players (2, 3) and one of the audience (100).
fn full_room() -> (Room, Client, Client, Client, Client) {
    let mut room = Room::new(config("ABCD"));
    let host = connect_socket(&mut room, query(Role::Host, "host"), Token(1)).unwrap().1;
    let ann = connect_socket(&mut room, query(Role::Player, "ann"), Token(2)).unwrap().1;
    let bob = connect_socket(&mut room, query(Role::Player, "bob"), Token(3)).unwrap().1;
    let eve = connect_socket(&mut room, query(Role::Audience, "eve"), Token(4)).unwrap().1;
    (room, host, ann, bob, eve)
}

fn ids(mut to: Vec<i64>) -> Vec<i64> {
    to.sort();
    to
}

fn is_okay(effect: &Effect, id: i64) -> bool {
    match effect {
        Effect::Ecast { to, message } => {
            *to == vec![id]
                && message.pc == 0
                && message.re == Some(7)
                && matches!(message.result, JBResult::Okay {})
        }
        _ => false,
    }
}

#[test]
fn connections_are_numbered() {
    let (room, host, ann, bob, eve) = full_room();
    assert_eq!(host.profile.id, 1);
    assert_eq!(ann.profile.id, 2);
    assert_eq!(bob.profile.id, 3);
    assert_eq!(eve.profile.id, 100);
    assert_eq!(room.room_serial, 4);
    assert_eq!(room.connections.len(), 4);
    assert_eq!(audience(&room), 1);
    assert_eq!(ann.secret, Token(2));
    assert_eq!(ann.client_type, ClientType::Ecast);
    match ann.profile.roles {
        JBProfileRoles::Player { name } => assert_eq!(name, "ann"),
        _ => panic!(),
    }
    assert!(matches!(host.profile.roles, JBProfileRoles::Host {}));
    assert!(matches!(eve.profile.roles, JBProfileRoles::Unset));
}

#[test]
fn second_of_the_audience_is_two_hundred() {
    let (mut room, _, _, _, _) = full_room();
    let two = connect_socket(&mut room, query(Role::Audience, "fay"), Token(5)).unwrap().1;
    assert_eq!(two.profile.id, 200);
    assert_eq!(audience(&room), 2);
}

#[test]
fn audience_of_another_kind_is_one_hundred() {
    let mut room = Room::new(config("ABCD"));
    let host = connect_socket(&mut room, query(Role::Host, "h"), Token(1)).unwrap().1;
    send(&mut room, &host, JBParams::TextCreate(create("audience", text("x"))));
    let one = connect_socket(&mut room, query(Role::Audience, "a"), Token(2)).unwrap().1;
    assert_eq!(one.profile.id, 100);
    assert_eq!(audience(&room), 0);
}

#[test]
fn moderators_are_refused() {
    let mut room = Room::new(config("ABCD"));
    let refused = connect_socket(&mut room, query(Role::Moderator, "m"), Token(1));
    assert_eq!(refused.err(), Some(ConnectError::UnimplementedRole(Role::Moderator)));
    assert_eq!(room.room_serial, 1);
    assert_eq!(room.connections.len(), 0);
}

#[test]
fn known_connections_come_back() {
    let (mut room, _, ann, _, _) = full_room();
    let mut again = query(Role::Player, "other");
    again.id = ann.profile.id;
    let (reconnected, client) = connect_socket(&mut room, again, Token(9)).unwrap();
    assert!(reconnected);
    assert_eq!(client.profile.name, "ann");
    assert_eq!(client.secret, Token(2));
    assert_eq!(room.room_serial, 4);
}

#[test]
fn own_secret_is_kept() {
    let mut room = Room::new(config("ABCD"));
    let mut q = query(Role::Host, "h");
    q.secret = Some(Token(77));
    assert_eq!(connect_socket(&mut room, q, Token(1)).unwrap().1.secret, Token(77));
}

#[test]
fn created_text_is_shown_stored_and_read() {
    let (mut room, host, ann, _, _) = full_room();
    let effects = send(&mut room, &host, JBParams::TextCreate(create("k", text("hello"))));
    assert_eq!(effects.len(), 3);
    match &effects[0] {
        Effect::Ecast { to, message } => {
            assert_eq!(ids(to.clone()), vec![2, 3, 100]);
            assert_eq!(message.re, None);
            match &message.result {
                JBResult::Text(object) => {
                    assert_eq!(object.key, "k");
                    assert_eq!(object.version, 0);
                    assert_eq!(object.from, 1);
                    assert!(matches!(&object.val, JBValue::Text { val } if val == "hello"));
                }
                _ => panic!(),
            }
        }
        _ => panic!(),
    }
    assert!(matches!(effects[1], Effect::Change { .. }));
    assert!(is_okay(&effects[2], 1));

    let read = send(&mut room, &ann, JBParams::TextGet(key("k")));
    assert_eq!(read.len(), 1);
    match &read[0] {
        Effect::Ecast { to, message } => {
            assert_eq!(*to, vec![2]);
            assert_eq!(message.re, Some(7));
            assert!(matches!(
                &message.result,
                JBResult::Text(o) if matches!(&o.val, JBValue::Text { val } if val == "hello")
            ));
        }
        _ => panic!(),
    }
}

#[test]
fn reading_names_the_kind_that_was_asked_for() {
    let (mut room, host, ann, _, _) = full_room();
    send(&mut room, &host, JBParams::TextCreate(create("k", text("hello"))));
    let read = send(&mut room, &ann, JBParams::NumberGet(key("k")));
    assert!(matches!(
        &read[0],
        Effect::Ecast { message, .. } if matches!(message.result, JBResult::Number(_))
    ));
    assert_eq!(send(&mut room, &ann, JBParams::TextGet(key("missing"))).len(), 0);
}

#[test]
fn players_cannot_bring_new_entities() {
    let (mut room, _, ann, _, _) = full_room();
    let effects = send(&mut room, &ann, JBParams::TextSet(create("mine", text("x"))));
    assert_eq!(effects.len(), 1);
    match &effects[0] {
        Effect::Ecast { to, message } => {
            assert_eq!(*to, vec![2]);
            assert_eq!(message.re, None);
            assert!(matches!(message.result, JBResult::Error("Permission denied")));
        }
        _ => panic!(),
    }
    assert!(room.entities.get("mine").is_none());
}

#[test]
fn refusal_comes_before_a_bad_value() {
    let (mut room, _, ann, _, _) = full_room();
    let bad = create("mine", Some(CreateValue::Count(3)));
    let effects = send(&mut room, &ann, JBParams::TextSet(bad));
    assert!(matches!(
        &effects[0],
        Effect::Ecast { message, .. } if matches!(message.result, JBResult::Error(_))
    ));
}

#[test]
fn players_can_replace_what_is_there() {
    let (mut room, host, ann, _, _) = full_room();
    let mut params = create("k", text("one"));
    params.acl = vec![Acl {
        interest: Interest { readable: true, writable: false },
        principle: Principle::Id(2),
    }];
    send(&mut room, &host, JBParams::TextCreate(params));
    send(&mut room, &host, JBParams::Lock(key("k")));
    assert!(room.entities.get("k").unwrap().2.locked);
    let effects = send(&mut room, &ann, JBParams::TextUpdate(create("k", text("two"))));
    match &effects[0] {
        Effect::Ecast { to, .. } => assert_eq!(*to, vec![1]),
        _ => panic!(),
    }
    let entity = room.entities.get("k").unwrap();
    assert_eq!(entity.1.version, 1);
    assert_eq!(entity.1.from, 2);
    assert!(!entity.2.locked);
    assert_eq!(entity.2.acl.len(), 1);
    assert!(entity.2.is_readable_by(Role::Player, 2));
    assert!(!entity.2.is_readable_by(Role::Player, 3));
}

#[test]
fn values_fit_their_kinds() {
    let (mut room, host, _, _, _) = full_room();
    let bits = 4.5f64.to_bits();
    send(
        &mut room,
        &host,
        JBParams::NumberCreate(create(
            "n",
            Some(CreateValue::Val(Json::Number { bits, text: "4.5".to_owned() })),
        )),
    );
    assert!(matches!(room.entities.get("n").unwrap().1.val, JBValue::Number { val } if val == bits));
    send(
        &mut room,
        &host,
        JBParams::ObjectCreate(create(
            "o",
            Some(CreateValue::Val(Json::Object("{\"a\":1}".to_owned()))),
        )),
    );
    assert!(matches!(
        &room.entities.get("o").unwrap().1.val,
        JBValue::Object { val } if val == "{\"a\":1}"
    ));
    send(&mut room, &host, JBParams::TextCreate(create("t", None)));
    assert!(matches!(room.entities.get("t").unwrap().1.val, JBValue::Empty { .. }));
    let count = Some(CreateValue::Count(5));
    send(&mut room, &host, JBParams::AudienceGCounterCreate(create("g", count)));
    assert!(matches!(
        room.entities.get("g").unwrap().1.val,
        JBValue::AudienceGCounter { count: 5 }
    ));
    send(
        &mut room,
        &host,
        JBParams::AudiencePnCounterCreate(create("p", Some(CreateValue::Count(-5)))),
    );
    assert!(matches!(
        room.entities.get("p").unwrap().1.val,
        JBValue::AudiencePnCounter { count: -5 }
    ));
    send(&mut room, &host, JBParams::DoodleCreate(create("d", None)));
    assert!(matches!(room.entities.get("d").unwrap().1.val, JBValue::Doodle { .. }));
    send(&mut room, &host, JBParams::AudienceCountGroupCreate(create("v", None)));
    assert!(matches!(
        room.entities.get("v").unwrap().1.val,
        JBValue::AudienceCountGroup(_)
    ));
}

#[test]
fn values_of_another_kind_are_errors() {
    let (mut room, host, _, _, _) = full_room();
    let wrong = |params: JBParams, room: &mut Room, kind: JBType| {
        let r = send_with(room, &host, params, QUIET, 0);
        assert_eq!(r.err(), Some(ProcessError::InvalidValue(kind)));
    };
    wrong(
        JBParams::TextCreate(create("x", Some(CreateValue::Val(Json::Bool(true))))),
        &mut room,
        JBType::Text,
    );
    wrong(JBParams::NumberCreate(create("x", text("1"))), &mut room, JBType::Number);
    wrong(
        JBParams::ObjectCreate(create("x", Some(CreateValue::Val(Json::Array("[]".to_owned()))))),
        &mut room,
        JBType::Object,
    );
    wrong(
        JBParams::AudienceGCounterCreate(create("x", None)),
        &mut room,
        JBType::AudienceGCounter,
    );
    wrong(
        JBParams::AudiencePnCounterCreate(create("x", text("3"))),
        &mut room,
        JBType::AudiencePnCounter,
    );
    assert!(room.entities.get("x").is_none());
}

#[test]
fn numbers_are_stepped() {
    let (mut room, host, ann, _, _) = full_room();
    let start = 4.5f64;
    send(
        &mut room,
        &host,
        JBParams::NumberCreate(create(
            "n",
            Some(CreateValue::Val(Json::Number { bits: start.to_bits(), text: "4.5".to_owned() })),
        )),
    );
    assert_eq!(ONE, 1.0f64.to_bits());
    let step = number_step(&host, &JBParams::NumberIncrement(key("n")), &room).unwrap();
    assert!(step.up);
    let next = f64::from_bits(step.number) + f64::from_bits(step.increment);
    assert_eq!(next, 5.5);
    let effects = send_with(
        &mut room,
        &host,
        JBParams::NumberIncrement(key("n")),
        QUIET,
        next.to_bits(),
    )
    .unwrap();
    assert_eq!(effects.len(), 3);
    assert!(matches!(effects[0], Effect::Change { .. }));
    match &effects[1] {
        Effect::Ecast { to, message } => {
            assert_eq!(ids(to.clone()), vec![2, 3, 100]);
            match &message.result {
                JBResult::Number(object) => {
                    assert_eq!(object.version, 1);
                    assert!(matches!(object.val, JBValue::Number { val } if val == next.to_bits()));
                }
                _ => panic!(),
            }
        }
        _ => panic!(),
    }
    assert!(is_okay(&effects[2], 1));
    assert!(matches!(
        room.entities.get("n").unwrap().1.val,
        JBValue::Number { val } if val == next.to_bits()
    ));
    // one who may not write gets no answer at all
    assert_eq!(number_step(&ann, &JBParams::NumberIncrement(key("n")), &room), None);
    assert_eq!(number_step(&host, &JBParams::NumberGet(key("n")), &room), None);
    assert_eq!(send(&mut room, &ann, JBParams::NumberDecrement(key("n"))).len(), 0);
    assert_eq!(send(&mut room, &host, JBParams::NumberDecrement(key("none"))).len(), 0);
}

#[test]
fn stepping_another_kind_changes_the_version_alone() {
    let (mut room, host, _, _, _) = full_room();
    send(&mut room, &host, JBParams::TextCreate(create("t", text("x"))));
    let effects = send(&mut room, &host, JBParams::NumberIncrement(key("t")));
    assert_eq!(effects.len(), 2);
    assert!(is_okay(&effects[1], 1));
    let entity = room.entities.get("t").unwrap();
    assert_eq!(entity.1.version, 1);
    assert!(matches!(&entity.1.val, JBValue::Text { val } if val == "x"));
}

#[test]
fn own_step_is_used() {
    let (mut room, host, _, _, _) = full_room();
    let mut params = create(
        "n",
        Some(CreateValue::Val(Json::Number { bits: 1.0f64.to_bits(), text: "1".to_owned() })),
    );
    params.restrictions.increment = Some(0.25f64.to_bits());
    send(&mut room, &host, JBParams::NumberCreate(params));
    assert_eq!(
        number_step(&host, &JBParams::NumberDecrement(key("n")), &room),
        Some(NumberStep { number: 1.0f64.to_bits(), increment: 0.25f64.to_bits(), up: false })
    );
}

#[test]
fn counters_count() {
    let (mut room, host, _, _, eve) = full_room();
    send(
        &mut room,
        &host,
        JBParams::AudienceGCounterCreate(create("g", Some(CreateValue::Count(5)))),
    );
    let step = |times| JBCounterIncrementParams { key: "g".to_owned(), times };
    let effects = send(&mut room, &eve, JBParams::AudienceGCounterIncrement(step(3)));
    assert_eq!(effects.len(), 2);
    assert!(is_okay(&effects[1], 100));
    assert!(matches!(
        room.entities.get("g").unwrap().1.val,
        JBValue::AudienceGCounter { count: 8 }
    ));
    send(&mut room, &eve, JBParams::AudiencePnCounterDecrement(step(3)));
    assert!(matches!(
        room.entities.get("g").unwrap().1.val,
        JBValue::AudienceGCounter { count: 5 }
    ));
    send(&mut room, &eve, JBParams::AudiencePnCounterIncrement(step(i64::MAX)));
    assert!(matches!(
        room.entities.get("g").unwrap().1.val,
        JBValue::AudienceGCounter { count } if count == i64::MIN + 4
    ));
}

#[test]
fn votes_are_counted() {
    let (mut room, host, _, _, eve) = full_room();
    let options = vec![Json::Text("yes".to_owned()), Json::Text("no".to_owned())];
    let mut params = create("v", None);
    params.count_group = JBCountGroup::from_options(&options, Some(1)).unwrap();
    send(&mut room, &host, JBParams::AudienceCountGroupCreate(params));
    let vote = |name: &str, choice: &str| JBCountGroupIncrementParams {
        name: name.to_owned(),
        vote: choice.to_owned(),
        times: 2,
    };
    send(&mut room, &eve, JBParams::AudienceCountGroupIncrement(vote("v", "no")));
    send(&mut room, &eve, JBParams::AudienceCountGroupIncrement(vote("v", "maybe")));
    let effects =
        send(&mut room, &eve, JBParams::AudienceCountGroupIncrement(vote("missing", "no")));
    assert!(is_okay(&effects[1], 100));
    match &room.entities.get("v").unwrap().1.val {
        JBValue::AudienceCountGroup(group) => {
            assert_eq!(group.choice(0), Some((&"yes".to_owned(), 0)));
            assert_eq!(group.choice(1), Some((&"no".to_owned(), 2)));
            assert_eq!(group.choice(2), None);
        }
        _ => panic!(),
    }
}

#[test]
fn strokes_are_shown_and_kept_in_order() {
    let (mut room, host, ann, _, _) = full_room();
    send(&mut room, &host, JBParams::DoodleCreate(create("d", None)));
    for index in [5, 1, 3] {
        let params = JBKeyWithLine { key: "d".to_owned(), line: line(index) };
        let effects = send(&mut room, &ann, JBParams::DoodleStroke(params));
        assert_eq!(effects.len(), 3);
        match &effects[0] {
            Effect::Ecast { to, message } => {
                assert_eq!(ids(to.clone()), vec![1, 3, 100]);
                match &message.result {
                    JBResult::DoodleLine { key, from, val } => {
                        assert_eq!(key, "d");
                        assert_eq!(*from, 2);
                        assert_eq!(val.index, index);
                    }
                    _ => panic!(),
                }
            }
            _ => panic!(),
        }
        assert!(is_okay(&effects[2], 2));
    }
    match &room.entities.get("d").unwrap().1.val {
        JBValue::Doodle { val } => {
            let order: Vec<usize> = val.lines.iter().map(|l| l.index).collect();
            assert_eq!(order, vec![1, 3, 5]);
        }
        _ => panic!(),
    }
    let params = JBKeyWithLine { key: "missing".to_owned(), line: line(0) };
    assert_eq!(send(&mut room, &ann, JBParams::DoodleStroke(params)).len(), 0);
}

#[test]
fn locked_doodles_are_drawn() {
    let (mut room, host, ann, _, _) = full_room();
    send(&mut room, &host, JBParams::DoodleCreate(create("d", None)));
    send(&mut room, &host, JBParams::TextCreate(create("t", text("x"))));
    let cfg = DoodleConfig { render: true };
    let effects = send_with(&mut room, &ann, JBParams::Lock(key("d")), cfg, 0).unwrap();
    assert_eq!(effects.len(), 4);
    match &effects[1] {
        Effect::Ecast { to, message } => {
            assert_eq!(ids(to.clone()), vec![1, 3, 100]);
            assert!(matches!(
                &message.result,
                JBResult::Lock { key, from: 2 } if key == "d"
            ));
        }
        _ => panic!(),
    }
    match &effects[2] {
        Effect::Render { key, file } => {
            assert_eq!(key, "d");
            assert_eq!(file, "d.png");
        }
        _ => panic!(),
    }
    assert!(is_okay(&effects[3], 2));
    let entity = room.entities.get("d").unwrap();
    assert!(entity.2.locked);
    assert_eq!(entity.1.from, 2);
    assert_eq!(entity.1.version, 0);
    assert_eq!(send_with(&mut room, &ann, JBParams::Lock(key("t")), cfg, 0).unwrap().len(), 3);
    assert_eq!(send(&mut room, &ann, JBParams::Lock(key("d"))).len(), 3);
    assert_eq!(send(&mut room, &ann, JBParams::Lock(key("missing"))).len(), 1);
}

#[test]
fn writers_drop() {
    let (mut room, host, ann, _, _) = full_room();
    send(&mut room, &host, JBParams::TextCreate(create("t", text("x"))));
    assert_eq!(send(&mut room, &ann, JBParams::Drop(key("t"))).len(), 1);
    assert!(room.entities.get("t").is_some());
    assert_eq!(send(&mut room, &host, JBParams::Drop(key("t"))).len(), 2);
    assert!(room.entities.get("t").is_none());
    assert!(room.entities.get("audience").is_some());
    assert_eq!(send(&mut room, &host, JBParams::Drop(key("t"))).len(), 1);
}

#[test]
fn hosts_lock_the_room() {
    let (mut room, host, ann, _, _) = full_room();
    assert_eq!(send(&mut room, &ann, JBParams::RoomLock).len(), 1);
    assert!(!room.room_config.locked);
    let effects = send(&mut room, &host, JBParams::RoomLock);
    assert_eq!(effects.len(), 3);
    match &effects[1] {
        Effect::Ecast { to, message } => {
            assert_eq!(ids(to.clone()), vec![2, 3, 100]);
            assert!(matches!(message.result, JBResult::RoomLock {}));
        }
        _ => panic!(),
    }
    assert!(room.room_config.locked);
}

#[test]
fn audience_is_counted() {
    let (mut room, host, _, _, _) = full_room();
    let effects = send(&mut room, &host, JBParams::RoomGetAudience);
    assert!(matches!(
        &effects[0],
        Effect::Ecast { message, .. }
            if matches!(message.result, JBResult::RoomGetAudience { connections: 1 })
                && message.re == Some(7)
    ));
}

#[test]
fn exit_closes_all() {
    let (mut room, host, _, _, _) = full_room();
    let effects = send(&mut room, &host, JBParams::RoomExit);
    assert_eq!(effects.len(), 3);
    assert!(is_okay(&effects[0], 1));
    match &effects[1] {
        Effect::Close { to } => assert_eq!(ids(to.clone()), vec![1, 2, 3, 100]),
        _ => panic!(),
    }
    assert!(matches!(effects[2], Effect::Exit));
}

#[test]
fn unknown_requests_are_answered() {
    let (mut room, _, ann, _, _) = full_room();
    let effects = send(&mut room, &ann, JBParams::Other("{}".to_owned()));
    assert_eq!(effects.len(), 1);
    assert!(is_okay(&effects[0], 2));
}

fn blobcast_room() -> (Room, Client) {
    let mut room = Room::new(config("ABCD"));
    room.connections.put(Client {
        profile: JBProfile {
            id: 1,
            roles: JBProfileRoles::Host {},
            user_id: "host".to_owned(),
            role: Role::Host,
            name: String::new(),
        },
        client_type: ClientType::Blobcast,
        secret: Token(1),
    });
    room.room_serial = 2;
    let ann = connect_socket(&mut room, query(Role::Player, "ann"), Token(2)).unwrap().1;
    (room, ann)
}

#[test]
fn messages_reach_an_older_host() {
    let (mut room, ann) = blobcast_room();
    let params = JBClientSendParams { _from: 2, to: 1, body: "{\"x\":1}".to_owned() };
    let effects = send(&mut room, &ann, JBParams::ClientSend(params));
    assert_eq!(effects.len(), 2);
    match &effects[0] {
        Effect::Blobcast { to, response } => {
            assert_eq!(*to, vec![1]);
            let Hosted::Msg([args]) = response;
            match args {
                JBResponseArgs::Event {
                    room_id,
                    event: JBEvent::CustomerMessage { user_id, message },
                } => {
                    assert_eq!(room_id, "ABCD");
                    assert_eq!(user_id, "user-ann");
                    assert_eq!(message, "{\"x\":1}");
                }
                _ => panic!(),
            }
        }
        _ => panic!(),
    }
    assert!(is_okay(&effects[1], 2));
}

#[test]
fn messages_to_others_are_not_acceptable() {
    let (room, _) = blobcast_room();
    let to = |to| WSMessage {
        params: JBParams::ClientSend(JBClientSendParams { _from: 2, to, body: String::new() }),
        seq: 1,
    };
    assert!(is_acceptable(&to(1), &room));
    assert!(!is_acceptable(&to(2), &room));
    let (room, _, _, _, _) = full_room();
    assert!(!is_acceptable(&to(1), &room));
    let room = Room::new(config("ABCD"));
    assert!(is_acceptable(&to(1), &room));
}

#[test]
fn greeting_shows_what_may_be_read() {
    let (mut room, host, ann, _, _) = full_room();
    send(&mut room, &host, JBParams::TextCreate(create("open", text("x"))));
    let mut secret = create("secret", text("y"));
    secret.acl = Vec::new();
    send(&mut room, &host, JBParams::TextCreate(secret));
    let effects = greet(&ann, &room, false);
    assert_eq!(effects.len(), 2);
    match &effects[0] {
        Effect::Ecast { to, message } => {
            assert_eq!(*to, vec![2]);
            assert_eq!(message.re, None);
            match &message.result {
                JBResult::ClientWelcome(welcome) => {
                    assert_eq!(welcome.id, 2);
                    assert_eq!(welcome.secret, Token(2));
                    assert!(!welcome.reconnect);
                    assert_eq!(welcome.device_id, "0000000000.0000000000000000000000");
                    assert_eq!(welcome.entities.len(), 2);
                    assert!(welcome.entities.get("open").is_some());
                    assert!(welcome.entities.get("audience").is_some());
                    assert!(welcome.entities.get("secret").is_none());
                    assert_eq!(welcome.here.len(), 2);
                    assert_eq!(welcome.here.get(1).unwrap().name, "host");
                    assert_eq!(welcome.here.get(3).unwrap().name, "bob");
                    assert_eq!(welcome.profile.name, "ann");
                }
                _ => panic!(),
            }
        }
        _ => panic!(),
    }
    match &effects[1] {
        Effect::Ecast { to, message } => {
            assert_eq!(*to, vec![1]);
            match &message.result {
                JBResult::ClientConnected(connected) => {
                    assert_eq!(connected.id, 2);
                    assert_eq!(connected.user_id, "user-ann");
                    assert_eq!(connected.name, "ann");
                    assert_eq!(connected.role, Role::Player);
                }
                _ => panic!(),
            }
        }
        _ => panic!(),
    }
    let hosts = greet(&host, &room, true);
    assert_eq!(hosts.len(), 1);
    match &hosts[0] {
        Effect::Ecast { message, .. } => match &message.result {
            JBResult::ClientWelcome(welcome) => {
                assert_eq!(welcome.entities.len(), 3);
                assert!(welcome.reconnect);
            }
            _ => panic!(),
        },
        _ => panic!(),
    }
}

#[test]
fn older_hosts_are_told_once() {
    let (room, ann) = blobcast_room();
    let effects = greet(&ann, &room, false);
    assert_eq!(effects.len(), 2);
    match &effects[1] {
        Effect::Blobcast { to, response } => {
            assert_eq!(*to, vec![1]);
            let Hosted::Msg([args]) = response;
            match args {
                JBResponseArgs::Event {
                    event: JBEvent::CustomerJoinedRoom { customer_user_id, customer_name, options },
                    ..
                } => {
                    assert_eq!(customer_user_id, "user-ann");
                    assert_eq!(customer_name, "ann");
                    assert_eq!(options.name, "ann");
                    assert_eq!(options.roomcode, "");
                    assert_eq!(options.email, "");
                    assert_eq!(options.phone, "");
                }
                _ => panic!(),
            }
        }
        _ => panic!(),
    }
    assert_eq!(greet(&ann, &room, true).len(), 1);
}

#[test]
fn recipients_are_named_once() {
    let (room, _, _, _, _) = full_room();
    assert_eq!(ids(recipients(&room, &Target::Everyone)), vec![1, 2, 3, 100]);
    assert_eq!(ids(recipients(&room, &Target::Others { but: 3 })), vec![1, 2, 100]);
    let blobcast = Target::Speaking { client_type: ClientType::Blobcast };
    assert_eq!(recipients(&room, &blobcast), Vec::<i64>::new());
}

#[test]
fn sockets_are_stepped() {
    assert!(matches!(
        handle_socket(SocketEvent::Received(Frame::Text("x".to_owned()))),
        (SocketAction::Process(t), Flow::Announce) if t == "x"
    ));
    assert!(matches!(
        handle_socket(SocketEvent::Received(Frame::Ping(vec![1, 2]))),
        (SocketAction::Pong(d), Flow::Resume) if d == vec![1, 2]
    ));
    assert!(matches!(
        handle_socket(SocketEvent::Received(Frame::Close(None))),
        (SocketAction::Idle, Flow::Leave)
    ));
    assert!(matches!(
        handle_socket(SocketEvent::Received(Frame::Pong(vec![]))),
        (SocketAction::Idle, Flow::Resume)
    ));
    assert!(matches!(
        handle_socket(SocketEvent::Broken),
        (SocketAction::Report, Flow::Announce)
    ));
    assert!(matches!(handle_socket(SocketEvent::Ended), (SocketAction::Idle, Flow::Leave)));
    assert!(matches!(
        handle_socket(SocketEvent::Idle),
        (SocketAction::Ping(d), Flow::Announce) if d == b"jackbox".to_vec()
    ));
    assert!(matches!(handle_socket(SocketEvent::RoomExit), (SocketAction::Idle, Flow::Leave)));
}

#[test]
fn frames_are_passed_on() {
    assert!(matches!(
        handle_socket_proxy(Frame::Binary(vec![9])),
        Ok(Frame::Binary(d)) if d == vec![9]
    ));
    assert_eq!(handle_socket_proxy(Frame::Raw).err(), Some(RelayError::RawFrame));
}

fn request() -> RoomRequest {
    RoomRequest {
        app_id: "id".to_owned(),
        app_tag: "tag".to_owned(),
        audience_enabled: true,
        max_players: 8,
        platform: "Linux".to_owned(),
        player_names: "[]".to_owned(),
        time: 0,
        twitch_locked: false,
        user_id: 5,
        host: String::new(),
    }
}

#[test]
fn rooms_are_opened_here() {
    let mut rooms: KeyedStore<Room> = KeyedStore::new();
    let source = RoomSource::Native { code: "WXYZ".to_owned(), token: Token(0xabc) };
    let response = rooms_handler(&mut rooms, request(), source, "here.example");
    assert!(response.ok);
    match response.body {
        JBResponseBody::Body(body) => {
            assert_eq!(body.host, "here.example");
            assert_eq!(body.code, "WXYZ");
            assert_eq!(body.token, "00000000000000000000000000000abc");
        }
        _ => panic!(),
    }
    let shown = rooms_get_handler(&rooms, "WXYZ", None, "here.example").unwrap();
    assert!(shown.ok);
    match shown.body {
        JBResponseBody::Body(config) => {
            assert_eq!(config.code, "WXYZ");
            assert_eq!(config.app_tag, "tag");
            assert_eq!(config.host, "here.example");
            assert_eq!(config.locale, "en");
            assert!(!config.locked);
        }
        _ => panic!(),
    }
    let missing = rooms_get_handler(&rooms, "NONE", None, "here.example");
    assert_eq!(missing.err(), Some(RoomError::NoSuchRoom));
    assert_eq!(RoomError::NoSuchRoom.as_str(), "no such room");
}

#[test]
fn rooms_are_opened_upstream() {
    let mut rooms: KeyedStore<Room> = KeyedStore::new();
    let source = RoomSource::Upstream(JBResponse {
        ok: true,
        body: JBResponseBody::Body(RoomResponse {
            host: "up.example".to_owned(),
            code: "QQQQ".to_owned(),
            token: "t".to_owned(),
        }),
    });
    let response = rooms_handler(&mut rooms, request(), source, "here.example");
    assert!(matches!(
        response.body,
        JBResponseBody::Body(b) if b.host == "here.example" && b.token == "t" && b.code == "QQQQ"
    ));
    assert_eq!(rooms.get("QQQQ").unwrap().room_config.host, "up.example");
    assert_eq!(rooms.get("QQQQ").unwrap().room_config.audience_host, "here.example");
    let refused = RoomSource::Upstream(JBResponse {
        ok: false,
        body: JBResponseBody::Error("no".to_owned()),
    });
    let response = rooms_handler(&mut rooms, request(), refused, "here.example");
    assert!(!response.ok);
    assert!(matches!(response.body, JBResponseBody::Error(e) if e == "no"));
    assert_eq!(rooms.len(), 1);
}

#[test]
fn rooms_upstream_are_shown_with_this_host() {
    let rooms: KeyedStore<Room> = KeyedStore::new();
    let answer = JBResponse { ok: true, body: JBResponseBody::Body(config("ABCD")) };
    let shown = rooms_get_handler(&rooms, "ABCD", Some(answer), "here.example").unwrap();
    assert!(matches!(
        shown.body,
        JBResponseBody::Body(c)
            if c.host == "here.example" && c.audience_host == "here.example" && c.code == "ABCD"
    ));
    let answer = JBResponse { ok: false, body: JBResponseBody::Error("gone".to_owned()) };
    let shown = rooms_get_handler(&rooms, "ABCD", Some(answer), "here.example").unwrap();
    assert!(matches!(shown.body, JBResponseBody::Error(e) if e == "gone"));
}

#[test]
fn urls_are_built() {
    assert_eq!(rooms_url(None), "https://ecast.jackboxgames.com/api/v2/rooms");
    assert_eq!(rooms_url(Some("http://a")), "http://a/api/v2/rooms");
    assert_eq!(room_url(Some("http://a"), "CODE"), "http://a/api/v2/rooms/CODE");
    assert_eq!(
        play_url("wss://h", Role::Player, "CODE", "a=b"),
        "wss://h/api/v2/rooms/CODE/play?a=b"
    );
    assert_eq!(
        play_url("wss://h", Role::Audience, "CODE", ""),
        "wss://h/api/v2/audience/CODE/play?"
    );
    assert_eq!(app_config_url("http://a", "tag", "x=1"), "http://a/api/v2/app-configs/tag?x=1");
}

#[test]
fn connections_are_relayed_or_join() {
    let mut rooms: KeyedStore<Room> = KeyedStore::new();
    rooms.put(Room::new(config("ABCD")));
    let mut q = query(Role::Player, "Ann B&c");
    q.host_token = Some(Token(1));
    q.id = -3;
    match play_handler(&rooms, OpMode::Proxy, "ABCD", &q) {
        PlayPlan::Relay { host, ecast_req } => {
            assert_eq!(host, "wss://upstream.example");
            assert_eq!(
                ecast_req,
                "wss://upstream.example/api/v2/rooms/ABCD/play?user-id=user-Ann+B%26c&format=json\
                 &name=Ann+B%26c&role=player&host-token=00000000000000000000000000000001&id=-3"
            );
        }
        _ => panic!(),
    }
    let q = query(Role::Audience, "a");
    match play_handler(&rooms, OpMode::Proxy, "ABCD", &q) {
        PlayPlan::Relay { host, ecast_req } => {
            assert_eq!(host, "wss://ecast.jackboxgames.com");
            assert!(ecast_req.starts_with("wss://ecast.jackboxgames.com/api/v2/audience/ABCD/"));
        }
        _ => panic!(),
    }
    assert!(matches!(play_handler(&rooms, OpMode::Native, "ABCD", &q), PlayPlan::Join));
    match play_handler(&rooms, OpMode::Native, "NONE", &q) {
        PlayPlan::NotFound(response) => {
            assert!(!response.ok);
            assert!(matches!(response.body, JBResponseBody::Error(e) if e == "no such room"));
        }
        _ => panic!(),
    }
}

#[test]
fn schemes_in_a_host_are_replaced() {
    let mut rooms: KeyedStore<Room> = KeyedStore::new();
    let mut c = config("ABCD");
    c.host = "http://plain.example".to_owned();
    rooms.put(Room::new(c));
    match play_handler(&rooms, OpMode::Proxy, "ABCD", &query(Role::Host, "h")) {
        PlayPlan::Relay { host, .. } => assert_eq!(host, "wss://ws://plain.example"),
        _ => panic!(),
    }
}

#[test]
fn app_configs_are_answered_or_asked_for() {
    let pairs = vec![("serverUrl".to_owned(), "a b".to_owned())];
    match app_config_handler(OpMode::Proxy, None, "here.example", "tag", &pairs) {
        AppConfigPlan::Ask { url } => assert_eq!(
            url,
            "https://ecast.jackboxgames.com/api/v2/app-configs/tag?serverUrl=a+b"
        ),
        _ => panic!(),
    }
    match app_config_handler(OpMode::Native, None, "here.example", "tag", &pairs) {
        AppConfigPlan::Settings { server_url } => assert_eq!(server_url, "here.example"),
        _ => panic!(),
    }
}

#[test]
fn rooms_are_changed_in_their_store() {
    let mut rooms: KeyedStore<Room> = KeyedStore::new();
    rooms.put(Room::new(config("AAAA")));
    rooms.put(Room::new(config("BBBB")));
    change_room(&mut rooms, "BBBB", RoomChange::LockRoom);
    change_room(&mut rooms, "CCCC", RoomChange::LockRoom);
    assert!(!rooms.get("AAAA").unwrap().room_config.locked);
    assert!(rooms.get("BBBB").unwrap().room_config.locked);
    let (_, ann) = blobcast_room();
    join_room(&mut rooms, "AAAA", ann.clone());
    join_room(&mut rooms, "CCCC", ann);
    assert_eq!(rooms.get("AAAA").unwrap().connections.len(), 1);
    assert_eq!(rooms.get("BBBB").unwrap().connections.len(), 0);
    let taken = rooms.take(&"AAAA".to_owned()).unwrap();
    assert_eq!(taken.room_config.code, "AAAA");
    assert_eq!(rooms.len(), 1);
    assert!(rooms.get("AAAA").is_none());
    assert!(rooms.get("BBBB").is_some());
    assert_eq!(rooms.at(0).room_config.code, "BBBB");
}

#[test]
fn opcodes_begin_with_the_name_of_their_kind() {
    let step = || JBCounterIncrementParams { key: String::new(), times: 0 };
    let params = [
        JBParams::TextGet(key("k")),
        JBParams::NumberIncrement(key("k")),
        JBParams::ObjectGet(key("k")),
        JBParams::DoodleGet(key("k")),
        JBParams::AudienceGCounterIncrement(step()),
        JBParams::AudiencePnCounterDecrement(step()),
        JBParams::AudienceCountGroupGet(key("k")),
    ];
    for p in params {
        let kind = p.scope().unwrap().as_str();
        assert!(p.opcode().unwrap().starts_with(&format!("{}/", kind)));
    }
    for (p, name) in [
        (JBParams::RoomExit, "room/exit"),
        (JBParams::RoomGetAudience, "room/get-audience"),
        (JBParams::RoomLock, "room/lock"),
        (JBParams::Lock(key("k")), "lock"),
        (JBParams::Drop(key("k")), "drop"),
    ] {
        assert_eq!(p.opcode(), Some(name));
        assert_eq!(p.scope(), None);
    }
    let other = JBParams::Other("{}".to_owned());
    assert_eq!(other.opcode(), None);
    assert_eq!(other.scope(), None);
    assert_eq!(
        JBParams::AudiencePnCounterDecrement(step()).opcode(),
        Some("audience/pn-counter/decrement")
    );
}

#[test]
fn audience_is_numbered_by_hundreds() {
    let mut room = Room::new(config("ABCD"));
    for n in 1..=5 {
        let q = query(Role::Audience, "a");
        let (again, client) = connect_socket(&mut room, q, Token(1)).unwrap();
        assert!(!again);
        assert_eq!(client.profile.id, 100 * n);
        assert_eq!(audience(&room), n);
    }
}

#[test]
fn many_votes_are_tallied() {
    let (mut room, host, _, _, eve) = full_room();
    let options = vec![Json::Text("a".to_owned()), Json::Text("b".to_owned())];
    let mut params = create("v", None);
    params.count_group = JBCountGroup::from_options(&options, None).unwrap();
    send(&mut room, &host, JBParams::AudienceCountGroupCreate(params));
    for (choice, times) in [("a", 2), ("b", i64::MAX), ("c", 9), ("a", -1), ("b", 1), ("a", 4)] {
        let vote = JBCountGroupIncrementParams {
            name: "v".to_owned(),
            vote: choice.to_owned(),
            times,
        };
        send(&mut room, &eve, JBParams::AudienceCountGroupIncrement(vote));
    }
    match &room.entities.get("v").unwrap().1.val {
        JBValue::AudienceCountGroup(group) => {
            assert_eq!(group.choice(0), Some((&"a".to_owned(), 5)));
            assert_eq!(group.choice(1), Some((&"b".to_owned(), i64::MIN)));
            assert_eq!(group.choice(2), None);
        }
        _ => panic!(),
    }
}
