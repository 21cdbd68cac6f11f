//! The messages of the older protocol, and what a host's messages do to a room.
use crate::acl::{Acl, Interest, Principle, Role};
use crate::choices::choice_seq;
use crate::digits::{byte_number, parse_byte};
use crate::ecast::ws::{entity_at, JBResult, ProcessError, ResultView};
use crate::effect::{
    alone, each_once, effect_views, followed, just, notice, notify, recipients, speaking, Effect,
    EffectView, Target,
};
use crate::entity::{
    default_attributes, no_restrictions, AttributesView, CountGroupView, EntityView, JBAttributes,
    JBCountGroup, JBEntity, JBObject, JBRestrictions, JBType, JBValue, ObjectView, ValueView,
};
use crate::frame::{
    relay, relayed, socket_step, Flow, Frame, RelayError, SocketAction, SocketEvent,
};
use crate::room::{
    empty_room, opened_config, ChangeView, Client, ClientType, ClientView, JBProfile,
    JBProfileRoles, JBRoom, ProfileView, RolesView, Room, RoomChange, RoomState, Token,
};
use crate::store::Numbered;
use crate::text::{chars_of, concat2, cut, opt_text, same_text, split_once, text_of};
use indexmap::IndexMap;
use vstd::prelude::*;

verus! {

/// A message from a host.
#[derive(Debug)]
pub enum JBMessage {
    Msg(JBMessageArgs),
}

/// What a message from a host holds.
#[derive(Debug)]
pub enum JBMessageArgs {
    Action { app_id: String, user_id: String, action: JBAction },
}

/// What a host asks for. A blob is kept as its text.
#[allow(inconsistent_fields)]
#[derive(Debug)]
pub enum JBAction {
    CreateRoom { options: String },
    SetRoomBlob { blob: String, room_id: String },
    SetCustomerBlob { blob: String, customer_user_id: String, room_id: String },
    StartSession { module: JBSessionModuleWithArgs, name: String, room_id: String },
    StopSession { module: JBSessionModule, name: String, room_id: String },
    GetSessionStatus { module: JBSessionModule, name: String, room_id: String },
    LockRoom { room_id: String },
}

/// A kind of session.
#[derive(Clone, Copy, Debug, PartialEq, Eq, Structural)]
pub enum JBSessionModule {
    Audience,
    Vote,
}

/// A kind of session, with what it is started with.
#[derive(Debug)]
pub enum JBSessionModuleWithArgs {
    Audience,
    Vote(JBCountGroup),
}

impl JBSessionModuleWithArgs {
    /// The kind of the session.
    pub open spec fn kind(self) -> JBSessionModule {
        match self {
            JBSessionModuleWithArgs::Audience => JBSessionModule::Audience,
            JBSessionModuleWithArgs::Vote(_) => JBSessionModule::Vote,
        }
    }
}

impl vstd::std_specs::convert::FromSpecImpl<JBSessionModuleWithArgs> for JBSessionModule {
    open spec fn obeys_from_spec() -> bool {
        true
    }

    open spec fn from_spec(value: JBSessionModuleWithArgs) -> JBSessionModule {
        value.kind()
    }
}

impl From<JBSessionModuleWithArgs> for JBSessionModule {
    fn from(value: JBSessionModuleWithArgs) -> (r: JBSessionModule) {
        match value {
            JBSessionModuleWithArgs::Audience => JBSessionModule::Audience,
            JBSessionModuleWithArgs::Vote(_) => JBSessionModule::Vote,
        }
    }
}

/// A kind of session, with how it stands.
#[derive(Debug)]
pub enum JBSessionModuleWithResponse {
    Audience(JBValue),
    Vote(IndexMap<String, i64>),
}

/// The model of [`JBSessionModuleWithResponse`].
pub enum ModuleView {
    Audience(ValueView),
    Vote(Seq<(Seq<char>, i64)>),
}

impl View for JBSessionModuleWithResponse {
    type V = ModuleView;

    open spec fn view(&self) -> ModuleView {
        match self {
            JBSessionModuleWithResponse::Audience(value) => ModuleView::Audience(value@),
            JBSessionModuleWithResponse::Vote(choices) => ModuleView::Vote(choice_seq(*choices)),
        }
    }
}

/// What came of an action.
#[allow(inconsistent_fields)]
#[derive(Debug)]
pub enum JBResultAction {
    CreateRoom { room_id: String },
    SetRoomBlob {  },
    LockRoom { room_id: String },
    GetSessionStatus { module: JBSessionModuleWithResponse, name: String },
    StartSession { module: JBSessionModuleWithResponse, name: String },
    StopSession { module: JBSessionModuleWithResponse, name: String },
}

/// The model of [`JBResultAction`].
pub enum ResultActionView {
    CreateRoom(Seq<char>),
    SetRoomBlob,
    LockRoom(Seq<char>),
    GetSessionStatus(ModuleView, Seq<char>),
    StartSession(ModuleView, Seq<char>),
    StopSession(ModuleView, Seq<char>),
}

impl View for JBResultAction {
    type V = ResultActionView;

    open spec fn view(&self) -> ResultActionView {
        match self {
            JBResultAction::CreateRoom { room_id } => ResultActionView::CreateRoom(room_id@),
            JBResultAction::SetRoomBlob {  } => ResultActionView::SetRoomBlob,
            JBResultAction::LockRoom { room_id } => ResultActionView::LockRoom(room_id@),
            JBResultAction::GetSessionStatus { module, name } => {
                ResultActionView::GetSessionStatus(module@, name@)
            },
            JBResultAction::StartSession { module, name } => {
                ResultActionView::StartSession(module@, name@)
            },
            JBResultAction::StopSession { module, name } => {
                ResultActionView::StopSession(module@, name@)
            },
        }
    }
}

/// What a host is told of a customer.
#[derive(Debug)]
pub struct JBCustomerOptions {
    pub roomcode: String,
    pub name: String,
    pub email: String,
    pub phone: String,
}

/// The model of [`JBCustomerOptions`].
pub struct CustomerOptionsView {
    pub roomcode: Seq<char>,
    pub name: Seq<char>,
    pub email: Seq<char>,
    pub phone: Seq<char>,
}

impl View for JBCustomerOptions {
    type V = CustomerOptionsView;

    open spec fn view(&self) -> CustomerOptionsView {
        CustomerOptionsView {
            roomcode: self.roomcode@,
            name: self.name@,
            email: self.email@,
            phone: self.phone@,
        }
    }
}

/// What happened in a room. A message is kept as its text.
#[derive(Debug)]
pub enum JBEvent {
    RoomBlobChanged { blob: JBValue },
    CustomerJoinedRoom {
        customer_user_id: String,
        customer_name: String,
        options: JBCustomerOptions,
    },
    CustomerMessage { user_id: String, message: String },
}

/// The model of [`JBEvent`].
pub enum EventView {
    RoomBlobChanged(ValueView),
    CustomerJoinedRoom(Seq<char>, Seq<char>, CustomerOptionsView),
    CustomerMessage(Seq<char>, Seq<char>),
}

impl View for JBEvent {
    type V = EventView;

    open spec fn view(&self) -> EventView {
        match self {
            JBEvent::RoomBlobChanged { blob } => EventView::RoomBlobChanged(blob@),
            JBEvent::CustomerJoinedRoom { customer_user_id, customer_name, options } => {
                EventView::CustomerJoinedRoom(customer_user_id@, customer_name@, options@)
            },
            JBEvent::CustomerMessage { user_id, message } => {
                EventView::CustomerMessage(user_id@, message@)
            },
        }
    }
}

/// What a message to a host holds.
#[derive(Debug)]
pub enum JBResponseArgs {
    Event { room_id: String, event: JBEvent },
    /// The result of an action.
    Outcome { result: JBResultAction, success: bool },
}

/// A message to a host.
#[derive(Debug)]
pub enum JBResponse {
    Msg([JBResponseArgs; 1]),
}

/// The model of [`JBResponse`].
pub enum ResponseView {
    Event(Seq<char>, EventView),
    Outcome(ResultActionView, bool),
}

impl View for JBResponseArgs {
    type V = ResponseView;

    open spec fn view(&self) -> ResponseView {
        match self {
            JBResponseArgs::Event { room_id, event } => ResponseView::Event(room_id@, event@),
            JBResponseArgs::Outcome { result, success } => ResponseView::Outcome(
                result@,
                *success,
            ),
        }
    }
}

impl View for JBResponse {
    type V = ResponseView;

    open spec fn view(&self) -> ResponseView {
        match self {
            JBResponse::Msg(args) => args@[0]@,
        }
    }
}

/// A frame of the older protocol: an opcode, and for some the text of a message.
#[derive(Debug)]
pub struct WSMessage {
    pub _opcode: u8,
    pub message: Option<String>,
}

/// Why a text is no frame.
#[derive(Clone, Copy, Debug, PartialEq, Eq, Structural)]
pub enum FrameError {
    /// Nothing separates the opcode from the rest.
    NoSeparator,
    /// The opcode is no number, or too large a number.
    InvalidOpcode,
    /// There is no message where there has to be one.
    NoMessage,
}

/// The opcode of frames that hold a message.
pub const MESSAGE_OPCODE: u8 = 5;

/// The opcode of a text, and the message that it holds: the opcode stands before the first two
/// colons, the message behind one character more, which has to be an ASCII character.
pub open spec fn framed(text: Seq<char>) -> Result<(u8, Option<Seq<char>>), FrameError> {
    match split_once(text, "::"@) {
        None => Err(FrameError::NoSeparator),
        Some((head, tail)) => match byte_number(head) {
            None => Err(FrameError::InvalidOpcode),
            Some(opcode) => if opcode != MESSAGE_OPCODE {
                Ok((opcode, None))
            } else if tail.len() > 0 && (tail[0] as u32) < 128 {
                Ok((opcode, Some(tail.skip(1))))
            } else {
                Err(FrameError::NoMessage)
            },
        },
    }
}

impl WSMessage {
    /// Reads a frame.
    pub fn from_str(s: &str) -> (r: Result<WSMessage, FrameError>)
        ensures
            match r {
                Ok(frame) => framed(s@) == Ok::<_, FrameError>(
                    (frame._opcode, opt_text(frame.message)),
                ),
                Err(error) => framed(s@) == Err::<(u8, Option<Seq<char>>), _>(error),
            },
    {
        let (head, tail) = match cut(s, "::") {
            Some(parts) => parts,
            None => {
                return Err(FrameError::NoSeparator);
            },
        };
        let opcode: u8 = match parse_byte(head.as_str()) {
            Some(opcode) => opcode,
            None => {
                return Err(FrameError::InvalidOpcode);
            },
        };
        if opcode == MESSAGE_OPCODE {
            let chars = chars_of(tail.as_str());
            if chars.len() == 0 || chars[0] as u32 >= 128 {
                return Err(FrameError::NoMessage);
            }
            let end: usize = chars.len();
            let message = text_of(&chars, 1, end);
            assert(message@ =~= tail@.skip(1));
            Ok(WSMessage { _opcode: opcode, message: Some(message) })
        } else {
            Ok(WSMessage { _opcode: opcode, message: None })
        }
    }
}

/// Why a host is refused.
#[derive(Clone, Copy, Debug, PartialEq, Eq, Structural)]
pub enum ConnectError {
    /// The first frame is no text.
    NotText,
    /// The first frame holds no message.
    NoMessage,
    /// The first message asks for something else than a room.
    NotCreateRoom,
}

/// The text with which a host asks for a room.
pub fn create_room_text(frame: Frame) -> (r: Result<String, ConnectError>)
    ensures
        r == (match frame {
            Frame::Text(text) => Ok(text),
            _ => Err(ConnectError::NotText),
        }),
{
    match frame {
        Frame::Text(text) => Ok(text),
        _ => Err(ConnectError::NotText),
    }
}

/// Whether the tag at a place of a list is that of an application.
pub open spec fn tag_at(tags: Seq<(String, String)>, i: int, app_id: Seq<char>) -> bool {
    0 <= i < tags.len() && tags[i].0@ == app_id
}

/// Whether a tag is the first that a list has for an application, or empty where it has none.
pub open spec fn is_tag(tags: Seq<(String, String)>, app_id: Seq<char>, tag: Seq<char>) -> bool {
    ||| exists|i: int| #[trigger]
        tag_at(tags, i, app_id) && tags[i].1@ == tag && (forall|j: int|
            j < i ==> !tag_at(tags, j, app_id))
    ||| tag.len() == 0 && forall|i: int| !tag_at(tags, i, app_id)
}

/// The tag of an application.
pub fn app_tag(tags: &Vec<(String, String)>, app_id: &str) -> (r: String)
    ensures
        is_tag(tags@, app_id@, r@),
{
    let mut i: usize = 0;
    while i < tags.len()
        invariant
            i <= tags.len(),
            forall|j: int| j < i ==> !tag_at(tags@, j, app_id@),
        decreases tags.len() - i,
    {
        if same_text(tags[i].0.as_str(), app_id) {
            assert(tag_at(tags@, i as int, app_id@));
            return tags[i].1.clone();
        }
        i = i + 1;
    }
    String::new()
}

/// A room that a host has asked for, the host, and what the host is told.
pub struct Opened {
    pub room: Room,
    pub client: Client,
    pub response: JBResponse,
}

/// The host of a room that it has asked for.
pub open spec fn fresh_host(user_id: Seq<char>, id: i64, secret: Token) -> ClientView {
    ClientView {
        profile: ProfileView {
            id,
            roles: RolesView::Host,
            user_id,
            role: Role::Host,
            name: seq![],
        },
        client_type: ClientType::Blobcast,
        secret,
    }
}

/// Whether this is what comes of the first message of a host: a room for one that asks for one.
pub open spec fn is_opened(
    message: Option<JBMessage>,
    tags: Seq<(String, String)>,
    room_code: Seq<char>,
    host: Seq<char>,
    secret: Token,
    result: Result<Opened, ConnectError>,
) -> bool {
    match message {
        None => result == Err::<Opened, _>(ConnectError::NoMessage),
        Some(JBMessage::Msg(JBMessageArgs::Action { app_id, user_id, action })) => {
            if action is CreateRoom {
                &&& result matches Ok(opened)
                &&& opened.room.wf()
                &&& exists|tag: Seq<char>| #[trigger]
                    is_tag(tags, app_id@, tag) && opened.room@ == (RoomState {
                        serial: 2,
                        ..empty_room(opened_config(app_id@, tag, true, room_code, host, host))
                    })
                &&& opened.client@ == fresh_host(user_id@, 1, secret)
                &&& opened.response@ == ResponseView::Outcome(
                    ResultActionView::CreateRoom(room_code),
                    true,
                )
            } else {
                result == Err::<Opened, _>(ConnectError::NotCreateRoom)
            }
        },
    }
}

/// Opens a room for a host that asks for one. The host has its id and is not yet among the
/// connections of the room, which it joins once it was told the code.
pub fn connect_socket(
    message: Option<JBMessage>,
    tags: &Vec<(String, String)>,
    room_code: String,
    host: String,
    secret: Token,
) -> (r: Result<Opened, ConnectError>)
    ensures
        is_opened(message, tags@, room_code@, host@, secret, r),
{
    match message {
        Some(JBMessage::Msg(JBMessageArgs::Action { app_id, user_id, action })) => match action {
            JBAction::CreateRoom { options: _ } => {
                let tag = app_tag(tags, app_id.as_str());
                let ghost tag_text = tag@;
                let mut room = Room::new(
                    JBRoom {
                        app_tag: tag,
                        app_id,
                        audience_enabled: true,
                        code: room_code.clone(),
                        audience_host: host.clone(),
                        host,
                        locked: false,
                        full: false,
                        moderation_enabled: false,
                        password_required: false,
                        twitch_locked: false,
                        locale: "en".to_owned(),
                        keepalive: false,
                    },
                );
                let serial: i64 = room.room_serial;
                room.room_serial = serial.wrapping_add(1);
                let client = Client {
                    profile: JBProfile {
                        id: serial,
                        roles: JBProfileRoles::Host {  },
                        user_id,
                        role: Role::Host,
                        name: String::new(),
                    },
                    client_type: ClientType::Blobcast,
                    secret,
                };
                let response = outcome(JBResultAction::CreateRoom { room_id: room_code });
                assert(is_tag(tags@, app_id@, tag_text));
                assert(room@ == RoomState {
                    serial: 2,
                    ..empty_room(
                        opened_config(app_id@, tag_text, true, room_code@, host@, host@),
                    )
                });
                Ok(Opened { room, client, response })
            },
            _ => Err(ConnectError::NotCreateRoom),
        },
        None => Err(ConnectError::NoMessage),
    }
}

/// The message that tells what came of an action.
pub fn outcome(result: JBResultAction) -> (r: JBResponse)
    ensures
        r@ == ResponseView::Outcome(result@, true),
{
    JBResponse::Msg([JBResponseArgs::Outcome { result, success: true }])
}

/// The effect of answering a host.
pub open spec fn answer(client: ClientView, result: ResultActionView) -> EffectView {
    EffectView::Blobcast(set![client.profile.id], ResponseView::Outcome(result, true))
}

/// Answers a host.
fn answer_with(client: &Client, result: JBResultAction) -> (r: Effect)
    ensures
        r@ == answer(client@, result@),
        r.names_each_once(),
{
    Effect::Blobcast { to: just(client.profile.id), response: outcome(result) }
}

/// The key under which the blob of the room is stored.
pub const ROOM_BLOB: &'static str = "bc:room";

/// What stands before the user in the key under which the blob of a customer is stored.
pub const CUSTOMER_BLOB: &'static str = "bc:customer:";

/// The entity of a blob: the next version of the one that was there.
pub open spec fn blob_entity(
    room: RoomState,
    from: i64,
    key: Seq<char>,
    blob: Seq<char>,
    attributes: AttributesView,
) -> EntityView {
    EntityView {
        kind: JBType::Object,
        object: ObjectView {
            key,
            val: ValueView::Object(blob),
            restrictions: no_restrictions(),
            version: match entity_at(room, key) {
                Some(entity) => entity.object.version.wrapping_add(1),
                None => 0,
            },
            from,
        },
        attributes,
    }
}

/// The entity of a blob.
fn make_blob(room: &Room, from: i64, key: String, blob: String, attributes: JBAttributes) -> (r:
    JBEntity)
    requires
        room.wf(),
    ensures
        r@ == blob_entity(room@, from, key@, blob@, attributes@),
{
    let version: u32 = match room.entities.get(key.as_str()) {
        Some(entity) => entity.1.version.wrapping_add(1),
        None => 0,
    };
    JBEntity(
        JBType::Object,
        JBObject {
            key,
            val: JBValue::Object { val: blob },
            restrictions: JBRestrictions::default(),
            version,
            from,
        },
        attributes,
    )
}

/// What a new blob of the room brings about: every connection is told in its own protocol, then
/// the blob is stored, then the host is answered.
pub open spec fn room_blob(client: ClientView, blob: Seq<char>, room: RoomState) -> Seq<
    EffectView,
> {
    let entity = blob_entity(room, client.profile.id, ROOM_BLOB@, blob, default_attributes());
    seq![
        notice(
            speaking(room, ClientType::Ecast),
            ResultView::Entity(JBType::Object, entity.object),
        ),
        EffectView::Blobcast(
            speaking(room, ClientType::Blobcast),
            ResponseView::Event(room.config.code, EventView::RoomBlobChanged(entity.object.val)),
        ),
        EffectView::Change(ChangeView::Insert(entity)),
        answer(client, ResultActionView::SetRoomBlob),
    ]
}

/// Sets the blob of the room.
pub fn set_room_blob(client: &Client, blob: String, room: &Room) -> (r: Vec<Effect>)
    requires
        room.wf(),
    ensures
        effect_views(r@) == room_blob(client@, blob@, room@),
        each_once(r@),
{
    let entity = make_blob(
        room,
        client.profile.id,
        ROOM_BLOB.to_owned(),
        blob,
        JBAttributes::default(),
    );
    let ecast = recipients(room, &Target::Speaking { client_type: ClientType::Ecast });
    let blobcast = recipients(room, &Target::Speaking { client_type: ClientType::Blobcast });
    let shown = alone(notify(ecast, JBResult::Object(entity.1.clone())));
    let response = JBResponse::Msg(
        [
            JBResponseArgs::Event {
                room_id: room.room_config.code.clone(),
                event: JBEvent::RoomBlobChanged { blob: entity.1.val.clone() },
            },
        ],
    );
    let told = followed(shown, Effect::Blobcast { to: blobcast, response });
    let stored = followed(told, Effect::Change { change: RoomChange::Insert { entity } });
    let effects = followed(stored, answer_with(client, JBResultAction::SetRoomBlob {  }));
    assert(effect_views(effects@) =~= room_blob(client@, blob@, room@));
    effects
}

/// Whether a connection is one of a user, or there is none of that user. Where a user has several
/// any of them can be meant.
pub open spec fn is_customer(room: RoomState, user_id: Seq<char>, chosen: Option<i64>) -> bool {
    match chosen {
        Some(id) => room.connections.contains_key(id) && room.connections[id].profile.user_id
            == user_id,
        None => forall|id: i64| #[trigger]
            room.connections.contains_key(id) ==> room.connections[id].profile.user_id != user_id,
    }
}

/// A connection of a user.
pub fn customer(room: &Room, user_id: &str) -> (r: Option<i64>)
    requires
        room.wf(),
    ensures
        is_customer(room@, user_id@, r),
{
    let ghost listing = room.connections.listing();
    let mut i: usize = 0;
    proof {
        room.connections.lemma_listing();
    }
    while i < room.connections.len()
        invariant
            room.wf(),
            listing == room.connections.listing(),
            i <= listing.len(),
            forall|j: int| 0 <= j < i ==> (#[trigger] listing[j])@.profile.user_id != user_id@,
            forall|j: int|
                #![trigger listing[j]]
                0 <= j < listing.len() ==> {
                    &&& room@.connections.contains_key(listing[j].item_id())
                    &&& room@.connections[listing[j].item_id()] == listing[j]@
                },
        decreases listing.len() - i,
    {
        let client = room.connections.at(i);
        if same_text(client.profile.user_id.as_str(), user_id) {
            return Some(client.profile.id);
        }
        i = i + 1;
    }
    assert forall|id: i64| #[trigger] room@.connections.contains_key(id) implies room@.connections[id].profile.user_id
        != user_id@ by {
        let j = choose|j: int| 0 <= j < listing.len() && (#[trigger] listing[j]).item_id() == id;
        assert(listing[j]@.profile.user_id != user_id@);
    }
    None
}

/// The attributes of the blob of a customer: that connection alone may read it.
pub open spec fn customer_attributes(chosen: Option<i64>) -> AttributesView {
    AttributesView {
        locked: false,
        acl: seq![
            Acl {
                interest: Interest { readable: true, writable: false },
                principle: Principle::Id(
                    match chosen {
                        Some(id) => id,
                        None => 0,
                    },
                ),
            },
        ],
    }
}

/// What a new blob of a customer brings about: its connection, where it is there, is shown the
/// blob, and the blob is stored.
pub open spec fn customer_blob(
    client: ClientView,
    blob: Seq<char>,
    user_id: Seq<char>,
    room: RoomState,
    chosen: Option<i64>,
) -> Seq<EffectView> {
    let entity = blob_entity(
        room,
        client.profile.id,
        CUSTOMER_BLOB@ + user_id,
        blob,
        customer_attributes(chosen),
    );
    let stored = EffectView::Change(ChangeView::Insert(entity));
    match chosen {
        Some(id) => seq![
            notice(set![id], ResultView::Entity(JBType::Object, entity.object)),
            stored,
        ],
        None => seq![stored],
    }
}

/// Sets the blob of a customer.
pub fn set_customer_blob(client: &Client, blob: String, user_id: &str, room: &Room) -> (r: Vec<
    Effect,
>)
    requires
        room.wf(),
    ensures
        exists|chosen: Option<i64>| #[trigger]
            is_customer(room@, user_id@, chosen) && effect_views(r@) == customer_blob(
                client@,
                blob@,
                user_id@,
                room@,
                chosen,
            ),
        each_once(r@),
{
    let chosen = customer(room, user_id);
    let principle = Principle::Id(
        match chosen {
            Some(id) => id,
            None => 0,
        },
    );
    let acl: Vec<Acl> = vec![
        Acl { interest: Interest { readable: true, writable: false }, principle },
    ];
    assert(acl@ =~= customer_attributes(chosen).acl);
    let entity = make_blob(
        room,
        client.profile.id,
        concat2(CUSTOMER_BLOB, user_id),
        blob,
        JBAttributes { locked: false, acl },
    );
    let shown: Vec<Effect> = match chosen {
        Some(id) => alone(notify(just(id), JBResult::Object(entity.1.clone()))),
        None => Vec::new(),
    };
    let effects = followed(shown, Effect::Change { change: RoomChange::Insert { entity } });
    assert(effect_views(effects@) =~= customer_blob(client@, blob@, user_id@, room@, chosen));
    effects
}

/// How the session of the audience stands: the counter, or zero where there is none.
pub open spec fn audience_module(room: RoomState) -> ModuleView {
    ModuleView::Audience(
        match entity_at(room, "audience"@) {
            Some(entity) => entity.object.val,
            None => ValueView::AudiencePnCounter(0),
        },
    )
}

/// How the session of the audience stands.
fn audience_status(room: &Room) -> (r: JBSessionModuleWithResponse)
    requires
        room.wf(),
    ensures
        r@ == audience_module(room@),
{
    let value = match room.entities.get("audience") {
        Some(entity) => entity.1.val.clone(),
        None => JBValue::AudiencePnCounter { count: 0 },
    };
    JBSessionModuleWithResponse::Audience(value)
}

/// The choices of a vote with their counts, where one is stored under a name.
pub open spec fn vote_choices(room: RoomState, name: Seq<char>) -> Option<Seq<(Seq<char>, i64)>> {
    match entity_at(room, name) {
        Some(entity) => match entity.object.val {
            ValueView::AudienceCountGroup(group) => Some(group.choices),
            _ => None,
        },
        None => None,
    }
}

/// How the session of a vote stands, where one is stored under a name.
fn vote_status(room: &Room, name: &str) -> (r: Option<JBSessionModuleWithResponse>)
    requires
        room.wf(),
    ensures
        match r {
            Some(module) => vote_choices(room@, name@) == Some(module@->Vote_0) && module@ is Vote,
            None => vote_choices(room@, name@) is None,
        },
{
    match room.entities.get(name) {
        Some(entity) => match &entity.1.val {
            JBValue::AudienceCountGroup(group) => Some(
                JBSessionModuleWithResponse::Vote(group.clone().choices),
            ),
            _ => None,
        },
        None => None,
    }
}

/// The entity of a vote that is started.
pub open spec fn vote_entity(from: i64, name: Seq<char>, group: CountGroupView) -> EntityView {
    EntityView {
        kind: JBType::AudienceCountGroup,
        object: ObjectView {
            key: name,
            val: ValueView::AudienceCountGroup(group),
            restrictions: no_restrictions(),
            version: 0,
            from,
        },
        attributes: default_attributes(),
    }
}

/// What the start of a session brings about. The audience is answered with its counter. A vote is
/// shown to all connections that speak the newer protocol, then the host is answered, then the
/// vote is stored.
pub open spec fn session_started(
    client: ClientView,
    module: JBSessionModuleWithArgs,
    name: Seq<char>,
    room: RoomState,
) -> Seq<EffectView> {
    match module {
        JBSessionModuleWithArgs::Audience => seq![
            answer(client, ResultActionView::StartSession(audience_module(room), name)),
        ],
        JBSessionModuleWithArgs::Vote(group) => {
            let entity = vote_entity(client.profile.id, name, group@);
            seq![
                notice(
                    speaking(room, ClientType::Ecast),
                    ResultView::Entity(JBType::AudienceCountGroup, entity.object),
                ),
                answer(
                    client,
                    ResultActionView::StartSession(ModuleView::Vote(group@.choices), name),
                ),
                EffectView::Change(ChangeView::Insert(entity)),
            ]
        },
    }
}

/// Starts a session.
pub fn start_session(
    client: &Client,
    module: JBSessionModuleWithArgs,
    name: String,
    room: &Room,
) -> (r: Vec<Effect>)
    requires
        room.wf(),
    ensures
        effect_views(r@) == session_started(client@, module, name@, room@),
        each_once(r@),
{
    match module {
        JBSessionModuleWithArgs::Audience => alone(
            answer_with(
                client,
                JBResultAction::StartSession { module: audience_status(room), name },
            ),
        ),
        JBSessionModuleWithArgs::Vote(group) => {
            let choices = group.clone().choices;
            let entity = JBEntity(
                JBType::AudienceCountGroup,
                JBObject {
                    key: name.clone(),
                    val: JBValue::AudienceCountGroup(group),
                    restrictions: JBRestrictions::default(),
                    version: 0,
                    from: client.profile.id,
                },
                JBAttributes::default(),
            );
            let to = recipients(room, &Target::Speaking { client_type: ClientType::Ecast });
            let shown = alone(notify(to, JBResult::AudienceCountGroup(entity.1.clone())));
            let answered = followed(
                shown,
                answer_with(
                    client,
                    JBResultAction::StartSession {
                        module: JBSessionModuleWithResponse::Vote(choices),
                        name: name.clone(),
                    },
                ),
            );
            let effects = followed(
                answered,
                Effect::Change { change: RoomChange::Insert { entity } },
            );
            assert(effect_views(effects@) =~= session_started(client@, module, name@, room@));
            effects
        },
    }
}

/// What the end of a session brings about: what is stored for it is taken away, and the host is
/// answered with how it stood. Nothing, where there is no such vote.
pub open spec fn session_stopped(
    client: ClientView,
    module: JBSessionModule,
    name: Seq<char>,
    room: RoomState,
) -> Seq<EffectView> {
    match module {
        JBSessionModule::Audience => seq![
            EffectView::Change(ChangeView::Remove("audience"@)),
            answer(client, ResultActionView::StopSession(audience_module(room), name)),
        ],
        JBSessionModule::Vote => match vote_choices(room, name) {
            Some(choices) => seq![
                EffectView::Change(ChangeView::Remove(name)),
                answer(client, ResultActionView::StopSession(ModuleView::Vote(choices), name)),
            ],
            None => seq![],
        },
    }
}

/// Whether what is stored under the name of a session can be the session.
pub open spec fn can_stop(module: JBSessionModule, name: Seq<char>, room: RoomState) -> bool {
    module == JBSessionModule::Vote && room.entities.contains_key(name)
        ==> room.entities[name].object.val is AudienceCountGroup
}

/// Ends a session.
pub fn stop_session(client: &Client, module: JBSessionModule, name: String, room: &Room) -> (r: Vec<
    Effect,
>)
    requires
        room.wf(),
        can_stop(module, name@, room@),
    ensures
        effect_views(r@) == session_stopped(client@, module, name@, room@),
        each_once(r@),
{
    match module {
        JBSessionModule::Audience => {
            let removed = alone(
                Effect::Change { change: RoomChange::Remove { key: "audience".to_owned() } },
            );
            let effects = followed(
                removed,
                answer_with(
                    client,
                    JBResultAction::StopSession { module: audience_status(room), name },
                ),
            );
            assert(effect_views(effects@) =~= session_stopped(client@, module, name@, room@));
            effects
        },
        JBSessionModule::Vote => match vote_status(room, name.as_str()) {
            Some(status) => {
                let removed = alone(
                    Effect::Change { change: RoomChange::Remove { key: name.clone() } },
                );
                let effects = followed(
                    removed,
                    answer_with(client, JBResultAction::StopSession { module: status, name }),
                );
                assert(effect_views(effects@) =~= session_stopped(client@, module, name@, room@));
                effects
            },
            None => {
                let effects: Vec<Effect> = Vec::new();
                assert(effect_views(effects@) =~= seq![]);
                effects
            },
        },
    }
}

/// What a question about a session brings about: the host is answered with how it stands.
/// Nothing, where there is no such vote.
pub open spec fn session_status(
    client: ClientView,
    module: JBSessionModule,
    name: Seq<char>,
    room: RoomState,
) -> Seq<EffectView> {
    match module {
        JBSessionModule::Audience => seq![
            answer(client, ResultActionView::GetSessionStatus(audience_module(room), name)),
        ],
        JBSessionModule::Vote => match vote_choices(room, name) {
            Some(choices) => seq![
                answer(client, ResultActionView::GetSessionStatus(ModuleView::Vote(choices), name)),
            ],
            None => seq![],
        },
    }
}

/// Tells how a session stands.
pub fn get_session_status(
    client: &Client,
    module: JBSessionModule,
    name: String,
    room: &Room,
) -> (r: Vec<Effect>)
    requires
        room.wf(),
    ensures
        effect_views(r@) == session_status(client@, module, name@, room@),
        each_once(r@),
{
    match module {
        JBSessionModule::Audience => alone(
            answer_with(
                client,
                JBResultAction::GetSessionStatus { module: audience_status(room), name },
            ),
        ),
        JBSessionModule::Vote => match vote_status(room, name.as_str()) {
            Some(status) => alone(
                answer_with(client, JBResultAction::GetSessionStatus { module: status, name }),
            ),
            None => {
                let effects: Vec<Effect> = Vec::new();
                assert(effect_views(effects@) =~= seq![]);
                effects
            },
        },
    }
}

/// What a message brings about, where a connection was chosen for the customer that it names.
pub open spec fn processing(
    client: ClientView,
    message: JBMessage,
    room: RoomState,
    chosen: Option<i64>,
) -> Result<Seq<EffectView>, ProcessError> {
    let JBMessage::Msg(JBMessageArgs::Action { app_id: _, user_id: _, action }) = message;
    match action {
        JBAction::SetRoomBlob { blob, room_id: _ } => Ok(room_blob(client, blob@, room)),
        JBAction::SetCustomerBlob { blob, customer_user_id, room_id: _ } => {
            Ok(customer_blob(client, blob@, customer_user_id@, room, chosen))
        },
        JBAction::LockRoom { room_id: _ } => Ok(
            seq![
                EffectView::Change(ChangeView::LockRoom),
                answer(client, ResultActionView::LockRoom(room.config.code)),
            ],
        ),
        JBAction::CreateRoom { options: _ } => Err(ProcessError::AlreadyCreated),
        JBAction::StartSession { module, name, room_id: _ } => {
            Ok(session_started(client, module, name@, room))
        },
        JBAction::StopSession { module, name, room_id: _ } => {
            Ok(session_stopped(client, module, name@, room))
        },
        JBAction::GetSessionStatus { module, name, room_id: _ } => {
            Ok(session_status(client, module, name@, room))
        },
    }
}

/// Whether a connection is one of the customer that a message names, or the message names none.
pub open spec fn is_meant(message: JBMessage, room: RoomState, chosen: Option<i64>) -> bool {
    let JBMessage::Msg(JBMessageArgs::Action { app_id: _, user_id: _, action }) = message;
    action matches JBAction::SetCustomerBlob { blob: _, customer_user_id, room_id: _ }
        ==> is_customer(room, customer_user_id@, chosen)
}

/// Whether a message is one that a room can take.
pub open spec fn acceptable(message: JBMessage, room: RoomState) -> bool {
    let JBMessage::Msg(JBMessageArgs::Action { app_id: _, user_id: _, action }) = message;
    action matches JBAction::StopSession { module, name, room_id: _ } ==> can_stop(
        module,
        name@,
        room,
    )
}

/// Whether a message is one that a room can take.
pub fn is_acceptable(message: &JBMessage, room: &Room) -> (r: bool)
    requires
        room.wf(),
    ensures
        r == acceptable(*message, room@),
{
    let JBMessage::Msg(JBMessageArgs::Action { app_id: _, user_id: _, action }) = message;
    match action {
        JBAction::StopSession { module: JBSessionModule::Vote, name, room_id: _ } => {
            match room.entities.get(name.as_str()) {
                Some(entity) => match &entity.1.val {
                    JBValue::AudienceCountGroup(_) => true,
                    _ => false,
                },
                None => true,
            }
        },
        _ => true,
    }
}

/// Decides what a message brings about. The room itself is left as it is: what changes it is
/// among the effects.
pub fn process_message(client: &Client, message: JBMessage, room: &Room) -> (r: Result<
    Vec<Effect>,
    ProcessError,
>)
    requires
        room.wf(),
        acceptable(message, room@),
    ensures
        exists|chosen: Option<i64>| #[trigger]
            is_meant(message, room@, chosen) && match r {
                Ok(effects) => {
                    &&& processing(client@, message, room@, chosen) == Ok::<_, ProcessError>(
                        effect_views(effects@),
                    )
                    &&& each_once(effects@)
                },
                Err(error) => processing(client@, message, room@, chosen) == Err::<
                    Seq<EffectView>,
                    _,
                >(error),
            },
{
    assert(!(message->Msg_0->action is SetCustomerBlob) ==> is_meant(message, room@, None));
    let JBMessage::Msg(JBMessageArgs::Action { app_id: _, user_id: _, action }) = message;
    match action {
        JBAction::SetRoomBlob { blob, room_id: _ } => Ok(set_room_blob(client, blob, room)),
        JBAction::SetCustomerBlob { blob, customer_user_id, room_id: _ } => {
            let effects = set_customer_blob(client, blob, customer_user_id.as_str(), room);
            proof {
                let chosen = choose|chosen: Option<i64>| #[trigger]
                    is_customer(room@, customer_user_id@, chosen) && effect_views(effects@)
                        == customer_blob(client@, blob@, customer_user_id@, room@, chosen);
                assert(is_meant(message, room@, chosen));
            }
            Ok(effects)
        },
        JBAction::LockRoom { room_id: _ } => {
            let changed = alone(Effect::Change { change: RoomChange::LockRoom });
            let effects = followed(
                changed,
                answer_with(
                    client,
                    JBResultAction::LockRoom { room_id: room.room_config.code.clone() },
                ),
            );
            assert(effect_views(effects@) =~= processing(
                client@,
                message,
                room@,
                None,
            )->Ok_0);
            Ok(effects)
        },
        JBAction::CreateRoom { options: _ } => Err(ProcessError::AlreadyCreated),
        JBAction::StartSession { module, name, room_id: _ } => Ok(
            start_session(client, module, name, room),
        ),
        JBAction::StopSession { module, name, room_id: _ } => Ok(
            stop_session(client, module, name, room),
        ),
        JBAction::GetSessionStatus { module, name, room_id: _ } => Ok(
            get_session_status(client, module, name, room),
        ),
    }
}

/// Whether this is what is done about an event at the socket of a host.
pub open spec fn is_handled(event: SocketEvent, done: (SocketAction, Flow)) -> bool {
    if event is Idle {
        done.0 matches SocketAction::Send(text) && text@ == "2:::"@ && done.1 == Flow::Announce
    } else {
        done == socket_step(event, SocketAction::Idle)
    }
}

/// Decides what is done about an event at the socket of a host. When for a while nothing has
/// happened, the host is sent a heartbeat.
pub fn handle_socket(event: SocketEvent) -> (r: (SocketAction, Flow))
    ensures
        is_handled(event, r),
{
    match event {
        SocketEvent::Idle => {
            crate::frame::step(SocketEvent::Idle, SocketAction::Send("2:::".to_owned()))
        },
        other => crate::frame::step(other, SocketAction::Idle),
    }
}

/// The frame that is passed on between a host and another server, in either direction.
pub fn handle_socket_proxy(frame: Frame) -> (r: Result<Frame, RelayError>)
    ensures
        r == relayed(frame),
{
    relay(frame)
}

} // verus!
