//! The messages of the newer protocol, and what a connection's messages do to a room.
use crate::acl::{may_read, may_write, Acl, Role};
use crate::ecast::WSQuery;
use crate::entity::{
    default_attributes, no_restrictions, AttributesView, EntityView, JBAttributes, JBCountGroup, JBDoodle, JBEntity, JBLine, JBObject, JBRestrictions, JBType,
    JBValue, LineView, ObjectView, ValueView,
};
use crate::blobcast::ws::{
    CustomerOptionsView, EventView, JBCustomerOptions, JBEvent, JBResponse, JBResponseArgs,
    ResponseView,
};
use crate::effect::{
    alone, each_once, effect_views, followed, just, notice, notify, others, readers, recipients,
    reply, reply_with, Effect, EffectView, Target,
};
use crate::frame::{
    relay, relayed, socket_step, Flow, Frame, RelayError, SocketAction, SocketEvent,
};
use crate::json::Json;
use crate::room::{
    numbered, with_connection, with_entity, ChangeView, Client, ClientType, ClientView, JBProfile,
    JBProfileRoles, ProfileView, RolesView, Room, RoomChange, RoomState, Token,
};
use crate::text::concat2;
use crate::store::{Keyed, KeyedStore, Numbered, NumberedStore};
use vstd::prelude::*;

verus! {

/// A message to a connection.
pub struct JBMessage {
    pub pc: u64,
    pub re: Option<u64>,
    pub result: JBResult,
}

/// The model of [`JBMessage`].
pub struct MessageView {
    pub pc: u64,
    pub re: Option<u64>,
    pub result: ResultView,
}

impl View for JBMessage {
    type V = MessageView;

    open spec fn view(&self) -> MessageView {
        MessageView { pc: self.pc, re: self.re, result: self.result@ }
    }
}

/// What a message to a connection holds.
pub enum JBResult {
    ClientWelcome(ClientWelcome),
    ClientConnected(ClientConnected),
    Text(JBObject),
    Number(JBObject),
    Object(JBObject),
    Doodle(JBObject),
    AudiencePnCounter(JBObject),
    AudienceGCounter(JBObject),
    AudienceCountGroup(JBObject),
    DoodleLine { key: String, from: i64, val: JBLine },
    RoomGetAudience { connections: i64 },
    ClientSend(JBClientSendParams),
    Lock { key: String, from: i64 },
    RoomLock {  },
    Error(&'static str),
    /// The request was carried out.
    Okay {  },
}

/// The model of [`JBResult`].
pub enum ResultView {
    ClientWelcome(WelcomeView),
    ClientConnected(ConnectedView),
    Entity(JBType, ObjectView),
    DoodleLine(Seq<char>, i64, LineView),
    RoomGetAudience(i64),
    ClientSend(i64, i64, Seq<char>),
    Lock(Seq<char>, i64),
    RoomLock,
    Error(Seq<char>),
    Okay,
}

impl View for JBResult {
    type V = ResultView;

    open spec fn view(&self) -> ResultView {
        match self {
            JBResult::ClientWelcome(welcome) => ResultView::ClientWelcome(welcome@),
            JBResult::ClientConnected(connected) => ResultView::ClientConnected(connected@),
            JBResult::Text(object) => ResultView::Entity(JBType::Text, object@),
            JBResult::Number(object) => ResultView::Entity(JBType::Number, object@),
            JBResult::Object(object) => ResultView::Entity(JBType::Object, object@),
            JBResult::Doodle(object) => ResultView::Entity(JBType::Doodle, object@),
            JBResult::AudiencePnCounter(object) => {
                ResultView::Entity(JBType::AudiencePnCounter, object@)
            },
            JBResult::AudienceGCounter(object) => {
                ResultView::Entity(JBType::AudienceGCounter, object@)
            },
            JBResult::AudienceCountGroup(object) => {
                ResultView::Entity(JBType::AudienceCountGroup, object@)
            },
            JBResult::DoodleLine { key, from, val } => ResultView::DoodleLine(key@, *from, val@),
            JBResult::RoomGetAudience { connections } => ResultView::RoomGetAudience(*connections),
            JBResult::ClientSend(params) => ResultView::ClientSend(
                params._from,
                params.to,
                params.body@,
            ),
            JBResult::Lock { key, from } => ResultView::Lock(key@, *from),
            JBResult::RoomLock {  } => ResultView::RoomLock,
            JBResult::Error(text) => ResultView::Error(text@),
            JBResult::Okay {  } => ResultView::Okay,
        }
    }
}

/// What a connection is told when it has connected.
pub struct ClientWelcome {
    pub id: i64,
    pub secret: Token,
    pub reconnect: bool,
    pub device_id: String,
    pub entities: KeyedStore<JBEntity>,
    pub here: NumberedStore<JBProfile>,
    pub profile: JBProfile,
}

/// The model of [`ClientWelcome`].
pub struct WelcomeView {
    pub id: i64,
    pub secret: Token,
    pub reconnect: bool,
    pub device_id: Seq<char>,
    pub entities: Map<Seq<char>, EntityView>,
    pub here: Map<i64, ProfileView>,
    pub profile: ProfileView,
}

impl View for ClientWelcome {
    type V = WelcomeView;

    open spec fn view(&self) -> WelcomeView {
        WelcomeView {
            id: self.id,
            secret: self.secret,
            reconnect: self.reconnect,
            device_id: self.device_id@,
            entities: self.entities@,
            here: self.here@,
            profile: self.profile@,
        }
    }
}

/// What a host is told when a player has connected.
#[derive(Debug)]
pub struct ClientConnected {
    pub id: i64,
    pub user_id: String,
    pub name: String,
    pub role: Role,
    pub reconnect: bool,
    pub profile: JBProfile,
}

/// The model of [`ClientConnected`].
pub struct ConnectedView {
    pub id: i64,
    pub user_id: Seq<char>,
    pub name: Seq<char>,
    pub role: Role,
    pub reconnect: bool,
    pub profile: ProfileView,
}

impl View for ClientConnected {
    type V = ConnectedView;

    open spec fn view(&self) -> ConnectedView {
        ConnectedView {
            id: self.id,
            user_id: self.user_id@,
            name: self.name@,
            role: self.role,
            reconnect: self.reconnect,
            profile: self.profile@,
        }
    }
}

/// A message from a connection, with the number that the answer names.
#[derive(Debug)]
pub struct WSMessage {
    pub params: JBParams,
    pub seq: u64,
}

/// What a connection asks for.
#[derive(Debug)]
pub enum JBParams {
    TextCreate(JBCreateParams),
    TextSet(JBCreateParams),
    TextUpdate(JBCreateParams),
    TextGet(JBKeyParam),
    NumberCreate(JBCreateParams),
    NumberSet(JBCreateParams),
    NumberUpdate(JBCreateParams),
    NumberGet(JBKeyParam),
    NumberIncrement(JBKeyParam),
    NumberDecrement(JBKeyParam),
    ObjectCreate(JBCreateParams),
    ObjectSet(JBCreateParams),
    ObjectUpdate(JBCreateParams),
    ObjectGet(JBKeyParam),
    AudienceGCounterCreate(JBCreateParams),
    AudienceGCounterGet(JBKeyParam),
    AudienceGCounterIncrement(JBCounterIncrementParams),
    AudienceGCounterDecrement(JBCounterIncrementParams),
    AudiencePnCounterCreate(JBCreateParams),
    AudiencePnCounterGet(JBKeyParam),
    AudiencePnCounterIncrement(JBCounterIncrementParams),
    AudiencePnCounterDecrement(JBCounterIncrementParams),
    AudienceCountGroupCreate(JBCreateParams),
    AudienceCountGroupGet(JBKeyParam),
    AudienceCountGroupIncrement(JBCountGroupIncrementParams),
    DoodleCreate(JBCreateParams),
    DoodleSet(JBCreateParams),
    DoodleUpdate(JBCreateParams),
    DoodleGet(JBKeyParam),
    DoodleStroke(JBKeyWithLine),
    ClientSend(JBClientSendParams),
    RoomExit,
    RoomGetAudience,
    RoomLock,
    Lock(JBKeyParam),
    Drop(JBKeyParam),
    /// Anything else, as its text.
    Other(String),
}

/// An entity to be put under a key.
#[derive(Debug)]
pub struct JBCreateParams {
    pub key: String,
    pub acl: Vec<Acl>,
    pub val: Option<CreateValue>,
    pub restrictions: JBRestrictions,
    pub doodle: JBDoodle,
    pub count_group: JBCountGroup,
}

/// The value that an entity is to have.
#[derive(Debug)]
pub enum CreateValue {
    Val(Json),
    Count(i64),
}

impl Default for CreateValue {
    fn default() -> (r: CreateValue)
        ensures
            r == CreateValue::Val(Json::Null),
    {
        CreateValue::Val(Json::Null)
    }
}

/// A line of the doodle under a key.
#[derive(Debug)]
pub struct JBKeyWithLine {
    pub key: String,
    pub line: JBLine,
}

/// A key.
#[derive(Debug)]
pub struct JBKeyParam {
    pub key: String,
}

/// A step of the counter under a key.
#[derive(Debug)]
pub struct JBCounterIncrementParams {
    pub key: String,
    pub times: i64,
}

/// Votes in the group under a name.
#[derive(Debug)]
pub struct JBCountGroupIncrementParams {
    pub name: String,
    pub vote: String,
    pub times: i64,
}

/// A message from one connection to another. The body is kept as its text.
#[derive(Debug)]
pub struct JBClientSendParams {
    pub _from: i64,
    pub to: i64,
    pub body: String,
}

impl JBParams {
    /// The opcode with which a request goes over the wire, where it is one that is known.
    pub open spec fn wire_name(self) -> Option<Seq<char>> {
        match self {
            JBParams::TextCreate(_) => Some("text/create"@),
            JBParams::TextSet(_) => Some("text/set"@),
            JBParams::TextUpdate(_) => Some("text/update"@),
            JBParams::TextGet(_) => Some("text/get"@),
            JBParams::NumberCreate(_) => Some("number/create"@),
            JBParams::NumberSet(_) => Some("number/set"@),
            JBParams::NumberUpdate(_) => Some("number/update"@),
            JBParams::NumberGet(_) => Some("number/get"@),
            JBParams::NumberIncrement(_) => Some("number/increment"@),
            JBParams::NumberDecrement(_) => Some("number/decrement"@),
            JBParams::ObjectCreate(_) => Some("object/create"@),
            JBParams::ObjectSet(_) => Some("object/set"@),
            JBParams::ObjectUpdate(_) => Some("object/update"@),
            JBParams::ObjectGet(_) => Some("object/get"@),
            JBParams::AudienceGCounterCreate(_) => Some("audience/g-counter/create"@),
            JBParams::AudienceGCounterGet(_) => Some("audience/g-counter/get"@),
            JBParams::AudienceGCounterIncrement(_) => Some("audience/g-counter/increment"@),
            JBParams::AudienceGCounterDecrement(_) => Some("audience/g-counter/decrement"@),
            JBParams::AudiencePnCounterCreate(_) => Some("audience/pn-counter/create"@),
            JBParams::AudiencePnCounterGet(_) => Some("audience/pn-counter/get"@),
            JBParams::AudiencePnCounterIncrement(_) => Some("audience/pn-counter/increment"@),
            JBParams::AudiencePnCounterDecrement(_) => Some("audience/pn-counter/decrement"@),
            JBParams::AudienceCountGroupCreate(_) => Some("audience/count-group/create"@),
            JBParams::AudienceCountGroupGet(_) => Some("audience/count-group/get"@),
            JBParams::AudienceCountGroupIncrement(_) => Some("audience/count-group/increment"@),
            JBParams::DoodleCreate(_) => Some("doodle/create"@),
            JBParams::DoodleSet(_) => Some("doodle/set"@),
            JBParams::DoodleUpdate(_) => Some("doodle/update"@),
            JBParams::DoodleGet(_) => Some("doodle/get"@),
            JBParams::DoodleStroke(_) => Some("doodle/stroke"@),
            JBParams::ClientSend(_) => Some("client/send"@),
            JBParams::RoomExit => Some("room/exit"@),
            JBParams::RoomGetAudience => Some("room/get-audience"@),
            JBParams::RoomLock => Some("room/lock"@),
            JBParams::Lock(_) => Some("lock"@),
            JBParams::Drop(_) => Some("drop"@),
            JBParams::Other(_) => None,
        }
    }

    /// The opcode with which a request goes over the wire, where it is one that is known.
    pub fn opcode(&self) -> (r: Option<&'static str>)
        ensures
            self.wire_name() == match r {
                Some(name) => Some(name@),
                None => None,
            },
    {
        match self {
            JBParams::TextCreate(_) => Some("text/create"),
            JBParams::TextSet(_) => Some("text/set"),
            JBParams::TextUpdate(_) => Some("text/update"),
            JBParams::TextGet(_) => Some("text/get"),
            JBParams::NumberCreate(_) => Some("number/create"),
            JBParams::NumberSet(_) => Some("number/set"),
            JBParams::NumberUpdate(_) => Some("number/update"),
            JBParams::NumberGet(_) => Some("number/get"),
            JBParams::NumberIncrement(_) => Some("number/increment"),
            JBParams::NumberDecrement(_) => Some("number/decrement"),
            JBParams::ObjectCreate(_) => Some("object/create"),
            JBParams::ObjectSet(_) => Some("object/set"),
            JBParams::ObjectUpdate(_) => Some("object/update"),
            JBParams::ObjectGet(_) => Some("object/get"),
            JBParams::AudienceGCounterCreate(_) => Some("audience/g-counter/create"),
            JBParams::AudienceGCounterGet(_) => Some("audience/g-counter/get"),
            JBParams::AudienceGCounterIncrement(_) => Some("audience/g-counter/increment"),
            JBParams::AudienceGCounterDecrement(_) => Some("audience/g-counter/decrement"),
            JBParams::AudiencePnCounterCreate(_) => Some("audience/pn-counter/create"),
            JBParams::AudiencePnCounterGet(_) => Some("audience/pn-counter/get"),
            JBParams::AudiencePnCounterIncrement(_) => Some("audience/pn-counter/increment"),
            JBParams::AudiencePnCounterDecrement(_) => Some("audience/pn-counter/decrement"),
            JBParams::AudienceCountGroupCreate(_) => Some("audience/count-group/create"),
            JBParams::AudienceCountGroupGet(_) => Some("audience/count-group/get"),
            JBParams::AudienceCountGroupIncrement(_) => Some("audience/count-group/increment"),
            JBParams::DoodleCreate(_) => Some("doodle/create"),
            JBParams::DoodleSet(_) => Some("doodle/set"),
            JBParams::DoodleUpdate(_) => Some("doodle/update"),
            JBParams::DoodleGet(_) => Some("doodle/get"),
            JBParams::DoodleStroke(_) => Some("doodle/stroke"),
            JBParams::ClientSend(_) => Some("client/send"),
            JBParams::RoomExit => Some("room/exit"),
            JBParams::RoomGetAudience => Some("room/get-audience"),
            JBParams::RoomLock => Some("room/lock"),
            JBParams::Lock(_) => Some("lock"),
            JBParams::Drop(_) => Some("drop"),
            JBParams::Other(_) => None,
        }
    }

    /// The kind of entity that a request is about.
    pub open spec fn kind(self) -> Option<JBType> {
        match self {
            JBParams::TextCreate(_)
            | JBParams::TextSet(_)
            | JBParams::TextUpdate(_)
            | JBParams::TextGet(_) => Some(JBType::Text),
            JBParams::NumberCreate(_)
            | JBParams::NumberSet(_)
            | JBParams::NumberUpdate(_)
            | JBParams::NumberGet(_)
            | JBParams::NumberIncrement(_)
            | JBParams::NumberDecrement(_) => Some(JBType::Number),
            JBParams::ObjectCreate(_)
            | JBParams::ObjectSet(_)
            | JBParams::ObjectUpdate(_)
            | JBParams::ObjectGet(_) => Some(JBType::Object),
            JBParams::DoodleCreate(_)
            | JBParams::DoodleSet(_)
            | JBParams::DoodleUpdate(_)
            | JBParams::DoodleGet(_)
            | JBParams::DoodleStroke(_) => Some(JBType::Doodle),
            JBParams::AudienceGCounterCreate(_)
            | JBParams::AudienceGCounterGet(_)
            | JBParams::AudienceGCounterIncrement(_)
            | JBParams::AudienceGCounterDecrement(_) => Some(JBType::AudienceGCounter),
            JBParams::AudiencePnCounterCreate(_)
            | JBParams::AudiencePnCounterGet(_)
            | JBParams::AudiencePnCounterIncrement(_)
            | JBParams::AudiencePnCounterDecrement(_) => Some(JBType::AudiencePnCounter),
            JBParams::AudienceCountGroupCreate(_)
            | JBParams::AudienceCountGroupGet(_)
            | JBParams::AudienceCountGroupIncrement(_) => Some(JBType::AudienceCountGroup),
            _ => None,
        }
    }

    /// The kind of entity that a request is about.
    pub fn scope(&self) -> (r: Option<JBType>)
        ensures
            r == self.kind(),
    {
        match self {
            JBParams::TextCreate(_) => Some(JBType::Text),
            JBParams::TextSet(_) => Some(JBType::Text),
            JBParams::TextUpdate(_) => Some(JBType::Text),
            JBParams::TextGet(_) => Some(JBType::Text),
            JBParams::NumberCreate(_) => Some(JBType::Number),
            JBParams::NumberSet(_) => Some(JBType::Number),
            JBParams::NumberUpdate(_) => Some(JBType::Number),
            JBParams::NumberGet(_) => Some(JBType::Number),
            JBParams::NumberIncrement(_) => Some(JBType::Number),
            JBParams::NumberDecrement(_) => Some(JBType::Number),
            JBParams::ObjectCreate(_) => Some(JBType::Object),
            JBParams::ObjectSet(_) => Some(JBType::Object),
            JBParams::ObjectUpdate(_) => Some(JBType::Object),
            JBParams::ObjectGet(_) => Some(JBType::Object),
            JBParams::DoodleCreate(_) => Some(JBType::Doodle),
            JBParams::DoodleSet(_) => Some(JBType::Doodle),
            JBParams::DoodleUpdate(_) => Some(JBType::Doodle),
            JBParams::DoodleGet(_) => Some(JBType::Doodle),
            JBParams::DoodleStroke(_) => Some(JBType::Doodle),
            JBParams::AudienceGCounterCreate(_) => Some(JBType::AudienceGCounter),
            JBParams::AudienceGCounterGet(_) => Some(JBType::AudienceGCounter),
            JBParams::AudienceGCounterIncrement(_) => Some(JBType::AudienceGCounter),
            JBParams::AudienceGCounterDecrement(_) => Some(JBType::AudienceGCounter),
            JBParams::AudiencePnCounterCreate(_) => Some(JBType::AudiencePnCounter),
            JBParams::AudiencePnCounterIncrement(_) => Some(JBType::AudiencePnCounter),
            JBParams::AudiencePnCounterDecrement(_) => Some(JBType::AudiencePnCounter),
            JBParams::AudiencePnCounterGet(_) => Some(JBType::AudiencePnCounter),
            JBParams::AudienceCountGroupCreate(_) => Some(JBType::AudienceCountGroup),
            JBParams::AudienceCountGroupGet(_) => Some(JBType::AudienceCountGroup),
            JBParams::AudienceCountGroupIncrement(_) => Some(JBType::AudienceCountGroup),
            JBParams::ClientSend(_) => None,
            JBParams::RoomExit => None,
            JBParams::RoomGetAudience => None,
            JBParams::RoomLock => None,
            JBParams::Lock(_) => None,
            JBParams::Drop(_) => None,
            JBParams::Other(_) => None,
        }
    }
}

/// Whether finished doodles are drawn.
#[derive(Clone, Copy, Debug)]
pub struct DoodleConfig {
    pub render: bool,
}

/// Why a message is not carried out.
#[derive(Clone, Copy, Debug, PartialEq, Eq, Structural)]
pub enum ProcessError {
    /// The value is none that an entity of the kind can have.
    InvalidValue(JBType),
    /// The room is there already.
    AlreadyCreated,
}

/// The bits of the double `1.0`.
pub const ONE: u64 = 0x3FF0_0000_0000_0000;

/// The entity under a key.
pub open spec fn entity_at(room: RoomState, key: Seq<char>) -> Option<EntityView> {
    if room.entities.contains_key(key) {
        Some(room.entities[key])
    } else {
        None
    }
}

/// The result that shows an entity of a kind.
pub fn entity_result(kind: JBType, object: JBObject) -> (r: JBResult)
    ensures
        r@ == ResultView::Entity(kind, object@),
{
    match kind {
        JBType::Text => JBResult::Text(object),
        JBType::Number => JBResult::Number(object),
        JBType::Object => JBResult::Object(object),
        JBType::Doodle => JBResult::Doodle(object),
        JBType::AudiencePnCounter => JBResult::AudiencePnCounter(object),
        JBType::AudienceGCounter => JBResult::AudienceGCounter(object),
        JBType::AudienceCountGroup => JBResult::AudienceCountGroup(object),
    }
}

/// Whether a request to put an entity under a key is refused.
pub open spec fn creation_refused(client: ClientView, previous: Option<EntityView>) -> bool {
    let has_been_created = previous is Some;
    let is_unlocked = previous matches Some(entity) && !entity.attributes.locked;
    let has_perms = previous matches Some(entity) && may_write(
        entity.attributes.acl,
        client.profile.role,
        client.profile.id,
    );
    !(has_been_created || is_unlocked || has_perms) && client.profile.role != Role::Host
}

/// The value that an entity of a kind is made with, where the request has one.
pub open spec fn created_value(kind: JBType, params: JBCreateParams) -> Option<ValueView> {
    let val = match params.val {
        Some(val) => val,
        None => CreateValue::Val(Json::Null),
    };
    match (kind, val) {
        (JBType::Doodle, _) => Some(ValueView::Doodle(params.doodle@)),
        (JBType::AudienceCountGroup, _) => Some(ValueView::AudienceCountGroup(params.count_group@)),
        (JBType::AudienceGCounter, CreateValue::Count(count)) => Some(
            ValueView::AudienceGCounter(count),
        ),
        (JBType::AudiencePnCounter, CreateValue::Count(count)) => Some(
            ValueView::AudiencePnCounter(count),
        ),
        (JBType::Text, CreateValue::Val(Json::Text(text))) => Some(ValueView::Text(text@)),
        (JBType::Text, CreateValue::Val(Json::Null)) => Some(ValueView::Empty),
        (JBType::Number, CreateValue::Val(Json::Number { bits, text: _ })) => Some(
            ValueView::Number(bits),
        ),
        (JBType::Number, CreateValue::Val(Json::Null)) => Some(ValueView::Empty),
        (JBType::Object, CreateValue::Val(Json::Object(text))) => Some(ValueView::Object(text@)),
        (JBType::Object, CreateValue::Val(Json::Null)) => Some(ValueView::Empty),
        _ => None,
    }
}

/// The value that an entity of a kind is made with.
fn value_of(
    kind: JBType,
    val: Option<CreateValue>,
    doodle: JBDoodle,
    count_group: JBCountGroup,
) -> (r: Option<JBValue>)
    ensures
        forall|params: JBCreateParams|
            params.val == val && params.doodle == doodle && params.count_group == count_group
                ==> #[trigger] created_value(kind, params) == match r {
                Some(value) => Some(value@),
                None => None,
            },
{
    let val: CreateValue = match val {
        Some(val) => val,
        None => CreateValue::default(),
    };
    match kind {
        JBType::Text => match val {
            CreateValue::Val(Json::Text(text)) => Some(JBValue::Text { val: text }),
            CreateValue::Val(Json::Null) => Some(JBValue::Empty { val: None }),
            _ => None,
        },
        JBType::Number => match val {
            CreateValue::Val(Json::Number { bits, text: _ }) => Some(JBValue::Number { val: bits }),
            CreateValue::Val(Json::Null) => Some(JBValue::Empty { val: None }),
            _ => None,
        },
        JBType::Object => match val {
            CreateValue::Val(Json::Object(text)) => Some(JBValue::Object { val: text }),
            CreateValue::Val(Json::Null) => Some(JBValue::Empty { val: None }),
            _ => None,
        },
        JBType::AudienceGCounter => match val {
            CreateValue::Count(count) => Some(JBValue::AudienceGCounter { count }),
            _ => None,
        },
        JBType::AudiencePnCounter => match val {
            CreateValue::Count(count) => Some(JBValue::AudiencePnCounter { count }),
            _ => None,
        },
        JBType::Doodle => Some(JBValue::Doodle { val: doodle }),
        JBType::AudienceCountGroup => Some(JBValue::AudienceCountGroup(count_group)),
    }
}

/// The entity that a request puts under a key: the next version of the one that was there,
/// unlocked, with the list of those who may read and write that one, or with the list of the
/// request where there was none.
pub open spec fn created_entity(
    client: ClientView,
    kind: JBType,
    params: JBCreateParams,
    val: ValueView,
    previous: Option<EntityView>,
) -> EntityView {
    EntityView {
        kind,
        object: ObjectView {
            key: params.key@,
            val,
            restrictions: params.restrictions@,
            version: match previous {
                Some(entity) => entity.object.version.wrapping_add(1),
                None => 0,
            },
            from: client.profile.id,
        },
        attributes: AttributesView {
            locked: false,
            acl: match previous {
                Some(entity) => entity.attributes.acl,
                None => params.acl@,
            },
        },
    }
}

/// What a request to put an entity under a key brings about: those who may read it are shown
/// it, then it is stored, then the request is answered.
pub open spec fn creation(
    client: ClientView,
    kind: JBType,
    params: JBCreateParams,
    seq: u64,
    room: RoomState,
) -> Result<Seq<EffectView>, ProcessError> {
    let id = client.profile.id;
    let previous = entity_at(room, params.key@);
    if creation_refused(client, previous) {
        Ok(seq![notice(set![id], ResultView::Error("Permission denied"@))])
    } else {
        match created_value(kind, params) {
            None => Err(ProcessError::InvalidValue(kind)),
            Some(val) => {
                let entity = created_entity(client, kind, params, val, previous);
                Ok(
                    seq![
                        notice(
                            readers(room, entity.attributes, id),
                            ResultView::Entity(kind, entity.object),
                        ),
                        EffectView::Change(ChangeView::Insert(entity)),
                        reply(id, seq, ResultView::Okay),
                    ],
                )
            },
        }
    }
}

/// Puts an entity under a key.
pub fn create(
    client: &Client,
    kind: JBType,
    params: JBCreateParams,
    seq: u64,
    room: &Room,
) -> (r: Result<Vec<Effect>, ProcessError>)
    requires
        room.wf(),
    ensures
        match r {
            Ok(effects) => {
                &&& creation(client@, kind, params, seq, room@) == Ok::<_, ProcessError>(
                    effect_views(effects@),
                )
                &&& each_once(effects@)
            },
            Err(error) => creation(client@, kind, params, seq, room@) == Err::<Seq<EffectView>, _>(
                error,
            ),
        },
{
    let id: i64 = client.profile.id;
    let ghost wanted = params;
    let previous = room.entities.get(params.key.as_str());
    let has_been_created: bool = previous.is_some();
    let is_unlocked: bool = match previous {
        Some(entity) => !entity.2.locked,
        None => false,
    };
    let has_perms: bool = match previous {
        Some(entity) => entity.2.is_writable_by(client.profile.role, id),
        None => false,
    };
    if !(has_been_created || is_unlocked || has_perms) && client.profile.role != Role::Host {
        let effects = alone(notify(just(id), JBResult::Error("Permission denied")));
        return Ok(effects);
    }
    let version: u32 = match previous {
        Some(entity) => entity.1.version.wrapping_add(1),
        None => 0,
    };
    let attributes = JBAttributes {
        locked: false,
        acl: match previous {
            Some(entity) => crate::entity::copied(&entity.2.acl),
            None => params.acl,
        },
    };
    let val = match value_of(kind, params.val, params.doodle, params.count_group) {
        Some(val) => val,
        None => {
            assert(created_value(kind, wanted) is None);
            return Err(ProcessError::InvalidValue(kind));
        },
    };
    assert(created_value(kind, wanted) == Some(val@));
    let entity = JBEntity(
        kind,
        JBObject {
            key: params.key,
            val,
            restrictions: params.restrictions,
            version,
            from: id,
        },
        attributes,
    );
    let to = recipients(room, &Target::Readers { attributes: &entity.2, but: id });
    let shown = alone(notify(to, entity_result(kind, entity.1.clone())));
    let stored = followed(shown, Effect::Change { change: RoomChange::Insert { entity } });
    let effects = followed(stored, reply_with(id, seq, JBResult::Okay {  }));
    proof {
        assert(creation(client@, kind, wanted, seq, room@)->Ok_0 =~= effect_views(effects@));
    }
    Ok(effects)
}

/// What a request for an entity brings about: where there is one, the answer shows it as one of
/// the kind that was asked for.
pub open spec fn reading(
    client: ClientView,
    kind: JBType,
    key: Seq<char>,
    seq: u64,
    room: RoomState,
) -> Seq<EffectView> {
    match entity_at(room, key) {
        Some(entity) => seq![
            reply(client.profile.id, seq, ResultView::Entity(kind, entity.object)),
        ],
        None => seq![],
    }
}

/// Reads the entity under a key.
pub fn read(client: &Client, kind: JBType, key: &String, seq: u64, room: &Room) -> (r: Vec<Effect>)
    requires
        room.wf(),
    ensures
        effect_views(r@) == reading(client@, kind, key@, seq, room@),
        each_once(r@),
{
    match room.entities.get(key.as_str()) {
        Some(entity) => alone(
            reply_with(client.profile.id, seq, entity_result(kind, entity.1.clone())),
        ),
        None => {
            let effects: Vec<Effect> = Vec::new();
            assert(effect_views(effects@) =~= seq![]);
            effects
        },
    }
}

/// What a stroke brings about: those who may read the doodle are shown the line, then the line
/// is added, then the request is answered; nothing, where there is no entity.
pub open spec fn stroking(
    client: ClientView,
    key: Seq<char>,
    line: LineView,
    seq: u64,
    room: RoomState,
) -> Seq<EffectView> {
    let id = client.profile.id;
    match entity_at(room, key) {
        Some(entity) => seq![
            notice(
                readers(room, entity.attributes, id),
                ResultView::DoodleLine(key, id, line),
            ),
            EffectView::Change(ChangeView::AddLine(key, line)),
            reply(id, seq, ResultView::Okay),
        ],
        None => seq![],
    }
}

/// Adds a line to the doodle under a key.
pub fn stroke(client: &Client, params: JBKeyWithLine, seq: u64, room: &Room) -> (r: Vec<Effect>)
    requires
        room.wf(),
    ensures
        effect_views(r@) == stroking(client@, params.key@, params.line@, seq, room@),
        each_once(r@),
{
    let id: i64 = client.profile.id;
    match room.entities.get(params.key.as_str()) {
        Some(entity) => {
            let to = recipients(room, &Target::Readers { attributes: &entity.2, but: id });
            let line_value = JBResult::DoodleLine {
                key: params.key.clone(),
                from: id,
                val: params.line.clone(),
            };
            let shown = alone(notify(to, line_value));
            let added = followed(
                shown,
                Effect::Change {
                    change: RoomChange::AddLine { key: params.key, line: params.line },
                },
            );
            let effects = followed(added, reply_with(id, seq, JBResult::Okay {  }));
            assert(effect_views(effects@) =~= stroking(
                client@,
                params.key@,
                params.line@,
                seq,
                room@,
            ));
            effects
        },
        None => {
            let effects: Vec<Effect> = Vec::new();
            assert(effect_views(effects@) =~= seq![]);
            effects
        },
    }
}

/// A step of a number, up or down: the bits of the number as it stands and of how far it steps.
#[derive(Clone, Copy, Debug, PartialEq, Eq, Structural)]
pub struct NumberStep {
    pub number: u64,
    pub increment: u64,
    pub up: bool,
}

/// The step of the number under a key, where a connection may take one. It is by one where no other
/// was given.
pub open spec fn step_of(client: ClientView, key: Seq<char>, up: bool, room: RoomState) -> Option<
    NumberStep,
> {
    match entity_at(room, key) {
        Some(entity) => match entity.object.val {
            ValueView::Number(number) => if may_write(
                entity.attributes.acl,
                client.profile.role,
                client.profile.id,
            ) {
                Some(
                    NumberStep {
                        number,
                        increment: match entity.object.restrictions.increment {
                            Some(increment) => increment,
                            None => ONE,
                        },
                        up,
                    },
                )
            } else {
                None
            },
            _ => None,
        },
        None => None,
    }
}

/// The step that a request asks for, if it asks for one that its connection may take.
pub open spec fn wanted_step(client: ClientView, params: JBParams, room: RoomState) -> Option<
    NumberStep,
> {
    match params {
        JBParams::NumberIncrement(params) => step_of(client, params.key@, true, room),
        JBParams::NumberDecrement(params) => step_of(client, params.key@, false, room),
        _ => None,
    }
}

/// The step that a request asks for. The number that it leads to is computed in floating point.
pub fn number_step(client: &Client, params: &JBParams, room: &Room) -> (r: Option<NumberStep>)
    requires
        room.wf(),
    ensures
        r == wanted_step(client@, *params, room@),
{
    let (key, up): (&String, bool) = match params {
        JBParams::NumberIncrement(params) => (&params.key, true),
        JBParams::NumberDecrement(params) => (&params.key, false),
        _ => {
            return None;
        },
    };
    match room.entities.get(key.as_str()) {
        Some(entity) => match &entity.1.val {
            JBValue::Number { val } => {
                if entity.2.is_writable_by(client.profile.role, client.profile.id) {
                    let increment: u64 = match entity.1.restrictions.increment {
                        Some(increment) => increment,
                        None => ONE,
                    };
                    Some(NumberStep { number: *val, increment, up })
                } else {
                    None
                }
            },
            _ => None,
        },
        None => None,
    }
}

/// What a step of a number to `next` brings about, where the connection may write the entity:
/// the entity is changed, those who may read it are shown it where it holds a number, and the
/// request is answered. Otherwise nothing.
pub open spec fn stepping(
    client: ClientView,
    key: Seq<char>,
    next: u64,
    seq: u64,
    room: RoomState,
) -> Seq<EffectView> {
    let id = client.profile.id;
    match entity_at(room, key) {
        Some(entity) => if may_write(entity.attributes.acl, client.profile.role, id) {
            let change = EffectView::Change(ChangeView::SetNumber(key, id, next));
            let answer = reply(id, seq, ResultView::Okay);
            if entity.object.val is Number {
                seq![
                    change,
                    notice(
                        readers(room, entity.attributes, id),
                        ResultView::Entity(JBType::Number, numbered(entity.object, id, next)),
                    ),
                    answer,
                ]
            } else {
                seq![change, answer]
            }
        } else {
            seq![]
        },
        None => seq![],
    }
}

/// Steps the number under a key to the number with the bits `next`.
pub fn step(client: &Client, key: String, next: u64, seq: u64, room: &Room) -> (r: Vec<Effect>)
    requires
        room.wf(),
    ensures
        effect_views(r@) == stepping(client@, key@, next, seq, room@),
        each_once(r@),
{
    let id: i64 = client.profile.id;
    match room.entities.get(key.as_str()) {
        Some(entity) => {
            if entity.2.is_writable_by(client.profile.role, id) {
                let changed = alone(
                    Effect::Change {
                        change: RoomChange::SetNumber { key: key.clone(), from: id, val: next },
                    },
                );
                let shown = match &entity.1.val {
                    JBValue::Number { val: _ } => {
                        let object = JBObject {
                            key: entity.1.key.clone(),
                            val: JBValue::Number { val: next },
                            restrictions: entity.1.restrictions.clone(),
                            version: entity.1.version.wrapping_add(1),
                            from: id,
                        };
                        let to = recipients(
                            room,
                            &Target::Readers { attributes: &entity.2, but: id },
                        );
                        followed(changed, notify(to, JBResult::Number(object)))
                    },
                    _ => changed,
                };
                let effects = followed(shown, reply_with(id, seq, JBResult::Okay {  }));
                assert(effect_views(effects@) =~= stepping(client@, key@, next, seq, room@));
                return effects;
            }
        },
        None => {},
    }
    let effects: Vec<Effect> = Vec::new();
    assert(effect_views(effects@) =~= seq![]);
    effects
}

/// Whether a message to another connection can be passed on: it goes to the first connection,
/// and that one, where it is there, speaks the older protocol.
pub open spec fn can_send(params: JBClientSendParams, room: RoomState) -> bool {
    &&& params.to == 1
    &&& room.connections.contains_key(1) ==> room.connections[1].client_type == ClientType::Blobcast
}

/// Whether a message to another connection can be passed on.
pub fn is_sendable(params: &JBClientSendParams, room: &Room) -> (r: bool)
    requires
        room.wf(),
    ensures
        r == can_send(*params, room@),
{
    params.to == 1 && match room.connections.get(params.to) {
        Some(connection) => connection.client_type == ClientType::Blobcast,
        None => true,
    }
}

/// What a message to the host brings about: the host, where it is there, is given the message,
/// and the request is answered.
pub open spec fn sending(
    client: ClientView,
    params: JBClientSendParams,
    seq: u64,
    room: RoomState,
) -> Seq<EffectView> {
    let answer = reply(client.profile.id, seq, ResultView::Okay);
    if room.connections.contains_key(params.to) {
        seq![
            EffectView::Blobcast(
                set![params.to],
                ResponseView::Event(
                    room.config.code,
                    EventView::CustomerMessage(client.profile.user_id, params.body@),
                ),
            ),
            answer,
        ]
    } else {
        seq![answer]
    }
}

/// Passes a message on to the host.
pub fn send(client: &Client, params: JBClientSendParams, seq: u64, room: &Room) -> (r: Vec<Effect>)
    requires
        room.wf(),
        can_send(params, room@),
    ensures
        effect_views(r@) == sending(client@, params, seq, room@),
        each_once(r@),
{
    let answer = reply_with(client.profile.id, seq, JBResult::Okay {  });
    match room.connections.get(params.to) {
        Some(_) => {
            let response = JBResponse::Msg(
                [
                    JBResponseArgs::Event {
                        event: JBEvent::CustomerMessage {
                            user_id: client.profile.user_id.clone(),
                            message: params.body,
                        },
                        room_id: room.room_config.code.clone(),
                    },
                ],
            );
            let sent = alone(Effect::Blobcast { to: just(params.to), response });
            let effects = followed(sent, answer);
            assert(effect_views(effects@) =~= sending(client@, params, seq, room@));
            effects
        },
        None => alone(answer),
    }
}

/// The number of connections of the audience, as the counter of the room has it.
pub open spec fn audience_count(room: RoomState) -> i64 {
    match entity_at(room, "audience"@) {
        Some(entity) => match entity.object.val {
            ValueView::AudiencePnCounter(count) => count,
            _ => 0,
        },
        None => 0,
    }
}

/// The number of connections of the audience.
pub fn audience(room: &Room) -> (r: i64)
    requires
        room.wf(),
    ensures
        r == audience_count(room@),
{
    match room.entities.get("audience") {
        Some(entity) => match &entity.1.val {
            JBValue::AudiencePnCounter { count } => *count,
            _ => 0,
        },
        None => 0,
    }
}

/// What a request to lock the room brings about: a host locks it, and all others are told.
pub open spec fn room_locking(client: ClientView, seq: u64, room: RoomState) -> Seq<EffectView> {
    let id = client.profile.id;
    let answer = reply(id, seq, ResultView::Okay);
    if client.profile.role == Role::Host {
        seq![
            EffectView::Change(ChangeView::LockRoom),
            notice(others(room, id), ResultView::RoomLock),
            answer,
        ]
    } else {
        seq![answer]
    }
}

/// Locks the room.
pub fn lock_room(client: &Client, seq: u64, room: &Room) -> (r: Vec<Effect>)
    requires
        room.wf(),
    ensures
        effect_views(r@) == room_locking(client@, seq, room@),
        each_once(r@),
{
    let id: i64 = client.profile.id;
    let answer = reply_with(id, seq, JBResult::Okay {  });
    if client.profile.role == Role::Host {
        let changed = alone(Effect::Change { change: RoomChange::LockRoom });
        let told = followed(
            changed,
            notify(recipients(room, &Target::Others { but: id }), JBResult::RoomLock {  }),
        );
        let effects = followed(told, answer);
        assert(effect_views(effects@) =~= room_locking(client@, seq, room@));
        effects
    } else {
        alone(answer)
    }
}

/// What a request to lock an entity brings about: the entity, where there is one, is locked,
/// those who may read it are told, a doodle is drawn where doodles are, and the request is
/// answered.
pub open spec fn locking(
    client: ClientView,
    key: Seq<char>,
    seq: u64,
    room: RoomState,
    render: bool,
) -> Seq<EffectView> {
    let id = client.profile.id;
    let answer = reply(id, seq, ResultView::Okay);
    match entity_at(room, key) {
        Some(entity) => {
            let change = EffectView::Change(ChangeView::Lock(key, id));
            let told = notice(readers(room, entity.attributes, id), ResultView::Lock(key, id));
            if render && entity.object.val is Doodle {
                seq![change, told, EffectView::Render(key, key + ".png"@), answer]
            } else {
                seq![change, told, answer]
            }
        },
        None => seq![answer],
    }
}

/// Locks the entity under a key.
pub fn lock(
    client: &Client,
    key: String,
    seq: u64,
    room: &Room,
    doodle_config: &DoodleConfig,
) -> (r: Vec<Effect>)
    requires
        room.wf(),
    ensures
        effect_views(r@) == locking(client@, key@, seq, room@, doodle_config.render),
        each_once(r@),
{
    let id: i64 = client.profile.id;
    let answer = reply_with(id, seq, JBResult::Okay {  });
    match room.entities.get(key.as_str()) {
        Some(entity) => {
            let changed = alone(
                Effect::Change { change: RoomChange::Lock { key: key.clone(), from: id } },
            );
            let to = recipients(room, &Target::Readers { attributes: &entity.2, but: id });
            let told = followed(changed, notify(to, JBResult::Lock { key: key.clone(), from: id }));
            let is_doodle: bool = match &entity.1.val {
                JBValue::Doodle { val: _ } => true,
                _ => false,
            };
            let drawn = if doodle_config.render && is_doodle {
                let file = concat2(key.as_str(), ".png");
                followed(told, Effect::Render { key: key.clone(), file })
            } else {
                told
            };
            let effects = followed(drawn, answer);
            assert(effect_views(effects@) =~= locking(
                client@,
                key@,
                seq,
                room@,
                doodle_config.render,
            ));
            effects
        },
        None => alone(answer),
    }
}

/// What a request to drop an entity brings about: one that the connection may write is taken
/// away, and the request is answered.
pub open spec fn dropping(
    client: ClientView,
    key: Seq<char>,
    seq: u64,
    room: RoomState,
) -> Seq<EffectView> {
    let answer = reply(client.profile.id, seq, ResultView::Okay);
    match entity_at(room, key) {
        Some(entity) => if may_write(
            entity.attributes.acl,
            client.profile.role,
            client.profile.id,
        ) {
            seq![EffectView::Change(ChangeView::Remove(key)), answer]
        } else {
            seq![answer]
        },
        None => seq![answer],
    }
}

/// Takes the entity under a key away.
pub fn drop_entity(client: &Client, key: String, seq: u64, room: &Room) -> (r: Vec<Effect>)
    requires
        room.wf(),
    ensures
        effect_views(r@) == dropping(client@, key@, seq, room@),
        each_once(r@),
{
    let answer = reply_with(client.profile.id, seq, JBResult::Okay {  });
    let writable: bool = match room.entities.get(key.as_str()) {
        Some(entity) => entity.2.is_writable_by(client.profile.role, client.profile.id),
        None => false,
    };
    if writable {
        let removed = alone(Effect::Change { change: RoomChange::Remove { key } });
        let effects = followed(removed, answer);
        assert(effect_views(effects@) =~= dropping(client@, key@, seq, room@));
        effects
    } else {
        alone(answer)
    }
}

/// The change of an entity, where it is a change of one that is there, and the answer.
pub open spec fn changing(client: ClientView, change: ChangeView, seq: u64) -> Seq<EffectView> {
    seq![EffectView::Change(change), reply(client.profile.id, seq, ResultView::Okay)]
}

/// Makes a change and answers.
pub fn change(client: &Client, made: RoomChange, seq: u64) -> (r: Vec<Effect>)
    ensures
        effect_views(r@) == changing(client@, made@, seq),
        each_once(r@),
{
    let changed = alone(Effect::Change { change: made });
    let effects = followed(changed, reply_with(client.profile.id, seq, JBResult::Okay {  }));
    assert(effect_views(effects@) =~= changing(client@, made@, seq));
    effects
}

/// What a request to end the room brings about: the answer, then the end of all connections.
pub open spec fn exiting(client: ClientView, seq: u64, room: RoomState) -> Seq<EffectView> {
    seq![
        reply(client.profile.id, seq, ResultView::Okay),
        EffectView::Close(room.connections.dom()),
        EffectView::Exit,
    ]
}

/// Ends the room.
pub fn exit(client: &Client, seq: u64, room: &Room) -> (r: Vec<Effect>)
    requires
        room.wf(),
    ensures
        effect_views(r@) == exiting(client@, seq, room@),
        each_once(r@),
{
    let answered = alone(reply_with(client.profile.id, seq, JBResult::Okay {  }));
    let closed = followed(
        answered,
        Effect::Close { to: recipients(room, &Target::Everyone) },
    );
    let effects = followed(closed, Effect::Exit);
    assert(effect_views(effects@) =~= exiting(client@, seq, room@));
    effects
}

/// What a message brings about. `next` is the number that a step of a number leads to.
pub open spec fn processing(
    client: ClientView,
    message: WSMessage,
    room: RoomState,
    render: bool,
    next: u64,
) -> Result<Seq<EffectView>, ProcessError> {
    let seq = message.seq;
    let answer = |result: ResultView| seq![reply(client.profile.id, seq, result)];
    match message.params {
        JBParams::TextCreate(params) => creation(client, JBType::Text, params, seq, room),
        JBParams::TextSet(params) => creation(client, JBType::Text, params, seq, room),
        JBParams::TextUpdate(params) => creation(client, JBType::Text, params, seq, room),
        JBParams::NumberCreate(params) => creation(client, JBType::Number, params, seq, room),
        JBParams::NumberSet(params) => creation(client, JBType::Number, params, seq, room),
        JBParams::NumberUpdate(params) => creation(client, JBType::Number, params, seq, room),
        JBParams::ObjectCreate(params) => creation(client, JBType::Object, params, seq, room),
        JBParams::ObjectSet(params) => creation(client, JBType::Object, params, seq, room),
        JBParams::ObjectUpdate(params) => creation(client, JBType::Object, params, seq, room),
        JBParams::DoodleCreate(params) => creation(client, JBType::Doodle, params, seq, room),
        JBParams::DoodleSet(params) => creation(client, JBType::Doodle, params, seq, room),
        JBParams::DoodleUpdate(params) => creation(client, JBType::Doodle, params, seq, room),
        JBParams::AudienceGCounterCreate(params) => {
            creation(client, JBType::AudienceGCounter, params, seq, room)
        },
        JBParams::AudiencePnCounterCreate(params) => {
            creation(client, JBType::AudiencePnCounter, params, seq, room)
        },
        JBParams::AudienceCountGroupCreate(params) => {
            creation(client, JBType::AudienceCountGroup, params, seq, room)
        },
        JBParams::TextGet(params) => Ok(reading(client, JBType::Text, params.key@, seq, room)),
        JBParams::NumberGet(params) => Ok(reading(client, JBType::Number, params.key@, seq, room)),
        JBParams::ObjectGet(params) => Ok(reading(client, JBType::Object, params.key@, seq, room)),
        JBParams::DoodleGet(params) => Ok(reading(client, JBType::Doodle, params.key@, seq, room)),
        JBParams::AudienceGCounterGet(params) => {
            Ok(reading(client, JBType::AudienceGCounter, params.key@, seq, room))
        },
        JBParams::AudiencePnCounterGet(params) => {
            Ok(reading(client, JBType::AudiencePnCounter, params.key@, seq, room))
        },
        JBParams::AudienceCountGroupGet(params) => {
            Ok(reading(client, JBType::AudienceCountGroup, params.key@, seq, room))
        },
        JBParams::DoodleStroke(params) => {
            Ok(stroking(client, params.key@, params.line@, seq, room))
        },
        JBParams::NumberIncrement(params) => Ok(stepping(client, params.key@, next, seq, room)),
        JBParams::NumberDecrement(params) => Ok(stepping(client, params.key@, next, seq, room)),
        JBParams::ClientSend(params) => Ok(sending(client, params, seq, room)),
        JBParams::RoomGetAudience => {
            Ok(answer(ResultView::RoomGetAudience(audience_count(room))))
        },
        JBParams::RoomLock => Ok(room_locking(client, seq, room)),
        JBParams::AudienceGCounterIncrement(params) => {
            Ok(changing(client, ChangeView::Increase(params.key@, params.times), seq))
        },
        JBParams::AudiencePnCounterIncrement(params) => {
            Ok(changing(client, ChangeView::Increase(params.key@, params.times), seq))
        },
        JBParams::AudienceGCounterDecrement(params) => {
            Ok(changing(client, ChangeView::Decrease(params.key@, params.times), seq))
        },
        JBParams::AudiencePnCounterDecrement(params) => {
            Ok(changing(client, ChangeView::Decrease(params.key@, params.times), seq))
        },
        JBParams::AudienceCountGroupIncrement(params) => {
            Ok(changing(client, ChangeView::Vote(params.name@, params.vote@, params.times), seq))
        },
        JBParams::RoomExit => Ok(exiting(client, seq, room)),
        JBParams::Lock(params) => Ok(locking(client, params.key@, seq, room, render)),
        JBParams::Drop(params) => Ok(dropping(client, params.key@, seq, room)),
        JBParams::Other(_) => Ok(answer(ResultView::Okay)),
    }
}

/// Whether a message is one that a room can take.
pub open spec fn acceptable(message: WSMessage, room: RoomState) -> bool {
    message.params matches JBParams::ClientSend(params) ==> can_send(params, room)
}

/// Whether a message is one that a room can take.
pub fn is_acceptable(message: &WSMessage, room: &Room) -> (r: bool)
    requires
        room.wf(),
    ensures
        r == acceptable(*message, room@),
{
    match &message.params {
        JBParams::ClientSend(params) => is_sendable(params, room),
        _ => true,
    }
}

/// Decides what a message brings about. The room itself is left as it is: what changes it is
/// among the effects. `next` is the number that a step of a number, which [`number_step`] gives,
/// leads to.
pub fn process_message(
    client: &Client,
    message: WSMessage,
    room: &Room,
    doodle_config: &DoodleConfig,
    next: u64,
) -> (r: Result<Vec<Effect>, ProcessError>)
    requires
        room.wf(),
        acceptable(message, room@),
    ensures
        match r {
            Ok(effects) => {
                &&& processing(client@, message, room@, doodle_config.render, next) == Ok::<
                    _,
                    ProcessError,
                >(effect_views(effects@))
                &&& each_once(effects@)
            },
            Err(error) => processing(client@, message, room@, doodle_config.render, next) == Err::<
                Seq<EffectView>,
                _,
            >(error),
        },
{
    let seq: u64 = message.seq;
    let scope = message.params.scope();
    match message.params {
        JBParams::TextCreate(params)
        | JBParams::TextSet(params)
        | JBParams::TextUpdate(params)
        | JBParams::NumberCreate(params)
        | JBParams::NumberSet(params)
        | JBParams::NumberUpdate(params)
        | JBParams::ObjectCreate(params)
        | JBParams::ObjectSet(params)
        | JBParams::ObjectUpdate(params)
        | JBParams::DoodleCreate(params)
        | JBParams::DoodleSet(params)
        | JBParams::DoodleUpdate(params)
        | JBParams::AudienceGCounterCreate(params)
        | JBParams::AudiencePnCounterCreate(params)
        | JBParams::AudienceCountGroupCreate(params) => create(
            client,
            scope.unwrap(),
            params,
            seq,
            room,
        ),
        JBParams::TextGet(params)
        | JBParams::NumberGet(params)
        | JBParams::ObjectGet(params)
        | JBParams::DoodleGet(params)
        | JBParams::AudienceGCounterGet(params)
        | JBParams::AudiencePnCounterGet(params)
        | JBParams::AudienceCountGroupGet(params) => Ok(
            read(client, scope.unwrap(), &params.key, seq, room),
        ),
        JBParams::DoodleStroke(params) => Ok(stroke(client, params, seq, room)),
        JBParams::NumberIncrement(params) | JBParams::NumberDecrement(params) => Ok(
            step(client, params.key, next, seq, room),
        ),
        JBParams::ClientSend(params) => Ok(send(client, params, seq, room)),
        JBParams::RoomGetAudience => Ok(
            alone(
                reply_with(
                    client.profile.id,
                    seq,
                    JBResult::RoomGetAudience { connections: audience(room) },
                ),
            ),
        ),
        JBParams::RoomLock => Ok(lock_room(client, seq, room)),
        JBParams::AudienceGCounterIncrement(params)
        | JBParams::AudiencePnCounterIncrement(params) => Ok(
            change(client, RoomChange::Increase { key: params.key, times: params.times }, seq),
        ),
        JBParams::AudienceGCounterDecrement(params)
        | JBParams::AudiencePnCounterDecrement(params) => Ok(
            change(client, RoomChange::Decrease { key: params.key, times: params.times }, seq),
        ),
        JBParams::AudienceCountGroupIncrement(params) => Ok(
            change(
                client,
                RoomChange::Vote { key: params.name, choice: params.vote, times: params.times },
                seq,
            ),
        ),
        JBParams::RoomExit => Ok(exit(client, seq, room)),
        JBParams::Lock(params) => Ok(lock(client, params.key, seq, room, doodle_config)),
        JBParams::Drop(params) => Ok(drop_entity(client, params.key, seq, room)),
        JBParams::Other(_) => Ok(
            alone(reply_with(client.profile.id, seq, JBResult::Okay {  })),
        ),
    }
}

/// Why a connection is refused.
#[derive(Clone, Copy, Debug, PartialEq, Eq, Structural)]
pub enum ConnectError {
    /// There is nothing that the role could do.
    UnimplementedRole(Role),
}

/// The counter of the audience, before anyone has come.
pub open spec fn fresh_audience() -> EntityView {
    EntityView {
        kind: JBType::AudiencePnCounter,
        object: ObjectView {
            key: "audience"@,
            val: ValueView::AudiencePnCounter(0),
            restrictions: no_restrictions(),
            version: 0,
            from: 0,
        },
        attributes: default_attributes(),
    }
}

/// The counter of the audience, which is there once someone has come.
pub open spec fn audience_entity(room: RoomState) -> EntityView {
    match entity_at(room, "audience"@) {
        Some(entity) => entity,
        None => fresh_audience(),
    }
}

/// The id that the next connection with a role is given. The audience is numbered by hundreds.
pub open spec fn next_id(room: RoomState, role: Role) -> i64 {
    match role {
        Role::Audience => match audience_entity(room).object.val {
            ValueView::AudiencePnCounter(count) => count.wrapping_add(1).wrapping_mul(100),
            _ => 100,
        },
        _ => room.serial,
    }
}

/// The profile of a new connection.
pub open spec fn fresh_profile(query: WSQuery, id: i64) -> ProfileView {
    ProfileView {
        id,
        roles: match query.role {
            Role::Host => RolesView::Host,
            Role::Player => RolesView::Player(query.name@),
            _ => RolesView::Unset,
        },
        user_id: query.user_id@,
        role: query.role,
        name: query.name@,
    }
}

/// A new connection. Where it has no secret of its own it is given one.
pub open spec fn fresh_client(query: WSQuery, id: i64, token: Token) -> ClientView {
    ClientView {
        profile: fresh_profile(query, id),
        client_type: ClientType::Ecast,
        secret: match query.secret {
            Some(secret) => secret,
            None => token,
        },
    }
}

/// The room after an id was given away: the next serial, or one more in the audience.
pub open spec fn id_given(room: RoomState, role: Role) -> RoomState {
    match role {
        Role::Audience => {
            let entity = audience_entity(room);
            with_entity(
                room,
                EntityView {
                    object: ObjectView {
                        val: match entity.object.val {
                            ValueView::AudiencePnCounter(count) => ValueView::AudiencePnCounter(
                                count.wrapping_add(1),
                            ),
                            other => other,
                        },
                        ..entity.object
                    },
                    ..entity
                },
            )
        },
        _ => RoomState { serial: room.serial.wrapping_add(1), ..room },
    }
}

/// Whether a connection comes back, whether it is refused, who it is, and the room with it.
pub open spec fn connecting(room: RoomState, query: WSQuery, token: Token) -> Result<
    (bool, ClientView, RoomState),
    ConnectError,
> {
    if room.connections.contains_key(query.id) {
        Ok((true, room.connections[query.id], room))
    } else if query.role == Role::Moderator {
        Err(ConnectError::UnimplementedRole(query.role))
    } else {
        let client = fresh_client(query, next_id(room, query.role), token);
        Ok((false, client, with_connection(id_given(room, query.role), client)))
    }
}

/// Connects: one whose id is known comes back, another is given an id of its own. `token` is a
/// fresh secret.
pub fn connect_socket(room: &mut Room, query: WSQuery, token: Token) -> (r: Result<
    (bool, Client),
    ConnectError,
>)
    requires
        old(room).wf(),
    ensures
        final(room).wf(),
        match r {
            Ok((reconnected, client)) => {
                connecting(old(room)@, query, token) == Ok::<_, ConnectError>(
                    (reconnected, client@, final(room)@),
                )
            },
            Err(error) => {
                &&& connecting(old(room)@, query, token) == Err::<
                    (bool, ClientView, RoomState),
                    ConnectError,
                >(error)
                &&& final(room)@ == old(room)@
            },
        },
{
    let ghost before = room@;
    match room.connections.get(query.id) {
        Some(client) => {
            return Ok((true, client.clone()));
        },
        None => {},
    }
    let secret: Token = match query.secret {
        Some(secret) => secret,
        None => token,
    };
    let serial: i64;
    let roles: JBProfileRoles;
    match query.role {
        Role::Host => {
            serial = room.room_serial;
            room.room_serial = serial.wrapping_add(1);
            roles = JBProfileRoles::Host {  };
        },
        Role::Player => {
            serial = room.room_serial;
            room.room_serial = serial.wrapping_add(1);
            roles = JBProfileRoles::Player { name: query.name.clone() };
        },
        Role::Audience => {
            let mut entity = match room.entities.get("audience") {
                Some(entity) => entity.clone(),
                None => JBEntity(
                    JBType::AudiencePnCounter,
                    JBObject {
                        key: "audience".to_owned(),
                        val: JBValue::AudiencePnCounter { count: 0 },
                        restrictions: JBRestrictions::default(),
                        version: 0,
                        from: 0,
                    },
                    JBAttributes::default(),
                ),
            };
            assert(entity@ == audience_entity(before));
            serial =
            match &entity.1.val {
                JBValue::AudiencePnCounter { count } => {
                    let next: i64 = count.wrapping_add(1);
                    entity.1.val = JBValue::AudiencePnCounter { count: next };
                    next.wrapping_mul(100)
                },
                _ => 100,
            };
            room.entities.put(entity);
            roles = JBProfileRoles::Unset;
        },
        Role::Moderator => {
            return Err(ConnectError::UnimplementedRole(query.role));
        },
    }
    let client = Client {
        profile: JBProfile {
            id: serial,
            roles,
            user_id: query.user_id,
            role: query.role,
            name: query.name,
        },
        client_type: ClientType::Ecast,
        secret,
    };
    room.connections.put(client.clone());
    Ok((false, client))
}

/// The device that every connection is told it runs on.
pub const DEVICE_ID: &'static str = "0000000000.0000000000000000000000";

/// The entities of a room that a connection may read.
pub open spec fn readable(room: RoomState, role: Role, id: i64) -> Map<Seq<char>, EntityView> {
    room.entities.restrict(
        room.entities.dom().filter(
            |key: Seq<char>| may_read(room.entities[key].attributes.acl, role, id),
        ),
    )
}

/// The hosts and players in a room, but one.
pub open spec fn present(room: RoomState, id: i64) -> Map<i64, ProfileView> {
    room.connections.restrict(
        room.connections.dom().filter(
            |other: i64|
                other != id && (room.connections[other].profile.role == Role::Player
                    || room.connections[other].profile.role == Role::Host),
        ),
    ).map_values(|client: ClientView| client.profile)
}

/// What a connection is told when it has connected.
pub open spec fn welcome(client: ClientView, room: RoomState, reconnect: bool) -> WelcomeView {
    WelcomeView {
        id: client.profile.id,
        secret: client.secret,
        reconnect,
        device_id: DEVICE_ID@,
        entities: readable(room, client.profile.role, client.profile.id),
        here: present(room, client.profile.id),
        profile: client.profile,
    }
}

/// What the host of a room is told when a player has connected. A host that speaks the older
/// protocol is not told of one that comes back.
pub open spec fn announcement(client: ClientView, room: RoomState, reconnect: bool) -> Seq<
    EffectView,
> {
    if client.profile.role == Role::Player && room.connections.contains_key(1) {
        match room.connections[1].client_type {
            ClientType::Blobcast => if reconnect {
                seq![]
            } else {
                seq![
                    EffectView::Blobcast(
                        set![1i64],
                        ResponseView::Event(
                            room.config.code,
                            EventView::CustomerJoinedRoom(
                                client.profile.user_id,
                                client.profile.name,
                                CustomerOptionsView {
                                    roomcode: seq![],
                                    name: client.profile.name,
                                    email: seq![],
                                    phone: seq![],
                                },
                            ),
                        ),
                    ),
                ]
            },
            ClientType::Ecast => seq![
                notice(
                    set![1i64],
                    ResultView::ClientConnected(
                        ConnectedView {
                            id: client.profile.id,
                            user_id: client.profile.user_id,
                            name: client.profile.name,
                            role: client.profile.role,
                            reconnect,
                            profile: client.profile,
                        },
                    ),
                ),
            ],
        }
    } else {
        seq![]
    }
}

/// What is sent when a connection has connected: it is welcomed, and the host is told of a player.
pub open spec fn greeting(client: ClientView, room: RoomState, reconnect: bool) -> Seq<EffectView> {
    seq![
        notice(
            set![client.profile.id],
            ResultView::ClientWelcome(welcome(client, room, reconnect)),
        ),
    ] + announcement(client, room, reconnect)
}

/// The entities of a room that a connection may read.
pub fn get_entities(room: &Room, role: Role, id: i64) -> (r: KeyedStore<JBEntity>)
    requires
        room.wf(),
    ensures
        r.wf(),
        r@ == readable(room@, role, id),
{
    let mut found: KeyedStore<JBEntity> = KeyedStore::new();
    let ghost listing = room.entities.listing();
    let mut i: usize = 0;
    proof {
        room.entities.lemma_listing();
    }
    while i < room.entities.len()
        invariant
            room.wf(),
            found.wf(),
            listing == room.entities.listing(),
            i <= listing.len(),
            forall|key: Seq<char>| #[trigger]
                found@.contains_key(key) <==> exists|j: int|
                    0 <= j < i && (#[trigger] listing[j]).item_key() == key && may_read(
                        listing[j]@.attributes.acl,
                        role,
                        id,
                    ),
            forall|key: Seq<char>| #[trigger]
                found@.contains_key(key) ==> room@.entities.contains_key(key) && found@[key]
                    == room@.entities[key],
            forall|j: int|
                #![trigger listing[j]]
                0 <= j < listing.len() ==> {
                    &&& room@.entities.contains_key(listing[j].item_key())
                    &&& room@.entities[listing[j].item_key()] == listing[j]@
                },
        decreases listing.len() - i,
    {
        let entity = room.entities.at(i);
        let ghost before = found@;
        if entity.2.is_readable_by(role, id) {
            found.put(entity.clone());
        }
        assert forall|key: Seq<char>| #[trigger] found@.contains_key(key) <==> exists|j: int|
            0 <= j < i + 1 && (#[trigger] listing[j]).item_key() == key && may_read(
                listing[j]@.attributes.acl,
                role,
                id,
            ) by {
            if key == entity.item_key() {
                assert(listing[i as int].item_key() == key);
            }
            assert(found@.contains_key(key) <==> before.contains_key(key) || (key
                == entity.item_key() && may_read(entity@.attributes.acl, role, id)));
        }
        i = i + 1;
    }
    proof {
        let wanted = readable(room@, role, id);
        assert forall|key: Seq<char>| #[trigger]
            wanted.contains_key(key) <==> found@.contains_key(key) by {
            if wanted.contains_key(key) {
                let j = choose|j: int|
                    0 <= j < listing.len() && (#[trigger] listing[j]).item_key() == key;
                assert(found@.contains_key(key));
            }
        }
        assert(found@ =~= wanted);
    }
    found
}

/// The hosts and players in a room, but one.
pub fn get_here(room: &Room, id: i64) -> (r: NumberedStore<JBProfile>)
    requires
        room.wf(),
    ensures
        r.wf(),
        r@ == present(room@, id),
{
    let mut found: NumberedStore<JBProfile> = NumberedStore::new();
    let ghost listing = room.connections.listing();
    let mut i: usize = 0;
    proof {
        room.connections.lemma_listing();
    }
    while i < room.connections.len()
        invariant
            room.wf(),
            found.wf(),
            listing == room.connections.listing(),
            i <= listing.len(),
            forall|other: i64| #[trigger]
                found@.contains_key(other) <==> exists|j: int|
                    0 <= j < i && (#[trigger] listing[j]).item_id() == other && other != id && (
                    listing[j]@.profile.role == Role::Player || listing[j]@.profile.role
                        == Role::Host),
            forall|other: i64| #[trigger]
                found@.contains_key(other) ==> room@.connections.contains_key(other)
                    && found@[other] == room@.connections[other].profile,
            forall|j: int|
                #![trigger listing[j]]
                0 <= j < listing.len() ==> {
                    &&& room@.connections.contains_key(listing[j].item_id())
                    &&& room@.connections[listing[j].item_id()] == listing[j]@
                },
        decreases listing.len() - i,
    {
        let client = room.connections.at(i);
        let ghost before = found@;
        let here: bool = client.profile.id != id && (client.profile.role == Role::Player
            || client.profile.role == Role::Host);
        if here {
            found.put(client.profile.clone());
        }
        assert forall|other: i64| #[trigger] found@.contains_key(other) <==> exists|j: int|
            0 <= j < i + 1 && (#[trigger] listing[j]).item_id() == other && other != id && (
            listing[j]@.profile.role == Role::Player || listing[j]@.profile.role == Role::Host) by {
            if other == client.profile.id {
                assert(listing[i as int].item_id() == other);
            }
            assert(found@.contains_key(other) <==> before.contains_key(other) || (other
                == client.profile.id && here));
        }
        i = i + 1;
    }
    proof {
        let wanted = present(room@, id);
        assert forall|other: i64| #[trigger]
            wanted.contains_key(other) <==> found@.contains_key(other) by {
            if wanted.contains_key(other) {
                let j = choose|j: int|
                    0 <= j < listing.len() && (#[trigger] listing[j]).item_id() == other;
                assert(found@.contains_key(other));
            }
        }
        assert(found@ =~= wanted);
    }
    found
}

/// What is sent when a connection has connected: it is welcomed, and the host is told of a
/// player.
pub fn greet(client: &Client, room: &Room, reconnect: bool) -> (r: Vec<Effect>)
    requires
        room.wf(),
    ensures
        effect_views(r@) == greeting(client@, room@, reconnect),
        each_once(r@),
{
    let id: i64 = client.profile.id;
    let greeting = ClientWelcome {
        id,
        secret: client.secret,
        reconnect,
        device_id: DEVICE_ID.to_owned(),
        entities: get_entities(room, client.profile.role, id),
        here: get_here(room, id),
        profile: client.profile.clone(),
    };
    let effects = alone(notify(just(id), JBResult::ClientWelcome(greeting)));
    let ghost first = effect_views(effects@);
    if client.profile.role == Role::Player {
        match room.connections.get(1) {
            Some(host) => match host.client_type {
                ClientType::Blobcast => {
                    if !reconnect {
                        let response = JBResponse::Msg(
                            [
                                JBResponseArgs::Event {
                                    room_id: room.room_config.code.clone(),
                                    event: JBEvent::CustomerJoinedRoom {
                                        customer_user_id: client.profile.user_id.clone(),
                                        customer_name: client.profile.name.clone(),
                                        options: JBCustomerOptions {
                                            roomcode: String::new(),
                                            name: client.profile.name.clone(),
                                            email: String::new(),
                                            phone: String::new(),
                                        },
                                    },
                                },
                            ],
                        );
                        let both = followed(effects, Effect::Blobcast { to: just(1), response });
                        assert(effect_views(both@) =~= first + announcement(
                            client@,
                            room@,
                            reconnect,
                        ));
                        return both;
                    }
                },
                ClientType::Ecast => {
                    let connected = ClientConnected {
                        id,
                        user_id: client.profile.user_id.clone(),
                        name: client.profile.name.clone(),
                        role: client.profile.role,
                        reconnect,
                        profile: client.profile.clone(),
                    };
                    let both = followed(
                        effects,
                        notify(just(1), JBResult::ClientConnected(connected)),
                    );
                    assert(effect_views(both@) =~= first + announcement(client@, room@, reconnect));
                    return both;
                },
            },
            None => {},
        }
    }
    assert(effect_views(effects@) =~= first + announcement(client@, room@, reconnect));
    effects
}

/// What a ping holds: `jackbox`.
pub open spec fn ping_data() -> Seq<u8> {
    seq![106u8, 97u8, 99u8, 107u8, 98u8, 111u8, 120u8]
}

/// Whether this is what is done about an event at the socket of a connection.
pub open spec fn is_handled(event: SocketEvent, done: (SocketAction, Flow)) -> bool {
    if event is Idle {
        done.0 matches SocketAction::Ping(data) && data@ == ping_data() && done.1 == Flow::Announce
    } else {
        done == socket_step(event, SocketAction::Idle)
    }
}

/// Decides what is done about an event at the socket of a connection. When for a while nothing
/// has happened, the connection is pinged.
pub fn handle_socket(event: SocketEvent) -> (r: (SocketAction, Flow))
    ensures
        is_handled(event, r),
{
    match event {
        SocketEvent::Idle => {
            let data: Vec<u8> = vec![106, 97, 99, 107, 98, 111, 120];
            assert(data@ =~= ping_data());
            crate::frame::step(SocketEvent::Idle, SocketAction::Ping(data))
        },
        other => crate::frame::step(other, SocketAction::Idle),
    }
}

/// The frame that is passed on between a connection and another server, in either direction.
pub fn handle_socket_proxy(frame: Frame) -> (r: Result<Frame, RelayError>)
    ensures
        r == relayed(frame),
{
    relay(frame)
}

} // verus!
