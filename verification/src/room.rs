//! Rooms: what they hold, who is connected to them, and how they change.
use crate::acl::Role;
use crate::entity::{
    line_added, vote_counted, AttributesView, EntityView, JBAttributes, JBEntity, JBLine, JBObject,
    JBValue, LineView, ObjectView, ValueView,
};
use crate::store::{Keyed, KeyedStore, Numbered, NumberedStore};
use vstd::prelude::*;

verus! {

/// The protocol that a connection speaks.
#[derive(Clone, Copy, Debug, PartialEq, Eq, Structural)]
pub enum ClientType {
    Blobcast,
    Ecast,
}

/// A secret that a connection shows when it comes back.
#[derive(Clone, Copy, Debug, PartialEq, Eq, Structural)]
pub struct Token(pub u128);

/// What a profile says of the role of its connection.
#[derive(Debug)]
pub enum JBProfileRoles {
    Host {  },
    Player { name: String },
    /// Nothing.
    Unset,
}

/// The model of [`JBProfileRoles`].
pub enum RolesView {
    Host,
    Player(Seq<char>),
    Unset,
}

impl View for JBProfileRoles {
    type V = RolesView;

    open spec fn view(&self) -> RolesView {
        match self {
            JBProfileRoles::Host {  } => RolesView::Host,
            JBProfileRoles::Player { name } => RolesView::Player(name@),
            JBProfileRoles::Unset => RolesView::Unset,
        }
    }
}

impl Clone for JBProfileRoles {
    fn clone(&self) -> (r: JBProfileRoles)
        ensures
            r@ == self@,
    {
        match self {
            JBProfileRoles::Host {  } => JBProfileRoles::Host {  },
            JBProfileRoles::Player { name } => JBProfileRoles::Player { name: name.clone() },
            JBProfileRoles::Unset => JBProfileRoles::Unset,
        }
    }
}

/// Who a connection is.
#[derive(Debug)]
pub struct JBProfile {
    pub id: i64,
    pub roles: JBProfileRoles,
    pub user_id: String,
    pub role: Role,
    pub name: String,
}

/// The model of [`JBProfile`].
pub struct ProfileView {
    pub id: i64,
    pub roles: RolesView,
    pub user_id: Seq<char>,
    pub role: Role,
    pub name: Seq<char>,
}

impl View for JBProfile {
    type V = ProfileView;

    open spec fn view(&self) -> ProfileView {
        ProfileView {
            id: self.id,
            roles: self.roles@,
            user_id: self.user_id@,
            role: self.role,
            name: self.name@,
        }
    }
}

impl Clone for JBProfile {
    fn clone(&self) -> (r: JBProfile)
        ensures
            r@ == self@,
    {
        JBProfile {
            id: self.id,
            roles: self.roles.clone(),
            user_id: self.user_id.clone(),
            role: self.role,
            name: self.name.clone(),
        }
    }
}

/// A connection to a room.
#[derive(Debug)]
pub struct Client {
    pub profile: JBProfile,
    pub client_type: ClientType,
    pub secret: Token,
}

/// The model of [`Client`].
pub struct ClientView {
    pub profile: ProfileView,
    pub client_type: ClientType,
    pub secret: Token,
}

impl View for Client {
    type V = ClientView;

    open spec fn view(&self) -> ClientView {
        ClientView {
            profile: self.profile@,
            client_type: self.client_type,
            secret: self.secret,
        }
    }
}

impl Clone for Client {
    fn clone(&self) -> (r: Client)
        ensures
            r@ == self@,
    {
        Client {
            profile: self.profile.clone(),
            client_type: self.client_type,
            secret: self.secret,
        }
    }
}

impl Numbered for JBProfile {
    open spec fn item_id(&self) -> i64 {
        self.id
    }

    fn id(&self) -> (r: i64) {
        self.id
    }
}

impl Numbered for Client {
    open spec fn item_id(&self) -> i64 {
        self.profile.id
    }

    fn id(&self) -> (r: i64) {
        self.profile.id
    }
}

impl Keyed for JBEntity {
    open spec fn item_key(&self) -> Seq<char> {
        self.1.key@
    }

    open spec fn item_wf(&self) -> bool {
        true
    }

    fn key(&self) -> (r: &String) {
        &self.1.key
    }
}

/// What a room tells of itself.
#[derive(Debug)]
pub struct JBRoom {
    pub app_id: String,
    pub app_tag: String,
    pub audience_enabled: bool,
    pub code: String,
    pub host: String,
    pub audience_host: String,
    pub locked: bool,
    pub full: bool,
    pub moderation_enabled: bool,
    pub password_required: bool,
    pub twitch_locked: bool,
    pub locale: String,
    pub keepalive: bool,
}

/// The model of [`JBRoom`].
pub struct ConfigView {
    pub app_id: Seq<char>,
    pub app_tag: Seq<char>,
    pub audience_enabled: bool,
    pub code: Seq<char>,
    pub host: Seq<char>,
    pub audience_host: Seq<char>,
    pub locked: bool,
    pub full: bool,
    pub moderation_enabled: bool,
    pub password_required: bool,
    pub twitch_locked: bool,
    pub locale: Seq<char>,
    pub keepalive: bool,
}

impl View for JBRoom {
    type V = ConfigView;

    open spec fn view(&self) -> ConfigView {
        ConfigView {
            app_id: self.app_id@,
            app_tag: self.app_tag@,
            audience_enabled: self.audience_enabled,
            code: self.code@,
            host: self.host@,
            audience_host: self.audience_host@,
            locked: self.locked,
            full: self.full,
            moderation_enabled: self.moderation_enabled,
            password_required: self.password_required,
            twitch_locked: self.twitch_locked,
            locale: self.locale@,
            keepalive: self.keepalive,
        }
    }
}

impl Clone for JBRoom {
    fn clone(&self) -> (r: JBRoom)
        ensures
            r@ == self@,
    {
        JBRoom {
            app_id: self.app_id.clone(),
            app_tag: self.app_tag.clone(),
            audience_enabled: self.audience_enabled,
            code: self.code.clone(),
            host: self.host.clone(),
            audience_host: self.audience_host.clone(),
            locked: self.locked,
            full: self.full,
            moderation_enabled: self.moderation_enabled,
            password_required: self.password_required,
            twitch_locked: self.twitch_locked,
            locale: self.locale.clone(),
            keepalive: self.keepalive,
        }
    }
}

/// The configuration of a room that was just opened: not locked, not full, in English, without
/// moderation, password or lock to a stream.
pub open spec fn opened_config(
    app_id: Seq<char>,
    app_tag: Seq<char>,
    audience_enabled: bool,
    code: Seq<char>,
    host: Seq<char>,
    audience_host: Seq<char>,
) -> ConfigView {
    ConfigView {
        app_id,
        app_tag,
        audience_enabled,
        code,
        host,
        audience_host,
        locked: false,
        full: false,
        moderation_enabled: false,
        password_required: false,
        twitch_locked: false,
        locale: "en"@,
        keepalive: false,
    }
}

/// A room.
pub struct Room {
    pub entities: KeyedStore<JBEntity>,
    pub connections: NumberedStore<Client>,
    pub room_serial: i64,
    pub room_config: JBRoom,
}

/// The model of [`Room`].
pub struct RoomState {
    pub entities: Map<Seq<char>, EntityView>,
    pub connections: Map<i64, ClientView>,
    pub serial: i64,
    pub config: ConfigView,
}

impl View for Room {
    type V = RoomState;

    open spec fn view(&self) -> RoomState {
        RoomState {
            entities: self.entities@,
            connections: self.connections@,
            serial: self.room_serial,
            config: self.room_config@,
        }
    }
}

impl Keyed for Room {
    open spec fn item_key(&self) -> Seq<char> {
        self.room_config.code@
    }

    open spec fn item_wf(&self) -> bool {
        self.wf()
    }

    fn key(&self) -> (r: &String) {
        &self.room_config.code
    }
}

/// The state of a room in which nothing has happened yet.
pub open spec fn empty_room(config: ConfigView) -> RoomState {
    RoomState { entities: Map::empty(), connections: Map::empty(), serial: 1, config }
}

/// The state with an entity put under its key.
pub open spec fn with_entity(state: RoomState, entity: EntityView) -> RoomState {
    RoomState { entities: state.entities.insert(entity.object.key, entity), ..state }
}

/// The state with a connection put under its id.
pub open spec fn with_connection(state: RoomState, client: ClientView) -> RoomState {
    RoomState { connections: state.connections.insert(client.profile.id, client), ..state }
}

/// A change of a room.
#[derive(Debug)]
pub enum RoomChange {
    /// Puts an entity under its key.
    Insert { entity: JBEntity },
    /// Takes the entity under the key away.
    Remove { key: String },
    /// Adds a line to the doodle under the key.
    AddLine { key: String, line: JBLine },
    /// Adds to the counter under the key.
    Increase { key: String, times: i64 },
    /// Takes from the counter under the key.
    Decrease { key: String, times: i64 },
    /// Counts votes in the group under the key.
    Vote { key: String, choice: String, times: i64 },
    /// Gives the entity under the key a new version, and a number, where it holds one, the new
    /// value.
    SetNumber { key: String, from: i64, val: u64 },
    /// Locks the entity under the key.
    Lock { key: String, from: i64 },
    /// Locks the room.
    LockRoom,
}

/// The model of [`RoomChange`].
pub enum ChangeView {
    Insert(EntityView),
    Remove(Seq<char>),
    AddLine(Seq<char>, LineView),
    Increase(Seq<char>, i64),
    Decrease(Seq<char>, i64),
    Vote(Seq<char>, Seq<char>, i64),
    SetNumber(Seq<char>, i64, u64),
    Lock(Seq<char>, i64),
    LockRoom,
}

impl View for RoomChange {
    type V = ChangeView;

    open spec fn view(&self) -> ChangeView {
        match self {
            RoomChange::Insert { entity } => ChangeView::Insert(entity@),
            RoomChange::Remove { key } => ChangeView::Remove(key@),
            RoomChange::AddLine { key, line } => ChangeView::AddLine(key@, line@),
            RoomChange::Increase { key, times } => ChangeView::Increase(key@, *times),
            RoomChange::Decrease { key, times } => ChangeView::Decrease(key@, *times),
            RoomChange::Vote { key, choice, times } => ChangeView::Vote(key@, choice@, *times),
            RoomChange::SetNumber { key, from, val } => ChangeView::SetNumber(key@, *from, *val),
            RoomChange::Lock { key, from } => ChangeView::Lock(key@, *from),
            RoomChange::LockRoom => ChangeView::LockRoom,
        }
    }
}

/// The object with another value.
pub open spec fn with_value(object: ObjectView, val: ValueView) -> ObjectView {
    ObjectView { val, ..object }
}

/// The object after a number was set: the next version, from the one who set it.
pub open spec fn numbered(object: ObjectView, from: i64, val: u64) -> ObjectView {
    ObjectView {
        val: match object.val {
            ValueView::Number(_) => ValueView::Number(val),
            other => other,
        },
        version: object.version.wrapping_add(1),
        from,
        ..object
    }
}

/// The counter with `times` more.
pub open spec fn increased(val: ValueView, times: i64) -> ValueView {
    match val {
        ValueView::AudienceGCounter(count) => ValueView::AudienceGCounter(
            count.wrapping_add(times),
        ),
        ValueView::AudiencePnCounter(count) => ValueView::AudiencePnCounter(
            count.wrapping_add(times),
        ),
        other => other,
    }
}

/// The counter with `times` less.
pub open spec fn decreased(val: ValueView, times: i64) -> ValueView {
    match val {
        ValueView::AudienceGCounter(count) => ValueView::AudienceGCounter(
            count.wrapping_sub(times),
        ),
        ValueView::AudiencePnCounter(count) => ValueView::AudiencePnCounter(
            count.wrapping_sub(times),
        ),
        other => other,
    }
}

/// Whether the change makes the value `after` of the value `before`, for those changes that
/// touch a value alone.
pub open spec fn value_changed(before: ValueView, change: ChangeView, after: ValueView) -> bool {
    match change {
        ChangeView::AddLine(_, line) => match before {
            ValueView::Doodle(doodle) => after matches ValueView::Doodle(longer) && line_added(
                doodle,
                line,
                longer,
            ),
            _ => after == before,
        },
        ChangeView::Increase(_, times) => after == increased(before, times),
        ChangeView::Decrease(_, times) => after == decreased(before, times),
        ChangeView::Vote(_, choice, times) => match before {
            ValueView::AudienceCountGroup(group) => {
                &&& after matches ValueView::AudienceCountGroup(counted)
                &&& vote_counted(group.choices, choice, times, counted.choices)
                &&& counted.max_votes == group.max_votes
            },
            _ => after == before,
        },
        _ => after == before,
    }
}

/// The key of the entity that a change is about.
pub open spec fn changed_key(change: ChangeView) -> Option<Seq<char>> {
    match change {
        ChangeView::Insert(entity) => Some(entity.object.key),
        ChangeView::Remove(key) => Some(key),
        ChangeView::AddLine(key, _) => Some(key),
        ChangeView::Increase(key, _) => Some(key),
        ChangeView::Decrease(key, _) => Some(key),
        ChangeView::Vote(key, _, _) => Some(key),
        ChangeView::SetNumber(key, _, _) => Some(key),
        ChangeView::Lock(key, _) => Some(key),
        ChangeView::LockRoom => None,
    }
}

/// Whether the change makes the entity `after` of the entity `before`, for those changes that
/// touch an entity that is there.
pub open spec fn entity_changed(
    before: EntityView,
    change: ChangeView,
    after: EntityView,
) -> bool {
    match change {
        ChangeView::SetNumber(_, from, val) => after == (EntityView {
            object: numbered(before.object, from, val),
            ..before
        }),
        ChangeView::Lock(_, from) => after == (EntityView {
            object: ObjectView { from, ..before.object },
            attributes: AttributesView { locked: true, ..before.attributes },
            ..before
        }),
        _ => {
            &&& value_changed(before.object.val, change, after.object.val)
            &&& after == EntityView {
                object: with_value(before.object, after.object.val),
                ..before
            }
        },
    }
}

/// Whether the change makes the room `after` of the room `before`. A change of an entity that
/// is not there leaves the room as it is.
pub open spec fn room_changed(before: RoomState, change: ChangeView, after: RoomState) -> bool {
    match change {
        ChangeView::Insert(entity) => after == with_entity(before, entity),
        ChangeView::Remove(key) => after == (RoomState {
            entities: before.entities.remove(key),
            ..before
        }),
        ChangeView::LockRoom => after == (RoomState {
            config: ConfigView { locked: true, ..before.config },
            ..before
        }),
        _ => {
            let key = changed_key(change)->Some_0;
            if before.entities.contains_key(key) {
                &&& after.entities.contains_key(key)
                &&& entity_changed(before.entities[key], change, after.entities[key])
                &&& after == RoomState {
                    entities: before.entities.insert(key, after.entities[key]),
                    ..before
                }
            } else {
                after == before
            }
        },
    }
}

impl Room {
    /// The entities and the connections are each stored under their own key.
    pub open spec fn wf(&self) -> bool {
        &&& self.entities.wf()
        &&& self.connections.wf()
    }

    /// A room in which nothing has happened yet.
    pub fn new(room_config: JBRoom) -> (r: Room)
        ensures
            r.wf(),
            r@ == empty_room(room_config@),
    {
        Room {
            entities: KeyedStore::new(),
            connections: NumberedStore::new(),
            room_serial: 1,
            room_config,
        }
    }

    /// Changes the entity under a key by a change that touches one that is there.
    fn change_entity(&mut self, key: String, change: RoomChange)
        requires
            old(self).wf(),
            changed_key(change@) == Some(key@),
            !(change is Insert),
            !(change is Remove),
        ensures
            final(self).wf(),
            room_changed(old(self)@, change@, final(self)@),
    {
        let ghost before = self@;
        let ghost what = change@;
        match self.entities.take(&key) {
            Some(entity) => {
                let ghost old_entity = entity@;
                let JBEntity(kind, object, attributes) = entity;
                let JBObject { key: own_key, val, restrictions, version, from } = object;
                let JBAttributes { locked, acl } = attributes;
                let mut new_val = val;
                let mut new_version: u32 = version;
                let mut new_from: i64 = from;
                let mut new_locked: bool = locked;
                match change {
                    RoomChange::AddLine { key: _, line } => {
                        new_val =
                        match new_val {
                            JBValue::Doodle { val: mut doodle } => {
                                doodle.add_line(line);
                                JBValue::Doodle { val: doodle }
                            },
                            other => other,
                        };
                    },
                    RoomChange::Increase { key: _, times } => {
                        new_val =
                        match new_val {
                            JBValue::AudienceGCounter { count } => JBValue::AudienceGCounter {
                                count: count.wrapping_add(times),
                            },
                            JBValue::AudiencePnCounter { count } => JBValue::AudiencePnCounter {
                                count: count.wrapping_add(times),
                            },
                            other => other,
                        };
                    },
                    RoomChange::Decrease { key: _, times } => {
                        new_val =
                        match new_val {
                            JBValue::AudienceGCounter { count } => JBValue::AudienceGCounter {
                                count: count.wrapping_sub(times),
                            },
                            JBValue::AudiencePnCounter { count } => JBValue::AudiencePnCounter {
                                count: count.wrapping_sub(times),
                            },
                            other => other,
                        };
                    },
                    RoomChange::Vote { key: _, choice, times } => {
                        new_val =
                        match new_val {
                            JBValue::AudienceCountGroup(mut group) => {
                                group.add_votes(&choice, times);
                                JBValue::AudienceCountGroup(group)
                            },
                            other => other,
                        };
                    },
                    RoomChange::SetNumber { key: _, from: who, val: number } => {
                        new_version = version.wrapping_add(1);
                        new_from = who;
                        new_val =
                        match new_val {
                            JBValue::Number { val: _ } => JBValue::Number { val: number },
                            other => other,
                        };
                    },
                    RoomChange::Lock { key: _, from: who } => {
                        new_locked = true;
                        new_from = who;
                    },
                    _ => {},
                }
                let changed = JBEntity(
                    kind,
                    JBObject {
                        key: own_key,
                        val: new_val,
                        restrictions,
                        version: new_version,
                        from: new_from,
                    },
                    JBAttributes { locked: new_locked, acl },
                );
                let ghost new_entity = changed@;
                assert(entity_changed(old_entity, what, new_entity));
                self.entities.put(changed);
                assert(self@.entities =~= before.entities.insert(key@, new_entity));
            },
            None => {
                assert(self@.entities =~= before.entities);
            },
        }
    }

    /// Makes a change.
    pub fn apply(&mut self, change: RoomChange)
        requires
            old(self).wf(),
        ensures
            final(self).wf(),
            room_changed(old(self)@, change@, final(self)@),
    {
        let key: String = match &change {
            RoomChange::Insert { entity } => entity.1.key.clone(),
            RoomChange::Remove { key } => key.clone(),
            RoomChange::AddLine { key, line: _ } => key.clone(),
            RoomChange::Increase { key, times: _ } => key.clone(),
            RoomChange::Decrease { key, times: _ } => key.clone(),
            RoomChange::Vote { key, choice: _, times: _ } => key.clone(),
            RoomChange::SetNumber { key, from: _, val: _ } => key.clone(),
            RoomChange::Lock { key, from: _ } => key.clone(),
            RoomChange::LockRoom => String::new(),
        };
        match change {
            RoomChange::Insert { entity } => {
                self.entities.put(entity);
            },
            RoomChange::Remove { key } => {
                let _ = self.entities.take(&key);
            },
            RoomChange::LockRoom => {
                self.room_config.locked = true;
            },
            other => {
                self.change_entity(key, other);
            },
        }
    }
}

/// The rooms with one of them changed, where it is there.
pub open spec fn rooms_changed(
    before: Map<Seq<char>, RoomState>,
    code: Seq<char>,
    change: ChangeView,
    after: Map<Seq<char>, RoomState>,
) -> bool {
    if before.contains_key(code) {
        &&& after.contains_key(code)
        &&& room_changed(before[code], change, after[code])
        &&& after == before.insert(code, after[code])
    } else {
        after == before
    }
}

/// Makes a change of the room with a code.
pub fn change_room(rooms: &mut KeyedStore<Room>, code: &str, change: RoomChange)
    requires
        old(rooms).wf(),
    ensures
        final(rooms).wf(),
        rooms_changed(old(rooms)@, code@, change@, final(rooms)@),
{
    match rooms.get_mut(code) {
        Some(room) => {
            room.apply(change);
        },
        None => {},
    }
}

/// The rooms with a connection more in one of them, where it is there.
pub open spec fn rooms_joined(
    rooms: Map<Seq<char>, RoomState>,
    code: Seq<char>,
    client: ClientView,
) -> Map<Seq<char>, RoomState> {
    if rooms.contains_key(code) {
        rooms.insert(code, with_connection(rooms[code], client))
    } else {
        rooms
    }
}

/// Adds a connection to the room with a code.
pub fn join_room(rooms: &mut KeyedStore<Room>, code: &str, client: Client)
    requires
        old(rooms).wf(),
    ensures
        final(rooms).wf(),
        final(rooms)@ == rooms_joined(old(rooms)@, code@, client@),
{
    match rooms.get_mut(code) {
        Some(room) => {
            room.connections.put(client);
        },
        None => {},
    }
}

} // verus!
