//! How connections join rooms and come back, and what they and the host are told.
use crate::acl::Role;
use crate::blobcast::ws::{EventView, ResponseView};
use crate::ecast::ws::{connecting, greeting, ConnectError, MessageView, ResultView};
use crate::ecast::WSQuery;
use crate::effect::EffectView;
use crate::entity::{JBType, ValueView};
use crate::laws::requests::{can_read, rights_are_those_of_the_entries, speaks_of};
use crate::laws::{counts_to, is_keyed};
use crate::room::{empty_room, opened_config, ClientType, ClientView, RolesView, RoomState, Token};
use vstd::prelude::*;

verus! {

/// One whose id is that of a connection of the room comes back as that connection, whoever else it says
/// it is, and the room stays as it is.
pub proof fn known_ids_come_back(room: RoomState, query: WSQuery, token: Token)
    requires
        room.connections.contains_key(query.id),
    ensures
        connecting(room, query, token) is Ok,
        connecting(room, query, token)->Ok_0.0,
        connecting(room, query, token)->Ok_0.1 == room.connections[query.id],
        connecting(room, query, token)->Ok_0.2 == room,
{
}

/// A moderator that does not come back is refused.
pub proof fn new_moderators_are_refused(room: RoomState, query: WSQuery, token: Token)
    requires
        !room.connections.contains_key(query.id),
        query.role == Role::Moderator,
    ensures
        connecting(room, query, token) is Err,
        connecting(room, query, token)->Err_0 == ConnectError::UnimplementedRole(Role::Moderator),
{
}

/// A new connection is the one that it says it is: its user, its name and its role are its own, and its
/// secret is the one that it brings, or else a fresh one; it speaks the newer protocol. The room has it
/// as a connection beside all others, under the id that it was given.
pub proof fn new_connections_are_who_they_say(room: RoomState, query: WSQuery, token: Token)
    requires
        !room.connections.contains_key(query.id),
        query.role != Role::Moderator,
    ensures
        ({
            let result = connecting(room, query, token);
            let (again, client, joined) = result->Ok_0;
            let id = client.profile.id;
            &&& result is Ok
            &&& !again
            &&& client.profile.user_id == query.user_id@
            &&& client.profile.name == query.name@
            &&& client.profile.role == query.role
            &&& query.role == Role::Host ==> client.profile.roles == RolesView::Host
            &&& query.role == Role::Player ==> client.profile.roles == RolesView::Player(
                query.name@,
            )
            &&& query.role == Role::Audience ==> client.profile.roles == RolesView::Unset
            &&& client.client_type == ClientType::Ecast
            &&& query.secret matches Some(secret) ==> client.secret == secret
            &&& query.secret is None ==> client.secret == token
            &&& joined.connections.contains_key(id)
            &&& joined.connections[id] == client
            &&& forall|other: i64|
                other != id ==> (#[trigger] joined.connections.contains_key(other)
                    <==> room.connections.contains_key(other))
            &&& forall|other: i64|
                other != id && room.connections.contains_key(other)
                    ==> #[trigger] joined.connections[other] == room.connections[other]
            &&& joined.config == room.config
        }),
{
}

/// A new host or player is given the number that is next, after which comes the number behind it, and
/// no entity is touched.
pub proof fn hosts_and_players_take_the_next_number(
    room: RoomState,
    query: WSQuery,
    token: Token,
)
    requires
        !room.connections.contains_key(query.id),
        query.role == Role::Host || query.role == Role::Player,
    ensures
        ({
            let (_, client, joined) = connecting(room, query, token)->Ok_0;
            &&& client.profile.id == room.serial
            &&& counts_to(room.serial + 1, joined.serial)
            &&& joined.entities == room.entities
        }),
{
}

/// One who is new in the audience is counted under `audience`, where the count begins with the first, and
/// touches nothing else of the room; where something other than a count is kept there, that stays.
pub proof fn audiences_are_counted(room: RoomState, query: WSQuery, token: Token)
    requires
        is_keyed(room),
        !room.connections.contains_key(query.id),
        query.role == Role::Audience,
    ensures
        ({
            let (_, client, joined) = connecting(room, query, token)->Ok_0;
            let counter = joined.entities["audience"@];
            let was = room.entities["audience"@];
            &&& joined.serial == room.serial
            &&& joined.entities.contains_key("audience"@)
            &&& forall|key: Seq<char>|
                key != "audience"@ ==> (#[trigger] joined.entities.contains_key(key)
                    <==> room.entities.contains_key(key))
            &&& forall|key: Seq<char>|
                key != "audience"@ && room.entities.contains_key(key)
                    ==> #[trigger] joined.entities[key] == room.entities[key]
            &&& !room.entities.contains_key("audience"@) ==> {
                &&& counter.kind == JBType::AudiencePnCounter
                &&& counter.object.key == "audience"@
                &&& counter.object.val == ValueView::AudiencePnCounter(1)
                &&& counter.object.version == 0
                &&& counter.object.from == 0
                &&& !counter.attributes.locked
                &&& forall|role: Role, id: i64| #[trigger]
                    can_read(counter.attributes.acl, role, id)
                &&& client.profile.id == 100
            }
            &&& room.entities.contains_key("audience"@) ==> {
                &&& counter.kind == was.kind
                &&& counter.attributes == was.attributes
                &&& counter.object.key == was.object.key
                &&& counter.object.version == was.object.version
                &&& counter.object.from == was.object.from
                &&& counter.object.restrictions == was.object.restrictions
                &&& was.object.val matches ValueView::AudiencePnCounter(count) ==> {
                    &&& counter.object.val is AudiencePnCounter
                    &&& counts_to(count + 1, counter.object.val->AudiencePnCounter_0)
                }
                &&& !(was.object.val is AudiencePnCounter) ==> counter.object.val == was.object.val
                    && client.profile.id == 100
            }
        }),
{
    let counter = connecting(room, query, token)->Ok_0.2.entities["audience"@];
    if !room.entities.contains_key("audience"@) {
        assert forall|role: Role, id: i64| #[trigger] can_read(counter.attributes.acl, role, id) by {
            assert(speaks_of(counter.attributes.acl[0], role, id));
        }
    }
}

/// Everyone who connects, for the first time or again, is sent a welcome of its own before anything else:
/// its id, its secret and its profile, whether it has come back, every entity of the room that it can
/// read and no other, and the profiles of all other hosts and players and of no one else.
pub proof fn everyone_is_welcomed(client: ClientView, room: RoomState, reconnect: bool)
    ensures
        ({
            let first = greeting(client, room, reconnect)[0];
            let welcome = first->Ecast_1.result->ClientWelcome_0;
            let id = client.profile.id;
            &&& greeting(client, room, reconnect).len() >= 1
            &&& first == EffectView::Ecast(
                set![id],
                MessageView { pc: 0, re: None, result: ResultView::ClientWelcome(welcome) },
            )
            &&& welcome.id == id
            &&& welcome.secret == client.secret
            &&& welcome.reconnect == reconnect
            &&& welcome.profile == client.profile
            &&& welcome.device_id == "0000000000.0000000000000000000000"@
            &&& forall|key: Seq<char>| #[trigger]
                welcome.entities.contains_key(key) <==> room.entities.contains_key(key)
                    && can_read(room.entities[key].attributes.acl, client.profile.role, id)
            &&& forall|key: Seq<char>| #[trigger]
                welcome.entities.contains_key(key) ==> welcome.entities[key] == room.entities[key]
            &&& forall|other: i64| #[trigger]
                welcome.here.contains_key(other) <==> {
                    &&& room.connections.contains_key(other)
                    &&& other != id
                    &&& room.connections[other].profile.role == Role::Player
                        || room.connections[other].profile.role == Role::Host
                }
            &&& forall|other: i64| #[trigger]
                welcome.here.contains_key(other) ==> welcome.here[other]
                    == room.connections[other].profile
        }),
{
    assert forall|key: Seq<char>| #[trigger]
        room.entities.contains_key(key) implies crate::acl::may_read(
        room.entities[key].attributes.acl,
        client.profile.role,
        client.profile.id,
    ) == can_read(
        room.entities[key].attributes.acl,
        client.profile.role,
        client.profile.id,
    ) by {
        rights_are_those_of_the_entries(
            room.entities[key].attributes.acl,
            client.profile.role,
            client.profile.id,
        );
    }
}

/// Whenever a player connects, for the first time or again, to a room whose first connection speaks the
/// newer protocol, that connection is told who has connected and whether the player has come back. One
/// that speaks the older protocol is told of a customer who joins, once, when the player is new. Of
/// anyone but a player nobody is told, nor where there is no first connection; and no one else is told.
pub proof fn hosts_are_told_of_players(client: ClientView, room: RoomState, reconnect: bool)
    ensures
        ({
            let sent = greeting(client, room, reconnect);
            let profile = client.profile;
            let player = profile.role == Role::Player && room.connections.contains_key(1);
            let newer = player && room.connections[1].client_type == ClientType::Ecast;
            let older = player && room.connections[1].client_type == ClientType::Blobcast;
            &&& newer ==> {
                let connected = sent[1]->Ecast_1.result->ClientConnected_0;
                &&& sent.len() == 2
                &&& sent[1] == EffectView::Ecast(
                    set![1i64],
                    MessageView { pc: 0, re: None, result: ResultView::ClientConnected(connected) },
                )
                &&& connected.id == profile.id
                &&& connected.user_id == profile.user_id
                &&& connected.name == profile.name
                &&& connected.role == Role::Player
                &&& connected.reconnect == reconnect
                &&& connected.profile == profile
            }
            &&& older && !reconnect ==> {
                let event = sent[1]->Blobcast_1->Event_1;
                let options = event->CustomerJoinedRoom_2;
                &&& sent.len() == 2
                &&& sent[1] == EffectView::Blobcast(
                    set![1i64],
                    ResponseView::Event(room.config.code, event),
                )
                &&& event == EventView::CustomerJoinedRoom(profile.user_id, profile.name, options)
                &&& options.name == profile.name
                &&& options.roomcode.len() == 0
                &&& options.email.len() == 0
                &&& options.phone.len() == 0
            }
            &&& older && reconnect ==> sent.len() == 1
            &&& !player ==> sent.len() == 1
        }),
{
}

/// A room that is opened holds nothing and nobody, begins its numbering with one, and has the application,
/// the code and the hosts that it was opened with; it is in English, not locked, not full, and without
/// moderation, password, lock to a stream or keepalive.
pub proof fn rooms_are_opened_empty(
    app_id: Seq<char>,
    app_tag: Seq<char>,
    audience_enabled: bool,
    code: Seq<char>,
    host: Seq<char>,
    audience_host: Seq<char>,
)
    ensures
        ({
            let room = empty_room(
                opened_config(app_id, app_tag, audience_enabled, code, host, audience_host),
            );
            &&& forall|key: Seq<char>| !#[trigger] room.entities.contains_key(key)
            &&& forall|id: i64| !#[trigger] room.connections.contains_key(id)
            &&& room.serial == 1
            &&& room.config.app_id == app_id
            &&& room.config.app_tag == app_tag
            &&& room.config.audience_enabled == audience_enabled
            &&& room.config.code == code
            &&& room.config.host == host
            &&& room.config.audience_host == audience_host
            &&& room.config.locale == "en"@
            &&& !room.config.locked
            &&& !room.config.full
            &&& !room.config.moderation_enabled
            &&& !room.config.password_required
            &&& !room.config.twitch_locked
            &&& !room.config.keepalive
        }),
{
}

} // verus!
