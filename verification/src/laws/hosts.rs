//! What each message of a host does, whatever the room holds.
use crate::acl::Role;
use crate::blobcast::ws::{
    acceptable, is_meant, processing, EventView, JBAction, JBMessage, JBMessageArgs,
    JBSessionModule, JBSessionModuleWithArgs, ModuleView, ResponseView, ResultActionView,
};
use crate::ecast::ws::{MessageView, ProcessError, ResultView};
use crate::effect::EffectView;
use crate::entity::{EntityView, JBCountGroup, JBType, ValueView};
use crate::laws::requests::{can_read, can_write};
use crate::laws::performed;
use crate::room::{ChangeView, ClientType, ClientView, RoomState};
use vstd::prelude::*;

verus! {

/// A message of a host that asks for something.
pub open spec fn says(message: JBMessage, action: JBAction) -> bool {
    message matches JBMessage::Msg(JBMessageArgs::Action { app_id: _, user_id: _, action: said })
        && said == action
}

/// Whether an effect answers a host: it alone is sent what came of its message.
pub open spec fn answers_host(effect: EffectView, id: i64, result: ResultActionView) -> bool {
    effect == EffectView::Blobcast(set![id], ResponseView::Outcome(result, true))
}

/// Whether an effect shows an entity, unasked, to all connections that speak the newer protocol.
pub open spec fn shows_players(
    effect: EffectView,
    room: RoomState,
    result: ResultView,
) -> bool {
    &&& effect is Ecast
    &&& effect->Ecast_1 == MessageView { pc: 0, re: None, result }
    &&& forall|id: i64| #[trigger]
        effect->Ecast_0.contains(id) <==> room.connections.contains_key(id)
            && room.connections[id].client_type == ClientType::Ecast
}

/// Whether an entity holds a blob: an object, without restrictions, not locked, from a host.
pub open spec fn holds_blob(
    entity: EntityView,
    key: Seq<char>,
    blob: Seq<char>,
    from: i64,
) -> bool {
    &&& entity.kind == JBType::Object
    &&& entity.object.key == key
    &&& entity.object.val == ValueView::Object(blob)
    &&& entity.object.from == from
    &&& entity.object.restrictions.data_type.len() == 0
    &&& entity.object.restrictions.min is None
    &&& entity.object.restrictions.max is None
    &&& entity.object.restrictions.increment is None
    &&& !entity.attributes.locked
}

/// Whether an entity is the next version of what a room has under its key, and the first where it has
/// nothing there.
pub open spec fn is_next(entity: EntityView, room: RoomState) -> bool {
    let key = entity.object.key;
    let was = room.entities[key].object.version;
    &&& !room.entities.contains_key(key) ==> entity.object.version == 0
    &&& room.entities.contains_key(key) && was < u32::MAX ==> entity.object.version == was + 1
    &&& room.entities.contains_key(key) && was == u32::MAX ==> entity.object.version == 0
}

/// The blob that a host sets for the room, whatever was there before, is shown to every connection that
/// speaks the newer protocol as an object, and to every other as the event that it is, is then stored
/// under `bc:room`, which everyone can read and only hosts can write, and the host is answered.
pub proof fn room_blobs_are_set(
    client: ClientView,
    message: JBMessage,
    blob: String,
    room_id: String,
    room: RoomState,
    chosen: Option<i64>,
)
    requires
        says(message, JBAction::SetRoomBlob { blob, room_id }),
    ensures
        ({
            let id = client.profile.id;
            let result = processing(client, message, room, chosen);
            let effects = result->Ok_0;
            let put = effects[2]->Change_0->Insert_0;
            &&& result is Ok
            &&& effects.len() == 4
            &&& effects[2] == EffectView::Change(ChangeView::Insert(put))
            &&& holds_blob(put, "bc:room"@, blob@, id)
            &&& is_next(put, room)
            &&& forall|role: Role, who: i64| #[trigger] can_read(put.attributes.acl, role, who)
            &&& forall|role: Role, who: i64| #[trigger]
                can_write(put.attributes.acl, role, who) <==> role == Role::Host
            &&& shows_players(effects[0], room, ResultView::Entity(JBType::Object, put.object))
            &&& effects[1] is Blobcast
            &&& effects[1]->Blobcast_1 == ResponseView::Event(
                room.config.code,
                EventView::RoomBlobChanged(ValueView::Object(blob@)),
            )
            &&& forall|who: i64| #[trigger]
                effects[1]->Blobcast_0.contains(who) <==> room.connections.contains_key(who)
                    && room.connections[who].client_type == ClientType::Blobcast
            &&& answers_host(effects[3], id, ResultActionView::SetRoomBlob)
        }),
{
    let put = processing(client, message, room, chosen)->Ok_0[2]->Change_0->Insert_0;
    assert forall|role: Role, who: i64| #[trigger] can_read(put.attributes.acl, role, who) by {
        assert(crate::laws::requests::speaks_of(put.attributes.acl[0], role, who));
    }
}

/// The blob that a host sets for a customer, whatever was there before, is shown to the connection of
/// the customer that is meant, where there is one, and is stored under `bc:customer:` and the user,
/// where that connection and hosts can read it, and only hosts can write it.
pub proof fn customer_blobs_are_set(
    client: ClientView,
    message: JBMessage,
    blob: String,
    customer_user_id: String,
    room_id: String,
    room: RoomState,
    chosen: Option<i64>,
)
    requires
        says(message, JBAction::SetCustomerBlob { blob, customer_user_id, room_id }),
        is_meant(message, room, chosen),
    ensures
        ({
            let id = client.profile.id;
            let result = processing(client, message, room, chosen);
            let effects = result->Ok_0;
            let put = effects.last()->Change_0->Insert_0;
            &&& result is Ok
            &&& effects.last() == EffectView::Change(ChangeView::Insert(put))
            &&& holds_blob(put, "bc:customer:"@ + customer_user_id@, blob@, id)
            &&& is_next(put, room)
            &&& chosen is None ==> effects.len() == 1
            &&& chosen is None ==> forall|who: i64| #[trigger]
                room.connections.contains_key(who) ==> room.connections[who].profile.user_id
                    != customer_user_id@
            &&& chosen matches Some(customer) ==> {
                &&& room.connections.contains_key(customer)
                &&& room.connections[customer].profile.user_id == customer_user_id@
                &&& effects.len() == 2
                &&& effects[0] == EffectView::Ecast(
                    set![customer],
                    MessageView {
                        pc: 0,
                        re: None,
                        result: ResultView::Entity(JBType::Object, put.object),
                    },
                )
                &&& forall|role: Role, who: i64| #[trigger]
                    can_read(put.attributes.acl, role, who) <==> role == Role::Host || who
                        == customer
                &&& forall|role: Role, who: i64| #[trigger]
                    can_write(put.attributes.acl, role, who) <==> role == Role::Host
            }
        }),
{
    let put = processing(client, message, room, chosen)->Ok_0.last()->Change_0->Insert_0;
    if chosen is Some {
        assert forall|role: Role, who: i64| #[trigger]
            can_read(put.attributes.acl, role, who) <==> role == Role::Host || who
                == chosen->Some_0 by {
            let first = put.attributes.acl[0];
            assert(crate::laws::requests::speaks_of(first, role, who) <==> who == chosen->Some_0);
        }
    }
}

/// Whatever a host has sent before, the blob that it sets last for the room is what is there.
pub proof fn the_last_room_blob_is_there(
    client: ClientView,
    first: JBMessage,
    second: JBMessage,
    blob: String,
    room_id: String,
    before: RoomState,
    between: RoomState,
    after: RoomState,
    chosen: Option<i64>,
    other: Option<i64>,
)
    requires
        says(second, JBAction::SetRoomBlob { blob, room_id }),
        processing(client, first, before, chosen) is Ok,
        performed(before, processing(client, first, before, chosen)->Ok_0, between),
        performed(between, processing(client, second, between, other)->Ok_0, after),
    ensures
        after.entities.contains_key("bc:room"@),
        after.entities["bc:room"@].object.val == ValueView::Object(blob@),
{
    room_blobs_are_set(client, second, blob, room_id, between, other);
    let effects = processing(client, second, between, other)->Ok_0;
    let stored = effects.drop_last();
    assert(effects.last() is Blobcast);
    assert(performed(between, stored, after));
    assert(stored.last() == effects[2]);
    let earlier = crate::laws::lemma_last_change(between, stored, after);
}

/// A host that locks the room locks it, and is told so with the code of the room.
pub proof fn hosts_lock_their_room(
    client: ClientView,
    message: JBMessage,
    room_id: String,
    room: RoomState,
    chosen: Option<i64>,
)
    requires
        says(message, JBAction::LockRoom { room_id }),
    ensures
        ({
            let result = processing(client, message, room, chosen);
            &&& result is Ok
            &&& result->Ok_0.len() == 2
            &&& result->Ok_0[0] == EffectView::Change(ChangeView::LockRoom)
            &&& answers_host(
                result->Ok_0[1],
                client.profile.id,
                ResultActionView::LockRoom(room.config.code),
            )
        }),
{
}

/// A host that asks for a second room is refused.
pub proof fn second_rooms_are_refused(
    client: ClientView,
    message: JBMessage,
    options: String,
    room: RoomState,
    chosen: Option<i64>,
)
    requires
        says(message, JBAction::CreateRoom { options }),
    ensures
        processing(client, message, room, chosen) is Err,
        processing(client, message, room, chosen)->Err_0 == ProcessError::AlreadyCreated,
{
}

/// How the audience stands: what the room has under `audience`, and a counter at zero where it has
/// nothing.
pub open spec fn stands_as(room: RoomState, value: ValueView) -> bool {
    if room.entities.contains_key("audience"@) {
        value == room.entities["audience"@].object.val
    } else {
        value == ValueView::AudiencePnCounter(0)
    }
}

/// A session of the audience is started, asked for and stopped with how the audience stands, under the
/// name that the host gives it; to stop it takes away what the room has, and the others change nothing.
pub proof fn audience_sessions_tell_the_count(
    client: ClientView,
    message: JBMessage,
    name: String,
    room_id: String,
    room: RoomState,
    chosen: Option<i64>,
    value: ValueView,
)
    requires
        stands_as(room, value),
    ensures
        ({
            let id = client.profile.id;
            let module = ModuleView::Audience(value);
            let result = processing(client, message, room, chosen);
            let effects = result->Ok_0;
            &&& says(
                message,
                JBAction::StartSession {
                    module: JBSessionModuleWithArgs::Audience,
                    name,
                    room_id,
                },
            ) ==> {
                &&& result is Ok
                &&& effects.len() == 1
                &&& answers_host(effects[0], id, ResultActionView::StartSession(module, name@))
            }
            &&& says(
                message,
                JBAction::GetSessionStatus { module: JBSessionModule::Audience, name, room_id },
            ) ==> {
                &&& result is Ok
                &&& effects.len() == 1
                &&& answers_host(effects[0], id, ResultActionView::GetSessionStatus(module, name@))
            }
            &&& says(
                message,
                JBAction::StopSession { module: JBSessionModule::Audience, name, room_id },
            ) ==> {
                &&& result is Ok
                &&& effects.len() == 2
                &&& effects[0] == EffectView::Change(ChangeView::Remove("audience"@))
                &&& answers_host(effects[1], id, ResultActionView::StopSession(module, name@))
            }
        }),
{
}

/// A vote that is started, whatever was there before, is shown to every connection that speaks the newer
/// protocol, the host is answered with its choices, and it is stored under its name as the first
/// version, for everyone to read and for hosts to write.
pub proof fn votes_are_started(
    client: ClientView,
    message: JBMessage,
    group: JBCountGroup,
    name: String,
    room_id: String,
    room: RoomState,
    chosen: Option<i64>,
)
    requires
        says(
            message,
            JBAction::StartSession { module: JBSessionModuleWithArgs::Vote(group), name, room_id },
        ),
    ensures
        ({
            let id = client.profile.id;
            let result = processing(client, message, room, chosen);
            let effects = result->Ok_0;
            let put = effects[2]->Change_0->Insert_0;
            &&& result is Ok
            &&& effects.len() == 3
            &&& effects[2] == EffectView::Change(ChangeView::Insert(put))
            &&& put.kind == JBType::AudienceCountGroup
            &&& put.object.key == name@
            &&& put.object.val == ValueView::AudienceCountGroup(group@)
            &&& put.object.version == 0
            &&& put.object.from == id
            &&& !put.attributes.locked
            &&& forall|role: Role, who: i64| #[trigger] can_read(put.attributes.acl, role, who)
            &&& forall|role: Role, who: i64| #[trigger]
                can_write(put.attributes.acl, role, who) <==> role == Role::Host
            &&& shows_players(
                effects[0],
                room,
                ResultView::Entity(JBType::AudienceCountGroup, put.object),
            )
            &&& answers_host(
                effects[1],
                id,
                ResultActionView::StartSession(ModuleView::Vote(group@.choices), name@),
            )
        }),
{
    let put = processing(client, message, room, chosen)->Ok_0[2]->Change_0->Insert_0;
    assert forall|role: Role, who: i64| #[trigger] can_read(put.attributes.acl, role, who) by {
        assert(crate::laws::requests::speaks_of(put.attributes.acl[0], role, who));
    }
}

/// A vote that is there is told with its choices as they are counted when a host asks for it, and when
/// the host stops it, which takes it away. Of what is no vote, or is not there, nothing is told.
pub proof fn votes_are_told(
    client: ClientView,
    message: JBMessage,
    name: String,
    room_id: String,
    room: RoomState,
    chosen: Option<i64>,
)
    ensures
        ({
            let id = client.profile.id;
            let there = room.entities.contains_key(name@)
                && room.entities[name@].object.val is AudienceCountGroup;
            let module = ModuleView::Vote(
                room.entities[name@].object.val->AudienceCountGroup_0.choices,
            );
            let result = processing(client, message, room, chosen);
            let effects = result->Ok_0;
            &&& says(
                message,
                JBAction::GetSessionStatus { module: JBSessionModule::Vote, name, room_id },
            ) ==> {
                &&& result is Ok
                &&& !there ==> effects.len() == 0
                &&& there ==> effects.len() == 1 && answers_host(
                    effects[0],
                    id,
                    ResultActionView::GetSessionStatus(module, name@),
                )
            }
            &&& says(
                message,
                JBAction::StopSession { module: JBSessionModule::Vote, name, room_id },
            ) ==> {
                &&& result is Ok
                &&& !there ==> effects.len() == 0
                &&& there ==> effects.len() == 2 && effects[0] == EffectView::Change(
                    ChangeView::Remove(name@),
                ) && answers_host(effects[1], id, ResultActionView::StopSession(module, name@))
            }
        }),
{
}

/// A room takes every message of a host but the one that would end a vote where something else than a vote
/// is stored under the name.
pub proof fn other_entities_are_not_ended_as_votes(message: JBMessage, room: RoomState, action: JBAction)
    requires
        says(message, action),
    ensures
        acceptable(message, room) <==> !(action matches JBAction::StopSession {
            module: JBSessionModule::Vote,
            name,
            room_id: _,
        } && room.entities.contains_key(name@) && !(
        room.entities[name@].object.val is AudienceCountGroup)),
{
}

} // verus!
