//! What holds of rooms whatever messages come.
use crate::acl::{entry_covers, may_read, may_write, Role};
use crate::blobcast::ws::{
    answer, customer_attributes, framed, session_started, session_status, session_stopped,
    vote_choices, FrameError, JBSessionModule, JBSessionModuleWithArgs, ModuleView, ResultActionView,
    MESSAGE_OPCODE,
};
use crate::choices::{distinct_keys, has_key, key_at};
use crate::digits::{byte_number, digits_value};
use crate::ecast::ws::{
    audience_count, audience_entity, changing, connecting, created_entity, created_value, creation, creation_refused,
    dropping, entity_at, locking, next_id, processing, reading, stepping, welcome, ConnectError,
    JBCreateParams, JBParams, ProcessError, ResultView, WSMessage,
};
use crate::ecast::{requested_room, OpenedView, RoomRequest, WSQuery};
use crate::effect::{notice, readers, reply, EffectView};
use crate::entity::{vote_counted, EntityView, JBCountGroup, JBType, ValueView};
use crate::room::{
    changed_key, decreased, increased, room_changed, with_entity, ChangeView, ClientView, Room,
    RoomState, Token,
};
use crate::store::{Keyed, Numbered};
use crate::text::{find_from, occurs_at, starts_with};
use vstd::prelude::*;

pub mod caching;
pub mod changes;
pub mod drawing;
pub mod entries;
pub mod hosts;
pub mod joining;
pub mod logging;
pub mod opcodes;
pub mod passing;
pub mod patching;
pub mod plans;
pub mod requests;
pub mod screen;
pub mod speech;
pub mod streams;
pub mod texts;

verus! {

/// A room in which every entity and every connection is found under its own key.
pub open spec fn is_keyed(room: RoomState) -> bool {
    &&& forall|key: Seq<char>| #[trigger]
        room.entities.contains_key(key) ==> room.entities[key].object.key == key
    &&& forall|id: i64| #[trigger]
        room.connections.contains_key(id) ==> room.connections[id].profile.id == id
}

/// In every room each entity and each connection is found under its own key.
pub proof fn rooms_are_keyed(room: Room)
    requires
        room.wf(),
    ensures
        is_keyed(room@),
{
    room.entities.lemma_listing();
    room.connections.lemma_listing();
    assert forall|key: Seq<char>| #[trigger]
        room@.entities.contains_key(key) implies room@.entities[key].object.key == key by {
        let listing = room.entities.listing();
        let i = choose|i: int| 0 <= i < listing.len() && (#[trigger] listing[i]).item_key() == key;
        assert(room@.entities[key] == listing[i]@);
    }
    assert forall|id: i64| #[trigger]
        room@.connections.contains_key(id) implies room@.connections[id].profile.id == id by {
        let listing = room.connections.listing();
        let i = choose|i: int| 0 <= i < listing.len() && (#[trigger] listing[i]).item_id() == id;
        assert(room@.connections[id] == listing[i]@);
    }
}

/// Changes and new connections leave each entity and each connection under its own key.
pub proof fn rooms_stay_keyed(
    before: RoomState,
    change: ChangeView,
    after: RoomState,
    query: WSQuery,
    token: Token,
)
    requires
        is_keyed(before),
    ensures
        room_changed(before, change, after) ==> is_keyed(after),
        connecting(before, query, token) matches Ok((_, _, joined)) ==> is_keyed(joined),
{
    if room_changed(before, change, after) {
        assert forall|key: Seq<char>| #[trigger] after.entities.contains_key(key) implies after.entities[key].object.key
            == key by {
            if changed_key(change) != Some(key) {
                changes_touch_one_entity(before, change, after);
                assert(entity_at(after, key) == entity_at(before, key));
            } else {
                assert(change is Insert || before.entities.contains_key(key));
            }
        }
        assert(after.connections == before.connections) by {
            changes_touch_one_entity(before, change, after);
        }
    }
}

/// Only a host can bring an entity into a room; anyone can replace one that is there.
pub proof fn only_hosts_bring_new_entities(client: ClientView, previous: Option<EntityView>)
    ensures
        creation_refused(client, previous) <==> previous is None && client.profile.role
            != Role::Host,
{
}

/// A request to put an entity under a key that is refused changes nothing: its sender, and no one
/// else, is told that permission was denied.
pub proof fn refused_requests_change_nothing(
    client: ClientView,
    kind: JBType,
    params: JBCreateParams,
    seq: u64,
    room: RoomState,
)
    requires
        creation_refused(client, entity_at(room, params.key@)),
    ensures
        creation(client, kind, params, seq, room) == Ok::<_, ProcessError>(
            seq![notice(set![client.profile.id], ResultView::Error("Permission denied"@))],
        ),
{
}

/// Whether doing what was decided makes the room `after` of the room `before`. Only changes touch a
/// room.
pub open spec fn performed(before: RoomState, effects: Seq<EffectView>, after: RoomState) -> bool
    decreases effects.len(),
{
    if effects.len() == 0 {
        after == before
    } else {
        match effects.last() {
            EffectView::Change(change) => exists|between: RoomState| #[trigger]
                room_changed(between, change, after) && performed(
                    before,
                    effects.drop_last(),
                    between,
                ),
            _ => performed(before, effects.drop_last(), after),
        }
    }
}

/// Without changes a room stays as it is.
proof fn lemma_unchanged(before: RoomState, effects: Seq<EffectView>, after: RoomState)
    requires
        performed(before, effects, after),
        forall|i: int| 0 <= i < effects.len() ==> !((#[trigger] effects[i]) is Change),
    ensures
        after == before,
    decreases effects.len(),
{
    if effects.len() > 0 {
        assert(!(effects[effects.len() - 1] is Change));
        lemma_unchanged(before, effects.drop_last(), after);
    }
}

/// A change at the end is made once all else is done.
pub(crate) proof fn lemma_last_change(before: RoomState, effects: Seq<EffectView>, after: RoomState) -> (between:
    RoomState)
    requires
        effects.len() > 0,
        effects.last() is Change,
        performed(before, effects, after),
    ensures
        performed(before, effects.drop_last(), between),
        room_changed(between, effects.last()->Change_0, after),
{
    choose|between: RoomState| #[trigger]
        room_changed(between, effects.last()->Change_0, after) && performed(
            before,
            effects.drop_last(),
            between,
        )
}

/// To read an entity, or to be refused to put one somewhere, leaves the room as it is.
pub proof fn reading_and_refusal_leave_the_room(
    client: ClientView,
    kind: JBType,
    params: JBCreateParams,
    seq: u64,
    before: RoomState,
    after: RoomState,
)
    ensures
        performed(before, reading(client, kind, params.key@, seq, before), after) ==> after
            == before,
        creation_refused(client, entity_at(before, params.key@)) && performed(
            before,
            creation(client, kind, params, seq, before)->Ok_0,
            after,
        ) ==> after == before,
{
    let read = reading(client, kind, params.key@, seq, before);
    if performed(before, read, after) {
        lemma_unchanged(before, read, after);
    }
    if creation_refused(client, entity_at(before, params.key@)) {
        let refused = creation(client, kind, params, seq, before)->Ok_0;
        if performed(before, refused, after) {
            lemma_unchanged(before, refused, after);
        }
    }
}

/// What was put under a key is what anyone reads under it afterwards, and it is what those were
/// shown who may read it. Nothing else in the room has changed.
pub proof fn what_is_put_is_read(
    client: ClientView,
    kind: JBType,
    params: JBCreateParams,
    seq: u64,
    before: RoomState,
    after: RoomState,
    reader: ClientView,
    reader_seq: u64,
)
    requires
        !creation_refused(client, entity_at(before, params.key@)),
        created_value(kind, params) is Some,
        performed(before, creation(client, kind, params, seq, before)->Ok_0, after),
    ensures
        ({
            let entity = created_entity(
                client,
                kind,
                params,
                created_value(kind, params)->Some_0,
                entity_at(before, params.key@),
            );
            let effects = creation(client, kind, params, seq, before)->Ok_0;
            &&& after == with_entity(before, entity)
            &&& entity_at(after, params.key@) == Some(entity)
            &&& reading(reader, kind, params.key@, reader_seq, after) == seq![
                reply(reader.profile.id, reader_seq, ResultView::Entity(kind, entity.object)),
            ]
            &&& effects[0] == notice(
                readers(before, entity.attributes, client.profile.id),
                ResultView::Entity(kind, entity.object),
            )
        }),
{
    let effects = creation(client, kind, params, seq, before)->Ok_0;
    let stored = effects.drop_last();
    let shown = stored.drop_last();
    assert(effects.len() == 3);
    assert(effects.last() is Ecast);
    assert(performed(before, stored, after));
    assert(stored.last() == effects[1]);
    assert(stored.last() is Change);
    let between = lemma_last_change(before, stored, after);
    lemma_unchanged(before, shown, between);
}

/// An entity that replaces another is the next version of it, keeps the list of those who may
/// read and write it, and is not locked.
pub proof fn replacing_keeps_the_list(
    client: ClientView,
    kind: JBType,
    params: JBCreateParams,
    val: ValueView,
    previous: EntityView,
)
    ensures
        ({
            let entity = created_entity(client, kind, params, val, Some(previous));
            &&& entity.attributes.acl == previous.attributes.acl
            &&& entity.object.version == previous.object.version.wrapping_add(1)
            &&& !entity.attributes.locked
            &&& entity.object.from == client.profile.id
        }),
{
}

/// Nobody is shown an entity by a request of another that they may not read, and nobody is shown
/// what they put there themselves.
pub proof fn entities_are_shown_to_readers_only(
    client: ClientView,
    kind: JBType,
    params: JBCreateParams,
    seq: u64,
    room: RoomState,
    id: i64,
)
    requires
        !creation_refused(client, entity_at(room, params.key@)),
        created_value(kind, params) is Some,
        is_keyed(room),
    ensures
        ({
            let effects = creation(client, kind, params, seq, room)->Ok_0;
            let entity = created_entity(
                client,
                kind,
                params,
                created_value(kind, params)->Some_0,
                entity_at(room, params.key@),
            );
            effects[0]->Ecast_0.contains(id) <==> {
                &&& room.connections.contains_key(id)
                &&& id != client.profile.id
                &&& may_read(entity.attributes.acl, room.connections[id].profile.role, id)
            }
        }),
{
}

/// A change touches the entity under its key alone: every other entity, the connections and the
/// numbering stay as they are, and so does the configuration but for the lock.
pub proof fn changes_touch_one_entity(before: RoomState, change: ChangeView, after: RoomState)
    requires
        room_changed(before, change, after),
    ensures
        forall|key: Seq<char>|
            changed_key(change) != Some(key) ==> #[trigger] entity_at(after, key) == entity_at(
                before,
                key,
            ),
        after.connections == before.connections,
        after.serial == before.serial,
        !(change is LockRoom) ==> after.config == before.config,
        after.config.code == before.config.code,
        before.config.locked ==> after.config.locked,
{
    assert forall|key: Seq<char>| changed_key(change) != Some(key) implies #[trigger] entity_at(
        after,
        key,
    ) == entity_at(before, key) by {
        match change {
            ChangeView::Insert(entity) => {
                assert(entity.object.key != key);
            },
            _ => {},
        }
    }
}

/// A locked room stays locked.
pub proof fn locked_rooms_stay_locked(before: RoomState, change: ChangeView, after: RoomState)
    requires
        room_changed(before, change, after),
        before.config.locked || change is LockRoom,
    ensures
        after.config.locked,
{
}

/// To lock an entity leaves its value and its version as they are.
pub proof fn locking_keeps_the_value(before: RoomState, key: Seq<char>, from: i64, after: RoomState)
    requires
        room_changed(before, ChangeView::Lock(key, from), after),
        before.entities.contains_key(key),
    ensures
        after.entities[key].attributes.locked,
        after.entities[key].object.val == before.entities[key].object.val,
        after.entities[key].object.version == before.entities[key].object.version,
        after.entities[key].object.from == from,
        after.entities[key].attributes.acl == before.entities[key].attributes.acl,
{
}

/// A decrease of a counter undoes an increase by as much, and the other way round.
pub proof fn decreases_undo_increases(val: ValueView, times: i64)
    ensures
        decreased(increased(val, times), times) == val,
        increased(decreased(val, times), times) == val,
{
}

/// A dropped entity is not read any more.
pub proof fn dropped_entities_are_gone(
    before: RoomState,
    key: Seq<char>,
    after: RoomState,
    reader: ClientView,
    kind: JBType,
    seq: u64,
)
    requires
        room_changed(before, ChangeView::Remove(key), after),
    ensures
        entity_at(after, key) is None,
        reading(reader, kind, key, seq, after) == Seq::<EffectView>::empty(),
{
    assert(reading(reader, kind, key, seq, after) =~= Seq::<EffectView>::empty());
}

/// A connection that comes back under the id that it was given is the same connection, and the
/// room is as it was.
pub proof fn connections_come_back(
    room: RoomState,
    query: WSQuery,
    token: Token,
    again: WSQuery,
    other_token: Token,
)
    requires
        connecting(room, query, token) is Ok,
        again.id == connecting(room, query, token)->Ok_0.1.profile.id,
        room.connections.contains_key(query.id) ==> room.connections[query.id].profile.id
            == query.id,
    ensures
        ({
            let (_, client, joined) = connecting(room, query, token)->Ok_0;
            connecting(joined, again, other_token) == Ok::<_, ConnectError>((true, client, joined))
        }),
{
}

/// A room in which hosts and players are numbered in the order in which they came.
pub open spec fn numbered_in_order(room: RoomState) -> bool {
    forall|id: i64| #[trigger]
        room.connections.contains_key(id) ==> {
            &&& room.connections[id].profile.id == id
            &&& room.connections[id].profile.role == Role::Host
                || room.connections[id].profile.role == Role::Player ==> 1 <= id < room.serial
        }
}

/// A new host or player is given an id that no host or player of the room has had, as long as
/// there are numbers left and the audience has not taken it; and the numbering goes on so.
pub proof fn hosts_and_players_are_numbered_in_order(room: RoomState, query: WSQuery, token: Token)
    requires
        numbered_in_order(room),
        1 <= room.serial < i64::MAX,
        query.role == Role::Host || query.role == Role::Player,
        !room.connections.contains_key(query.id),
    ensures
        ({
            let (reconnected, client, joined) = connecting(room, query, token)->Ok_0;
            &&& connecting(room, query, token) is Ok
            &&& !reconnected
            &&& client.profile.id == room.serial
            &&& forall|id: i64| #[trigger]
                room.connections.contains_key(id) && (room.connections[id].profile.role
                    == Role::Host || room.connections[id].profile.role == Role::Player)
                    ==> client.profile.id != id
            &&& numbered_in_order(joined)
            &&& 1 <= joined.serial
        }),
{
}

/// No connection is given the id zero, so that one which names none never comes back as another:
/// as long as the numbering of the room has not run over and the audience has not been counted
/// to one less than a multiple of two to the power of sixty-two.
pub proof fn no_id_is_zero(room: RoomState, role: Role, count: i64)
    requires
        role == Role::Audience ==> audience_entity(room).object.val
            == ValueView::AudiencePnCounter(count) && (count as int + 1) % 0x4000_0000_0000_0000
            != 0,
        role != Role::Audience ==> room.serial != 0,
    ensures
        next_id(room, role) != 0,
{
    if role == Role::Audience {
        let next = count.wrapping_add(1) as int;
        if (next * 100) % 0x1_0000_0000_0000_0000 == 0 {
            let q = (next * 100) / 0x1_0000_0000_0000_0000;
            let inverse = 1106804644422573097int;
            let k = inverse * q - 6 * next;
            assert(next * 25 == q * 0x4000_0000_0000_0000);
            assert(next == k * 0x4000_0000_0000_0000) by (nonlinear_arith)
                requires
                    next * 25 == q * 0x4000_0000_0000_0000,
                    k == inverse * q - 6 * next,
                    inverse == 1106804644422573097int,
            ;
            assert(next % 0x4000_0000_0000_0000 == 0) by (nonlinear_arith)
                requires
                    next == k * 0x4000_0000_0000_0000,
            ;
            assert(false);
        }
    }
}

/// Whether an effect names a request as answered only to the sender of that request.
pub open spec fn is_proper(effect: EffectView, id: i64, seq: u64) -> bool {
    match effect {
        EffectView::Ecast(to, message) => message.re is Some ==> to == set![id] && message.re
            == Some(seq),
        _ => true,
    }
}

/// The requests to put an entity somewhere are answered properly.
proof fn lemma_creation_is_proper(
    client: ClientView,
    kind: JBType,
    params: JBCreateParams,
    seq: u64,
    room: RoomState,
)
    ensures
        creation(client, kind, params, seq, room) matches Ok(effects) ==> forall|i: int|
            0 <= i < effects.len() ==> is_proper(#[trigger] effects[i], client.profile.id, seq),
{
}

/// What names a request as the one that it answers goes to the sender of that request alone.
#[verifier::rlimit(50)]
pub proof fn answers_go_to_the_sender(
    client: ClientView,
    message: WSMessage,
    room: RoomState,
    render: bool,
    next: u64,
)
    ensures
        processing(client, message, room, render, next) matches Ok(effects) ==> forall|i: int|
            0 <= i < effects.len() ==> is_proper(
                #[trigger] effects[i],
                client.profile.id,
                message.seq,
            ),
{
    match message.params {
        JBParams::TextCreate(params) => {
            lemma_creation_is_proper(client, JBType::Text, params, message.seq, room);
        },
        JBParams::TextSet(params) => {
            lemma_creation_is_proper(client, JBType::Text, params, message.seq, room);
        },
        JBParams::TextUpdate(params) => {
            lemma_creation_is_proper(client, JBType::Text, params, message.seq, room);
        },
        JBParams::NumberCreate(params) => {
            lemma_creation_is_proper(client, JBType::Number, params, message.seq, room);
        },
        JBParams::NumberSet(params) => {
            lemma_creation_is_proper(client, JBType::Number, params, message.seq, room);
        },
        JBParams::NumberUpdate(params) => {
            lemma_creation_is_proper(client, JBType::Number, params, message.seq, room);
        },
        JBParams::ObjectCreate(params) => {
            lemma_creation_is_proper(client, JBType::Object, params, message.seq, room);
        },
        JBParams::ObjectSet(params) => {
            lemma_creation_is_proper(client, JBType::Object, params, message.seq, room);
        },
        JBParams::ObjectUpdate(params) => {
            lemma_creation_is_proper(client, JBType::Object, params, message.seq, room);
        },
        JBParams::DoodleCreate(params) => {
            lemma_creation_is_proper(client, JBType::Doodle, params, message.seq, room);
        },
        JBParams::DoodleSet(params) => {
            lemma_creation_is_proper(client, JBType::Doodle, params, message.seq, room);
        },
        JBParams::DoodleUpdate(params) => {
            lemma_creation_is_proper(client, JBType::Doodle, params, message.seq, room);
        },
        JBParams::AudienceGCounterCreate(params) => {
            lemma_creation_is_proper(client, JBType::AudienceGCounter, params, message.seq, room);
        },
        JBParams::AudiencePnCounterCreate(params) => {
            lemma_creation_is_proper(client, JBType::AudiencePnCounter, params, message.seq, room);
        },
        JBParams::AudienceCountGroupCreate(params) => {
            lemma_creation_is_proper(client, JBType::AudienceCountGroup, params, message.seq, room);
        },
        JBParams::NumberIncrement(params) => {
            lemma_steps_are_proper(client, params.key@, message.seq, room, render, next);
        },
        JBParams::NumberDecrement(params) => {
            lemma_steps_are_proper(client, params.key@, message.seq, room, render, next);
        },
        JBParams::Lock(params) => {
            lemma_steps_are_proper(client, params.key@, message.seq, room, render, next);
        },
        JBParams::Drop(params) => {
            lemma_steps_are_proper(client, params.key@, message.seq, room, render, next);
        },
        _ => {},
    }
}

/// The requests to step, lock or drop an entity are answered properly.
proof fn lemma_steps_are_proper(
    client: ClientView,
    key: Seq<char>,
    seq: u64,
    room: RoomState,
    render: bool,
    next: u64,
)
    ensures
        forall|i: int|
            0 <= i < stepping(client, key, next, seq, room).len() ==> is_proper(
                #[trigger] stepping(client, key, next, seq, room)[i],
                client.profile.id,
                seq,
            ),
        forall|i: int|
            0 <= i < locking(client, key, seq, room, render).len() ==> is_proper(
                #[trigger] locking(client, key, seq, room, render)[i],
                client.profile.id,
                seq,
            ),
        forall|i: int|
            0 <= i < dropping(client, key, seq, room).len() ==> is_proper(
                #[trigger] dropping(client, key, seq, room)[i],
                client.profile.id,
                seq,
            ),
{
}

/// Whoever may not write an entity that is there cannot step it as a number, nor drop it.
pub proof fn only_writers_step_and_drop(
    client: ClientView,
    key: Seq<char>,
    seq: u64,
    next: u64,
    room: RoomState,
)
    requires
        room.entities.contains_key(key) ==> !may_write(
            room.entities[key].attributes.acl,
            client.profile.role,
            client.profile.id,
        ),
    ensures
        stepping(client, key, next, seq, room) == Seq::<EffectView>::empty(),
        dropping(client, key, seq, room) == seq![
            reply(client.profile.id, seq, ResultView::Okay),
        ],
{
    assert(stepping(client, key, next, seq, room) =~= Seq::<EffectView>::empty());
}

/// What a connection is welcomed with are the entities that it may read, and a host is welcomed
/// with all.
pub proof fn welcomes_show_what_may_be_read(
    client: ClientView,
    room: RoomState,
    reconnect: bool,
    key: Seq<char>,
)
    ensures
        ({
            let shown = welcome(client, room, reconnect).entities;
            &&& shown.contains_key(key) <==> room.entities.contains_key(key) && may_read(
                room.entities[key].attributes.acl,
                client.profile.role,
                client.profile.id,
            )
            &&& shown.contains_key(key) ==> shown[key] == room.entities[key]
            &&& client.profile.role == Role::Host ==> shown =~= room.entities
        }),
{
}

/// The blob of a customer is read by the connection of the customer and by hosts, and written by
/// hosts alone.
pub proof fn customer_blobs_are_private(chosen: i64, role: Role, id: i64)
    ensures
        may_read(customer_attributes(Some(chosen)).acl, role, id) <==> role == Role::Host || id
            == chosen,
        may_write(customer_attributes(Some(chosen)).acl, role, id) <==> role == Role::Host,
{
    let acl = customer_attributes(Some(chosen)).acl;
    if id == chosen {
        assert(entry_covers(acl, 0, role, id));
    }
}

/// A vote that was started stands as it was started until someone votes, and once it was stopped
/// it is gone.
pub proof fn votes_stand_from_start_to_stop(
    client: ClientView,
    group: JBCountGroup,
    name: Seq<char>,
    before: RoomState,
    during: RoomState,
    after: RoomState,
)
    requires
        room_changed(
            before,
            session_started(client, JBSessionModuleWithArgs::Vote(group), name, before)[2]->Change_0,
            during,
        ),
        room_changed(
            during,
            session_stopped(client, JBSessionModule::Vote, name, during)[0]->Change_0,
            after,
        ),
    ensures
        session_status(client, JBSessionModule::Vote, name, during) == seq![
            answer(
                client,
                ResultActionView::GetSessionStatus(ModuleView::Vote(group@.choices), name),
            ),
        ],
        session_stopped(client, JBSessionModule::Vote, name, during)[1] == answer(
            client,
            ResultActionView::StopSession(ModuleView::Vote(group@.choices), name),
        ),
        session_status(client, JBSessionModule::Vote, name, after) == Seq::<EffectView>::empty(),
{
    assert(session_status(client, JBSessionModule::Vote, name, after) =~= Seq::<
        EffectView,
    >::empty());
}

/// A message that is framed with the opcode of messages reads back.
pub proof fn framed_messages_read_back(message: Seq<char>)
    ensures
        framed("5:::"@ + message) == Ok::<_, FrameError>((MESSAGE_OPCODE, Some(message))),
{
    reveal_strlit("5:::");
    reveal_strlit("::");
    let text = "5:::"@ + message;
    assert(!occurs_at(text, "::"@, 0)) by {
        assert(text.subrange(0, 2)[0] == '5');
    }
    assert(occurs_at(text, "::"@, 1)) by {
        assert(text.subrange(1, 3) =~= "::"@);
    }
    reveal_with_fuel(find_from, 3);
    assert(find_from(text, "::"@, 0) == Some(1int));
    let head = text.take(1);
    let tail = text.skip(3);
    assert(head =~= seq!['5']);
    assert(tail.skip(1) =~= message);
    assert(head.drop_last() =~= seq![]);
    reveal_with_fuel(digits_value, 3);
    assert(digits_value(head) == 5);
    assert(byte_number(head) == Some(5u8));
}

/// A room that was opened is found under the code that was answered, with nothing in it, not
/// locked, and every other room is as it was.
pub proof fn opened_rooms_are_found(
    before: Map<Seq<char>, RoomState>,
    room_req: RoomRequest,
    opened: OpenedView,
    accessible_host: Seq<char>,
    code: Seq<char>,
)
    ensures
        ({
            let room = requested_room(room_req, opened.code, opened.host, accessible_host);
            let after = before.insert(opened.code, room);
            &&& after.contains_key(opened.code)
            &&& after[opened.code].config.code == opened.code
            &&& after[opened.code].config.audience_host == accessible_host
            &&& !after[opened.code].config.locked
            &&& after[opened.code].entities.len() == 0
            &&& after[opened.code].connections.len() == 0
            &&& numbered_in_order(after[opened.code])
            &&& code != opened.code && before.contains_key(code) ==> after.contains_key(code)
                && after[code] == before[code]
        }),
{
}

/// Whether what an effect sends goes to connections of a room, or to one connection.
pub open spec fn stays_in(effect: EffectView, room: RoomState, id: i64) -> bool {
    match effect {
        EffectView::Ecast(to, _) => to.subset_of(room.connections.dom().insert(id)),
        EffectView::Blobcast(to, _) => to.subset_of(room.connections.dom().insert(id)),
        EffectView::Close(to) => to.subset_of(room.connections.dom()),
        _ => true,
    }
}

/// What is sent about a message goes to its sender and to connections of the room, and to nobody
/// else.
#[verifier::rlimit(50)]
pub proof fn messages_stay_in_the_room(
    client: ClientView,
    message: WSMessage,
    room: RoomState,
    render: bool,
    next: u64,
)
    ensures
        processing(client, message, room, render, next) matches Ok(effects) ==> forall|i: int|
            0 <= i < effects.len() ==> stays_in(#[trigger] effects[i], room, client.profile.id),
{
    match message.params {
        JBParams::TextCreate(params) => {
            lemma_creation_stays(client, JBType::Text, params, message.seq, room);
        },
        JBParams::TextSet(params) => {
            lemma_creation_stays(client, JBType::Text, params, message.seq, room);
        },
        JBParams::TextUpdate(params) => {
            lemma_creation_stays(client, JBType::Text, params, message.seq, room);
        },
        JBParams::NumberCreate(params) => {
            lemma_creation_stays(client, JBType::Number, params, message.seq, room);
        },
        JBParams::NumberSet(params) => {
            lemma_creation_stays(client, JBType::Number, params, message.seq, room);
        },
        JBParams::NumberUpdate(params) => {
            lemma_creation_stays(client, JBType::Number, params, message.seq, room);
        },
        JBParams::ObjectCreate(params) => {
            lemma_creation_stays(client, JBType::Object, params, message.seq, room);
        },
        JBParams::ObjectSet(params) => {
            lemma_creation_stays(client, JBType::Object, params, message.seq, room);
        },
        JBParams::ObjectUpdate(params) => {
            lemma_creation_stays(client, JBType::Object, params, message.seq, room);
        },
        JBParams::DoodleCreate(params) => {
            lemma_creation_stays(client, JBType::Doodle, params, message.seq, room);
        },
        JBParams::DoodleSet(params) => {
            lemma_creation_stays(client, JBType::Doodle, params, message.seq, room);
        },
        JBParams::DoodleUpdate(params) => {
            lemma_creation_stays(client, JBType::Doodle, params, message.seq, room);
        },
        JBParams::AudienceGCounterCreate(params) => {
            lemma_creation_stays(client, JBType::AudienceGCounter, params, message.seq, room);
        },
        JBParams::AudiencePnCounterCreate(params) => {
            lemma_creation_stays(client, JBType::AudiencePnCounter, params, message.seq, room);
        },
        JBParams::AudienceCountGroupCreate(params) => {
            lemma_creation_stays(client, JBType::AudienceCountGroup, params, message.seq, room);
        },
        JBParams::NumberIncrement(params) => {
            lemma_steps_stay(client, params.key@, message.seq, room, render, next);
        },
        JBParams::NumberDecrement(params) => {
            lemma_steps_stay(client, params.key@, message.seq, room, render, next);
        },
        JBParams::Lock(params) => {
            lemma_steps_stay(client, params.key@, message.seq, room, render, next);
        },
        JBParams::Drop(params) => {
            lemma_steps_stay(client, params.key@, message.seq, room, render, next);
        },
        _ => {},
    }
}

/// What is sent about a request to put an entity somewhere stays in the room.
proof fn lemma_creation_stays(
    client: ClientView,
    kind: JBType,
    params: JBCreateParams,
    seq: u64,
    room: RoomState,
)
    ensures
        creation(client, kind, params, seq, room) matches Ok(effects) ==> forall|i: int|
            0 <= i < effects.len() ==> stays_in(#[trigger] effects[i], room, client.profile.id),
{
}

/// What is sent about a request to step, lock or drop an entity stays in the room.
proof fn lemma_steps_stay(
    client: ClientView,
    key: Seq<char>,
    seq: u64,
    room: RoomState,
    render: bool,
    next: u64,
)
    ensures
        forall|i: int|
            0 <= i < stepping(client, key, next, seq, room).len() ==> stays_in(
                #[trigger] stepping(client, key, next, seq, room)[i],
                room,
                client.profile.id,
            ),
        forall|i: int|
            0 <= i < locking(client, key, seq, room, render).len() ==> stays_in(
                #[trigger] locking(client, key, seq, room, render)[i],
                room,
                client.profile.id,
            ),
        forall|i: int|
            0 <= i < dropping(client, key, seq, room).len() ==> stays_in(
                #[trigger] dropping(client, key, seq, room)[i],
                room,
                client.profile.id,
            ),
{
}

/// Whether an opcode is one of those for a kind: it begins with the name of the kind and a slash.
pub open spec fn is_opcode_of(opcode: Seq<char>, kind: JBType) -> bool {
    starts_with(opcode, kind.name() + "/"@)
}

/// A text begins with another where it holds each of its characters.
proof fn lemma_begins(text: Seq<char>, prefix: Seq<char>)
    ensures
        starts_with(text, prefix) <==> prefix.len() <= text.len() && forall|i: int|
            0 <= i < prefix.len() ==> text[i] == prefix[i],
{
    if starts_with(text, prefix) {
        assert forall|i: int| 0 <= i < prefix.len() implies text[i] == prefix[i] by {
            assert(text.subrange(0, prefix.len() as int)[i] == text[i]);
        }
    } else if prefix.len() <= text.len() && forall|i: int|
        0 <= i < prefix.len() ==> text[i] == prefix[i] {
        assert(text.subrange(0, prefix.len() as int) =~= prefix);
    }
}

/// An opcode is one of those for one kind at most.
proof fn lemma_one_kind(opcode: Seq<char>, a: JBType, b: JBType)
    requires
        is_opcode_of(opcode, a),
        a != b,
    ensures
        !is_opcode_of(opcode, b),
{
    reveal_strlit("text");
    reveal_strlit("number");
    reveal_strlit("object");
    reveal_strlit("doodle");
    reveal_strlit("audience/g-counter");
    reveal_strlit("audience/pn-counter");
    reveal_strlit("audience/count-group");
    reveal_strlit("/");
    let one = a.name() + "/"@;
    let other = b.name() + "/"@;
    lemma_begins(opcode, one);
    lemma_begins(opcode, other);
    if is_opcode_of(opcode, b) {
        assert(opcode[0] == one[0] && opcode[0] == other[0]);
        assert(one.len() > 9 && other.len() > 9 ==> opcode[9] == one[9] && opcode[9] == other[9]);
    }
}

/// The opcodes of the kind `text`.
proof fn lemma_opcodes_of_texts()
    ensures
        is_opcode_of("text/create"@, JBType::Text),
        is_opcode_of("text/set"@, JBType::Text),
        is_opcode_of("text/update"@, JBType::Text),
        is_opcode_of("text/get"@, JBType::Text),
{
    reveal_strlit("text");
    reveal_strlit("/");
    reveal_strlit("text/create");
    reveal_strlit("text/set");
    reveal_strlit("text/update");
    reveal_strlit("text/get");
    let prefix = JBType::Text.name() + "/"@;
    lemma_begins("text/create"@, prefix);
    lemma_begins("text/set"@, prefix);
    lemma_begins("text/update"@, prefix);
    lemma_begins("text/get"@, prefix);
}

/// The opcodes of the kind `number`.
proof fn lemma_opcodes_of_numbers()
    ensures
        is_opcode_of("number/create"@, JBType::Number),
        is_opcode_of("number/set"@, JBType::Number),
        is_opcode_of("number/update"@, JBType::Number),
        is_opcode_of("number/get"@, JBType::Number),
        is_opcode_of("number/increment"@, JBType::Number),
        is_opcode_of("number/decrement"@, JBType::Number),
{
    reveal_strlit("number");
    reveal_strlit("/");
    reveal_strlit("number/create");
    reveal_strlit("number/set");
    reveal_strlit("number/update");
    reveal_strlit("number/get");
    reveal_strlit("number/increment");
    reveal_strlit("number/decrement");
    let prefix = JBType::Number.name() + "/"@;
    lemma_begins("number/create"@, prefix);
    lemma_begins("number/set"@, prefix);
    lemma_begins("number/update"@, prefix);
    lemma_begins("number/get"@, prefix);
    lemma_begins("number/increment"@, prefix);
    lemma_begins("number/decrement"@, prefix);
}

/// The opcodes of the kind `object`.
proof fn lemma_opcodes_of_objects()
    ensures
        is_opcode_of("object/create"@, JBType::Object),
        is_opcode_of("object/set"@, JBType::Object),
        is_opcode_of("object/update"@, JBType::Object),
        is_opcode_of("object/get"@, JBType::Object),
{
    reveal_strlit("object");
    reveal_strlit("/");
    reveal_strlit("object/create");
    reveal_strlit("object/set");
    reveal_strlit("object/update");
    reveal_strlit("object/get");
    let prefix = JBType::Object.name() + "/"@;
    lemma_begins("object/create"@, prefix);
    lemma_begins("object/set"@, prefix);
    lemma_begins("object/update"@, prefix);
    lemma_begins("object/get"@, prefix);
}

/// The opcodes of the kind `doodle`.
proof fn lemma_opcodes_of_doodles()
    ensures
        is_opcode_of("doodle/create"@, JBType::Doodle),
        is_opcode_of("doodle/set"@, JBType::Doodle),
        is_opcode_of("doodle/update"@, JBType::Doodle),
        is_opcode_of("doodle/get"@, JBType::Doodle),
        is_opcode_of("doodle/stroke"@, JBType::Doodle),
{
    reveal_strlit("doodle");
    reveal_strlit("/");
    reveal_strlit("doodle/create");
    reveal_strlit("doodle/set");
    reveal_strlit("doodle/update");
    reveal_strlit("doodle/get");
    reveal_strlit("doodle/stroke");
    let prefix = JBType::Doodle.name() + "/"@;
    lemma_begins("doodle/create"@, prefix);
    lemma_begins("doodle/set"@, prefix);
    lemma_begins("doodle/update"@, prefix);
    lemma_begins("doodle/get"@, prefix);
    lemma_begins("doodle/stroke"@, prefix);
}

/// The opcodes of the kind `audience/g-counter`.
proof fn lemma_opcodes_of_g_counters()
    ensures
        is_opcode_of("audience/g-counter/create"@, JBType::AudienceGCounter),
        is_opcode_of("audience/g-counter/get"@, JBType::AudienceGCounter),
        is_opcode_of("audience/g-counter/increment"@, JBType::AudienceGCounter),
        is_opcode_of("audience/g-counter/decrement"@, JBType::AudienceGCounter),
{
    reveal_strlit("audience/g-counter");
    reveal_strlit("/");
    reveal_strlit("audience/g-counter/create");
    reveal_strlit("audience/g-counter/get");
    reveal_strlit("audience/g-counter/increment");
    reveal_strlit("audience/g-counter/decrement");
    let prefix = JBType::AudienceGCounter.name() + "/"@;
    lemma_begins("audience/g-counter/create"@, prefix);
    lemma_begins("audience/g-counter/get"@, prefix);
    lemma_begins("audience/g-counter/increment"@, prefix);
    lemma_begins("audience/g-counter/decrement"@, prefix);
}

/// The opcodes of the kind `audience/pn-counter`.
proof fn lemma_opcodes_of_pn_counters()
    ensures
        is_opcode_of("audience/pn-counter/create"@, JBType::AudiencePnCounter),
        is_opcode_of("audience/pn-counter/get"@, JBType::AudiencePnCounter),
        is_opcode_of("audience/pn-counter/increment"@, JBType::AudiencePnCounter),
        is_opcode_of("audience/pn-counter/decrement"@, JBType::AudiencePnCounter),
{
    reveal_strlit("audience/pn-counter");
    reveal_strlit("/");
    reveal_strlit("audience/pn-counter/create");
    reveal_strlit("audience/pn-counter/get");
    reveal_strlit("audience/pn-counter/increment");
    reveal_strlit("audience/pn-counter/decrement");
    let prefix = JBType::AudiencePnCounter.name() + "/"@;
    lemma_begins("audience/pn-counter/create"@, prefix);
    lemma_begins("audience/pn-counter/get"@, prefix);
    lemma_begins("audience/pn-counter/increment"@, prefix);
    lemma_begins("audience/pn-counter/decrement"@, prefix);
}

/// The opcodes of the kind `audience/count-group`.
proof fn lemma_opcodes_of_count_groups()
    ensures
        is_opcode_of("audience/count-group/create"@, JBType::AudienceCountGroup),
        is_opcode_of("audience/count-group/get"@, JBType::AudienceCountGroup),
        is_opcode_of("audience/count-group/increment"@, JBType::AudienceCountGroup),
{
    reveal_strlit("audience/count-group");
    reveal_strlit("/");
    reveal_strlit("audience/count-group/create");
    reveal_strlit("audience/count-group/get");
    reveal_strlit("audience/count-group/increment");
    let prefix = JBType::AudienceCountGroup.name() + "/"@;
    lemma_begins("audience/count-group/create"@, prefix);
    lemma_begins("audience/count-group/get"@, prefix);
    lemma_begins("audience/count-group/increment"@, prefix);
}

/// The opcodes of no kind.
proof fn lemma_opcodes_of_no_kind(kind: JBType)
    ensures
        !is_opcode_of("client/send"@, kind),
        !is_opcode_of("room/exit"@, kind),
        !is_opcode_of("room/get-audience"@, kind),
        !is_opcode_of("room/lock"@, kind),
        !is_opcode_of("lock"@, kind),
        !is_opcode_of("drop"@, kind),
{
    reveal_strlit("text");
    reveal_strlit("number");
    reveal_strlit("object");
    reveal_strlit("doodle");
    reveal_strlit("audience/g-counter");
    reveal_strlit("audience/pn-counter");
    reveal_strlit("audience/count-group");
    reveal_strlit("/");
    reveal_strlit("client/send");
    reveal_strlit("room/exit");
    reveal_strlit("room/get-audience");
    reveal_strlit("room/lock");
    reveal_strlit("lock");
    reveal_strlit("drop");
    let prefix = kind.name() + "/"@;
    lemma_begins("client/send"@, prefix);
    lemma_begins("room/exit"@, prefix);
    lemma_begins("room/get-audience"@, prefix);
    lemma_begins("room/lock"@, prefix);
    lemma_begins("lock"@, prefix);
    lemma_begins("drop"@, prefix);
    assert(prefix[0] != 'c' && prefix[0] != 'r' && prefix[0] != 'l');
    assert(prefix[0] == 'd' ==> prefix[1] == 'o');
}

/// A request is about entities of a kind where its opcode begins with the name of the kind, and
/// otherwise about none.
pub proof fn opcodes_begin_with_their_kind(params: JBParams, kind: JBType)
    ensures
        params.wire_name() matches Some(opcode) ==> (is_opcode_of(opcode, kind) <==> params.kind()
            == Some(kind)),
        params.wire_name() is None ==> params.kind() is None,
{
    lemma_opcodes_of_texts();
    lemma_opcodes_of_numbers();
    lemma_opcodes_of_objects();
    lemma_opcodes_of_doodles();
    lemma_opcodes_of_g_counters();
    lemma_opcodes_of_pn_counters();
    lemma_opcodes_of_count_groups();
    lemma_opcodes_of_no_kind(kind);
    match (params.wire_name(), params.kind()) {
        (Some(opcode), Some(own)) => {
            assert(is_opcode_of(opcode, own));
            if own != kind {
                lemma_one_kind(opcode, own, kind);
            }
        },
        _ => {},
    }
}

/// A decrease of a counter by as much as it was increased before leaves the room as it was before,
/// whoever asks for the two; and so does an increase behind a decrease.
pub proof fn decreases_behind_increases_leave_the_room(
    first: ClientView,
    second: ClientView,
    key: Seq<char>,
    times: i64,
    seq: u64,
    other_seq: u64,
    before: RoomState,
    between: RoomState,
    after: RoomState,
)
    ensures
        performed(before, changing(first, ChangeView::Increase(key, times), seq), between)
            && performed(
            between,
            changing(second, ChangeView::Decrease(key, times), other_seq),
            after,
        ) ==> after == before,
        performed(before, changing(first, ChangeView::Decrease(key, times), seq), between)
            && performed(
            between,
            changing(second, ChangeView::Increase(key, times), other_seq),
            after,
        ) ==> after == before,
{
    let up = ChangeView::Increase(key, times);
    let down = ChangeView::Decrease(key, times);
    if performed(before, changing(first, up, seq), between) && performed(
        between,
        changing(second, down, other_seq),
        after,
    ) {
        lemma_changing(first, up, seq, before, between);
        lemma_changing(second, down, other_seq, between, after);
        if before.entities.contains_key(key) {
            decreases_undo_increases(before.entities[key].object.val, times);
        }
        assert(after.entities =~= before.entities);
    }
    if performed(before, changing(first, down, seq), between) && performed(
        between,
        changing(second, up, other_seq),
        after,
    ) {
        lemma_changing(first, down, seq, before, between);
        lemma_changing(second, up, other_seq, between, after);
        if before.entities.contains_key(key) {
            decreases_undo_increases(before.entities[key].object.val, times);
        }
        assert(after.entities =~= before.entities);
    }
}

/// A request that makes one change makes that change.
proof fn lemma_changing(
    client: ClientView,
    change: ChangeView,
    seq: u64,
    before: RoomState,
    after: RoomState,
)
    requires
        performed(before, changing(client, change, seq), after),
    ensures
        room_changed(before, change, after),
{
    let effects = changing(client, change, seq);
    let changed = effects.drop_last();
    assert(effects.last() is Ecast);
    assert(performed(before, changed, after));
    assert(changed.last() == EffectView::Change(change));
    let between = lemma_last_change(before, changed, after);
    lemma_unchanged(before, changed.drop_last(), between);
}

/// How many votes a choice is given by votes for choices.
pub open spec fn votes_for(votes: Seq<(Seq<char>, i64)>, choice: Seq<char>) -> int
    decreases votes.len(),
{
    if votes.len() == 0 {
        0
    } else {
        votes_for(votes.drop_last(), choice) + if votes.last().0 == choice {
            votes.last().1 as int
        } else {
            0
        }
    }
}

/// Whether a room `after` comes of a room `before` when votes are counted one after the other in the
/// group under a name. Whatever else happens in the room before, between and after the votes, as long
/// as it leaves the choices of the group as they are.
pub open spec fn voted(
    before: RoomState,
    name: Seq<char>,
    votes: Seq<(Seq<char>, i64)>,
    after: RoomState,
) -> bool
    decreases votes.len(),
{
    if votes.len() == 0 {
        vote_choices(after, name) == vote_choices(before, name)
    } else {
        exists|between: RoomState, counted: RoomState| #[trigger]
            room_changed(
                between,
                ChangeView::Vote(name, votes.last().0, votes.last().1),
                counted,
            ) && vote_choices(after, name) == vote_choices(counted, name) && voted(
                before,
                name,
                votes.drop_last(),
                between,
            )
    }
}

/// The choices of a group are changed by votes in it, and by what puts something else under its name or
/// takes it away, and by nothing else: no other change, and no connection that joins.
pub proof fn only_votes_change_votes(
    before: RoomState,
    change: ChangeView,
    after: RoomState,
    query: WSQuery,
    token: Token,
    name: Seq<char>,
)
    requires
        is_keyed(before),
    ensures
        room_changed(before, change, after) && !(changed_key(change) == Some(name) && (
        change is Insert || change is Remove || change is Vote)) ==> vote_choices(after, name)
            == vote_choices(before, name),
        connecting(before, query, token) matches Ok((_, _, joined)) ==> vote_choices(joined, name)
            == vote_choices(before, name),
{
    if room_changed(before, change, after) && changed_key(change) != Some(name) {
        changes_touch_one_entity(before, change, after);
        assert(entity_at(after, name) == entity_at(before, name));
    }
}

/// Whether a count is a sum, or what is left of it when it runs over sixty-four bits.
pub open spec fn counts_to(sum: int, count: i64) -> bool {
    &&& (sum - count) % 0x1_0000_0000_0000_0000 == 0
    &&& i64::MIN <= sum <= i64::MAX ==> count == sum
}

/// Whether choices are those of another time, each with the votes that it was given since.
pub open spec fn is_tally(
    start: Seq<(Seq<char>, i64)>,
    votes: Seq<(Seq<char>, i64)>,
    end: Seq<(Seq<char>, i64)>,
) -> bool {
    &&& end.len() == start.len()
    &&& forall|i: int|
        0 <= i < end.len() ==> (#[trigger] end[i]).0 == start[i].0 && counts_to(
            start[i].1 + votes_for(votes, start[i].0),
            end[i].1,
        )
}

/// A vote more makes a tally with a vote more.
proof fn lemma_tally(
    start: Seq<(Seq<char>, i64)>,
    votes: Seq<(Seq<char>, i64)>,
    before: Seq<(Seq<char>, i64)>,
    after: Seq<(Seq<char>, i64)>,
)
    requires
        distinct_keys(start),
        votes.len() > 0,
        is_tally(start, votes.drop_last(), before),
        vote_counted(before, votes.last().0, votes.last().1, after),
    ensures
        is_tally(start, votes, after),
{
    let (choice, times) = votes.last();
    if has_key(before, choice) {
        let k = choose|k: int| key_at(before, k, choice);
        assert(after == before.update(k, (choice, before[k].1.wrapping_add(times))));
        assert forall|i: int| 0 <= i < after.len() implies (#[trigger] after[i]).0 == start[i].0
            && counts_to(start[i].1 + votes_for(votes, start[i].0), after[i].1) by {
            assert(before[i].0 == start[i].0);
            if i == k {
                let sum = start[i].1 + votes_for(votes.drop_last(), start[i].0);
                assert(counts_to(sum, before[i].1));
                lemma_counts_on(sum, before[i].1, times);
            } else {
                assert(start[i].0 != choice) by {
                    assert(before[k].0 == start[k].0);
                    if i < k {
                        assert(start[i].0 != start[k].0);
                    } else {
                        assert(start[k].0 != start[i].0);
                    }
                }
            }
        }
    } else {
        assert forall|i: int| 0 <= i < after.len() implies (#[trigger] after[i]).0 == start[i].0
            && counts_to(start[i].1 + votes_for(votes, start[i].0), after[i].1) by {
            assert(before[i].0 == start[i].0);
            assert(start[i].0 != choice) by {
                if start[i].0 == choice {
                    assert(key_at(before, i, choice));
                }
            }
        }
    }
}

/// A count goes on counting.
proof fn lemma_counts_on(sum: int, count: i64, times: i64)
    requires
        counts_to(sum, count),
    ensures
        counts_to(sum + times, count.wrapping_add(times)),
{
    let next = count.wrapping_add(times);
    let range = 0x1_0000_0000_0000_0000int;
    let k = (sum - count) / range;
    assert(sum - count == k * range);
    let carry: int = if count + times > i64::MAX {
        1
    } else if count + times < i64::MIN {
        -1
    } else {
        0
    };
    assert(next == count + times - carry * range);
    assert(sum + times - next == (k + carry) * range) by (nonlinear_arith)
        requires
            sum - count == k * range,
            next == count + times - carry * range,
    ;
    assert(((k + carry) * range) % range == 0) by (nonlinear_arith)
        requires
            range == 0x1_0000_0000_0000_0000int,
    ;
    if i64::MIN <= sum + times <= i64::MAX {
        assert(k + carry == 0) by (nonlinear_arith)
            requires
                sum + times - next == (k + carry) * range,
                range == 0x1_0000_0000_0000_0000int,
                -range < sum + times - next < range,
        ;
    }
}

/// However many votes are counted, and whatever else happens in the room meanwhile, a vote that is
/// stopped is answered with each choice that it was
/// started with, in the same order, and with as many votes as the choice was given.
pub proof fn stopped_votes_are_tallied(
    client: ClientView,
    before: RoomState,
    name: Seq<char>,
    start: Seq<(Seq<char>, i64)>,
    votes: Seq<(Seq<char>, i64)>,
    after: RoomState,
)
    requires
        vote_choices(before, name) == Some(start),
        distinct_keys(start),
        voted(before, name, votes, after),
    ensures
        vote_choices(after, name) matches Some(end) && is_tally(start, votes, end)
            && session_stopped(client, JBSessionModule::Vote, name, after)[1] == answer(
            client,
            ResultActionView::StopSession(ModuleView::Vote(end), name),
        ),
    decreases votes.len(),
{
    if votes.len() > 0 {
        let change = ChangeView::Vote(name, votes.last().0, votes.last().1);
        let (between, counted) = choose|between: RoomState, counted: RoomState| #[trigger]
            room_changed(between, change, counted) && vote_choices(after, name) == vote_choices(
                counted,
                name,
            ) && voted(before, name, votes.drop_last(), between);
        stopped_votes_are_tallied(client, before, name, start, votes.drop_last(), between);
        let middle = vote_choices(between, name)->Some_0;
        let end = vote_choices(after, name)->Some_0;
        lemma_tally(start, votes, middle, end);
    }
}

/// The room once connections have joined its audience one after the other, each with a fresh secret.
pub open spec fn with_audience(room: RoomState, joins: Seq<(WSQuery, Token)>) -> RoomState
    decreases joins.len(),
{
    if joins.len() == 0 {
        room
    } else {
        connecting(
            with_audience(room, joins.drop_last()),
            joins.last().0,
            joins.last().1,
        )->Ok_0.2
    }
}

/// The audience is numbered by hundreds: of those that join a room in which nobody of the audience has
/// been, and that do not come back as another connection, the first is given one hundred, the second
/// two hundred, and so on, and all are counted.
pub proof fn audiences_are_numbered_by_hundreds(
    room: RoomState,
    joins: Seq<(WSQuery, Token)>,
)
    requires
        !room.entities.contains_key("audience"@),
        joins.len() * 100 <= i64::MAX,
        forall|n: int|
            0 <= n < joins.len() ==> (#[trigger] joins[n]).0.role == Role::Audience
                && !with_audience(room, joins.take(n)).connections.contains_key(
                joins[n].0.id,
            ),
    ensures
        audience_count(with_audience(room, joins)) == joins.len(),
        audience_entity(with_audience(room, joins)).object.key == "audience"@,
        joins.len() > 0 ==> with_audience(room, joins).entities.contains_key(
            "audience"@,
        ),
        joins.len() > 0 ==> {
            let joined = connecting(
                with_audience(room, joins.drop_last()),
                joins.last().0,
                joins.last().1,
            );
            &&& joined is Ok
            &&& !joined->Ok_0.0
            &&& joined->Ok_0.1.profile.id == 100 * joins.len()
        },
    decreases joins.len(),
{
    if joins.len() > 0 {
        let fewer = joins.drop_last();
        let n = fewer.len() as int;
        assert forall|k: int| 0 <= k < fewer.len() implies (#[trigger] fewer[k]).0.role
            == Role::Audience && !with_audience(
            room,
            fewer.take(k),
        ).connections.contains_key(fewer[k].0.id) by {
            assert(joins[k].0.role == Role::Audience);
            assert(fewer.take(k) =~= joins.take(k));
        }
        audiences_are_numbered_by_hundreds(room, fewer);
        assert(joins[n].0.role == Role::Audience);
        assert(joins.take(n) =~= fewer);
        let before = with_audience(room, fewer);
        assert(audience_entity(before).object.val == ValueView::AudiencePnCounter(n as i64)) by {
            if n == 0 {
                assert(fewer =~= seq![]);
            } else {
                lemma_audience_counter(room, fewer);
            }
        }
        lemma_audience_grows(before, joins.last().0, joins.last().1, n as i64);
    }
}

/// One more in the audience.
proof fn lemma_audience_grows(room: RoomState, query: WSQuery, token: Token, count: i64)
    requires
        audience_entity(room).object.val == ValueView::AudiencePnCounter(count),
        audience_entity(room).object.key == "audience"@,
        0 <= count,
        (count + 1) * 100 <= i64::MAX,
        query.role == Role::Audience,
        !room.connections.contains_key(query.id),
    ensures
        ({
            let joined = connecting(room, query, token);
            let after = joined->Ok_0.2;
            &&& joined is Ok
            &&& !joined->Ok_0.0
            &&& joined->Ok_0.1.profile.id == 100 * (count + 1)
            &&& after.entities.contains_key("audience"@)
            &&& audience_count(after) == count + 1
            &&& audience_entity(after).object.key == "audience"@
        }),
{
    let next = count.wrapping_add(1);
    assert(next == count + 1);
    assert(next.wrapping_mul(100) == next * 100);
}

/// Whatever has happened in a room before, the next of the audience is given a hundred times the count
/// with it, as long as that can be held.
pub proof fn the_next_of_the_audience_is_numbered(
    room: RoomState,
    query: WSQuery,
    token: Token,
    count: i64,
)
    requires
        is_keyed(room),
        audience_entity(room).object.val == ValueView::AudiencePnCounter(count),
        i64::MIN <= (count + 1) * 100 <= i64::MAX,
        query.role == Role::Audience,
        !room.connections.contains_key(query.id),
    ensures
        ({
            let joined = connecting(room, query, token);
            &&& joined is Ok
            &&& !joined->Ok_0.0
            &&& joined->Ok_0.1.profile.id == 100 * (count + 1)
            &&& audience_count(joined->Ok_0.2) == count + 1
        }),
{
    let next = count.wrapping_add(1);
    assert(next == count + 1);
    assert(next.wrapping_mul(100) == next * 100);
}

/// Once someone has joined, the counter of the audience is a counter.
proof fn lemma_audience_counter(room: RoomState, joins: Seq<(WSQuery, Token)>)
    requires
        joins.len() > 0,
        audience_count(with_audience(room, joins)) == joins.len(),
        with_audience(room, joins).entities.contains_key("audience"@),
    ensures
        audience_entity(with_audience(room, joins)).object.val
            == ValueView::AudiencePnCounter(joins.len() as i64),
{
}

} // verus!
