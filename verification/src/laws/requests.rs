//! What each request of the newer protocol does, for whoever sends it and whatever the room holds.
use crate::acl::{entry_covers, may_read, may_write, Acl, Principle, Role};
use crate::blobcast::ws::{EventView, ResponseView};
use crate::ecast::ws::{
    acceptable, processing, wanted_step, CreateValue, JBCreateParams, JBParams, MessageView,
    ProcessError, ResultView, WSMessage,
};
use crate::effect::EffectView;
use crate::entity::{JBType, ValueView};
use crate::json::Json;
use crate::laws::is_keyed;
use crate::room::{ChangeView, ClientType, ClientView, RoomState};
use vstd::prelude::*;

verus! {

/// Whether an entry of an access list speaks of a connection: everyone, all with a role, or the one
/// with an id.
pub open spec fn speaks_of(entry: Acl, role: Role, id: i64) -> bool {
    match entry.principle {
        Principle::All => true,
        Principle::Role(named) => named == role,
        Principle::Id(named) => named == id,
    }
}

/// Whether a connection is given the right to read: it is a host, or an entry speaks of it that allows
/// reading.
pub open spec fn can_read(acl: Seq<Acl>, role: Role, id: i64) -> bool {
    role == Role::Host || exists|i: int|
        0 <= i < acl.len() && speaks_of(#[trigger] acl[i], role, id) && acl[i].interest.readable
}

/// Whether a connection is given the right to write: it is a host, or an entry speaks of it that allows
/// writing.
pub open spec fn can_write(acl: Seq<Acl>, role: Role, id: i64) -> bool {
    role == Role::Host || exists|i: int|
        0 <= i < acl.len() && speaks_of(#[trigger] acl[i], role, id) && acl[i].interest.writable
}

/// Reading and writing are granted to hosts, and by the entries that speak of a connection: one that
/// allows it is enough, and without one it is not granted.
pub proof fn rights_are_those_of_the_entries(acl: Seq<Acl>, role: Role, id: i64)
    ensures
        may_read(acl, role, id) <==> can_read(acl, role, id),
        may_write(acl, role, id) <==> can_write(acl, role, id),
{
    assert forall|i: int| #[trigger]
        entry_covers(acl, i, role, id) <==> 0 <= i < acl.len() && speaks_of(acl[i], role, id) by {}
    if role != Role::Host {
        if can_read(acl, role, id) {
            let i = choose|i: int|
                0 <= i < acl.len() && speaks_of(#[trigger] acl[i], role, id)
                    && acl[i].interest.readable;
            assert(entry_covers(acl, i, role, id));
        }
        if can_write(acl, role, id) {
            let i = choose|i: int|
                0 <= i < acl.len() && speaks_of(#[trigger] acl[i], role, id)
                    && acl[i].interest.writable;
            assert(entry_covers(acl, i, role, id));
        }
        if may_read(acl, role, id) {
            let i = choose|i: int| #[trigger]
                entry_covers(acl, i, role, id) && acl[i].interest.readable;
            assert(speaks_of(acl[i], role, id));
        }
        if may_write(acl, role, id) {
            let i = choose|i: int| #[trigger]
                entry_covers(acl, i, role, id) && acl[i].interest.writable;
            assert(speaks_of(acl[i], role, id));
        }
    }
}

/// Whether an effect answers a request: its sender alone is sent the result, with the number of the
/// request.
pub open spec fn answers(effect: EffectView, id: i64, seq: u64, result: ResultView) -> bool {
    effect == EffectView::Ecast(set![id], MessageView { pc: 0, re: Some(seq), result })
}

/// Whether an effect shows something, unasked, to all connections of a room that can read by a list,
/// but for one, and to no others.
pub open spec fn shows_readers(
    effect: EffectView,
    room: RoomState,
    acl: Seq<Acl>,
    but: i64,
    result: ResultView,
) -> bool {
    &&& effect is Ecast
    &&& effect->Ecast_1 == MessageView { pc: 0, re: None, result }
    &&& forall|id: i64| #[trigger]
        effect->Ecast_0.contains(id) <==> {
            &&& room.connections.contains_key(id)
            &&& id != but
            &&& can_read(acl, room.connections[id].profile.role, id)
        }
}

/// The kind of entity that a request puts somewhere, and what it puts.
pub open spec fn put_by(params: JBParams) -> Option<(JBType, JBCreateParams)> {
    match params {
        JBParams::TextCreate(p) | JBParams::TextSet(p) | JBParams::TextUpdate(p) => Some(
            (JBType::Text, p),
        ),
        JBParams::NumberCreate(p) | JBParams::NumberSet(p) | JBParams::NumberUpdate(p) => Some(
            (JBType::Number, p),
        ),
        JBParams::ObjectCreate(p) | JBParams::ObjectSet(p) | JBParams::ObjectUpdate(p) => Some(
            (JBType::Object, p),
        ),
        JBParams::DoodleCreate(p) | JBParams::DoodleSet(p) | JBParams::DoodleUpdate(p) => Some(
            (JBType::Doodle, p),
        ),
        JBParams::AudienceGCounterCreate(p) => Some((JBType::AudienceGCounter, p)),
        JBParams::AudiencePnCounterCreate(p) => Some((JBType::AudiencePnCounter, p)),
        JBParams::AudienceCountGroupCreate(p) => Some((JBType::AudienceCountGroup, p)),
        _ => None,
    }
}

/// The kind of entity that a request asks for, and under which key.
pub open spec fn asked_by(params: JBParams) -> Option<(JBType, Seq<char>)> {
    match params {
        JBParams::TextGet(p) => Some((JBType::Text, p.key@)),
        JBParams::NumberGet(p) => Some((JBType::Number, p.key@)),
        JBParams::ObjectGet(p) => Some((JBType::Object, p.key@)),
        JBParams::DoodleGet(p) => Some((JBType::Doodle, p.key@)),
        JBParams::AudienceGCounterGet(p) => Some((JBType::AudienceGCounter, p.key@)),
        JBParams::AudiencePnCounterGet(p) => Some((JBType::AudiencePnCounter, p.key@)),
        JBParams::AudienceCountGroupGet(p) => Some((JBType::AudienceCountGroup, p.key@)),
        _ => None,
    }
}

/// Whether a value is the one that a request names for an entity of a kind.
pub open spec fn names_value(kind: JBType, p: JBCreateParams, value: ValueView) -> bool {
    &&& kind == JBType::Doodle ==> value == ValueView::Doodle(p.doodle@)
    &&& kind == JBType::AudienceCountGroup ==> value == ValueView::AudienceCountGroup(
        p.count_group@,
    )
    &&& p.val matches Some(CreateValue::Count(n)) ==> {
        &&& kind == JBType::AudienceGCounter ==> value == ValueView::AudienceGCounter(n)
        &&& kind == JBType::AudiencePnCounter ==> value == ValueView::AudiencePnCounter(n)
    }
    &&& p.val matches Some(CreateValue::Val(Json::Text(text))) ==> kind == JBType::Text ==> value
        == ValueView::Text(text@)
    &&& p.val matches Some(CreateValue::Val(Json::Number { bits, text: _ })) ==> kind
        == JBType::Number ==> value == ValueView::Number(bits)
    &&& p.val matches Some(CreateValue::Val(Json::Object(text))) ==> kind == JBType::Object
        ==> value == ValueView::Object(text@)
    &&& (p.val is None || p.val == Some(CreateValue::Val(Json::Null))) && (kind == JBType::Text
        || kind == JBType::Number || kind == JBType::Object) ==> value == ValueView::Empty
}

/// Whether a request names a value that an entity of a kind can have: a doodle and a group always do, a
/// counter needs a count, and any other a value of its own kind or none.
pub open spec fn names_any(kind: JBType, p: JBCreateParams) -> bool {
    match kind {
        JBType::Doodle | JBType::AudienceCountGroup => true,
        JBType::AudienceGCounter | JBType::AudiencePnCounter => p.val matches Some(
            CreateValue::Count(_),
        ),
        _ => match p.val {
            None => true,
            Some(CreateValue::Count(_)) => false,
            Some(CreateValue::Val(Json::Null)) => true,
            Some(CreateValue::Val(Json::Text(_))) => kind == JBType::Text,
            Some(CreateValue::Val(Json::Number { bits: _, text: _ })) => kind == JBType::Number,
            Some(CreateValue::Val(Json::Object(_))) => kind == JBType::Object,
            Some(CreateValue::Val(_)) => false,
        },
    }
}

/// A request to put an entity under a key, whether or not something is there already, puts one there of
/// the kind, with the value and with the restrictions that the request names, from its sender, not
/// locked. It is the next version of what was there, for those who could read and write that, and
/// otherwise the first, for those whom the request names. All who can read it, but the sender, are shown
/// what is put there, then it is put there, and then the sender is told. A value that the kind cannot
/// have is an error, and one who is no host and would put something where nothing is, is told that
/// permission is denied.
pub proof fn what_is_named_is_put(
    client: ClientView,
    params: JBParams,
    seq: u64,
    room: RoomState,
    render: bool,
    next: u64,
)
    requires
        put_by(params) is Some,
        is_keyed(room),
    ensures
        ({
            let (kind, p) = put_by(params)->Some_0;
            let id = client.profile.id;
            let there = room.entities.contains_key(p.key@);
            let was = room.entities[p.key@];
            let result = processing(client, WSMessage { params, seq }, room, render, next);
            if !there && client.profile.role != Role::Host {
                &&& result is Ok
                &&& result->Ok_0.len() == 1
                &&& result->Ok_0[0] == EffectView::Ecast(
                    set![id],
                    MessageView { pc: 0, re: None, result: ResultView::Error("Permission denied"@) },
                )
            } else if !names_any(kind, p) {
                &&& result is Err
                &&& result->Err_0 == ProcessError::InvalidValue(kind)
            } else {
                let effects = result->Ok_0;
                let put = effects[1]->Change_0->Insert_0;
                &&& result is Ok
                &&& effects.len() == 3
                &&& effects[1] == EffectView::Change(ChangeView::Insert(put))
                &&& put.kind == kind
                &&& put.object.key == p.key@
                &&& names_value(kind, p, put.object.val)
                &&& put.object.restrictions == p.restrictions@
                &&& put.object.from == id
                &&& !put.attributes.locked
                &&& !there ==> put.object.version == 0 && put.attributes.acl == p.acl@
                &&& there ==> put.attributes.acl == was.attributes.acl
                &&& there && was.object.version < u32::MAX ==> put.object.version
                    == was.object.version + 1
                &&& there && was.object.version == u32::MAX ==> put.object.version == 0
                &&& shows_readers(
                    effects[0],
                    room,
                    put.attributes.acl,
                    id,
                    ResultView::Entity(kind, put.object),
                )
                &&& answers(effects[2], id, seq, ResultView::Okay)
            }
        }),
{
    let (kind, p) = put_by(params)->Some_0;
    assert forall|acl: Seq<Acl>, role: Role, id: i64|
        may_read(acl, role, id) == #[trigger] can_read(acl, role, id) by {
        rights_are_those_of_the_entries(acl, role, id);
    }
}

/// A request for an entity is answered with what is under the key, as one of the kind that was asked
/// for, and not at all where nothing is.
pub proof fn what_is_there_is_shown(
    client: ClientView,
    params: JBParams,
    seq: u64,
    room: RoomState,
    render: bool,
    next: u64,
)
    requires
        asked_by(params) is Some,
    ensures
        ({
            let (kind, key) = asked_by(params)->Some_0;
            let result = processing(client, WSMessage { params, seq }, room, render, next);
            &&& result is Ok
            &&& room.entities.contains_key(key) ==> result->Ok_0.len() == 1 && answers(
                result->Ok_0[0],
                client.profile.id,
                seq,
                ResultView::Entity(kind, room.entities[key].object),
            )
            &&& !room.entities.contains_key(key) ==> result->Ok_0.len() == 0
        }),
{
}

/// A stroke on what is there is shown to all others that can read it, then added, then answered. Where
/// nothing is there it comes to nothing.
pub proof fn strokes_are_shown_and_added(
    client: ClientView,
    message: WSMessage,
    room: RoomState,
    render: bool,
    next: u64,
)
    requires
        message.params is DoodleStroke,
        is_keyed(room),
    ensures
        ({
            let p = message.params->DoodleStroke_0;
            let id = client.profile.id;
            let result = processing(client, message, room, render, next);
            let effects = result->Ok_0;
            &&& result is Ok
            &&& !room.entities.contains_key(p.key@) ==> effects.len() == 0
            &&& room.entities.contains_key(p.key@) ==> {
                &&& effects.len() == 3
                &&& shows_readers(
                    effects[0],
                    room,
                    room.entities[p.key@].attributes.acl,
                    id,
                    ResultView::DoodleLine(p.key@, id, p.line@),
                )
                &&& effects[1] == EffectView::Change(ChangeView::AddLine(p.key@, p.line@))
                &&& answers(effects[2], id, message.seq, ResultView::Okay)
            }
        }),
{
    assert forall|acl: Seq<Acl>, role: Role, id: i64|
        may_read(acl, role, id) == #[trigger] can_read(acl, role, id) by {
        rights_are_those_of_the_entries(acl, role, id);
    }
}

/// The key of the number that a request steps, and whether it goes up.
pub open spec fn stepped_by(params: JBParams) -> Option<(Seq<char>, bool)> {
    match params {
        JBParams::NumberIncrement(p) => Some((p.key@, true)),
        JBParams::NumberDecrement(p) => Some((p.key@, false)),
        _ => None,
    }
}

/// A step of a number that its sender can write is by the step that was given with the number, or by
/// one, up or down as was asked, and leads to a number that is stored as the next version from the
/// sender, shown to all others that can read it, and then answered. What is there but is no number
/// becomes the next version from the sender with the same value, and is shown to no one. A sender that
/// cannot write it, or that names nothing that is there, is not answered.
pub proof fn numbers_are_stepped_by_writers(
    client: ClientView,
    params: JBParams,
    seq: u64,
    room: RoomState,
    render: bool,
    next: u64,
)
    requires
        stepped_by(params) is Some,
        is_keyed(room),
    ensures
        ({
            let (key, up) = stepped_by(params)->Some_0;
            let id = client.profile.id;
            let entity = room.entities[key];
            let allowed = room.entities.contains_key(key) && can_write(
                entity.attributes.acl,
                client.profile.role,
                id,
            );
            let result = processing(client, WSMessage { params, seq }, room, render, next);
            let effects = result->Ok_0;
            let step = wanted_step(client, params, room);
            &&& result is Ok
            &&& !allowed ==> effects.len() == 0 && step is None
            &&& allowed ==> {
                &&& effects[0] == EffectView::Change(ChangeView::SetNumber(key, id, next))
                &&& answers(effects.last(), id, seq, ResultView::Okay)
            }
            &&& allowed && !(entity.object.val is Number) ==> effects.len() == 2 && step is None
            &&& allowed && entity.object.val is Number ==> {
                let shown = effects[1]->Ecast_1.result->Entity_1;
                &&& effects.len() == 3
                &&& shows_readers(
                    effects[1],
                    room,
                    entity.attributes.acl,
                    id,
                    ResultView::Entity(JBType::Number, shown),
                )
                &&& shown.key == entity.object.key
                &&& shown.val == ValueView::Number(next)
                &&& shown.restrictions == entity.object.restrictions
                &&& shown.from == id
                &&& entity.object.version < u32::MAX ==> shown.version == entity.object.version + 1
                &&& step is Some
                &&& step->Some_0.up == up
                &&& entity.object.val == ValueView::Number(step->Some_0.number)
                &&& entity.object.restrictions.increment matches Some(by)
                    ==> step->Some_0.increment == by
                &&& entity.object.restrictions.increment is None ==> step->Some_0.increment
                    == 0x3FF0_0000_0000_0000
            }
        }),
{
    assert forall|acl: Seq<Acl>, role: Role, id: i64|
        may_read(acl, role, id) == #[trigger] can_read(acl, role, id) by {
        rights_are_those_of_the_entries(acl, role, id);
    }
    assert forall|acl: Seq<Acl>, role: Role, id: i64|
        may_write(acl, role, id) == #[trigger] can_write(acl, role, id) by {
        rights_are_those_of_the_entries(acl, role, id);
    }
}

/// A message to the host is given to it, where it is there, as a message of the user who sends it, and
/// answered.
pub proof fn messages_reach_the_host(
    client: ClientView,
    message: WSMessage,
    room: RoomState,
    render: bool,
    next: u64,
)
    requires
        message.params is ClientSend,
        message.params->ClientSend_0.to == 1,
    ensures
        ({
            let id = client.profile.id;
            let result = processing(client, message, room, render, next);
            let effects = result->Ok_0;
            &&& result is Ok
            &&& answers(effects.last(), id, message.seq, ResultView::Okay)
            &&& !room.connections.contains_key(1) ==> effects.len() == 1
            &&& room.connections.contains_key(1) ==> effects.len() == 2 && effects[0]
                == EffectView::Blobcast(
                set![1i64],
                ResponseView::Event(
                    room.config.code,
                    EventView::CustomerMessage(
                        client.profile.user_id,
                        message.params->ClientSend_0.body@,
                    ),
                ),
            )
        }),
{
}

/// A question about the audience is answered with the count that the room keeps under `audience`, and
/// with zero where it keeps none.
pub proof fn audiences_are_told(
    client: ClientView,
    message: WSMessage,
    room: RoomState,
    render: bool,
    next: u64,
    count: i64,
)
    requires
        message.params is RoomGetAudience,
        room.entities.contains_key("audience"@) ==> match room.entities["audience"@].object.val {
            ValueView::AudiencePnCounter(kept) => kept == count,
            _ => count == 0,
        },
        !room.entities.contains_key("audience"@) ==> count == 0,
    ensures
        ({
            let result = processing(client, message, room, render, next);
            &&& result is Ok
            &&& result->Ok_0.len() == 1
            &&& answers(
                result->Ok_0[0],
                client.profile.id,
                message.seq,
                ResultView::RoomGetAudience(count),
            )
        }),
{
}

/// A host locks the room, of which all others are told; anyone else is answered, and nothing happens.
pub proof fn hosts_lock_rooms(
    client: ClientView,
    message: WSMessage,
    room: RoomState,
    render: bool,
    next: u64,
)
    requires
        message.params is RoomLock,
        is_keyed(room),
    ensures
        ({
            let id = client.profile.id;
            let result = processing(client, message, room, render, next);
            let effects = result->Ok_0;
            &&& result is Ok
            &&& answers(effects.last(), id, message.seq, ResultView::Okay)
            &&& client.profile.role != Role::Host ==> effects.len() == 1
            &&& client.profile.role == Role::Host ==> {
                &&& effects.len() == 3
                &&& effects[0] == EffectView::Change(ChangeView::LockRoom)
                &&& effects[1] is Ecast
                &&& effects[1]->Ecast_1 == MessageView {
                    pc: 0,
                    re: None,
                    result: ResultView::RoomLock,
                }
                &&& forall|other: i64| #[trigger]
                    effects[1]->Ecast_0.contains(other) <==> room.connections.contains_key(other)
                        && other != id
            }
        }),
{
}

/// The change that a step of a counter or a vote asks for.
pub open spec fn counted_by(params: JBParams) -> Option<ChangeView> {
    match params {
        JBParams::AudienceGCounterIncrement(p) | JBParams::AudiencePnCounterIncrement(p) => Some(
            ChangeView::Increase(p.key@, p.times),
        ),
        JBParams::AudienceGCounterDecrement(p) | JBParams::AudiencePnCounterDecrement(p) => Some(
            ChangeView::Decrease(p.key@, p.times),
        ),
        JBParams::AudienceCountGroupIncrement(p) => Some(
            ChangeView::Vote(p.name@, p.vote@, p.times),
        ),
        _ => None,
    }
}

/// Steps of counters and votes are counted and answered, and nobody else is told.
pub proof fn counts_are_counted(
    client: ClientView,
    params: JBParams,
    seq: u64,
    room: RoomState,
    render: bool,
    next: u64,
)
    requires
        counted_by(params) is Some,
    ensures
        ({
            let result = processing(client, WSMessage { params, seq }, room, render, next);
            &&& result is Ok
            &&& result->Ok_0.len() == 2
            &&& result->Ok_0[0] == EffectView::Change(counted_by(params)->Some_0)
            &&& answers(result->Ok_0[1], client.profile.id, seq, ResultView::Okay)
        }),
{
}

/// To end the room is answered, then every connection is closed, and then all who wait are told.
pub proof fn exits_close_everyone(
    client: ClientView,
    message: WSMessage,
    room: RoomState,
    render: bool,
    next: u64,
)
    requires
        message.params is RoomExit,
    ensures
        ({
            let result = processing(client, message, room, render, next);
            let effects = result->Ok_0;
            &&& result is Ok
            &&& effects.len() == 3
            &&& answers(effects[0], client.profile.id, message.seq, ResultView::Okay)
            &&& effects[1] is Close
            &&& forall|id: i64| #[trigger]
                effects[1]->Close_0.contains(id) <==> room.connections.contains_key(id)
            &&& effects[2] == EffectView::Exit
        }),
{
}

/// To lock what is there locks it, tells all others that can read it, draws it where it is a doodle and
/// doodles are drawn, into a file with its key for a name, and is answered; to lock what is not there
/// is answered.
pub proof fn locks_are_told_and_drawn(
    client: ClientView,
    message: WSMessage,
    room: RoomState,
    render: bool,
    next: u64,
)
    requires
        message.params is Lock,
        is_keyed(room),
    ensures
        ({
            let key = message.params->Lock_0.key@;
            let id = client.profile.id;
            let there = room.entities.contains_key(key);
            let drawn = there && render && room.entities[key].object.val is Doodle;
            let result = processing(client, message, room, render, next);
            let effects = result->Ok_0;
            &&& result is Ok
            &&& answers(effects.last(), id, message.seq, ResultView::Okay)
            &&& !there ==> effects.len() == 1
            &&& there ==> {
                &&& effects.len() == if drawn {
                    4int
                } else {
                    3
                }
                &&& effects[0] == EffectView::Change(ChangeView::Lock(key, id))
                &&& shows_readers(
                    effects[1],
                    room,
                    room.entities[key].attributes.acl,
                    id,
                    ResultView::Lock(key, id),
                )
            }
            &&& drawn ==> effects[2] == EffectView::Render(key, key + ".png"@)
        }),
{
    assert forall|acl: Seq<Acl>, role: Role, id: i64|
        may_read(acl, role, id) == #[trigger] can_read(acl, role, id) by {
        rights_are_those_of_the_entries(acl, role, id);
    }
}

/// What its sender can write is taken away, and the request is answered either way.
pub proof fn writers_drop(
    client: ClientView,
    message: WSMessage,
    room: RoomState,
    render: bool,
    next: u64,
)
    requires
        message.params is Drop,
    ensures
        ({
            let key = message.params->Drop_0.key@;
            let id = client.profile.id;
            let allowed = room.entities.contains_key(key) && can_write(
                room.entities[key].attributes.acl,
                client.profile.role,
                id,
            );
            let result = processing(client, message, room, render, next);
            let effects = result->Ok_0;
            &&& result is Ok
            &&& answers(effects.last(), id, message.seq, ResultView::Okay)
            &&& allowed ==> effects.len() == 2 && effects[0] == EffectView::Change(
                ChangeView::Remove(key),
            )
            &&& !allowed ==> effects.len() == 1
        }),
{
    if message.params is Drop {
        let key = message.params->Drop_0.key@;
        rights_are_those_of_the_entries(
            room.entities[key].attributes.acl,
            client.profile.role,
            client.profile.id,
        );
    }
}

/// What is not known is answered, and nothing happens.
pub proof fn unknown_requests_are_answered(
    client: ClientView,
    message: WSMessage,
    room: RoomState,
    render: bool,
    next: u64,
)
    requires
        message.params is Other,
    ensures
        ({
            let result = processing(client, message, room, render, next);
            &&& result is Ok
            &&& result->Ok_0.len() == 1
            &&& answers(result->Ok_0[0], client.profile.id, message.seq, ResultView::Okay)
        }),
{
}

/// A room takes every message but those to a connection other than the first, or to a first one that does
/// not speak the protocol of hosts.
pub proof fn messages_to_others_are_not_taken(message: WSMessage, room: RoomState)
    ensures
        acceptable(message, room) <==> match message.params {
            JBParams::ClientSend(params) => params.to == 1 && (room.connections.contains_key(1)
                ==> room.connections[1].client_type == ClientType::Blobcast),
            _ => true,
        },
{
}

} // verus!
