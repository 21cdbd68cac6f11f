//! What each change does to a room.
use crate::choices::{distinct_keys, key_at};
use crate::entity::{EntityView, LineView, ValueView};
use crate::laws::counts_to;
use crate::room::{room_changed, rooms_changed, rooms_joined, with_connection, ChangeView, ClientView, RoomState};
use vstd::prelude::*;

verus! {

/// Whether two rooms differ at most in the entity under a key.
pub open spec fn differ_at(before: RoomState, after: RoomState, key: Seq<char>) -> bool {
    &&& after.connections == before.connections
    &&& after.serial == before.serial
    &&& after.config == before.config
    &&& forall|other: Seq<char>|
        other != key ==> (#[trigger] after.entities.contains_key(other)
            <==> before.entities.contains_key(other))
    &&& forall|other: Seq<char>|
        other != key && before.entities.contains_key(other) ==> #[trigger] after.entities[other]
            == before.entities[other]
}

/// Whether the entity under a key is there before and after, as the same kind, under the same key in
/// itself, with the same restrictions and for the same readers and writers.
pub open spec fn stays_itself(before: RoomState, after: RoomState, key: Seq<char>) -> bool {
    &&& after.entities.contains_key(key)
    &&& after.entities[key].kind == before.entities[key].kind
    &&& after.entities[key].object.key == before.entities[key].object.key
    &&& after.entities[key].object.restrictions == before.entities[key].object.restrictions
    &&& after.entities[key].attributes.acl == before.entities[key].attributes.acl
}

/// What is put into a room is found there as it was put, and everything else stays.
pub proof fn put_entities_are_there(before: RoomState, entity: EntityView, after: RoomState)
    requires
        room_changed(before, ChangeView::Insert(entity), after),
    ensures
        after.entities.contains_key(entity.object.key),
        after.entities[entity.object.key] == entity,
        differ_at(before, after, entity.object.key),
{
}

/// What is taken away is not there any more, and everything else stays.
pub proof fn removed_entities_are_not_there(before: RoomState, key: Seq<char>, after: RoomState)
    requires
        room_changed(before, ChangeView::Remove(key), after),
    ensures
        !after.entities.contains_key(key),
        differ_at(before, after, key),
{
}

/// A change of something that is not there changes nothing.
pub proof fn nothing_is_changed_where_nothing_is(
    before: RoomState,
    key: Seq<char>,
    change: ChangeView,
    after: RoomState,
)
    requires
        room_changed(before, change, after),
        !before.entities.contains_key(key),
        match change {
            ChangeView::AddLine(k, _) => k == key,
            ChangeView::Increase(k, _) => k == key,
            ChangeView::Decrease(k, _) => k == key,
            ChangeView::Vote(k, _, _) => k == key,
            ChangeView::SetNumber(k, _, _) => k == key,
            ChangeView::Lock(k, _) => k == key,
            _ => false,
        },
    ensures
        after == before,
{
}

/// A line that is added to a doodle is there afterwards beside all that were there, each as often as
/// before, all in the order of their indices, and the doodle is otherwise as it was.
pub proof fn lines_are_added(before: RoomState, key: Seq<char>, line: LineView, after: RoomState)
    requires
        room_changed(before, ChangeView::AddLine(key, line), after),
        before.entities.contains_key(key),
    ensures
        differ_at(before, after, key),
        stays_itself(before, after, key),
        after.entities[key].object.version == before.entities[key].object.version,
        after.entities[key].object.from == before.entities[key].object.from,
        after.entities[key].attributes.locked == before.entities[key].attributes.locked,
        match before.entities[key].object.val {
            ValueView::Doodle(old_doodle) => {
                &&& after.entities[key].object.val is Doodle
                &&& ({
                    let doodle = after.entities[key].object.val->Doodle_0;
                    &&& doodle.lines.len() == old_doodle.lines.len() + 1
                    &&& forall|one: LineView| #[trigger]
                        doodle.lines.to_multiset().count(one)
                            == old_doodle.lines.to_multiset().count(one) + if one == line {
                            1nat
                        } else {
                            0nat
                        }
                    &&& forall|i: int, j: int|
                        0 <= i <= j < doodle.lines.len() ==> (#[trigger] doodle.lines[i]).index <= (
                        #[trigger] doodle.lines[j]).index
                    &&& doodle.colors == old_doodle.colors
                    &&& doodle.live == old_doodle.live
                    &&& doodle.max_points == old_doodle.max_points
                    &&& doodle.max_layer == old_doodle.max_layer
                    &&& doodle.size == old_doodle.size
                    &&& doodle.weights == old_doodle.weights
                })
            },
            other => after.entities[key].object.val == other,
        },
{
    broadcast use vstd::seq_lib::group_to_multiset_ensures;

    match before.entities[key].object.val {
        ValueView::Doodle(doodle) => {
            vstd::seq_lib::to_multiset_build(doodle.lines, line);
            let longer = after.entities[key].object.val->Doodle_0;
            longer.lines.to_multiset_ensures();
            doodle.lines.push(line).to_multiset_ensures();
        },
        _ => {},
    }
}

/// A counter counts up by as much as is asked, and down by as much, and any other value stays; and
/// nothing else of the entity changes.
pub proof fn counters_count(
    before: RoomState,
    key: Seq<char>,
    times: i64,
    up: bool,
    after: RoomState,
)
    requires
        room_changed(
            before,
            if up {
                ChangeView::Increase(key, times)
            } else {
                ChangeView::Decrease(key, times)
            },
            after,
        ),
        before.entities.contains_key(key),
    ensures
        ({
            let by = if up {
                times as int
            } else {
                -(times as int)
            };
            let was = before.entities[key].object;
            let is = after.entities[key].object;
            &&& differ_at(before, after, key)
            &&& stays_itself(before, after, key)
            &&& is.version == was.version
            &&& is.from == was.from
            &&& after.entities[key].attributes == before.entities[key].attributes
            &&& was.val matches ValueView::AudienceGCounter(count) ==> {
                &&& is.val is AudienceGCounter
                &&& counts_to(count + by, is.val->AudienceGCounter_0)
            }
            &&& was.val matches ValueView::AudiencePnCounter(count) ==> {
                &&& is.val is AudiencePnCounter
                &&& counts_to(count + by, is.val->AudiencePnCounter_0)
            }
            &&& !(was.val is AudienceGCounter) && !(was.val is AudiencePnCounter) ==> is.val
                == was.val
        }),
{
}

/// Votes in a group go to the choice that they name, where there is one, and to no other; and nothing
/// else of the entity changes.
pub proof fn votes_go_to_their_choice(
    before: RoomState,
    key: Seq<char>,
    choice: Seq<char>,
    times: i64,
    after: RoomState,
)
    requires
        room_changed(before, ChangeView::Vote(key, choice, times), after),
        before.entities.contains_key(key),
        before.entities[key].object.val matches ValueView::AudienceCountGroup(group)
            ==> distinct_keys(group.choices),
    ensures
        ({
            let was = before.entities[key].object;
            let is = after.entities[key].object;
            &&& differ_at(before, after, key)
            &&& stays_itself(before, after, key)
            &&& is.version == was.version
            &&& is.from == was.from
            &&& after.entities[key].attributes == before.entities[key].attributes
            &&& !(was.val is AudienceCountGroup) ==> is.val == was.val
            &&& was.val matches ValueView::AudienceCountGroup(group) ==> {
                let counted = is.val->AudienceCountGroup_0;
                &&& is.val is AudienceCountGroup
                &&& counted.max_votes == group.max_votes
                &&& counted.choices.len() == group.choices.len()
                &&& forall|i: int|
                    0 <= i < group.choices.len() ==> {
                        &&& (#[trigger] counted.choices[i]).0 == group.choices[i].0
                        &&& group.choices[i].0 != choice ==> counted.choices[i].1
                            == group.choices[i].1
                        &&& group.choices[i].0 == choice ==> counts_to(
                            group.choices[i].1 + times,
                            counted.choices[i].1,
                        )
                    }
            }
        }),
{
    match before.entities[key].object.val {
        ValueView::AudienceCountGroup(group) => {
            let counted = after.entities[key].object.val->AudienceCountGroup_0;
            assert forall|i: int| 0 <= i < group.choices.len() implies {
                &&& (#[trigger] counted.choices[i]).0 == group.choices[i].0
                &&& group.choices[i].0 != choice ==> counted.choices[i].1 == group.choices[i].1
                &&& group.choices[i].0 == choice ==> counts_to(
                    group.choices[i].1 + times,
                    counted.choices[i].1,
                )
            } by {
                if exists|k: int| key_at(group.choices, k, choice) {
                    let k = choose|k: int| key_at(group.choices, k, choice);
                    if i < k {
                        assert(group.choices[i].0 != group.choices[k].0);
                    } else if k < i {
                        assert(group.choices[k].0 != group.choices[i].0);
                    }
                } else {
                    assert(!key_at(group.choices, i, choice));
                }
            }
            if exists|k: int| key_at(group.choices, k, choice) {
                let k = choose|k: int| key_at(group.choices, k, choice);
                assert(counted.choices.len() == group.choices.len());
            }
        },
        _ => {},
    }
}

/// A number that is set has the value that it is set to, as the next version from the one who sets it;
/// another value stays, as the next version from the one who would set it.
pub proof fn numbers_are_set(
    before: RoomState,
    key: Seq<char>,
    from: i64,
    val: u64,
    after: RoomState,
)
    requires
        room_changed(before, ChangeView::SetNumber(key, from, val), after),
        before.entities.contains_key(key),
    ensures
        ({
            let was = before.entities[key].object;
            let is = after.entities[key].object;
            &&& differ_at(before, after, key)
            &&& stays_itself(before, after, key)
            &&& was.version < u32::MAX ==> is.version == was.version + 1
            &&& was.version == u32::MAX ==> is.version == 0
            &&& is.from == from
            &&& after.entities[key].attributes == before.entities[key].attributes
            &&& was.val is Number ==> is.val == ValueView::Number(val)
            &&& !(was.val is Number) ==> is.val == was.val
        }),
{
}

/// What is locked is locked by the one who locks it, and is otherwise as it was.
pub proof fn locked_entities_are_locked(
    before: RoomState,
    key: Seq<char>,
    from: i64,
    after: RoomState,
)
    requires
        room_changed(before, ChangeView::Lock(key, from), after),
        before.entities.contains_key(key),
    ensures
        differ_at(before, after, key),
        stays_itself(before, after, key),
        after.entities[key].attributes.locked,
        after.entities[key].object.from == from,
        after.entities[key].object.val == before.entities[key].object.val,
        after.entities[key].object.version == before.entities[key].object.version,
{
}

/// A room that is locked is locked, and is otherwise as it was.
pub proof fn rooms_are_locked(before: RoomState, after: RoomState)
    requires
        room_changed(before, ChangeView::LockRoom, after),
    ensures
        after.config.locked,
        after.entities == before.entities,
        after.connections == before.connections,
        after.serial == before.serial,
        after.config.app_id == before.config.app_id,
        after.config.app_tag == before.config.app_tag,
        after.config.audience_enabled == before.config.audience_enabled,
        after.config.code == before.config.code,
        after.config.host == before.config.host,
        after.config.audience_host == before.config.audience_host,
        after.config.full == before.config.full,
        after.config.moderation_enabled == before.config.moderation_enabled,
        after.config.password_required == before.config.password_required,
        after.config.twitch_locked == before.config.twitch_locked,
        after.config.locale == before.config.locale,
        after.config.keepalive == before.config.keepalive,
{
}

/// A change of one of many rooms changes that room alone, and nothing where that room is not there.
pub proof fn one_room_is_changed(
    before: Map<Seq<char>, RoomState>,
    code: Seq<char>,
    change: ChangeView,
    after: Map<Seq<char>, RoomState>,
    other: Seq<char>,
)
    requires
        rooms_changed(before, code, change, after),
    ensures
        after.contains_key(other) <==> before.contains_key(other),
        other != code && before.contains_key(other) ==> after[other] == before[other],
        before.contains_key(code) ==> room_changed(before[code], change, after[code]),
{
}

/// One who joins a room is in it under their own id beside all who were there, and nothing else is changed.
pub proof fn one_more_is_in_the_room(room: RoomState, client: ClientView, id: i64)
    ensures
        ({
            let after = with_connection(room, client);
            &&& after.connections.contains_key(id) <==> room.connections.contains_key(id) || id
                == client.profile.id
            &&& after.connections[client.profile.id] == client
            &&& id != client.profile.id && room.connections.contains_key(id)
                ==> after.connections[id] == room.connections[id]
            &&& after.entities == room.entities
            &&& after.serial == room.serial
            &&& after.config == room.config
        }),
{
}

/// One who joins one of many rooms is in that room alone, and in none where that room is not there.
pub proof fn one_room_is_joined(
    rooms: Map<Seq<char>, RoomState>,
    code: Seq<char>,
    client: ClientView,
    other: Seq<char>,
)
    ensures
        ({
            let after = rooms_joined(rooms, code, client);
            &&& after.contains_key(other) <==> rooms.contains_key(other)
            &&& other != code && rooms.contains_key(other) ==> after[other] == rooms[other]
            &&& rooms.contains_key(code) ==> after[code].connections
                == rooms[code].connections.insert(client.profile.id, client)
            &&& rooms.contains_key(code) ==> after[code].entities == rooms[code].entities
                && after[code].serial == rooms[code].serial && after[code].config
                == rooms[code].config
        }),
{
}

} // verus!
