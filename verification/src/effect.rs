//! What is to be done about a message: what to send to whom, and how the room changes.
use crate::acl::may_read;
use crate::blobcast::ws::{JBResponse, ResponseView};
use crate::ecast::ws::{JBMessage, JBResult, MessageView, ResultView};
use crate::entity::{AttributesView, JBAttributes};
use crate::room::{ChangeView, ClientType, ClientView, Room, RoomChange, RoomState};
use crate::store::Numbered;
use vstd::prelude::*;

verus! {

/// One thing to be done. Those for one message are done in their order, up to the first that
/// fails.
pub enum Effect {
    /// Sends a message of the newer protocol.
    Ecast { to: Vec<i64>, message: JBMessage },
    /// Sends a message of the older protocol.
    Blobcast { to: Vec<i64>, response: JBResponse },
    /// Changes the room.
    Change { change: RoomChange },
    /// Draws the doodle under a key into a file.
    Render { key: String, file: String },
    /// Closes connections.
    Close { to: Vec<i64> },
    /// Tells all who wait for it that the room has ended.
    Exit,
}

/// The model of [`Effect`]: a message goes to a set of connections.
pub enum EffectView {
    Ecast(Set<i64>, MessageView),
    Blobcast(Set<i64>, ResponseView),
    Change(ChangeView),
    Render(Seq<char>, Seq<char>),
    Close(Set<i64>),
    Exit,
}

impl View for Effect {
    type V = EffectView;

    open spec fn view(&self) -> EffectView {
        match self {
            Effect::Ecast { to, message } => EffectView::Ecast(to@.to_set(), message@),
            Effect::Blobcast { to, response } => EffectView::Blobcast(to@.to_set(), response@),
            Effect::Change { change } => EffectView::Change(change@),
            Effect::Render { key, file } => EffectView::Render(key@, file@),
            Effect::Close { to } => EffectView::Close(to@.to_set()),
            Effect::Exit => EffectView::Exit,
        }
    }
}

impl Effect {
    /// No connection is named twice.
    pub open spec fn names_each_once(self) -> bool {
        match self {
            Effect::Ecast { to, message: _ } => to@.no_duplicates(),
            Effect::Blobcast { to, response: _ } => to@.no_duplicates(),
            Effect::Close { to } => to@.no_duplicates(),
            _ => true,
        }
    }
}

/// The models of effects.
pub open spec fn effect_views(effects: Seq<Effect>) -> Seq<EffectView> {
    effects.map_values(|effect: Effect| effect@)
}

/// No effect names a connection twice.
pub open spec fn each_once(effects: Seq<Effect>) -> bool {
    forall|i: int| 0 <= i < effects.len() ==> (#[trigger] effects[i]).names_each_once()
}

/// Which connections of a room are meant.
pub enum Target<'a> {
    /// Those that may read an entity, but one.
    Readers { attributes: &'a JBAttributes, but: i64 },
    /// All but one.
    Others { but: i64 },
    /// Those that speak a protocol.
    Speaking { client_type: ClientType },
    /// All.
    Everyone,
}

impl<'a> Target<'a> {
    /// Whether a connection is meant.
    pub open spec fn includes(self, client: ClientView) -> bool {
        match self {
            Target::Readers { attributes, but } => {
                &&& client.profile.id != but
                &&& may_read(attributes@.acl, client.profile.role, client.profile.id)
            },
            Target::Others { but } => client.profile.id != but,
            Target::Speaking { client_type } => client.client_type == client_type,
            Target::Everyone => true,
        }
    }
}

/// The connections of a room of which something holds.
pub open spec fn those(room: RoomState, included: spec_fn(ClientView) -> bool) -> Set<i64> {
    room.connections.dom().filter(|id: i64| included(room.connections[id]))
}

/// The connections of a room that may read an entity with these attributes, but one.
pub open spec fn readers(room: RoomState, attributes: AttributesView, but: i64) -> Set<i64> {
    those(
        room,
        |client: ClientView|
            client.profile.id != but && may_read(
                attributes.acl,
                client.profile.role,
                client.profile.id,
            ),
    )
}

/// The connections of a room but one.
pub open spec fn others(room: RoomState, but: i64) -> Set<i64> {
    those(room, |client: ClientView| client.profile.id != but)
}

/// The connections of a room that speak a protocol.
pub open spec fn speaking(room: RoomState, client_type: ClientType) -> Set<i64> {
    those(room, |client: ClientView| client.client_type == client_type)
}

/// The connections of a room that are meant, each once.
pub fn recipients(room: &Room, target: &Target) -> (r: Vec<i64>)
    requires
        room.wf(),
    ensures
        r@.no_duplicates(),
        r@.to_set() == those(room@, |client: ClientView| target.includes(client)),
        target matches Target::Readers { attributes, but } ==> r@.to_set() == readers(
            room@,
            attributes@,
            *but,
        ),
        target matches Target::Others { but } ==> r@.to_set() == others(room@, *but),
        target matches Target::Speaking { client_type } ==> r@.to_set() == speaking(
            room@,
            *client_type,
        ),
        target is Everyone ==> r@.to_set() == room@.connections.dom(),
{
    let mut found: Vec<i64> = Vec::new();
    let ghost listing = room.connections.listing();
    let mut i: usize = 0;
    proof {
        room.connections.lemma_listing();
    }
    while i < room.connections.len()
        invariant
            room.wf(),
            listing == room.connections.listing(),
            i <= listing.len(),
            found@.no_duplicates(),
            forall|id: i64| #[trigger]
                found@.contains(id) <==> exists|j: int|
                    0 <= j < i && (#[trigger] listing[j]).item_id() == id && target.includes(
                        listing[j]@,
                    ),
            forall|j: int, k: int|
                0 <= j < k < listing.len() ==> (#[trigger] listing[j]).item_id() != (
                #[trigger] listing[k]).item_id(),
        decreases room.connections.listing().len() - i,
    {
        let client = room.connections.at(i);
        let included = match target {
            Target::Readers { attributes, but } => {
                client.profile.id != *but && attributes.is_readable_by(
                    client.profile.role,
                    client.profile.id,
                )
            },
            Target::Others { but } => client.profile.id != *but,
            Target::Speaking { client_type } => client.client_type == *client_type,
            Target::Everyone => true,
        };
        assert(included == target.includes(client@));
        let ghost before = found@;
        if included {
            assert(!before.contains(client.profile.id)) by {
                if before.contains(client.profile.id) {
                    let j = choose|j: int|
                        0 <= j < i && (#[trigger] listing[j]).item_id() == client.profile.id
                            && target.includes(listing[j]@);
                    assert(listing[j].item_id() != listing[i as int].item_id());
                }
            }
            found.push(client.profile.id);
            assert(found@.contains(client.profile.id)) by {
                assert(found@[found@.len() - 1] == client.profile.id);
            }
        }
        assert forall|id: i64| #[trigger] found@.contains(id) <==> exists|j: int|
            0 <= j < i + 1 && (#[trigger] listing[j]).item_id() == id && target.includes(
                listing[j]@,
            ) by {
            if included && id == client.profile.id {
                assert(listing[i as int].item_id() == id);
            } else {
                assert(found@.contains(id) <==> before.contains(id)) by {
                    if before.contains(id) {
                        let k = choose|k: int| 0 <= k < before.len() && before[k] == id;
                        assert(found@[k] == id);
                    }
                    if found@.contains(id) {
                        let k = choose|k: int| 0 <= k < found@.len() && found@[k] == id;
                        assert(before[k] == id);
                    }
                }
            }
        }
        i = i + 1;
    }
    proof {
        let meant = those(room@, |client: ClientView| target.includes(client));
        assert forall|id: i64| #[trigger] found@.to_set().contains(id) <==> meant.contains(id) by {
            if meant.contains(id) {
                let j = choose|j: int|
                    0 <= j < listing.len() && (#[trigger] listing[j]).item_id() == id;
                assert(found@.contains(id));
            }
            if found@.contains(id) {
                let j = choose|j: int|
                    0 <= j < i && (#[trigger] listing[j]).item_id() == id && target.includes(
                        listing[j]@,
                    );
                assert(meant.contains(id));
            }
        }
        assert(found@.to_set() =~= meant);
        match target {
            Target::Readers { attributes, but } => {
                assert(meant =~= readers(room@, attributes@, *but));
            },
            Target::Others { but } => {
                assert(meant =~= others(room@, *but));
            },
            Target::Speaking { client_type } => {
                assert(meant =~= speaking(room@, *client_type));
            },
            Target::Everyone => {
                assert(meant =~= room@.connections.dom());
            },
        }
    }
    found
}

/// The effect of answering a request.
pub open spec fn reply(id: i64, seq: u64, result: ResultView) -> EffectView {
    EffectView::Ecast(set![id], MessageView { pc: 0, re: Some(seq), result })
}

/// The effect of telling connections something unasked.
pub open spec fn notice(to: Set<i64>, result: ResultView) -> EffectView {
    EffectView::Ecast(to, MessageView { pc: 0, re: None, result })
}

/// A list of one connection.
pub fn just(id: i64) -> (r: Vec<i64>)
    ensures
        r@ == seq![id],
        r@.no_duplicates(),
        r@.to_set() == set![id],
{
    let mut to: Vec<i64> = Vec::new();
    to.push(id);
    assert(to@ =~= seq![id]);
    assert forall|other: i64| #[trigger] to@.to_set().contains(other) <==> set![id].contains(
        other,
    ) by {
        if other == id {
            assert(to@[0] == id);
        }
    }
    assert(to@.to_set() =~= set![id]);
    to
}

/// Answers a request.
pub fn reply_with(id: i64, seq: u64, result: JBResult) -> (r: Effect)
    ensures
        r@ == reply(id, seq, result@),
        r.names_each_once(),
{
    Effect::Ecast { to: just(id), message: JBMessage { pc: 0, re: Some(seq), result } }
}

/// Tells connections something unasked.
pub fn notify(to: Vec<i64>, result: JBResult) -> (r: Effect)
    requires
        to@.no_duplicates(),
    ensures
        r@ == notice(to@.to_set(), result@),
        r.names_each_once(),
{
    Effect::Ecast { to, message: JBMessage { pc: 0, re: None, result } }
}

/// A list of one effect.
pub fn alone(effect: Effect) -> (r: Vec<Effect>)
    requires
        effect.names_each_once(),
    ensures
        effect_views(r@) == seq![effect@],
        each_once(r@),
{
    let mut effects: Vec<Effect> = Vec::new();
    effects.push(effect);
    assert(effect_views(effects@) =~= seq![effect@]);
    effects
}

/// The effects, and one more after them.
pub fn followed(effects: Vec<Effect>, effect: Effect) -> (r: Vec<Effect>)
    requires
        each_once(effects@),
        effect.names_each_once(),
    ensures
        effect_views(r@) == effect_views(effects@).push(effect@),
        each_once(r@),
{
    let mut effects = effects;
    let ghost before = effects@;
    effects.push(effect);
    assert(effect_views(effects@) =~= effect_views(before).push(effect@));
    effects
}

} // verus!
