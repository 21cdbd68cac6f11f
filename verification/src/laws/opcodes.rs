//! What requests are called on the wire.
use crate::ecast::ws::JBParams;
use crate::entity::JBType;
use vstd::prelude::*;

verus! {

/// The word for what a request does with an entity.
pub open spec fn verb(params: JBParams) -> Option<Seq<char>> {
    match params {
        JBParams::TextCreate(_)
        | JBParams::NumberCreate(_)
        | JBParams::ObjectCreate(_)
        | JBParams::DoodleCreate(_)
        | JBParams::AudienceGCounterCreate(_)
        | JBParams::AudiencePnCounterCreate(_)
        | JBParams::AudienceCountGroupCreate(_) => Some("create"@),
        JBParams::TextSet(_)
        | JBParams::NumberSet(_)
        | JBParams::ObjectSet(_)
        | JBParams::DoodleSet(_) => Some("set"@),
        JBParams::TextUpdate(_)
        | JBParams::NumberUpdate(_)
        | JBParams::ObjectUpdate(_)
        | JBParams::DoodleUpdate(_) => Some("update"@),
        JBParams::TextGet(_)
        | JBParams::NumberGet(_)
        | JBParams::ObjectGet(_)
        | JBParams::DoodleGet(_)
        | JBParams::AudienceGCounterGet(_)
        | JBParams::AudiencePnCounterGet(_)
        | JBParams::AudienceCountGroupGet(_) => Some("get"@),
        JBParams::NumberIncrement(_)
        | JBParams::AudienceGCounterIncrement(_)
        | JBParams::AudiencePnCounterIncrement(_)
        | JBParams::AudienceCountGroupIncrement(_) => Some("increment"@),
        JBParams::NumberDecrement(_)
        | JBParams::AudienceGCounterDecrement(_)
        | JBParams::AudiencePnCounterDecrement(_) => Some("decrement"@),
        JBParams::DoodleStroke(_) => Some("stroke"@),
        _ => None,
    }
}

/// The kind of entity that a request does something with.
pub open spec fn kind_named(params: JBParams) -> Option<JBType> {
    match params {
        JBParams::TextCreate(_)
        | JBParams::TextSet(_)
        | JBParams::TextUpdate(_)
        | JBParams::TextGet(_) => Some(JBType::Text),
        JBParams::NumberCreate(_)
        | JBParams::NumberSet(_)
        | JBParams::NumberUpdate(_)
        | JBParams::NumberGet(_)
        | JBParams::NumberIncrement(_)
        | JBParams::NumberDecrement(_) => Some(JBType::Number),
        JBParams::ObjectCreate(_)
        | JBParams::ObjectSet(_)
        | JBParams::ObjectUpdate(_)
        | JBParams::ObjectGet(_) => Some(JBType::Object),
        JBParams::DoodleCreate(_)
        | JBParams::DoodleSet(_)
        | JBParams::DoodleUpdate(_)
        | JBParams::DoodleGet(_)
        | JBParams::DoodleStroke(_) => Some(JBType::Doodle),
        JBParams::AudienceGCounterCreate(_)
        | JBParams::AudienceGCounterGet(_)
        | JBParams::AudienceGCounterIncrement(_)
        | JBParams::AudienceGCounterDecrement(_) => Some(JBType::AudienceGCounter),
        JBParams::AudiencePnCounterCreate(_)
        | JBParams::AudiencePnCounterGet(_)
        | JBParams::AudiencePnCounterIncrement(_)
        | JBParams::AudiencePnCounterDecrement(_) => Some(JBType::AudiencePnCounter),
        JBParams::AudienceCountGroupCreate(_)
        | JBParams::AudienceCountGroupGet(_)
        | JBParams::AudienceCountGroupIncrement(_) => Some(JBType::AudienceCountGroup),
        _ => None,
    }
}

/// The names of what is done with entities of one kind.
proof fn lemma_names_of_texts()
    ensures
        "text/create"@ == "text"@ + "/"@ + "create"@,
        "text/set"@ == "text"@ + "/"@ + "set"@,
        "text/update"@ == "text"@ + "/"@ + "update"@,
        "text/get"@ == "text"@ + "/"@ + "get"@,
{
    reveal_strlit("/");
    reveal_strlit("text");
    reveal_strlit("create");
    reveal_strlit("text/create");
    reveal_strlit("set");
    reveal_strlit("text/set");
    reveal_strlit("update");
    reveal_strlit("text/update");
    reveal_strlit("get");
    reveal_strlit("text/get");
    assert("text/create"@ =~= "text"@ + "/"@ + "create"@);
    assert("text/set"@ =~= "text"@ + "/"@ + "set"@);
    assert("text/update"@ =~= "text"@ + "/"@ + "update"@);
    assert("text/get"@ =~= "text"@ + "/"@ + "get"@);
}

/// The names of what is done with entities of one kind.
proof fn lemma_names_of_numbers()
    ensures
        "number/create"@ == "number"@ + "/"@ + "create"@,
        "number/set"@ == "number"@ + "/"@ + "set"@,
        "number/update"@ == "number"@ + "/"@ + "update"@,
        "number/get"@ == "number"@ + "/"@ + "get"@,
        "number/increment"@ == "number"@ + "/"@ + "increment"@,
        "number/decrement"@ == "number"@ + "/"@ + "decrement"@,
{
    reveal_strlit("/");
    reveal_strlit("number");
    reveal_strlit("create");
    reveal_strlit("number/create");
    reveal_strlit("set");
    reveal_strlit("number/set");
    reveal_strlit("update");
    reveal_strlit("number/update");
    reveal_strlit("get");
    reveal_strlit("number/get");
    reveal_strlit("increment");
    reveal_strlit("number/increment");
    reveal_strlit("decrement");
    reveal_strlit("number/decrement");
    assert("number/create"@ =~= "number"@ + "/"@ + "create"@);
    assert("number/set"@ =~= "number"@ + "/"@ + "set"@);
    assert("number/update"@ =~= "number"@ + "/"@ + "update"@);
    assert("number/get"@ =~= "number"@ + "/"@ + "get"@);
    assert("number/increment"@ =~= "number"@ + "/"@ + "increment"@);
    assert("number/decrement"@ =~= "number"@ + "/"@ + "decrement"@);
}

/// The names of what is done with entities of one kind.
proof fn lemma_names_of_objects()
    ensures
        "object/create"@ == "object"@ + "/"@ + "create"@,
        "object/set"@ == "object"@ + "/"@ + "set"@,
        "object/update"@ == "object"@ + "/"@ + "update"@,
        "object/get"@ == "object"@ + "/"@ + "get"@,
{
    reveal_strlit("/");
    reveal_strlit("object");
    reveal_strlit("create");
    reveal_strlit("object/create");
    reveal_strlit("set");
    reveal_strlit("object/set");
    reveal_strlit("update");
    reveal_strlit("object/update");
    reveal_strlit("get");
    reveal_strlit("object/get");
    assert("object/create"@ =~= "object"@ + "/"@ + "create"@);
    assert("object/set"@ =~= "object"@ + "/"@ + "set"@);
    assert("object/update"@ =~= "object"@ + "/"@ + "update"@);
    assert("object/get"@ =~= "object"@ + "/"@ + "get"@);
}

/// The names of what is done with entities of one kind.
proof fn lemma_names_of_doodles()
    ensures
        "doodle/create"@ == "doodle"@ + "/"@ + "create"@,
        "doodle/set"@ == "doodle"@ + "/"@ + "set"@,
        "doodle/update"@ == "doodle"@ + "/"@ + "update"@,
        "doodle/get"@ == "doodle"@ + "/"@ + "get"@,
        "doodle/stroke"@ == "doodle"@ + "/"@ + "stroke"@,
{
    reveal_strlit("/");
    reveal_strlit("doodle");
    reveal_strlit("create");
    reveal_strlit("doodle/create");
    reveal_strlit("set");
    reveal_strlit("doodle/set");
    reveal_strlit("update");
    reveal_strlit("doodle/update");
    reveal_strlit("get");
    reveal_strlit("doodle/get");
    reveal_strlit("stroke");
    reveal_strlit("doodle/stroke");
    assert("doodle/create"@ =~= "doodle"@ + "/"@ + "create"@);
    assert("doodle/set"@ =~= "doodle"@ + "/"@ + "set"@);
    assert("doodle/update"@ =~= "doodle"@ + "/"@ + "update"@);
    assert("doodle/get"@ =~= "doodle"@ + "/"@ + "get"@);
    assert("doodle/stroke"@ =~= "doodle"@ + "/"@ + "stroke"@);
}

/// The names of what is done with entities of one kind.
proof fn lemma_names_of_g_counters()
    ensures
        "audience/g-counter/create"@ == "audience/g-counter"@ + "/"@ + "create"@,
        "audience/g-counter/get"@ == "audience/g-counter"@ + "/"@ + "get"@,
        "audience/g-counter/increment"@ == "audience/g-counter"@ + "/"@ + "increment"@,
        "audience/g-counter/decrement"@ == "audience/g-counter"@ + "/"@ + "decrement"@,
{
    reveal_strlit("/");
    reveal_strlit("audience/g-counter");
    reveal_strlit("create");
    reveal_strlit("audience/g-counter/create");
    reveal_strlit("get");
    reveal_strlit("audience/g-counter/get");
    reveal_strlit("increment");
    reveal_strlit("audience/g-counter/increment");
    reveal_strlit("decrement");
    reveal_strlit("audience/g-counter/decrement");
    assert("audience/g-counter/create"@ =~= "audience/g-counter"@ + "/"@ + "create"@);
    assert("audience/g-counter/get"@ =~= "audience/g-counter"@ + "/"@ + "get"@);
    assert("audience/g-counter/increment"@ =~= "audience/g-counter"@ + "/"@ + "increment"@);
    assert("audience/g-counter/decrement"@ =~= "audience/g-counter"@ + "/"@ + "decrement"@);
}

/// The names of what is done with entities of one kind.
proof fn lemma_names_of_pn_counters()
    ensures
        "audience/pn-counter/create"@ == "audience/pn-counter"@ + "/"@ + "create"@,
        "audience/pn-counter/get"@ == "audience/pn-counter"@ + "/"@ + "get"@,
        "audience/pn-counter/increment"@ == "audience/pn-counter"@ + "/"@ + "increment"@,
        "audience/pn-counter/decrement"@ == "audience/pn-counter"@ + "/"@ + "decrement"@,
{
    reveal_strlit("/");
    reveal_strlit("audience/pn-counter");
    reveal_strlit("create");
    reveal_strlit("audience/pn-counter/create");
    reveal_strlit("get");
    reveal_strlit("audience/pn-counter/get");
    reveal_strlit("increment");
    reveal_strlit("audience/pn-counter/increment");
    reveal_strlit("decrement");
    reveal_strlit("audience/pn-counter/decrement");
    assert("audience/pn-counter/create"@ =~= "audience/pn-counter"@ + "/"@ + "create"@);
    assert("audience/pn-counter/get"@ =~= "audience/pn-counter"@ + "/"@ + "get"@);
    assert("audience/pn-counter/increment"@ =~= "audience/pn-counter"@ + "/"@ + "increment"@);
    assert("audience/pn-counter/decrement"@ =~= "audience/pn-counter"@ + "/"@ + "decrement"@);
}

/// The names of what is done with entities of one kind.
proof fn lemma_names_of_count_groups()
    ensures
        "audience/count-group/create"@ == "audience/count-group"@ + "/"@ + "create"@,
        "audience/count-group/get"@ == "audience/count-group"@ + "/"@ + "get"@,
        "audience/count-group/increment"@ == "audience/count-group"@ + "/"@ + "increment"@,
{
    reveal_strlit("/");
    reveal_strlit("audience/count-group");
    reveal_strlit("create");
    reveal_strlit("audience/count-group/create");
    reveal_strlit("get");
    reveal_strlit("audience/count-group/get");
    reveal_strlit("increment");
    reveal_strlit("audience/count-group/increment");
    assert("audience/count-group/create"@ =~= "audience/count-group"@ + "/"@ + "create"@);
    assert("audience/count-group/get"@ =~= "audience/count-group"@ + "/"@ + "get"@);
    assert("audience/count-group/increment"@ =~= "audience/count-group"@ + "/"@ + "increment"@);
}

/// A request that does something with an entity goes under the name of the kind of entity, a slash, and the
/// word for what it does; the others go under a name of their own.
pub proof fn requests_go_under_their_names(params: JBParams)
    ensures
        params.kind() == kind_named(params),
        kind_named(params) matches Some(kind) ==> params.wire_name() == Some(
            kind.name() + "/"@ + verb(params)->Some_0,
        ),
        params is ClientSend ==> params.wire_name() == Some("client/send"@),
        params is RoomExit ==> params.wire_name() == Some("room/exit"@),
        params is RoomGetAudience ==> params.wire_name() == Some("room/get-audience"@),
        params is RoomLock ==> params.wire_name() == Some("room/lock"@),
        params is Lock ==> params.wire_name() == Some("lock"@),
        params is Drop ==> params.wire_name() == Some("drop"@),
        params is Other <==> params.wire_name() is None,
{
    lemma_names_of_texts();
    lemma_names_of_numbers();
    lemma_names_of_objects();
    lemma_names_of_doodles();
    lemma_names_of_g_counters();
    lemma_names_of_pn_counters();
    lemma_names_of_count_groups();
}

} // verus!
