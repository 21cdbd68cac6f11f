//! What holds of connections and requests that are passed on, and of what sockets do.
use crate::acl::Role;
use crate::blobcast::ws::{fresh_host, is_tag, tag_at};
use crate::digits::{decimal, hex_digits};
use crate::ecast::ws::ping_data;
use crate::ecast::{
    app_config_request, play_host, play_request, query_pairs, rehosted, requested_room, room_request,
    rooms_request, sourced, upstream, JBResponseBody, RoomRequest, RoomSource, WSQuery,
};
use crate::effect::{others, readers, speaking, those, Target};
use crate::entity::AttributesView;
use crate::frame::{socket_step, Flow, Frame, SocketAction, SocketEvent};
use crate::laws::requests::can_read;
use crate::laws::texts::{
    lists_are_joined, replacing_is_splitting_and_joining, stands_at,
    texts_are_split_at_the_first_place,
};
use crate::room::{ClientType, ClientView, ConfigView, RolesView, RoomState, Token};
use crate::text::{replace, split, split_once};
use vstd::prelude::*;

verus! {

/// Whether pairs hold a value under a name and no other under it.
pub open spec fn holds(
    pairs: Seq<(Seq<char>, Seq<char>)>,
    name: Seq<char>,
    value: Seq<char>,
) -> bool {
    &&& exists|i: int| 0 <= i < pairs.len() && #[trigger] pairs[i] == (name, value)
    &&& forall|i: int| 0 <= i < pairs.len() && (#[trigger] pairs[i]).0 == name ==> pairs[i].1 == value
}

/// Whether pairs hold nothing under a name.
pub open spec fn lacks(pairs: Seq<(Seq<char>, Seq<char>)>, name: Seq<char>) -> bool {
    forall|i: int| 0 <= i < pairs.len() ==> (#[trigger] pairs[i]).0 != name
}

/// What a connection says of itself is passed on under the names under which it says it, and nothing
/// besides; a token that it does not name is left out.
pub proof fn connections_are_passed_on_as_they_are(query: WSQuery)
    ensures
        ({
            let pairs = query_pairs(query);
            &&& holds(pairs, "user-id"@, query.user_id@)
            &&& holds(pairs, "format"@, query.format@)
            &&& holds(pairs, "name"@, query.name@)
            &&& holds(pairs, "role"@, query.role.name())
            &&& holds(pairs, "id"@, decimal(query.id as int))
            &&& query.host_token matches Some(token) ==> holds(
                pairs,
                "host-token"@,
                hex_digits(token.0 as nat, 32),
            )
            &&& query.host_token is None ==> lacks(pairs, "host-token"@)
            &&& query.secret matches Some(token) ==> holds(
                pairs,
                "secret"@,
                hex_digits(token.0 as nat, 32),
            )
            &&& query.secret is None ==> lacks(pairs, "secret"@)
            &&& pairs.len() == 5 + if query.host_token is Some {
                1int
            } else {
                0
            } + if query.secret is Some {
                1int
            } else {
                0
            }
        }),
{
    reveal_strlit("user-id");
    reveal_strlit("format");
    reveal_strlit("name");
    reveal_strlit("role");
    reveal_strlit("id");
    reveal_strlit("host-token");
    reveal_strlit("secret");
    assert("user-id"@[0] == 'u' && "format"@[0] == 'f' && "name"@[0] == 'n' && "role"@[0] == 'r'
        && "id"@[0] == 'i' && "host-token"@[0] == 'h' && "secret"@[0] == 's');
    let pairs = query_pairs(query);
    assert(pairs[0] == ("user-id"@, query.user_id@));
    assert(pairs[1] == ("format"@, query.format@));
    assert(pairs[2] == ("name"@, query.name@));
    assert(pairs[3] == ("role"@, query.role.name()));
    let last = pairs.len() - 1;
    assert(pairs[last] == ("id"@, decimal(query.id as int)));
    if query.host_token is Some {
        let token = query.host_token->Some_0;
        assert(pairs[4] == ("host-token"@, hex_digits(token.0 as nat, 32)));
        if query.secret is Some {
            let secret = query.secret->Some_0;
            assert(pairs[5] == ("secret"@, hex_digits(secret.0 as nat, 32)));
        }
    } else if query.secret is Some {
        let secret = query.secret->Some_0;
        assert(pairs[4] == ("secret"@, hex_digits(secret.0 as nat, 32)));
    }
}

/// Nothing is replaced where the first character of the pattern does not occur.
proof fn lemma_not_replaced(s: Seq<char>, pattern: Seq<char>, by: Seq<char>)
    requires
        pattern.len() > 0,
        forall|j: int| !#[trigger] stands_at(s, pattern, j),
    ensures
        replace(s, pattern, by) == s,
{
    replacing_is_splitting_and_joining(s, pattern, by);
    texts_are_split_at_the_first_place(s, pattern);
    if split_once(s, pattern) is Some {
        let (head, tail) = split_once(s, pattern)->Some_0;
        assert(stands_at(s, pattern, head.len() as int));
    }
    assert(split(s, pattern) =~= seq![s]);
    lists_are_joined(seq![], s, by);
}

/// Hosts, players and moderators are passed on to the host of their room over a secure socket, and the
/// audience to the server that there is where no other is configured, over one, too.
pub proof fn connections_are_passed_on_over_sockets(role: Role, host: Seq<char>)
    requires
        forall|j: int| !#[trigger] stands_at("wss://"@ + host, "https://"@, j),
        forall|j: int| !#[trigger] stands_at("wss://"@ + host, "http://"@, j),
    ensures
        role != Role::Audience ==> play_host(role, host) == "wss://"@ + host,
        play_host(Role::Audience, host) == "wss://ecast.jackboxgames.com"@,
{
    reveal_strlit("https://");
    reveal_strlit("http://");
    reveal_strlit("wss://");
    reveal_strlit("https://ecast.jackboxgames.com");
    reveal_strlit("ecast.jackboxgames.com");
    reveal_strlit("wss://ecast.jackboxgames.com");
    let long = "https://"@;
    let short = "http://"@;
    let by = "wss://"@;
    assert(long[0] == 'h' && short[0] == 'h');
    lemma_not_replaced(by + host, long, by);
    lemma_not_replaced(by + host, short, "ws://"@);
    let all = "https://ecast.jackboxgames.com"@;
    let rest = "ecast.jackboxgames.com"@;
    let result = "wss://ecast.jackboxgames.com"@;
    assert(all =~= long + rest);
    assert(result =~= by + rest);
    assert forall|j: int| !#[trigger] stands_at(rest, long, j) by {
        if stands_at(rest, long, j) {
            assert(rest[j + 0] == long[0]);
        }
    }
    lemma_not_replaced(rest, long, by);
    assert(all.subrange(0, 8) =~= long);
    assert(all.skip(8) =~= rest);
    assert(replace(all, long, by) == by + replace(rest, long, by));
    assert forall|j: int| !#[trigger] stands_at(result, short, j) by {
        if stands_at(result, short, j) {
            assert(result[j + 0] == short[0]);
        }
    }
    lemma_not_replaced(result, short, "ws://"@);
}

/// A connection is passed on to the place of its role under the code of its room, with its query.
pub proof fn connections_are_passed_on_to_their_room(
    host: Seq<char>,
    role: Role,
    code: Seq<char>,
    query: Seq<char>,
)
    ensures
        role == Role::Audience ==> play_request(host, role, code, query) == host
            + "/api/v2/audience/"@ + code + "/play?"@ + query,
        role != Role::Audience ==> play_request(host, role, code, query) == host
            + "/api/v2/rooms/"@ + code + "/play?"@ + query,
{
    reveal_strlit("/api/v2/");
    reveal_strlit("audience");
    reveal_strlit("rooms");
    reveal_strlit("/");
    reveal_strlit("/api/v2/audience/");
    reveal_strlit("/api/v2/rooms/");
    assert("/api/v2/audience/"@ =~= "/api/v2/"@ + "audience"@ + "/"@);
    assert("/api/v2/rooms/"@ =~= "/api/v2/"@ + "rooms"@ + "/"@);
    if role == Role::Audience {
        assert(play_request(host, role, code, query) =~= host + "/api/v2/audience/"@ + code
            + "/play?"@ + query);
    } else {
        assert(play_request(host, role, code, query) =~= host + "/api/v2/rooms/"@ + code
            + "/play?"@ + query);
    }
}

/// The server that is configured is asked, and only where none is, the one that is there for that; for the
/// configuration of an application it is asked under its code, with the query that came.
pub proof fn configured_servers_are_asked(url: Seq<char>, code: Seq<char>, query: Seq<char>)
    ensures
        upstream(Some(url)) == url,
        upstream(None) == "https://ecast.jackboxgames.com"@,
        app_config_request(url, code, query).take(url.len() as int) == url,
        app_config_request(url, code, query).skip(url.len() as int) == "/api/v2/app-configs/"@
            + code + "?"@ + query,
{
    let whole = app_config_request(url, code, query);
    assert(whole.take(url.len() as int) =~= url);
    assert(whole.skip(url.len() as int) =~= "/api/v2/app-configs/"@ + code + "?"@ + query);
}

/// Rooms are asked for at the server that is configured, and one of them under its code.
pub proof fn rooms_are_asked_for_by_their_code(url: Seq<char>, code: Seq<char>)
    ensures
        rooms_request(Some(url)) == url + "/api/v2/rooms"@,
        rooms_request(None) == "https://ecast.jackboxgames.com"@ + "/api/v2/rooms"@,
        room_request(Some(url), code) == rooms_request(Some(url)) + "/"@ + code,
        room_request(None, code) == rooms_request(None) + "/"@ + code,
{
    reveal_strlit("/api/v2/rooms");
    reveal_strlit("/api/v2/rooms/");
    reveal_strlit("/");
    assert("/api/v2/rooms/"@ =~= "/api/v2/rooms"@ + "/"@);
    assert(room_request(Some(url), code) =~= rooms_request(Some(url)) + "/"@ + code);
    assert(room_request(None, code) =~= rooms_request(None) + "/"@ + code);
}

/// A room that another server has opened has the code, the token and the host that it has answered with,
/// and none is opened where it has refused; one that is opened here has those that were made here, and
/// this server as its host.
pub proof fn rooms_come_from_their_source(source: RoomSource, accessible_host: Seq<char>)
    ensures
        match source {
            RoomSource::Upstream(response) => match response.body {
                JBResponseBody::Body(body) => {
                    &&& sourced(source, accessible_host) matches Some(opened)
                    &&& opened.host == body.host@
                    &&& opened.code == body.code@
                    &&& opened.token == body.token@
                },
                JBResponseBody::Error(_) => sourced(source, accessible_host) is None,
            },
            RoomSource::Native { code, token } => {
                &&& sourced(source, accessible_host) matches Some(opened)
                &&& opened.host == accessible_host
                &&& opened.code == code@
                &&& opened.token == hex_digits(token.0 as nat, 32)
            },
        },
{
}

/// A room is opened for the application that it was asked for, with an audience where one was asked for,
/// under its code, at its host, with this server as the host of its audience. No one is in it, nothing is
/// stored in it, and it is open to all.
pub proof fn rooms_are_opened_as_asked(
    request: RoomRequest,
    code: Seq<char>,
    host: Seq<char>,
    accessible_host: Seq<char>,
)
    ensures
        ({
            let room = requested_room(request, code, host, accessible_host);
            &&& room.config.app_id == request.app_id@
            &&& room.config.app_tag == request.app_tag@
            &&& room.config.audience_enabled == request.audience_enabled
            &&& room.config.code == code
            &&& room.config.host == host
            &&& room.config.audience_host == accessible_host
            &&& !room.config.locked && !room.config.full && !room.config.moderation_enabled
                && !room.config.password_required && !room.config.twitch_locked
                && !room.config.keepalive
            &&& room.config.locale == "en"@
            &&& forall|key: Seq<char>| !room.entities.contains_key(key)
            &&& forall|id: i64| !room.connections.contains_key(id)
            &&& room.serial == 1
        }),
{
}

/// What another server says of a room is said on, with this server in the place of its hosts.
pub proof fn rooms_elsewhere_are_hosted_here(config: ConfigView, accessible_host: Seq<char>)
    ensures
        ({
            let shown = rehosted(config, accessible_host);
            &&& shown.host == accessible_host
            &&& shown.audience_host == accessible_host
            &&& shown.app_id == config.app_id
            &&& shown.app_tag == config.app_tag
            &&& shown.audience_enabled == config.audience_enabled
            &&& shown.code == config.code
            &&& shown.locked == config.locked
            &&& shown.full == config.full
            &&& shown.moderation_enabled == config.moderation_enabled
            &&& shown.password_required == config.password_required
            &&& shown.twitch_locked == config.twitch_locked
            &&& shown.locale == config.locale
            &&& shown.keepalive == config.keepalive
        }),
{
}

/// A socket is left when it is closed, when no more comes, and when the room ends, and then nothing is done;
/// those who watch the room are told after a message, after a fault, and when nothing has happened for a
/// while; and it goes on quietly after all other frames.
pub proof fn sockets_are_left_when_they_end(event: SocketEvent, keepalive: SocketAction)
    ensures
        ({
            let (action, flow) = socket_step(event, keepalive);
            &&& flow == Flow::Leave <==> event is Ended || event is RoomExit || (event is Received
                && event->Received_0 is Close)
            &&& flow == Flow::Announce <==> event is Broken || event is Idle || (event is Received
                && event->Received_0 is Text)
            &&& flow == Flow::Leave ==> action is Idle
        }),
{
}

/// A text is carried out as the message that it is, a ping is answered with what it holds, a fault is
/// reported, the socket is kept alive when nothing has happened for a while, and nothing is done about
/// anything else.
pub proof fn sockets_do_what_comes(event: SocketEvent, keepalive: SocketAction)
    ensures
        ({
            let (action, flow) = socket_step(event, keepalive);
            match event {
                SocketEvent::Received(frame) => match frame {
                    Frame::Text(text) => action matches SocketAction::Process(done) && done@
                        == text@,
                    Frame::Ping(data) => action matches SocketAction::Pong(answer) && answer@
                        == data@,
                    _ => action is Idle,
                },
                SocketEvent::Broken => action is Report,
                SocketEvent::Idle => action == keepalive,
                _ => action is Idle,
            }
        }),
{
}

/// A ping holds the letters of a name.
pub proof fn pings_hold_a_name(i: int)
    requires
        0 <= i < 7,
    ensures
        ping_data().len() == 7,
        ping_data()[i] as char == "jackbox"@[i],
{
    reveal_strlit("jackbox");
}

/// Whether a connection of a room is one of those that are meant.
pub proof fn those_who_are_meant_are_told(
    room: RoomState,
    attributes: AttributesView,
    client_type: ClientType,
    but: i64,
    id: i64,
)
    ensures
        ({
            let there = room.connections.contains_key(id);
            let client = room.connections[id];
            &&& readers(room, attributes, but).contains(id) <==> there && client.profile.id != but
                && can_read(attributes.acl, client.profile.role, client.profile.id)
            &&& others(room, but).contains(id) <==> there && client.profile.id != but
            &&& speaking(room, client_type).contains(id) <==> there && client.client_type
                == client_type
            &&& those(room, |c: ClientView| Target::Everyone.includes(c)).contains(id) <==> there
        }),
{
    let client = room.connections[id];
    crate::laws::requests::rights_are_those_of_the_entries(
        attributes.acl,
        client.profile.role,
        client.profile.id,
    );
}

/// A host that has asked for a room is known by what it has said and speaks the protocol of hosts.
pub proof fn hosts_are_who_they_say(user_id: Seq<char>, id: i64, secret: Token)
    ensures
        ({
            let host = fresh_host(user_id, id, secret);
            &&& host.profile.id == id
            &&& host.profile.user_id == user_id
            &&& host.profile.role == Role::Host
            &&& host.profile.roles == RolesView::Host
            &&& host.profile.name.len() == 0
            &&& host.client_type == ClientType::Blobcast
            &&& host.secret == secret
        }),
{
}

/// The tag of an application is the first that a list has for it, and empty where it has none.
pub proof fn first_tags_count(
    first: (String, String),
    tags: Seq<(String, String)>,
    app_id: Seq<char>,
    tag: Seq<char>,
)
    ensures
        is_tag(seq![], app_id, tag) <==> tag.len() == 0,
        first.0@ == app_id ==> (is_tag(seq![first] + tags, app_id, tag) <==> tag == first.1@),
        first.0@ != app_id ==> (is_tag(seq![first] + tags, app_id, tag) <==> is_tag(
            tags,
            app_id,
            tag,
        )),
{
    let none: Seq<(String, String)> = seq![];
    assert forall|i: int| !tag_at(none, i, app_id) by {}
    let all = seq![first] + tags;
    assert(all[0] == first);
    assert forall|i: int| 0 <= i implies #[trigger] tag_at(tags, i, app_id) == tag_at(
        all,
        i + 1,
        app_id,
    ) by {
        if i < tags.len() {
            assert(all[i + 1] == tags[i]);
        }
    }
    if first.0@ == app_id {
        assert(tag_at(all, 0, app_id));
    } else {
        assert(!tag_at(all, 0, app_id));
        if is_tag(all, app_id, tag) {
            if exists|i: int| #[trigger]
                tag_at(all, i, app_id) && all[i].1@ == tag && (forall|j: int|
                    j < i ==> !tag_at(all, j, app_id)) {
                let i = choose|i: int| #[trigger]
                    tag_at(all, i, app_id) && all[i].1@ == tag && (forall|j: int|
                        j < i ==> !tag_at(all, j, app_id));
                assert(tag_at(tags, i - 1, app_id));
                assert(tags[i - 1] == all[i]);
                assert forall|j: int| j < i - 1 implies !tag_at(tags, j, app_id) by {
                    if j >= 0 {
                        assert(!tag_at(all, j + 1, app_id));
                    }
                }
            } else {
                assert forall|i: int| !tag_at(tags, i, app_id) by {
                    if i >= 0 {
                        assert(!tag_at(all, i + 1, app_id));
                    }
                }
            }
        }
        if is_tag(tags, app_id, tag) {
            if exists|i: int| #[trigger]
                tag_at(tags, i, app_id) && tags[i].1@ == tag && (forall|j: int|
                    j < i ==> !tag_at(tags, j, app_id)) {
                let i = choose|i: int| #[trigger]
                    tag_at(tags, i, app_id) && tags[i].1@ == tag && (forall|j: int|
                        j < i ==> !tag_at(tags, j, app_id));
                assert(tag_at(all, i + 1, app_id));
                assert(all[i + 1] == tags[i]);
                assert forall|j: int| j < i + 1 implies !tag_at(all, j, app_id) by {
                    if j > 0 {
                        assert(!tag_at(tags, j - 1, app_id));
                    }
                }
            } else {
                assert forall|i: int| !tag_at(all, i, app_id) by {
                    if i > 0 {
                        assert(!tag_at(tags, i - 1, app_id));
                    }
                }
            }
        }
    }
}

} // verus!
