//! What holds of what is decided about requests, and of what comes of it.
use crate::acl::Role;
use crate::blobcast::ws::{
    ConnectError, JBMessage, JBMessageArgs, Opened, ResponseView, ResultActionView,
};
use crate::ecast::{
    play_host, query_pairs, url_encoded, AppConfigPlan, JBResponse, JBResponseBody, OpMode, PlayPlan,
    RoomError, RoomRequest, RoomResponse, RoomSource, WSQuery,
};
use crate::entity::{
    choice_name, ChoiceError, DoodlePlan, DoodleView, JBCountGroup, RenderError,
};
use crate::frame::{relayed, Flow, Frame, RelayError, SocketAction, SocketEvent};
use crate::json::Json;
use crate::room::{ClientType, JBRoom, RoomState, Token};
use crate::tts::{
    ffmpeg_args, is_job, is_planned, piper_args, plain_rate, seeded_choice, spoken, SpeechError,
    SpeechJob, SpeechPlan,
};
use vstd::prelude::*;
use vstd::utf8::encode_utf8;

verus! {

/// One who wants to join a room that is not there is told so, whoever it is; one who wants to join a room
/// that is there joins it here, or is passed on to the place of their role at its host, with all that they
/// say of themselves, where rooms are elsewhere.
pub proof fn those_who_join_are_let_in_or_passed_on(
    rooms: Map<Seq<char>, RoomState>,
    op_mode: OpMode,
    code: Seq<char>,
    query: WSQuery,
    plan: PlayPlan,
)
    requires
        crate::ecast::is_played(rooms, op_mode, code, query, plan),
    ensures
        !rooms.contains_key(code) ==> {
            &&& plan matches PlayPlan::NotFound(answer)
            &&& !answer.ok
            &&& answer.body matches JBResponseBody::Error(error)
            &&& error@ == "no such room"@
        },
        rooms.contains_key(code) && op_mode == OpMode::Native ==> plan is Join,
        rooms.contains_key(code) && op_mode == OpMode::Proxy ==> {
            &&& plan matches PlayPlan::Relay { host, ecast_req }
            &&& host@ == play_host(query.role, rooms[code].config.host)
            &&& ecast_req@ == host@ + (if query.role == Role::Audience {
                "/api/v2/audience/"@
            } else {
                "/api/v2/rooms/"@
            }) + code + "/play?"@ + url_encoded(query_pairs(query))
        },
{
    if plan is Relay {
        crate::laws::passing::connections_are_passed_on_to_their_room(
            plan->host@,
            query.role,
            code,
            url_encoded(query_pairs(query)),
        );
    }
}

/// A room that is opened is there afterwards under its code, all others are as they were, and the answer names
/// its code and its token and this server as its host. Where another server has refused a room, its refusal
/// is passed on and no room changes.
pub proof fn rooms_that_are_opened_are_there(
    before: Map<Seq<char>, RoomState>,
    request: RoomRequest,
    source: RoomSource,
    accessible_host: Seq<char>,
    after: Map<Seq<char>, RoomState>,
    answer: JBResponse<RoomResponse>,
    other: Seq<char>,
)
    requires
        crate::ecast::is_opened(before, request, source, accessible_host, after, answer),
    ensures
        source matches RoomSource::Upstream(refusal) ==> refusal.body is Error ==> after == before
            && answer == refusal,
        source matches RoomSource::Upstream(response) ==> (response.body matches JBResponseBody::Body(
            body,
        ) ==> {
            &&& answer.ok
            &&& answer.body matches JBResponseBody::Body(said)
            &&& said.code@ == body.code@
            &&& said.token@ == body.token@
            &&& said.host@ == accessible_host
            &&& after.contains_key(body.code@)
            &&& after[body.code@].config.code == body.code@
            &&& after[body.code@].config.host == body.host@
            &&& after[body.code@].config.audience_host == accessible_host
            &&& after[body.code@].config.app_tag == request.app_tag@
            &&& after[body.code@].config.app_id == request.app_id@
            &&& after[body.code@].config.audience_enabled == request.audience_enabled
            &&& other != body.code@ ==> (after.contains_key(other) <==> before.contains_key(other))
            &&& other != body.code@ && before.contains_key(other) ==> after[other] == before[other]
        }),
        source matches RoomSource::Native { code, token } ==> {
            &&& answer.ok
            &&& answer.body matches JBResponseBody::Body(said)
            &&& said.code@ == code@
            &&& said.token@ == crate::digits::hex_digits(token.0 as nat, 32)
            &&& said.host@ == accessible_host
            &&& after.contains_key(code@)
            &&& after[code@].config.code == code@
            &&& after[code@].config.host == accessible_host
            &&& after[code@].config.audience_host == accessible_host
            &&& after[code@].config.app_tag == request.app_tag@
            &&& after[code@].config.app_id == request.app_id@
            &&& after[code@].config.audience_enabled == request.audience_enabled
            &&& other != code@ ==> (after.contains_key(other) <==> before.contains_key(other))
            &&& other != code@ && before.contains_key(other) ==> after[other] == before[other]
        },
{
    match answer.body {
        JBResponseBody::Body(said) => {
            assert(answer@.body == Ok::<_, Seq<char>>(said@));
        },
        JBResponseBody::Error(error) => {
            assert(answer@.body is Err);
        },
    }
}

/// A room that is here is shown as it is, one that is not is said not to be there, and what another server
/// says is passed on, with this server in the place of its hosts and with its refusals as they are.
pub proof fn rooms_that_are_asked_for_are_shown(
    rooms: Map<Seq<char>, RoomState>,
    code: Seq<char>,
    upstream: Option<JBResponse<JBRoom>>,
    accessible_host: Seq<char>,
    result: Result<JBResponse<JBRoom>, RoomError>,
)
    requires
        crate::ecast::is_shown(rooms, code, upstream, accessible_host, result),
    ensures
        upstream is None && rooms.contains_key(code) ==> {
            &&& result matches Ok(response)
            &&& response.ok
            &&& response.body matches JBResponseBody::Body(config)
            &&& config@ == rooms[code].config
        },
        upstream is None && !rooms.contains_key(code) ==> result is Err,
        upstream matches Some(answer) ==> {
            &&& result matches Ok(response)
            &&& response.ok == answer.ok
            &&& answer.body matches JBResponseBody::Error(error) ==> (
            response.body matches JBResponseBody::Error(said) && said@ == error@)
            &&& answer.body matches JBResponseBody::Body(config) ==> {
                &&& response.body matches JBResponseBody::Body(shown)
                &&& shown@.host == accessible_host
                &&& shown@.audience_host == accessible_host
                &&& shown@.code == config@.code
                &&& shown@.app_id == config@.app_id
                &&& shown@.app_tag == config@.app_tag
                &&& shown@.locked == config@.locked
                &&& shown@.full == config@.full
                &&& shown@.audience_enabled == config@.audience_enabled
            }
        },
{
    if result is Ok {
        let response = result->Ok_0;
        assert(response@.body is Ok <==> response.body is Body);
    }
}

/// The configuration of an application names this server where rooms are here, and is asked for at the server
/// that is configured, under the code and with the query that came, where they are elsewhere.
pub proof fn applications_are_configured(
    op_mode: OpMode,
    server: Option<Seq<char>>,
    accessible_host: Seq<char>,
    code: Seq<char>,
    query: Seq<(Seq<char>, Seq<char>)>,
    plan: AppConfigPlan,
)
    requires
        crate::ecast::is_configured(op_mode, server, accessible_host, code, query, plan),
    ensures
        op_mode == OpMode::Native ==> (plan matches AppConfigPlan::Settings { server_url }
            && server_url@ == accessible_host),
        op_mode == OpMode::Proxy ==> {
            &&& plan matches AppConfigPlan::Ask { url }
            &&& url@ == (match server {
                Some(server) => server,
                None => "https://ecast.jackboxgames.com"@,
            }) + "/api/v2/app-configs/"@ + code + "?"@ + url_encoded(query)
        },
{
}

/// Speech is made here, with the voices below the path of voices, where rooms are here, and asked for at the
/// server that makes it where they are elsewhere.
pub proof fn speech_is_planned(
    op_mode: OpMode,
    voices_path: Seq<char>,
    rate: Seq<char>,
    plan: SpeechPlan,
)
    requires
        is_planned(op_mode, voices_path, rate, plan),
    ensures
        op_mode == OpMode::Native ==> {
            &&& plan matches SpeechPlan::Make { voice_glob, rate: plain }
            &&& voice_glob@ == voices_path + "/*.onnx"@
            &&& plain@ == plain_rate(rate)
        },
        op_mode == OpMode::Proxy ==> (plan matches SpeechPlan::Ask { url } && url@
            == "https://blobcast.jackboxgames.com/tts/generate"@),
{
}

/// Where voices cannot be looked for that is what is said; otherwise a player speaks with the voice that the
/// generator, seeded with the hash of the voice that they ask for, takes out of those that were found.
pub proof fn players_speak_with_their_voice(
    voice: Seq<char>,
    voices: Option<Vec<Option<String>>>,
    scale: Option<String>,
)
    ensures
        voices is None <==> spoken(voice, voices, scale) == Err::<(Seq<char>, Seq<char>), _>(
            SpeechError::InvalidGlob,
        ),
        voices matches Some(found) ==> {
            let place = seeded_choice(crate::tts::default_hash(encode_utf8(voice)), found.len());
            &&& spoken(voice, voices, scale) matches Ok((name, length)) ==> place is Some && name
                == found@[place->Some_0 as int]->Some_0@ && length == scale->Some_0@
            &&& spoken(voice, voices, scale) is Ok <==> place is Some
                && found@[place->Some_0 as int] is Some && scale is Some
        },
{
}

/// What is said to be had of speech is a file on this server, under the name that it was given.
pub proof fn speech_is_had_here(
    voice: Seq<char>,
    scale: Seq<char>,
    out: Seq<char>,
    name: Seq<char>,
    host: Seq<char>,
    job: SpeechJob,
)
    requires
        is_job(voice, scale, out, name, host, job),
    ensures
        job.response.success,
        job.response.url@ == "https://"@ + host + "/tts/"@ + name,
        job.piper_args.len() == 5,
        job.piper_args@[1]@ == scale,
        job.piper_args@[3]@ == voice,
        job.ffmpeg_args.len() == 11,
        job.ffmpeg_args@[10]@ == out,
        crate::text::texts(job.piper_args@) == piper_args(scale, voice),
        crate::text::texts(job.ffmpeg_args@) == ffmpeg_args(out),
{
    let piper = crate::text::texts(job.piper_args@);
    let ffmpeg = crate::text::texts(job.ffmpeg_args@);
    assert(piper.len() == 5 && ffmpeg.len() == 11);
    assert(piper[1] == job.piper_args@[1]@ && piper[3] == job.piper_args@[3]@);
    assert(ffmpeg[10] == job.ffmpeg_args@[10]@);
}

/// A host that asks for a room is given one under the code, of which it is the first in line: it has the first
/// id, and the next who comes has the second. It is told the code. Who asks for anything else is given none.
pub proof fn hosts_that_ask_are_given_rooms(
    message: Option<JBMessage>,
    tags: Seq<(String, String)>,
    code: Seq<char>,
    host: Seq<char>,
    secret: Token,
    result: Result<Opened, ConnectError>,
)
    requires
        crate::blobcast::ws::is_opened(message, tags, code, host, secret, result),
    ensures
        message is None ==> result == Err::<Opened, _>(ConnectError::NoMessage),
        message matches Some(JBMessage::Msg(JBMessageArgs::Action { app_id, user_id, action }))
            ==> {
            &&& result is Ok <==> action is CreateRoom
            &&& !(action is CreateRoom) ==> result == Err::<Opened, _>(ConnectError::NotCreateRoom)
            &&& action is CreateRoom ==> {
                let opened = result->Ok_0;
                let room = opened.room@;
                &&& room.config.code == code
                &&& room.config.app_id == app_id@
                &&& crate::blobcast::ws::is_tag(tags, app_id@, room.config.app_tag)
                &&& room.config.host == host
                &&& room.config.audience_host == host
                &&& room.config.audience_enabled
                &&& !room.config.locked && !room.config.full
                &&& room.serial == 2
                &&& forall|id: i64| !room.connections.contains_key(id)
                &&& forall|key: Seq<char>| !room.entities.contains_key(key)
                &&& opened.client@.profile.id == 1
                &&& opened.client@.profile.role == Role::Host
                &&& opened.client@.profile.user_id == user_id@
                &&& opened.client@.client_type == ClientType::Blobcast
                &&& opened.client@.secret == secret
                &&& opened.response@ == ResponseView::Outcome(
                    ResultActionView::CreateRoom(code),
                    true,
                )
            }
        },
{
}

/// A connection for which nothing has happened for a while is pinged, with a name, and a host is sent a
/// heartbeat; whatever else happens, both are treated alike.
pub proof fn sockets_are_kept_alive(
    event: SocketEvent,
    at_client: (SocketAction, Flow),
    at_host: (SocketAction, Flow),
)
    requires
        crate::ecast::ws::is_handled(event, at_client),
        crate::blobcast::ws::is_handled(event, at_host),
    ensures
        event is Idle ==> {
            &&& at_client.0 matches SocketAction::Ping(data)
            &&& data.len() == 7
            &&& forall|i: int| 0 <= i < 7 ==> #[trigger] data@[i] as char == "jackbox"@[i]
            &&& at_host.0 matches SocketAction::Send(text)
            &&& text@ == "2:::"@
            &&& at_client.1 == Flow::Announce
            &&& at_host.1 == Flow::Announce
        },
        !(event is Idle) ==> at_client == at_host,
        event matches SocketEvent::Received(Frame::Text(text)) ==> (
        at_client.0 matches SocketAction::Process(done) && done@ == text@),
        event matches SocketEvent::Received(Frame::Ping(data)) ==> (
        at_client.0 matches SocketAction::Pong(answer) && answer@ == data@),
        event is Broken ==> at_client.0 is Report,
        at_client.1 == Flow::Leave <==> event is Ended || event is RoomExit || (event is Received
            && event->Received_0 is Close),
        at_client.1 == Flow::Announce <==> event is Broken || event is Idle || (event is Received
            && event->Received_0 is Text),
{
    reveal_strlit("jackbox");
}

/// Frames are passed on as they are, and only one that was not put together is not.
pub proof fn frames_are_passed_on_as_they_are(frame: Frame)
    ensures
        relayed(frame) is Err <==> frame is Raw,
        relayed(frame) matches Ok(passed) ==> passed == frame,
        relayed(frame) matches Err(error) ==> error == RelayError::RawFrame,
{
}

/// A doodle is drawn where no line with points lies above its layers, and otherwise the layer of the first
/// such line is named, and how many layers there are to be.
pub proof fn doodles_are_drawn_or_refused(
    doodle: DoodleView,
    result: Result<DoodlePlan, RenderError>,
    i: int,
)
    requires
        crate::entity::is_rendered(doodle, result),
        doodle.lines.len() <= usize::MAX,
    ensures
        result is Ok ==> (0 <= i < doodle.lines.len() && doodle.lines[i].points.len() > 0
            ==> doodle.lines[i].layer < result->Ok_0.layers && result->Ok_0.strokes@.contains(
            i as usize,
        )),
        result matches Err(RenderError::NoSuchLayer { layer, max_layer }) ==> {
            &&& max_layer == doodle.max_layer
            &&& layer >= max_layer && layer >= 1
            &&& exists|first: int|
                {
                    &&& 0 <= first < doodle.lines.len()
                    &&& (#[trigger] doodle.lines[first]).layer == layer
                    &&& doodle.lines[first].points.len() > 0
                    &&& forall|j: int|
                        0 <= j < first && (#[trigger] doodle.lines[j]).points.len() > 0
                            ==> doodle.lines[j].layer < max_layer || doodle.lines[j].layer == 0
                }
        },
{
    match result {
        Ok(plan) => {
            if 0 <= i < doodle.lines.len() {
                assert(!crate::entity::is_off_layers(doodle, i));
                crate::laws::drawing::every_line_with_points_is_drawn(
                    doodle,
                    plan.layers as int,
                    plan.strokes@,
                    i,
                );
            }
        },
        Err(RenderError::NoSuchLayer { layer, max_layer }) => {
            let first = choose|first: int|
                {
                    &&& #[trigger] crate::entity::is_off_layers(doodle, first)
                    &&& layer == doodle.lines[first].layer
                    &&& forall|j: int|
                        crate::entity::is_off_layers(doodle, j) ==> first <= j
                };
            assert(doodle.lines[first].layer == layer);
            assert forall|j: int|
                0 <= j < first && (#[trigger] doodle.lines[j]).points.len()
                    > 0 implies doodle.lines[j].layer < max_layer || doodle.lines[j].layer
                == 0 by {
                assert(!crate::entity::is_off_layers(doodle, j));
            }
        },
    }
}

/// Options make a group where none of them is a list or an object, with the limit that was given; each of
/// them is then one of its choices, without a vote. Otherwise the first that is one is said to be.
pub proof fn options_make_groups(
    options: Seq<Json>,
    max_votes: Option<i64>,
    result: Result<JBCountGroup, ChoiceError>,
    i: int,
)
    requires
        crate::entity::is_group_of(options, max_votes, result),
        0 <= i < options.len(),
    ensures
        result is Ok ==> !(options[i] is Array) && !(options[i] is Object),
        result matches Ok(group) ==> {
            &&& group@.max_votes == max_votes
            &&& crate::choices::has_key(group@.choices, choice_name(options[i])->Ok_0)
            &&& forall|k: int|
                0 <= k < group@.choices.len() ==> (#[trigger] group@.choices[k]).1 == 0
            &&& crate::choices::distinct_keys(group@.choices)
        },
        result matches Err(error) ==> exists|first: int|
            {
                &&& 0 <= first < options.len()
                &&& #[trigger] options[first] is Array || options[first] is Object
                &&& error == ChoiceError::Array <==> options[first] is Array
                &&& forall|j: int|
                    0 <= j < first ==> !(#[trigger] options[j] is Array) && !(options[j] is Object)
            },
{
    match result {
        Ok(group) => {
            let names = options.map_values(|o: Json| choice_name(o)->Ok_0);
            crate::entity::fresh_choices_are_the_names(names);
            assert(names[i] == choice_name(options[i])->Ok_0);
            assert(names.contains(names[i]));
            assert(choice_name(options[i]) is Ok);
        },
        Err(error) => {
            let first = choose|first: int|
                {
                    &&& 0 <= first < options.len()
                    &&& choice_name(#[trigger] options[first]) == Err::<Seq<char>, ChoiceError>(
                        error,
                    )
                    &&& forall|j: int|
                        0 <= j < first ==> choice_name(#[trigger] options[j]) is Ok
                };
            assert(options[first] is Array || options[first] is Object);
            assert forall|j: int| 0 <= j < first implies !(#[trigger] options[j] is Array) && !(
            options[j] is Object) by {
                assert(choice_name(options[j]) is Ok);
            }
        },
    }
}

} // verus!
