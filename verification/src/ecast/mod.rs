//! The newer protocol: how rooms are opened, asked for and joined.
use crate::acl::Role;
use crate::digits::{decimal, hex32, hex_digits, signed_text};
use crate::room::{empty_room, opened_config, ConfigView, JBRoom, Room, RoomState, Token};
use crate::store::KeyedStore;
use crate::text::{concat2, concat3, replace, replace_all};
use vstd::prelude::*;

pub mod ws;

verus! {

/// Where rooms are: here, or on another server for which this one stands in.
#[derive(Clone, Copy, Debug, PartialEq, Eq, Structural)]
pub enum OpMode {
    Proxy,
    Native,
}

/// What a room is asked for with. The names of players are kept as their text, the time as the
/// bits of a float.
#[derive(Debug)]
pub struct RoomRequest {
    pub app_id: String,
    pub app_tag: String,
    pub audience_enabled: bool,
    pub max_players: u8,
    pub platform: String,
    pub player_names: String,
    pub time: u32,
    pub twitch_locked: bool,
    pub user_id: u128,
    pub host: String,
}

/// What a connection says of itself when it connects.
#[derive(Debug)]
pub struct WSQuery {
    pub user_id: String,
    pub format: String,
    pub name: String,
    pub role: Role,
    pub host_token: Option<Token>,
    pub secret: Option<Token>,
    /// The id that the connection had before, or zero.
    pub id: i64,
}

/// An answer.
#[derive(Debug)]
pub struct JBResponse<T> {
    pub ok: bool,
    pub body: JBResponseBody<T>,
}

/// What an answer holds.
#[derive(Debug)]
pub enum JBResponseBody<T> {
    Body(T),
    Error(String),
}

/// The model of [`JBResponse`].
pub struct AnswerView<V> {
    pub ok: bool,
    pub body: Result<V, Seq<char>>,
}

impl<T: View> View for JBResponse<T> {
    type V = AnswerView<T::V>;

    open spec fn view(&self) -> AnswerView<T::V> {
        AnswerView {
            ok: self.ok,
            body: match self.body {
                JBResponseBody::Body(body) => Ok(body@),
                JBResponseBody::Error(error) => Err(error@),
            },
        }
    }
}

/// A room that was opened.
#[derive(Debug)]
pub struct RoomResponse {
    pub host: String,
    pub code: String,
    pub token: String,
}

/// The model of [`RoomResponse`].
pub struct OpenedView {
    pub host: Seq<char>,
    pub code: Seq<char>,
    pub token: Seq<char>,
}

impl View for RoomResponse {
    type V = OpenedView;

    open spec fn view(&self) -> OpenedView {
        OpenedView { host: self.host@, code: self.code@, token: self.token@ }
    }
}

impl Token {
    /// How the token is written: thirty-two digits of base sixteen.
    pub open spec fn written(self) -> Seq<char> {
        hex_digits(self.0 as nat, 32)
    }

    /// How the token is written.
    pub fn text(&self) -> (r: String)
        ensures
            r@ == self.written(),
    {
        hex32(self.0)
    }
}

/// The models of pairs of texts.
pub open spec fn pair_views(pairs: Seq<(String, String)>) -> Seq<(Seq<char>, Seq<char>)> {
    pairs.map_values(|pair: (String, String)| (pair.0@, pair.1@))
}

/// What [`serde_urlencoded::to_string`] makes of pairs of names and values.
pub uninterp spec fn url_encoded(pairs: Seq<(Seq<char>, Seq<char>)>) -> Seq<char>;

/// [`serde_urlencoded::to_string`] writes pairs of names and values, which it never refuses, as
/// the query of a URL.
#[verifier::external_body]
fn url_encode(pairs: &Vec<(String, String)>) -> (r: String)
    ensures
        r@ == url_encoded(pair_views(pairs@)),
{
    serde_urlencoded::to_string(pairs).unwrap()
}

/// The pairs that a connection says of itself: a token that it has not is left out.
pub open spec fn query_pairs(query: WSQuery) -> Seq<(Seq<char>, Seq<char>)> {
    seq![
        ("user-id"@, query.user_id@),
        ("format"@, query.format@),
        ("name"@, query.name@),
        ("role"@, query.role.name()),
    ] + token_pair("host-token"@, query.host_token) + token_pair("secret"@, query.secret) + seq![
        ("id"@, decimal(query.id as int)),
    ]
}

/// The pair of a token, where there is one.
pub open spec fn token_pair(name: Seq<char>, token: Option<Token>) -> Seq<(Seq<char>, Seq<char>)> {
    match token {
        Some(token) => seq![(name, token.written())],
        None => seq![],
    }
}

impl WSQuery {
    /// The pairs that a connection says of itself.
    pub fn pairs(&self) -> (r: Vec<(String, String)>)
        ensures
            pair_views(r@) == query_pairs(*self),
    {
        let mut pairs: Vec<(String, String)> = Vec::new();
        pairs.push(("user-id".to_owned(), self.user_id.clone()));
        pairs.push(("format".to_owned(), self.format.clone()));
        pairs.push(("name".to_owned(), self.name.clone()));
        pairs.push(("role".to_owned(), self.role.as_str().to_owned()));
        let ghost first = pair_views(pairs@);
        assert(first =~= seq![
            ("user-id"@, self.user_id@),
            ("format"@, self.format@),
            ("name"@, self.name@),
            ("role"@, self.role.name()),
        ]);
        match self.host_token {
            Some(token) => {
                pairs.push(("host-token".to_owned(), token.text()));
            },
            None => {},
        }
        let ghost second = pair_views(pairs@);
        assert(second =~= first + token_pair("host-token"@, self.host_token));
        match self.secret {
            Some(token) => {
                pairs.push(("secret".to_owned(), token.text()));
            },
            None => {},
        }
        let ghost third = pair_views(pairs@);
        assert(third =~= second + token_pair("secret"@, self.secret));
        pairs.push(("id".to_owned(), signed_text(self.id)));
        assert(pair_views(pairs@) =~= third + seq![("id"@, decimal(self.id as int))]);
        pairs
    }
}

/// The server that is asked where no other is configured.
pub const UPSTREAM: &'static str = "https://ecast.jackboxgames.com";

/// The server that is asked.
pub open spec fn upstream(server_url: Option<Seq<char>>) -> Seq<char> {
    match server_url {
        Some(url) => url,
        None => UPSTREAM@,
    }
}

/// The server that is asked.
fn upstream_url(server_url: Option<&str>) -> (r: &str)
    ensures
        r@ == upstream(
            match server_url {
                Some(url) => Some(url@),
                None => None,
            },
        ),
{
    match server_url {
        Some(url) => url,
        None => UPSTREAM,
    }
}

/// The host that a connection with a role is passed on to, as the URL of a socket.
pub open spec fn play_host(role: Role, room_host: Seq<char>) -> Seq<char> {
    let host = match role {
        Role::Audience => UPSTREAM@,
        _ => "wss://"@ + room_host,
    };
    replace(replace(host, "https://"@, "wss://"@), "http://"@, "ws://"@)
}

/// The kind of place that a connection with a role joins.
pub open spec fn play_scope(role: Role) -> Seq<char> {
    match role {
        Role::Audience => "audience"@,
        _ => "rooms"@,
    }
}

/// The URL under which a connection is passed on.
pub open spec fn play_request(
    host: Seq<char>,
    role: Role,
    code: Seq<char>,
    query: Seq<char>,
) -> Seq<char> {
    host + "/api/v2/"@ + play_scope(role) + "/"@ + code + "/play?"@ + query
}

/// The URL under which a connection is passed on, for the query that it came with.
pub fn play_url(host: &str, role: Role, code: &str, query: &str) -> (r: String)
    ensures
        r@ == play_request(host@, role, code@, query@),
{
    let scope: &str = match role {
        Role::Audience => "audience",
        _ => "rooms",
    };
    let mut url = concat3(host, "/api/v2/", scope);
    url.push_str("/");
    url.push_str(code);
    url.push_str("/play?");
    url.push_str(query);
    url
}

/// What is done with a connection that wants to join a room.
#[derive(Debug)]
pub enum PlayPlan {
    /// It is refused with this answer.
    NotFound(JBResponse<()>),
    /// It is passed on.
    Relay { host: String, ecast_req: String },
    /// It joins a room here.
    Join,
}

/// Whether this is what is done with a connection that wants to join the room with a code.
pub open spec fn is_played(
    rooms: Map<Seq<char>, RoomState>,
    op_mode: OpMode,
    code: Seq<char>,
    query: WSQuery,
    plan: PlayPlan,
) -> bool {
    match plan {
        PlayPlan::NotFound(response) => {
            &&& !rooms.contains_key(code)
            &&& !response.ok
            &&& response.body matches JBResponseBody::Error(error) && error@ == "no such room"@
        },
        PlayPlan::Relay { host, ecast_req } => {
            &&& rooms.contains_key(code)
            &&& op_mode == OpMode::Proxy
            &&& host@ == play_host(query.role, rooms[code].config.host)
            &&& ecast_req@ == play_request(
                host@,
                query.role,
                code,
                url_encoded(query_pairs(query)),
            )
        },
        PlayPlan::Join => rooms.contains_key(code) && op_mode == OpMode::Native,
    }
}

/// Decides what is done with a connection that wants to join the room with a code.
pub fn play_handler(
    rooms: &KeyedStore<Room>,
    op_mode: OpMode,
    code: &str,
    url_query: &WSQuery,
) -> (r: PlayPlan)
    requires
        rooms.wf(),
    ensures
        is_played(rooms@, op_mode, code@, *url_query, r),
{
    let room = match rooms.get(code) {
        Some(room) => room,
        None => {
            return PlayPlan::NotFound(
                JBResponse {
                    ok: false,
                    body: JBResponseBody::Error("no such room".to_owned()),
                },
            );
        },
    };
    match op_mode {
        OpMode::Proxy => {
            let host: String = match url_query.role {
                Role::Audience => UPSTREAM.to_owned(),
                _ => concat2("wss://", room.room_config.host.as_str()),
            };
            proof {
                reveal_strlit("https://");
                reveal_strlit("http://");
            }
            let secure = replace_all(host.as_str(), "https://", "wss://");
            let host = replace_all(secure.as_str(), "http://", "ws://");
            let query = url_encode(&url_query.pairs());
            let ecast_req = play_url(host.as_str(), url_query.role, code, query.as_str());
            PlayPlan::Relay { host, ecast_req }
        },
        OpMode::Native => PlayPlan::Join,
    }
}

/// The URL under which rooms are asked for.
pub open spec fn rooms_request(server: Option<Seq<char>>) -> Seq<char> {
    upstream(server) + "/api/v2/rooms"@
}

/// The URL under which the room with a code is asked for.
pub open spec fn room_request(server: Option<Seq<char>>, code: Seq<char>) -> Seq<char> {
    upstream(server) + "/api/v2/rooms/"@ + code
}

/// The URL under which a room is asked for.
pub fn rooms_url(server_url: Option<&str>) -> (r: String)
    ensures
        r@ == rooms_request(
            match server_url {
                Some(url) => Some(url@),
                None => None,
            },
        ),
{
    concat2(upstream_url(server_url), "/api/v2/rooms")
}

/// Where the code and the token of a new room come from.
#[derive(Debug)]
pub enum RoomSource {
    /// Another server has answered a request for a room.
    Upstream(JBResponse<RoomResponse>),
    /// They were made here.
    Native { code: String, token: Token },
}

/// The code, the token and the host of a new room, where there is one.
pub open spec fn sourced(source: RoomSource, accessible_host: Seq<char>) -> Option<OpenedView> {
    match source {
        RoomSource::Upstream(response) => match response.body {
            JBResponseBody::Body(body) => Some(body@),
            JBResponseBody::Error(_) => None,
        },
        RoomSource::Native { code, token } => Some(
            OpenedView { host: accessible_host, code: code@, token: token.written() },
        ),
    }
}

/// The state of the room that a request opens.
pub open spec fn requested_room(
    room_req: RoomRequest,
    code: Seq<char>,
    host: Seq<char>,
    accessible_host: Seq<char>,
) -> RoomState {
    empty_room(
        opened_config(
            room_req.app_id@,
            room_req.app_tag@,
            room_req.audience_enabled,
            code,
            host,
            accessible_host,
        ),
    )
}

/// Whether the rooms are those after a room was asked for, and the answer is the one that is given.
pub open spec fn is_opened(
    before: Map<Seq<char>, RoomState>,
    room_req: RoomRequest,
    source: RoomSource,
    accessible_host: Seq<char>,
    after: Map<Seq<char>, RoomState>,
    answer: JBResponse<RoomResponse>,
) -> bool {
    match sourced(source, accessible_host) {
        Some(opened) => {
            &&& after == before.insert(
                opened.code,
                requested_room(room_req, opened.code, opened.host, accessible_host),
            )
            &&& answer@ == AnswerView {
                ok: true,
                body: Ok(OpenedView { host: accessible_host, ..opened }),
            }
        },
        None => {
            &&& after == before
            &&& source == RoomSource::Upstream(answer)
        },
    }
}

/// Opens the room that was asked for. Where another server has refused it, its answer is passed
/// on and no room is opened.
pub fn rooms_handler(
    rooms: &mut KeyedStore<Room>,
    room_req: RoomRequest,
    source: RoomSource,
    accessible_host: &str,
) -> (r: JBResponse<RoomResponse>)
    requires
        old(rooms).wf(),
    ensures
        final(rooms).wf(),
        is_opened(old(rooms)@, room_req, source, accessible_host@, final(rooms)@, r),
{
    let (code, token, host): (String, String, String) = match source {
        RoomSource::Upstream(response) => match response.body {
            JBResponseBody::Body(body) => (body.code, body.token, body.host),
            JBResponseBody::Error(error) => {
                return JBResponse { ok: response.ok, body: JBResponseBody::Error(error) };
            },
        },
        RoomSource::Native { code, token } => (code, token.text(), accessible_host.to_owned()),
    };
    let room = Room::new(
        JBRoom {
            app_id: room_req.app_id,
            app_tag: room_req.app_tag,
            audience_enabled: room_req.audience_enabled,
            code: code.clone(),
            host,
            audience_host: accessible_host.to_owned(),
            locked: false,
            full: false,
            moderation_enabled: false,
            password_required: false,
            twitch_locked: false,
            locale: "en".to_owned(),
            keepalive: false,
        },
    );
    rooms.put(room);
    JBResponse {
        ok: true,
        body: JBResponseBody::Body(
            RoomResponse { host: accessible_host.to_owned(), code, token },
        ),
    }
}

/// Why a room is not shown.
#[derive(Clone, Copy, Debug, PartialEq, Eq, Structural)]
pub enum RoomError {
    NoSuchRoom,
}

impl RoomError {
    /// The error in words.
    pub fn as_str(&self) -> (r: &'static str)
        ensures
            r@ == "no such room"@,
    {
        match self {
            RoomError::NoSuchRoom => "no such room",
        }
    }
}

/// The URL under which the room with a code is asked for.
pub fn room_url(server_url: Option<&str>, code: &str) -> (r: String)
    ensures
        r@ == room_request(
            match server_url {
                Some(url) => Some(url@),
                None => None,
            },
            code@,
        ),
{
    concat3(upstream_url(server_url), "/api/v2/rooms/", code)
}

/// What another server says of a room, with this server in the place of its hosts.
pub open spec fn rehosted(config: ConfigView, accessible_host: Seq<char>) -> ConfigView {
    ConfigView { host: accessible_host, audience_host: accessible_host, ..config }
}

/// Whether this is what is answered to a question about the room with a code.
pub open spec fn is_shown(
    rooms: Map<Seq<char>, RoomState>,
    code: Seq<char>,
    upstream: Option<JBResponse<JBRoom>>,
    accessible_host: Seq<char>,
    result: Result<JBResponse<JBRoom>, RoomError>,
) -> bool {
    match upstream {
        None => match result {
            Ok(response) => {
                &&& rooms.contains_key(code)
                &&& response@ == AnswerView { ok: true, body: Ok(rooms[code].config) }
            },
            Err(error) => !rooms.contains_key(code) && error == RoomError::NoSuchRoom,
        },
        Some(answer) => {
            &&& result matches Ok(response)
            &&& response@ == AnswerView {
                ok: answer.ok,
                body: match answer@.body {
                    Ok(config) => Ok(rehosted(config, accessible_host)),
                    Err(error) => Err(error),
                },
            }
        },
    }
}

/// Shows the room with a code: the one that is here, or, where rooms are on another server, what
/// that server has answered.
pub fn rooms_get_handler(
    rooms: &KeyedStore<Room>,
    code: &str,
    upstream: Option<JBResponse<JBRoom>>,
    accessible_host: &str,
) -> (r: Result<JBResponse<JBRoom>, RoomError>)
    requires
        rooms.wf(),
    ensures
        is_shown(rooms@, code@, upstream, accessible_host@, r),
{
    match upstream {
        None => match rooms.get(code) {
            Some(room) => Ok(
                JBResponse { ok: true, body: JBResponseBody::Body(room.room_config.clone()) },
            ),
            None => Err(RoomError::NoSuchRoom),
        },
        Some(answer) => match answer.body {
            JBResponseBody::Body(config) => {
                let mut config = config;
                config.host = accessible_host.to_owned();
                config.audience_host = accessible_host.to_owned();
                Ok(JBResponse { ok: answer.ok, body: JBResponseBody::Body(config) })
            },
            JBResponseBody::Error(error) => Ok(
                JBResponse { ok: answer.ok, body: JBResponseBody::Error(error) },
            ),
        },
    }
}

/// How the configuration of an application is answered.
#[derive(Debug)]
pub enum AppConfigPlan {
    /// With settings that name this server.
    Settings { server_url: String },
    /// With what is found under a URL.
    Ask { url: String },
}

/// The URL under which the configuration of an application is asked for, for the query that it
/// was asked for with.
pub open spec fn app_config_request(
    server: Seq<char>,
    code: Seq<char>,
    query: Seq<char>,
) -> Seq<char> {
    server + "/api/v2/app-configs/"@ + code + "?"@ + query
}

/// The URL under which the configuration of an application is asked for.
pub fn app_config_url(server: &str, code: &str, query: &str) -> (r: String)
    ensures
        r@ == app_config_request(server@, code@, query@),
{
    let mut url = concat3(server, "/api/v2/app-configs/", code);
    url.push_str("?");
    url.push_str(query);
    url
}

/// Whether this is how the configuration of an application is answered.
pub open spec fn is_configured(
    op_mode: OpMode,
    server: Option<Seq<char>>,
    accessible_host: Seq<char>,
    code: Seq<char>,
    query: Seq<(Seq<char>, Seq<char>)>,
    plan: AppConfigPlan,
) -> bool {
    match plan {
        AppConfigPlan::Settings { server_url } => op_mode == OpMode::Native && server_url@
            == accessible_host,
        AppConfigPlan::Ask { url } => {
            &&& op_mode == OpMode::Proxy
            &&& url@ == app_config_request(upstream(server), code, url_encoded(query))
        },
    }
}

/// Decides how the configuration of an application is answered.
pub fn app_config_handler(
    op_mode: OpMode,
    server_url: Option<&str>,
    accessible_host: &str,
    code: &str,
    query: &Vec<(String, String)>,
) -> (r: AppConfigPlan)
    ensures
        is_configured(
            op_mode,
            match server_url {
                Some(url) => Some(url@),
                None => None,
            },
            accessible_host@,
            code@,
            pair_views(query@),
            r,
        ),
{
    match op_mode {
        OpMode::Native => AppConfigPlan::Settings { server_url: accessible_host.to_owned() },
        OpMode::Proxy => {
            let encoded = url_encode(query);
            AppConfigPlan::Ask {
                url: app_config_url(upstream_url(server_url), code, encoded.as_str()),
            }
        },
    }
}

} // verus!
