//! A request decided for a document store that is somewhere else: what to look up, and,
//! from what the store answered, the response and the changes that the store is to make.

use vstd::prelude::*;
use vstd::string::*;

use crate::dispatch::without_cookie;
use crate::error::ServerError;
use crate::id::{is_id, ID};
use crate::messages::{
    views, Message, MessageView, Request, RequestType, RequestTypeView, RequestView, Response,
    ResponseView,
};
use crate::server_handler::{
    config_name, opening_message, Block, BlockView, ServerConfig, ServerConfigView,
    BLOCK_CAPACITY,
};
use crate::session::{expired, Session, SessionView};
use crate::text::{contains_name, same_text};
use crate::user::{SensitiveUser, SensitiveUserView, User, UserView};

verus! {

/// The view of what may be there.
pub open spec fn view_of<T: View>(item: Option<T>) -> Option<T::V> {
    match item {
        Some(item) => Some(item@),
        None => None,
    }
}

/// A channel of a guild: the guild's identifier, then the channel's name.
pub open spec fn place_view(place: Option<(ID, String)>) -> Option<(Seq<char>, Seq<char>)> {
    match place {
        Some(place) => Some((place.0@, place.1@)),
        None => None,
    }
}

/// What a request needs to know of the document store before it can be decided. Each
/// entry that is there names one thing to look up.
#[derive(Debug, PartialEq, Eq)]
pub struct Reads {
    /// The user whose session to find.
    pub session: Option<ID>,
    /// The user to find.
    pub user: Option<ID>,
    /// The name whose users to find.
    pub users_named: Option<String>,
    /// The guild whose settings to find.
    pub config: Option<ID>,
    /// The guild whose collections to list.
    pub collections: Option<ID>,
    /// The channel whose unfilled block to find.
    pub open_block: Option<(ID, String)>,
    /// The channel whose blocks to find.
    pub blocks: Option<(ID, String)>,
}

/// The look-ups as contracts see them.
pub struct ReadsView {
    pub session: Option<Seq<char>>,
    pub user: Option<Seq<char>>,
    pub users_named: Option<Seq<char>>,
    pub config: Option<Seq<char>>,
    pub collections: Option<Seq<char>>,
    pub open_block: Option<(Seq<char>, Seq<char>)>,
    pub blocks: Option<(Seq<char>, Seq<char>)>,
}

impl View for Reads {
    type V = ReadsView;

    open spec fn view(&self) -> ReadsView {
        ReadsView {
            session: view_of(self.session),
            user: view_of(self.user),
            users_named: view_of(self.users_named),
            config: view_of(self.config),
            collections: view_of(self.collections),
            open_block: place_view(self.open_block),
            blocks: place_view(self.blocks),
        }
    }
}

impl ReadsView {
    /// Nothing to look up.
    pub open spec fn nothing() -> ReadsView {
        ReadsView {
            session: None,
            user: None,
            users_named: None,
            config: None,
            collections: None,
            open_block: None,
            blocks: None,
        }
    }
}

/// What the document store answered to the look-ups of a `Reads`: for each entry what
/// was found, and nothing for an entry that was not there.
#[derive(Debug, PartialEq, Eq)]
pub struct Documents {
    /// The session of the user, if the user has one.
    pub session: Option<Session>,
    /// The user, if there is one.
    pub user: Option<SensitiveUser>,
    /// The public side of the users of the name.
    pub users_named: Vec<User>,
    /// The settings of the guild, if it exists.
    pub config: Option<ServerConfig>,
    /// The names of the guild's collections, the settings collection among them.
    pub collections: Vec<String>,
    /// The unfilled block of the channel, if it has one.
    pub open_block: Option<Block>,
    /// The blocks of the channel, oldest first.
    pub blocks: Vec<Block>,
}

/// The answers as contracts see them.
pub struct DocumentsView {
    pub session: Option<SessionView>,
    pub user: Option<SensitiveUserView>,
    pub users_named: Seq<UserView>,
    pub config: Option<ServerConfigView>,
    pub collections: Seq<Seq<char>>,
    pub open_block: Option<BlockView>,
    pub blocks: Seq<BlockView>,
}

impl View for Documents {
    type V = DocumentsView;

    open spec fn view(&self) -> DocumentsView {
        DocumentsView {
            session: view_of(self.session),
            user: view_of(self.user),
            users_named: views(self.users_named@),
            config: view_of(self.config),
            collections: views(self.collections@),
            open_block: view_of(self.open_block),
            blocks: views(self.blocks@),
        }
    }
}

/// One change that the document store is to make.
#[derive(Debug, PartialEq, Eq)]
pub enum Write {
    /// Insert the session, unless its user has one.
    InsertSession(Session),
    /// Delete the session of the user, if there is one.
    DeleteSession(ID),
    /// Insert the user, unless name or identifier is taken.
    InsertUser(SensitiveUser),
    /// Set the online flag of the user, if there is one.
    SetUserStatus(ID, bool),
    /// Create the guild with these settings, unless it exists.
    InsertConfig(ID, ServerConfig),
    /// Drop the guild with all its collections.
    DropDatabase(ID),
    /// Insert the block as the newest of the channel, which is created if it is new.
    InsertBlock(ID, String, Block),
    /// Overwrite the unfilled block of the channel.
    ReplaceOpenBlock(ID, String, Block),
    /// Drop the channel with all its blocks.
    DropCollection(ID, String),
}

/// A change as contracts see it.
pub enum WriteView {
    InsertSession(SessionView),
    DeleteSession(Seq<char>),
    InsertUser(SensitiveUserView),
    SetUserStatus(Seq<char>, bool),
    InsertConfig(Seq<char>, ServerConfigView),
    DropDatabase(Seq<char>),
    InsertBlock(Seq<char>, Seq<char>, BlockView),
    ReplaceOpenBlock(Seq<char>, Seq<char>, BlockView),
    DropCollection(Seq<char>, Seq<char>),
}

impl View for Write {
    type V = WriteView;

    open spec fn view(&self) -> WriteView {
        match self {
            Write::InsertSession(session) => WriteView::InsertSession(session@),
            Write::DeleteSession(id) => WriteView::DeleteSession(id@),
            Write::InsertUser(user) => WriteView::InsertUser(user@),
            Write::SetUserStatus(id, status) => WriteView::SetUserStatus(id@, *status),
            Write::InsertConfig(server, config) => WriteView::InsertConfig(server@, config@),
            Write::DropDatabase(server) => WriteView::DropDatabase(server@),
            Write::InsertBlock(server, channel, block) => WriteView::InsertBlock(
                server@,
                channel@,
                block@,
            ),
            Write::ReplaceOpenBlock(server, channel, block) => WriteView::ReplaceOpenBlock(
                server@,
                channel@,
                block@,
            ),
            Write::DropCollection(server, channel) => WriteView::DropCollection(server@, channel@),
        }
    }
}

/// What was decided of a request: the response to send, and the changes that the
/// document store is to make, in their order.
#[derive(Debug, PartialEq, Eq)]
pub struct Decision {
    pub response: Response,
    pub writes: Vec<Write>,
}

/// A decision as contracts see it.
pub struct DecisionView {
    pub response: ResponseView,
    pub writes: Seq<WriteView>,
}

impl View for Decision {
    type V = DecisionView;

    open spec fn view(&self) -> DecisionView {
        DecisionView { response: self.response@, writes: views(self.writes@) }
    }
}

impl DecisionView {
    /// A response that changes nothing.
    pub open spec fn only(response: ResponseView) -> DecisionView {
        DecisionView { response, writes: Seq::empty() }
    }

    /// An error that changes nothing.
    pub open spec fn refusal(error: ServerError) -> DecisionView {
        DecisionView::only(ResponseView::Error(error))
    }
}

/// The identifier, if it is one.
pub open spec fn if_id(id: Seq<char>) -> Option<Seq<char>> {
    if is_id(id) {
        Some(id)
    } else {
        None
    }
}

/// The channel of a guild, if the guild's identifier is one.
pub open spec fn if_place(server: Seq<char>, channel: Seq<char>) -> Option<(Seq<char>, Seq<char>)> {
    if is_id(server) {
        Some((server, channel))
    } else {
        None
    }
}

/// What a request needs to know: the session of its cookie where it needs one, and
/// what its kind decides by. Nothing is looked up under what is no identifier.
pub open spec fn reads_of(request: RequestView, new_id: Seq<char>) -> ReadsView {
    let nothing = ReadsView::nothing();
    match request.tp {
        RequestTypeView::Ping(text) => nothing,
        RequestTypeView::SignUp(username, password) => ReadsView {
            session: if_id(new_id),
            user: if_id(new_id),
            users_named: Some(username),
            ..nothing
        },
        RequestTypeView::SignIn(username, password, id) => ReadsView {
            session: if_id(id),
            user: if_id(id),
            ..nothing
        },
        tp => match request.session_cookie {
            None => nothing,
            Some(cookie) => if !is_id(cookie) {
                nothing
            } else {
                let gated = ReadsView { session: Some(cookie), ..nothing };
                match tp {
                    RequestTypeView::NewServer(name) => ReadsView { config: if_id(new_id), ..gated },
                    RequestTypeView::DeleteServer(server) => ReadsView {
                        config: if_id(server),
                        ..gated
                    },
                    RequestTypeView::NewChannel(server, name) => ReadsView {
                        config: if_id(server),
                        collections: if_id(server),
                        ..gated
                    },
                    RequestTypeView::DeleteChannel(server, name) => ReadsView {
                        config: if_id(server),
                        collections: if_id(server),
                        ..gated
                    },
                    RequestTypeView::GetChannels(server) => ReadsView {
                        config: if_id(server),
                        collections: if_id(server),
                        ..gated
                    },
                    RequestTypeView::SendMessage(server, channel, content) => ReadsView {
                        user: Some(cookie),
                        config: if_id(server),
                        collections: if_id(server),
                        open_block: if_place(server, channel),
                        ..gated
                    },
                    RequestTypeView::GetMessages(server, channel, block) => ReadsView {
                        config: if_id(server),
                        blocks: if_place(server, channel),
                        ..gated
                    },
                    _ => gated,
                }
            },
        },
    }
}

/// What the cookie's session says at `now`: a bad request where the cookie is no
/// identifier or has no session, an expired session where it has expired, else success.
pub open spec fn gate_of(cookie: Seq<char>, session: Option<SessionView>, now: u64) -> ResponseView {
    if !is_id(cookie) {
        ResponseView::Error(ServerError::BadRequest)
    } else {
        match session {
            None => ResponseView::Error(ServerError::BadRequest),
            Some(session) => if expired(session.start, now) {
                ResponseView::Error(ServerError::SessionExpired)
            } else {
                ResponseView::Success
            },
        }
    }
}

/// What a request that did not pass the cookie's check decides: the check's answer, and
/// the deletion of the session if it has expired.
pub open spec fn stopped(cookie: Seq<char>, session: Option<SessionView>, now: u64) -> DecisionView {
    DecisionView {
        response: gate_of(cookie, session, now),
        writes: if gate_of(cookie, session, now) == ResponseView::Error(
            ServerError::SessionExpired,
        ) {
            seq![WriteView::DeleteSession(cookie)]
        } else {
            Seq::empty()
        },
    }
}

/// The changes that start a session of `id` at `now`: none where an active one exists;
/// else the insertion of one, after the deletion of an expired one.
pub open spec fn start_writes(id: Seq<char>, session: Option<SessionView>, now: u64) -> Seq<
    WriteView,
> {
    let started = WriteView::InsertSession(SessionView { id, start: now });
    match session {
        None => seq![started],
        Some(session) => if expired(session.start, now) {
            seq![WriteView::DeleteSession(id), started]
        } else {
            Seq::empty()
        },
    }
}

/// The privilege check on the settings found.
pub open spec fn privilege_of(config: Option<ServerConfigView>, user: Seq<char>) -> ResponseView {
    match config {
        None => ResponseView::Error(ServerError::BadRequest),
        Some(config) => if !config.admins.contains(user) {
            ResponseView::Error(ServerError::PermissionDenied)
        } else {
            ResponseView::Success
        },
    }
}

/// The membership check on the settings found.
pub open spec fn membership_of(config: Option<ServerConfigView>, user: Seq<char>) -> ResponseView {
    match config {
        None => ResponseView::Error(ServerError::BadRequest),
        Some(config) => if !config.users.contains(user) {
            ResponseView::Error(ServerError::PermissionDenied)
        } else {
            ResponseView::Success
        },
    }
}

/// The test for a name that is not that of the settings collection.
pub open spec fn is_channel_name() -> spec_fn(Seq<char>) -> bool {
    |name: Seq<char>| name != config_name()
}

/// What a sign-up decides.
pub open spec fn decided_signup(
    username: Seq<char>,
    password: Seq<char>,
    documents: DocumentsView,
    now: u64,
    new_id: Seq<char>,
) -> DecisionView {
    if documents.users_named.len() > 0 {
        DecisionView::refusal(ServerError::BadRequest)
    } else if !is_id(new_id) || documents.user is Some {
        DecisionView::refusal(ServerError::InternalServerError)
    } else {
        DecisionView {
            response: ResponseView::SessionCreated(new_id),
            writes: seq![
                WriteView::InsertUser(
                    SensitiveUserView {
                        id: new_id,
                        is_online: true,
                        username,
                        password,
                        servers: Seq::empty(),
                    },
                ),
            ] + start_writes(new_id, documents.session, now),
        }
    }
}

/// What a sign-in decides.
pub open spec fn decided_signin(
    username: Seq<char>,
    password: Seq<char>,
    id: Seq<char>,
    documents: DocumentsView,
    now: u64,
) -> DecisionView {
    if !is_id(id) {
        DecisionView::refusal(ServerError::BadRequest)
    } else if !(documents.user matches Some(user) && user.has_credentials(username, password)) {
        DecisionView::refusal(ServerError::InvalidCredentials)
    } else {
        DecisionView {
            response: ResponseView::Success,
            writes: seq![WriteView::SetUserStatus(id, true)] + start_writes(
                id,
                documents.session,
                now,
            ),
        }
    }
}

/// What a request on the guild `server` decides once the cookie's check has passed:
/// a bad request where `server` is no identifier, else `decision`.
pub open spec fn on_guild(server: Seq<char>, decision: DecisionView) -> DecisionView {
    if !is_id(server) {
        DecisionView::refusal(ServerError::BadRequest)
    } else {
        decision
    }
}

/// What a check lets through: the check's answer unless it is success, else `decision`.
pub open spec fn checked(check: ResponseView, decision: DecisionView) -> DecisionView {
    if check is Success {
        decision
    } else {
        DecisionView::only(check)
    }
}

/// What a post decides, once the poster was found to be a member.
pub open spec fn decided_post(
    server: Seq<char>,
    channel: Seq<char>,
    message: MessageView,
    documents: DocumentsView,
    now: u64,
) -> DecisionView {
    if channel == config_name() || !documents.collections.contains(channel) {
        DecisionView::refusal(ServerError::BadRequest)
    } else {
        match documents.open_block {
            Some(block) => if block.messages.len() >= BLOCK_CAPACITY {
                DecisionView::refusal(ServerError::InternalServerError)
            } else {
                DecisionView {
                    response: ResponseView::Success,
                    writes: seq![
                        WriteView::ReplaceOpenBlock(server, channel, block.with_message(message)),
                    ],
                }
            },
            None => DecisionView {
                response: ResponseView::Success,
                writes: seq![
                    WriteView::InsertBlock(
                        server,
                        channel,
                        BlockView::empty(now).with_message(message),
                    ),
                ],
            },
        }
    }
}

/// What a request decides whose cookie has passed its check.
pub open spec fn decided_with_session(
    tp: RequestTypeView,
    cookie: Seq<char>,
    documents: DocumentsView,
    now: u64,
    new_id: Seq<char>,
) -> DecisionView {
    match tp {
        RequestTypeView::SignOut => DecisionView {
            response: ResponseView::Success,
            writes: seq![
                WriteView::DeleteSession(cookie),
                WriteView::SetUserStatus(cookie, false),
            ],
        },
        RequestTypeView::NewServer(name) => if !is_id(new_id) || documents.config is Some {
            DecisionView::refusal(ServerError::InternalServerError)
        } else {
            DecisionView {
                response: ResponseView::ServerCreated(new_id),
                writes: seq![
                    WriteView::InsertConfig(
                        new_id,
                        ServerConfigView { name, admins: seq![cookie], users: seq![cookie] },
                    ),
                ],
            }
        },
        RequestTypeView::DeleteServer(server) => on_guild(
            server,
            checked(
                privilege_of(documents.config, cookie),
                DecisionView {
                    response: ResponseView::Success,
                    writes: seq![WriteView::DropDatabase(server)],
                },
            ),
        ),
        RequestTypeView::NewChannel(server, name) => on_guild(
            server,
            checked(
                privilege_of(documents.config, cookie),
                if documents.collections.contains(name) {
                    DecisionView::refusal(ServerError::BadRequest)
                } else {
                    DecisionView {
                        response: ResponseView::Success,
                        writes: seq![
                            WriteView::InsertBlock(
                                server,
                                name,
                                BlockView::empty(now).with_message(opening_message()),
                            ),
                        ],
                    }
                },
            ),
        ),
        RequestTypeView::DeleteChannel(server, name) => on_guild(
            server,
            checked(
                privilege_of(documents.config, cookie),
                if name == config_name() || !documents.collections.contains(name) {
                    DecisionView::refusal(ServerError::BadRequest)
                } else {
                    DecisionView {
                        response: ResponseView::Success,
                        writes: seq![WriteView::DropCollection(server, name)],
                    }
                },
            ),
        ),
        RequestTypeView::GetChannels(server) => on_guild(
            server,
            checked(
                membership_of(documents.config, cookie),
                DecisionView::only(
                    ResponseView::ChannelList(documents.collections.filter(is_channel_name())),
                ),
            ),
        ),
        RequestTypeView::SendMessage(server, channel, content) => on_guild(
            server,
            match documents.user {
                None => DecisionView::refusal(ServerError::InternalServerError),
                Some(user) => checked(
                    membership_of(documents.config, cookie),
                    decided_post(
                        server,
                        channel,
                        MessageView { content, author: user.username },
                        documents,
                        now,
                    ),
                ),
            },
        ),
        RequestTypeView::GetMessages(server, channel, block) => on_guild(
            server,
            checked(
                membership_of(documents.config, cookie),
                if block >= documents.blocks.len() {
                    DecisionView::only(ResponseView::EndOfChannel)
                } else {
                    DecisionView::only(
                        ResponseView::MessagesFound(documents.blocks[block as int].messages),
                    )
                },
            ),
        ),
        _ => DecisionView::refusal(ServerError::InternalServerError),
    }
}

/// What a request decides, given what the document store answered to its look-ups.
pub open spec fn decided(
    request: RequestView,
    documents: DocumentsView,
    now: u64,
    new_id: Seq<char>,
) -> DecisionView {
    match request.tp {
        RequestTypeView::Ping(text) => DecisionView::only(ResponseView::Pong(text)),
        RequestTypeView::SignUp(username, password) => decided_signup(
            username,
            password,
            documents,
            now,
            new_id,
        ),
        RequestTypeView::SignIn(username, password, id) => decided_signin(
            username,
            password,
            id,
            documents,
            now,
        ),
        tp => match request.session_cookie {
            None => DecisionView::only(without_cookie(tp)),
            Some(cookie) => if gate_of(cookie, documents.session, now) is Success {
                decided_with_session(tp, cookie, documents, now, new_id)
            } else {
                stopped(cookie, documents.session, now)
            },
        },
    }
}

fn nothing() -> (res: Reads)
    ensures
        res@ == ReadsView::nothing(),
{
    Reads {
        session: None,
        user: None,
        users_named: None,
        config: None,
        collections: None,
        open_block: None,
        blocks: None,
    }
}

fn valid(id: &ID) -> (res: Option<ID>)
    ensures
        view_of(res) == if_id(id@),
{
    if id.is_valid() {
        Some(id.clone())
    } else {
        None
    }
}

fn valid_place(server: &ID, channel: &String) -> (res: Option<(ID, String)>)
    ensures
        place_view(res) == if_place(server@, channel@),
{
    if server.is_valid() {
        Some((server.clone(), channel.clone()))
    } else {
        None
    }
}

/// What `request` needs to know of the document store before it can be decided, where
/// `new_id` is the identifier at hand for what the request may create.
pub fn reads(request: &Request, new_id: &ID) -> (res: Reads)
    ensures
        res@ == reads_of(request@, new_id@),
{
    let mut res = nothing();
    match &request.tp {
        RequestType::Ping(_text) => {},
        RequestType::SignUp(username, _password) => {
            res.session = valid(new_id);
            res.user = valid(new_id);
            res.users_named = Some(username.clone());
        },
        RequestType::SignIn(_username, _password, id) => {
            res.session = valid(id);
            res.user = valid(id);
        },
        tp => {
            match &request.session_cookie {
                None => {},
                Some(cookie) => {
                    if cookie.is_valid() {
                        res.session = Some(cookie.clone());
                        match tp {
                            RequestType::NewServer(_name) => {
                                res.config = valid(new_id);
                            },
                            RequestType::DeleteServer(server) => {
                                res.config = valid(server);
                            },
                            RequestType::NewChannel(server, _name) => {
                                res.config = valid(server);
                                res.collections = valid(server);
                            },
                            RequestType::DeleteChannel(server, _name) => {
                                res.config = valid(server);
                                res.collections = valid(server);
                            },
                            RequestType::GetChannels(server) => {
                                res.config = valid(server);
                                res.collections = valid(server);
                            },
                            RequestType::SendMessage(server, channel, _content) => {
                                res.user = Some(cookie.clone());
                                res.config = valid(server);
                                res.collections = valid(server);
                                res.open_block = valid_place(server, channel);
                            },
                            RequestType::GetMessages(server, channel, _block) => {
                                res.config = valid(server);
                                res.blocks = valid_place(server, channel);
                            },
                            _ => {},
                        }
                    }
                },
            }
        },
    }
    res
}

fn only(response: Response) -> (res: Decision)
    ensures
        res@ == DecisionView::only(response@),
{
    let res = Decision { response, writes: Vec::new() };
    assert(res@.writes =~= Seq::empty());
    res
}

fn refusal(error: ServerError) -> (res: Decision)
    ensures
        res@ == DecisionView::refusal(error),
{
    only(Response::Error(error))
}

fn one_write(response: Response, write: Write) -> (res: Decision)
    ensures
        res@ == (DecisionView { response: response@, writes: seq![write@] }),
{
    let mut writes: Vec<Write> = Vec::new();
    writes.push(write);
    let res = Decision { response, writes };
    assert(res@.writes =~= seq![write@]);
    res
}

fn check_gate(cookie: &ID, session: &Option<Session>, now: u64) -> (res: Response)
    ensures
        res@ == gate_of(cookie@, view_of(*session), now),
{
    if !cookie.is_valid() {
        return Response::Error(ServerError::BadRequest);
    }
    match session {
        None => Response::Error(ServerError::BadRequest),
        Some(session) => {
            if session.is_expired(now) {
                Response::Error(ServerError::SessionExpired)
            } else {
                Response::Success
            }
        },
    }
}

fn push_start_writes(writes: &mut Vec<Write>, id: ID, session: &Option<Session>, now: u64)
    ensures
        views(final(writes)@) == views(old(writes)@) + start_writes(id@, view_of(*session), now),
{
    let ghost before = views(writes@);
    match session {
        None => {
            writes.push(Write::InsertSession(Session::new(id, now)));
        },
        Some(session) => {
            if session.is_expired(now) {
                writes.push(Write::DeleteSession(id.clone()));
                writes.push(Write::InsertSession(Session::new(id, now)));
            }
        },
    }
    assert(views(writes@) =~= before + start_writes(id@, view_of(*session), now));
}

fn check_privilege(config: &Option<ServerConfig>, user: &ID) -> (res: Response)
    ensures
        res@ == privilege_of(view_of(*config), user@),
{
    match config {
        None => Response::Error(ServerError::BadRequest),
        Some(config) => {
            if !config.is_admin(user) {
                Response::Error(ServerError::PermissionDenied)
            } else {
                Response::Success
            }
        },
    }
}

fn check_membership(config: &Option<ServerConfig>, user: &ID) -> (res: Response)
    ensures
        res@ == membership_of(view_of(*config), user@),
{
    match config {
        None => Response::Error(ServerError::BadRequest),
        Some(config) => {
            if !config.is_user(user) {
                Response::Error(ServerError::PermissionDenied)
            } else {
                Response::Success
            }
        },
    }
}

fn channel_names(collections: &Vec<String>) -> (res: Vec<String>)
    ensures
        views(res@) == views(collections@).filter(is_channel_name()),
{
    let reserved = String::from_str("config");
    let ghost names = views(collections@);
    let mut res: Vec<String> = Vec::new();
    let mut i: usize = 0;
    proof {
        reveal(Seq::filter);
        assert(names.take(0).filter(is_channel_name()) =~= Seq::empty());
        assert(views(res@) =~= Seq::empty());
    }
    while i < collections.len()
        invariant
            i <= collections.len(),
            names == views(collections@),
            reserved@ == config_name(),
            views(res@) == names.take(i as int).filter(is_channel_name()),
        decreases collections.len() - i,
    {
        proof {
            reveal(Seq::filter);
            assert(names.take(i + 1).drop_last() =~= names.take(i as int));
            assert(names.take(i + 1).last() == collections[i as int]@);
        }
        let ghost before = views(res@);
        if !same_text(&collections[i], &reserved) {
            res.push(collections[i].clone());
            assert(views(res@) =~= before.push(collections[i as int]@));
        }
        i += 1;
    }
    assert(names.take(collections.len() as int) =~= names);
    res
}

fn decide_post(
    server: ID,
    channel: String,
    message: Message,
    collections: &Vec<String>,
    open_block: Option<Block>,
    now: u64,
) -> (res: Decision)
    ensures
        res@ == decided_post(
            server@,
            channel@,
            message@,
            DocumentsView {
                session: None,
                user: None,
                users_named: Seq::empty(),
                config: None,
                collections: views(collections@),
                open_block: view_of(open_block),
                blocks: Seq::empty(),
            },
            now,
        ),
{
    let reserved = String::from_str("config");
    if same_text(&channel, &reserved) || !contains_name(collections, &channel) {
        return refusal(ServerError::BadRequest);
    }
    match open_block {
        Some(mut block) => {
            if !block.add_message(message) {
                return refusal(ServerError::InternalServerError);
            }
            one_write(Response::Success, Write::ReplaceOpenBlock(server, channel, block))
        },
        None => {
            let mut block = Block::new(now);
            block.add_message(message);
            one_write(Response::Success, Write::InsertBlock(server, channel, block))
        },
    }
}

fn decide_with_session(
    tp: RequestType,
    cookie: ID,
    documents: Documents,
    now: u64,
    new_id: ID,
) -> (res: Decision)
    ensures
        res@ == decided_with_session(tp@, cookie@, documents@, now, new_id@),
{
    match tp {
        RequestType::SignOut() => {
            let mut writes: Vec<Write> = Vec::new();
            writes.push(Write::DeleteSession(cookie.clone()));
            writes.push(Write::SetUserStatus(cookie, false));
            let res = Decision { response: Response::Success, writes };
            assert(res@.writes =~= seq![
                WriteView::DeleteSession(cookie@),
                WriteView::SetUserStatus(cookie@, false),
            ]);
            res
        },
        RequestType::NewServer(name) => {
            if !new_id.is_valid() || documents.config.is_some() {
                return refusal(ServerError::InternalServerError);
            }
            let config = ServerConfig::new(name, cookie);
            one_write(Response::ServerCreated(new_id.clone()), Write::InsertConfig(new_id, config))
        },
        RequestType::DeleteServer(server) => {
            if !server.is_valid() {
                return refusal(ServerError::BadRequest);
            }
            let check = check_privilege(&documents.config, &cookie);
            if !check.succeeded() {
                return only(check);
            }
            one_write(Response::Success, Write::DropDatabase(server))
        },
        RequestType::NewChannel(server, name) => {
            if !server.is_valid() {
                return refusal(ServerError::BadRequest);
            }
            let check = check_privilege(&documents.config, &cookie);
            if !check.succeeded() {
                return only(check);
            }
            if contains_name(&documents.collections, &name) {
                return refusal(ServerError::BadRequest);
            }
            let mut block = Block::new(now);
            block.add_message(
                Message::new(String::from_str("channel created..."), String::from_str("SERVER")),
            );
            one_write(Response::Success, Write::InsertBlock(server, name, block))
        },
        RequestType::DeleteChannel(server, name) => {
            if !server.is_valid() {
                return refusal(ServerError::BadRequest);
            }
            let check = check_privilege(&documents.config, &cookie);
            if !check.succeeded() {
                return only(check);
            }
            let reserved = String::from_str("config");
            if same_text(&name, &reserved) || !contains_name(&documents.collections, &name) {
                return refusal(ServerError::BadRequest);
            }
            one_write(Response::Success, Write::DropCollection(server, name))
        },
        RequestType::GetChannels(server) => {
            if !server.is_valid() {
                return refusal(ServerError::BadRequest);
            }
            let check = check_membership(&documents.config, &cookie);
            if !check.succeeded() {
                return only(check);
            }
            only(Response::ChannelList(channel_names(&documents.collections)))
        },
        RequestType::SendMessage(server, channel, content) => {
            if !server.is_valid() {
                return refusal(ServerError::BadRequest);
            }
            let author = match documents.user {
                None => {
                    return refusal(ServerError::InternalServerError);
                },
                Some(user) => user.username,
            };
            let check = check_membership(&documents.config, &cookie);
            if !check.succeeded() {
                return only(check);
            }
            decide_post(
                server,
                channel,
                Message::new(content, author),
                &documents.collections,
                documents.open_block,
                now,
            )
        },
        RequestType::GetMessages(server, _channel, block) => {
            if !server.is_valid() {
                return refusal(ServerError::BadRequest);
            }
            let check = check_membership(&documents.config, &cookie);
            if !check.succeeded() {
                return only(check);
            }
            let index: usize = block as usize;
            if index >= documents.blocks.len() {
                return only(Response::EndOfChannel);
            }
            assert(views(documents.blocks@)[index as int] == documents.blocks[index as int]@);
            only(Response::MessagesFound(documents.blocks[index].messages()))
        },
        _ => refusal(ServerError::InternalServerError),
    }
}

/// Decides `request`, which arrived at `now`, from what the document store answered
/// to its look-ups: the response to send, and the changes that the store is to make.
/// `new_id` is the identifier at hand for what the request may create.
pub fn decide(request: Request, documents: Documents, now: u64, new_id: ID) -> (res: Decision)
    ensures
        res@ == decided(request@, documents@, now, new_id@),
{
    match request.tp {
        RequestType::Ping(text) => only(Response::Pong(text)),
        RequestType::SignUp(username, password) => {
            if documents.users_named.len() > 0 {
                return refusal(ServerError::BadRequest);
            }
            if !new_id.is_valid() || documents.user.is_some() {
                return refusal(ServerError::InternalServerError);
            }
            let user = SensitiveUser::new(new_id.clone(), true, username, password, Vec::new());
            let mut writes: Vec<Write> = Vec::new();
            writes.push(Write::InsertUser(user));
            assert(views(writes@) =~= seq![
                WriteView::InsertUser(
                    SensitiveUserView {
                        id: new_id@,
                        is_online: true,
                        username: username@,
                        password: password@,
                        servers: Seq::empty(),
                    },
                ),
            ]) by {
                assert(user@.servers =~= Seq::empty());
            }
            push_start_writes(&mut writes, new_id.clone(), &documents.session, now);
            Decision { response: Response::SessionCreated(new_id), writes }
        },
        RequestType::SignIn(username, password, id) => {
            if !id.is_valid() {
                return refusal(ServerError::BadRequest);
            }
            let matches = match &documents.user {
                Some(user) => user.check_credentials(password.as_str(), username.as_str()),
                None => false,
            };
            if !matches {
                return refusal(ServerError::InvalidCredentials);
            }
            let mut writes: Vec<Write> = Vec::new();
            writes.push(Write::SetUserStatus(id.clone(), true));
            assert(views(writes@) =~= seq![WriteView::SetUserStatus(id@, true)]);
            push_start_writes(&mut writes, id, &documents.session, now);
            Decision { response: Response::Success, writes }
        },
        tp => {
            match request.session_cookie {
                None => {
                    match tp {
                        RequestType::SignOut() => refusal(ServerError::BadRequest),
                        _ => refusal(ServerError::PermissionDenied),
                    }
                },
                Some(cookie) => {
                    let check = check_gate(&cookie, &documents.session, now);
                    match check {
                        Response::Success => decide_with_session(
                            tp,
                            cookie,
                            documents,
                            now,
                            new_id,
                        ),
                        Response::Error(ServerError::SessionExpired) => one_write(
                            check,
                            Write::DeleteSession(cookie),
                        ),
                        _ => only(check),
                    }
                },
            }
        },
    }
}

/// What there is to look up for what a connection brought: what the request needs, and
/// nothing where no request could be read.
pub fn needs(received: &Option<Request>, new_id: &ID) -> (res: Reads)
    ensures
        res@ == match *received {
            Some(request) => reads_of(request@, new_id@),
            None => ReadsView::nothing(),
        },
{
    match received {
        Some(request) => reads(request, new_id),
        None => nothing(),
    }
}

/// Decides what a connection brought: a request as `decide` decides it; where none could
/// be read, a bad request that changes nothing.
pub fn answer(received: Option<Request>, documents: Documents, now: u64, new_id: ID) -> (res:
    Decision)
    ensures
        res@ == match received {
            Some(request) => decided(request@, documents@, now, new_id@),
            None => DecisionView::refusal(ServerError::BadRequest),
        },
{
    match received {
        Some(request) => decide(request, documents, now, new_id),
        None => refusal(ServerError::BadRequest),
    }
}

} // verus!
