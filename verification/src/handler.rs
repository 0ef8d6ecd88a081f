//! The request handler: every request that needs a session is checked against the
//! session of its cookie before the stores are asked to act.

use vstd::prelude::*;

use crate::error::ServerError;
use crate::id::{is_id, ID};
use crate::messages::{MessageView, Response, ResponseView};
use crate::server_handler::{
    after_delete_channel, after_delete_server, after_new_channel, after_new_server,
    after_send_message, delete_channel_response, get_block_response, get_channels_response,
    new_channel_response, new_server_response, privilege, send_message_response, ServerHandler,
};
use crate::server_store::{ServerStore, ServerView};
use crate::session::{after_check, after_start, check_response, SessionHandler};
use crate::user::{
    create_error, credentials_match, has_user, user_of, with_status, SensitiveUserView,
    UserHandler,
};

verus! {

/// What the session cookie `cookie` is answered with at `now` before anything else is
/// looked at: a bad request where it is no identifier or has no session, an expired
/// session where the session has expired, else success.
pub open spec fn gate(sessions: Map<Seq<char>, u64>, cookie: Seq<char>, now: u64) -> ResponseView {
    if !is_id(cookie) {
        ResponseView::Error(ServerError::BadRequest)
    } else {
        check_response(sessions, cookie, now)
    }
}

/// The sessions after the cookie was checked: an expired session is deleted.
pub open spec fn after_gate(sessions: Map<Seq<char>, u64>, cookie: Seq<char>, now: u64) -> Map<
    Seq<char>,
    u64,
> {
    if !is_id(cookie) {
        sessions
    } else {
        after_check(sessions, cookie, now)
    }
}

/// What a request on the guild `server` is answered with: what the cookie's check says
/// unless it passes; a bad request where `server` is no identifier; else `answer`.
pub open spec fn gated(
    sessions: Map<Seq<char>, u64>,
    cookie: Seq<char>,
    server: Seq<char>,
    now: u64,
    answer: ResponseView,
) -> ResponseView {
    if !(gate(sessions, cookie, now) is Success) {
        gate(sessions, cookie, now)
    } else if !is_id(server) {
        ResponseView::Error(ServerError::BadRequest)
    } else {
        answer
    }
}

/// The guilds after a request on the guild `server`: `changed` where the request passed
/// the checks of `gated`, else unchanged.
pub open spec fn gated_store(
    sessions: Map<Seq<char>, u64>,
    cookie: Seq<char>,
    server: Seq<char>,
    now: u64,
    store: Map<Seq<char>, ServerView>,
    changed: Map<Seq<char>, ServerView>,
) -> Map<Seq<char>, ServerView> {
    if gate(sessions, cookie, now) is Success && is_id(server) {
        changed
    } else {
        store
    }
}

/// The answer to a sign-up: the new identifier, or the error that refuses the user.
pub open spec fn signup_response(
    users: Seq<SensitiveUserView>,
    username: Seq<char>,
    new_id: Seq<char>,
) -> ResponseView {
    match create_error(users, username, new_id) {
        Some(error) => ResponseView::Error(error),
        None => ResponseView::SessionCreated(new_id),
    }
}

/// The answer to a sign-in: a bad request where `id` is no identifier, invalid
/// credentials where name and password are not those of the user `id`, else success.
pub open spec fn signin_response(
    users: Seq<SensitiveUserView>,
    username: Seq<char>,
    password: Seq<char>,
    id: Seq<char>,
) -> ResponseView {
    if !is_id(id) {
        ResponseView::Error(ServerError::BadRequest)
    } else if !credentials_match(users, id, username, password) {
        ResponseView::Error(ServerError::InvalidCredentials)
    } else {
        ResponseView::Success
    }
}

/// The answer to a post by the user `cookie`: an internal error where the session has no
/// user behind it, else what the guilds answer.
pub open spec fn post_response(
    users: Seq<SensitiveUserView>,
    store: Map<Seq<char>, ServerView>,
    cookie: Seq<char>,
    server: Seq<char>,
    channel: Seq<char>,
) -> ResponseView {
    if !has_user(users, cookie) {
        ResponseView::Error(ServerError::InternalServerError)
    } else {
        send_message_response(store, server, channel, cookie)
    }
}

/// The guilds after a post by the user `cookie`, whose name signs the message.
pub open spec fn after_post(
    users: Seq<SensitiveUserView>,
    store: Map<Seq<char>, ServerView>,
    cookie: Seq<char>,
    server: Seq<char>,
    channel: Seq<char>,
    content: Seq<char>,
    now: u64,
) -> Map<Seq<char>, ServerView> {
    if !has_user(users, cookie) {
        store
    } else {
        after_send_message(
            store,
            server,
            channel,
            cookie,
            MessageView { content, author: user_of(users, cookie).username },
            now,
        )
    }
}

/// The request handler: the session store and the user store that it decides by.
#[derive(Debug)]
pub struct Handler {
    pub session_handler: SessionHandler,
    pub user_handler: UserHandler,
}

impl Handler {
    /// Both stores are well formed.
    pub open spec fn wf(&self) -> bool {
        self.session_handler.wf() && self.user_handler.wf()
    }

    /// The sessions: for each user that has one, the second at which it started.
    pub open spec fn sessions(&self) -> Map<Seq<char>, u64> {
        self.session_handler@
    }

    /// The users, in the order of their creation.
    pub open spec fn users(&self) -> Seq<SensitiveUserView> {
        self.user_handler@
    }

    /// A handler over the two stores.
    pub fn new(session_handler: SessionHandler, user_handler: UserHandler) -> (res: Self)
        ensures
            res.session_handler == session_handler,
            res.user_handler == user_handler,
    {
        Self { session_handler, user_handler }
    }

    /// Creates the user `username` under the identifier `new_id`, online, and starts its
    /// session at `now`.
    pub fn signup(&mut self, username: String, password: String, now: u64, new_id: ID) -> (res:
        Response)
        requires
            old(self).wf(),
        ensures
            final(self).wf(),
            res@ == signup_response(old(self).users(), username@, new_id@),
            res@ is SessionCreated ==> final(self).users() == old(self).users().push(
                SensitiveUserView {
                    id: new_id@,
                    is_online: true,
                    username: username@,
                    password: password@,
                    servers: Seq::empty(),
                },
            ) && final(self).sessions() == after_start(old(self).sessions(), new_id@, now),
            !(res@ is SessionCreated) ==> final(self).users() == old(self).users()
                && final(self).sessions() == old(self).sessions(),
    {
        match self.user_handler.create_new_user(username, password, true, new_id) {
            Err(error) => Response::Error(error),
            Ok(id) => {
                self.session_handler.start_session(id.clone(), now);
                Response::SessionCreated(id)
            },
        }
    }

    /// Signs the user `id` in if name and password are the user's: the user is set
    /// online, and a session starts at `now` unless an active one exists.
    pub fn signin_by_id(&mut self, username: &str, password: &str, id: ID, now: u64) -> (res:
        Response)
        requires
            old(self).wf(),
        ensures
            final(self).wf(),
            res@ == signin_response(old(self).users(), username@, password@, id@),
            res@ is Success ==> final(self).users() == with_status(old(self).users(), id@, true)
                && final(self).sessions() == after_start(old(self).sessions(), id@, now),
            !(res@ is Success) ==> final(self).users() == old(self).users()
                && final(self).sessions() == old(self).sessions(),
    {
        if !id.is_valid() {
            return Response::Error(ServerError::BadRequest);
        }
        if !self.user_handler.check_user_credentials(&id, username, password) {
            return Response::Error(ServerError::InvalidCredentials);
        }
        self.user_handler.set_user_status(&id, true);
        self.session_handler.start_session(id, now);
        Response::Success
    }

    /// Signs the user `id` out if its session is active at `now`: the session is deleted
    /// and the user set offline. Else the answer is what the session's check says, and an
    /// expired session is deleted.
    pub fn signout(&mut self, id: ID, now: u64) -> (res: Response)
        requires
            old(self).wf(),
        ensures
            final(self).wf(),
            res@ == gate(old(self).sessions(), id@, now),
            res@ is Success ==> final(self).sessions() == old(self).sessions().remove(id@)
                && final(self).users() == with_status(old(self).users(), id@, false),
            !(res@ is Success) ==> final(self).sessions() == after_gate(
                old(self).sessions(),
                id@,
                now,
            ) && final(self).users() == old(self).users(),
    {
        let checked = self.authenticate(&id, now);
        if !checked.succeeded() {
            return checked;
        }
        self.session_handler.end_session(&id);
        self.user_handler.set_user_status(&id, false);
        Response::Success
    }

    /// Checks the session cookie `cookie` at `now`; an expired session is deleted.
    pub fn authenticate(&mut self, cookie: &ID, now: u64) -> (res: Response)
        requires
            old(self).wf(),
        ensures
            final(self).wf(),
            res@ == gate(old(self).sessions(), cookie@, now),
            final(self).sessions() == after_gate(old(self).sessions(), cookie@, now),
            final(self).users() == old(self).users(),
    {
        if !cookie.is_valid() {
            return Response::Error(ServerError::BadRequest);
        }
        self.session_handler.check_session_active(cookie, now)
    }

    /// Whether the session cookie `user_id` passes the check at `now`; an expired
    /// session is deleted.
    pub fn is_authenticated(&mut self, user_id: &ID, now: u64) -> (res: bool)
        requires
            old(self).wf(),
        ensures
            final(self).wf(),
            res == (gate(old(self).sessions(), user_id@, now) is Success),
            final(self).sessions() == after_gate(old(self).sessions(), user_id@, now),
            final(self).users() == old(self).users(),
    {
        self.authenticate(user_id, now).succeeded()
    }

    /// Creates the guild `new_id` named `name` for the user of the cookie `user_id`.
    pub fn create_new_server(
        &mut self,
        store: &mut ServerStore,
        user_id: ID,
        name: String,
        now: u64,
        new_id: ID,
    ) -> (res: Response)
        requires
            old(self).wf(),
            old(store).wf(),
        ensures
            final(self).wf(),
            final(store).wf(),
            final(self).users() == old(self).users(),
            final(self).sessions() == after_gate(old(self).sessions(), user_id@, now),
            res@ == (if gate(old(self).sessions(), user_id@, now) is Success {
                new_server_response(old(store)@, new_id@)
            } else {
                gate(old(self).sessions(), user_id@, now)
            }),
            final(store)@ == (if gate(old(self).sessions(), user_id@, now) is Success {
                after_new_server(old(store)@, user_id@, name@, new_id@)
            } else {
                old(store)@
            }),
    {
        let checked = self.authenticate(&user_id, now);
        if !checked.succeeded() {
            return checked;
        }
        ServerHandler::new_server(user_id, store, name, new_id)
    }

    /// Deletes the guild `server_id` for the user of the cookie `user_id`, who must be
    /// one of its admins.
    pub fn delete_server(
        &mut self,
        store: &mut ServerStore,
        user_id: ID,
        server_id: &ID,
        now: u64,
    ) -> (res: Response)
        requires
            old(self).wf(),
            old(store).wf(),
        ensures
            final(self).wf(),
            final(store).wf(),
            final(self).users() == old(self).users(),
            final(self).sessions() == after_gate(old(self).sessions(), user_id@, now),
            res@ == gated(
                old(self).sessions(),
                user_id@,
                server_id@,
                now,
                privilege(old(store)@, server_id@, user_id@),
            ),
            final(store)@ == gated_store(
                old(self).sessions(),
                user_id@,
                server_id@,
                now,
                old(store)@,
                after_delete_server(old(store)@, user_id@, server_id@),
            ),
    {
        let checked = self.authenticate(&user_id, now);
        if !checked.succeeded() {
            return checked;
        }
        if !server_id.is_valid() {
            return Response::Error(ServerError::BadRequest);
        }
        ServerHandler::delete_server(&user_id, store, server_id)
    }

    /// Creates the channel `name` in the guild `server_id` for the user of the cookie
    /// `user_id`, who must be one of the guild's admins.
    pub fn new_channel(
        &mut self,
        store: &mut ServerStore,
        user_id: ID,
        name: &String,
        server_id: &ID,
        now: u64,
    ) -> (res: Response)
        requires
            old(self).wf(),
            old(store).wf(),
        ensures
            final(self).wf(),
            final(store).wf(),
            final(self).users() == old(self).users(),
            final(self).sessions() == after_gate(old(self).sessions(), user_id@, now),
            res@ == gated(
                old(self).sessions(),
                user_id@,
                server_id@,
                now,
                new_channel_response(old(store)@, user_id@, name@, server_id@),
            ),
            final(store)@ == gated_store(
                old(self).sessions(),
                user_id@,
                server_id@,
                now,
                old(store)@,
                after_new_channel(old(store)@, user_id@, name@, server_id@, now),
            ),
    {
        let checked = self.authenticate(&user_id, now);
        if !checked.succeeded() {
            return checked;
        }
        if !server_id.is_valid() {
            return Response::Error(ServerError::BadRequest);
        }
        ServerHandler::new_channel(&user_id, store, name, server_id, now)
    }

    /// Deletes the channel `name` of the guild `server_id` for the user of the cookie
    /// `user_id`, who must be one of the guild's admins.
    pub fn delete_channels(
        &mut self,
        store: &mut ServerStore,
        user_id: ID,
        name: &String,
        server_id: &ID,
        now: u64,
    ) -> (res: Response)
        requires
            old(self).wf(),
            old(store).wf(),
        ensures
            final(self).wf(),
            final(store).wf(),
            final(self).users() == old(self).users(),
            final(self).sessions() == after_gate(old(self).sessions(), user_id@, now),
            res@ == gated(
                old(self).sessions(),
                user_id@,
                server_id@,
                now,
                delete_channel_response(old(store)@, user_id@, name@, server_id@),
            ),
            final(store)@ == gated_store(
                old(self).sessions(),
                user_id@,
                server_id@,
                now,
                old(store)@,
                after_delete_channel(old(store)@, user_id@, name@, server_id@),
            ),
    {
        let checked = self.authenticate(&user_id, now);
        if !checked.succeeded() {
            return checked;
        }
        if !server_id.is_valid() {
            return Response::Error(ServerError::BadRequest);
        }
        ServerHandler::delete_channel(&user_id, store, name, server_id)
    }

    /// The names of the channels of the guild `server_id` for the user of the cookie
    /// `user_id`, who must be one of the guild's members.
    pub fn get_channels(
        &mut self,
        store: &ServerStore,
        user_id: ID,
        server_id: &ID,
        now: u64,
    ) -> (res: Response)
        requires
            old(self).wf(),
            store.wf(),
        ensures
            final(self).wf(),
            final(self).users() == old(self).users(),
            final(self).sessions() == after_gate(old(self).sessions(), user_id@, now),
            res@ == gated(
                old(self).sessions(),
                user_id@,
                server_id@,
                now,
                get_channels_response(store@, server_id@, user_id@),
            ),
    {
        let checked = self.authenticate(&user_id, now);
        if !checked.succeeded() {
            return checked;
        }
        if !server_id.is_valid() {
            return Response::Error(ServerError::BadRequest);
        }
        ServerHandler::get_channels(store, server_id, &user_id)
    }

    /// Posts `message_content` to `channel_name` for the user of the cookie `user_id`,
    /// who must be one of the guild's members and whose name signs the message.
    pub fn send_message(
        &mut self,
        store: &mut ServerStore,
        user_id: ID,
        server_id: &ID,
        channel_name: String,
        message_content: String,
        now: u64,
    ) -> (res: Response)
        requires
            old(self).wf(),
            old(store).wf(),
        ensures
            final(self).wf(),
            final(store).wf(),
            final(self).users() == old(self).users(),
            final(self).sessions() == after_gate(old(self).sessions(), user_id@, now),
            res@ == gated(
                old(self).sessions(),
                user_id@,
                server_id@,
                now,
                post_response(old(self).users(), old(store)@, user_id@, server_id@, channel_name@),
            ),
            final(store)@ == gated_store(
                old(self).sessions(),
                user_id@,
                server_id@,
                now,
                old(store)@,
                after_post(
                    old(self).users(),
                    old(store)@,
                    user_id@,
                    server_id@,
                    channel_name@,
                    message_content@,
                    now,
                ),
            ),
    {
        let checked = self.authenticate(&user_id, now);
        if !checked.succeeded() {
            return checked;
        }
        if !server_id.is_valid() {
            return Response::Error(ServerError::BadRequest);
        }
        let username = match self.user_handler.get_user(&user_id) {
            Some(user) => user.username,
            None => {
                return Response::Error(ServerError::InternalServerError);
            },
        };
        ServerHandler::send_message(
            store,
            server_id,
            &channel_name,
            &user_id,
            message_content,
            username,
            now,
        )
    }

    /// The messages of the block `block_id` of `channel_name` for the user of the cookie
    /// `user_id`, who must be one of the guild's members.
    pub fn get_message_block(
        &mut self,
        store: &ServerStore,
        user_id: ID,
        server_id: &ID,
        channel_name: String,
        block_id: u32,
        now: u64,
    ) -> (res: Response)
        requires
            old(self).wf(),
            store.wf(),
        ensures
            final(self).wf(),
            final(self).users() == old(self).users(),
            final(self).sessions() == after_gate(old(self).sessions(), user_id@, now),
            res@ == gated(
                old(self).sessions(),
                user_id@,
                server_id@,
                now,
                get_block_response(store@, server_id@, channel_name@, user_id@, block_id),
            ),
    {
        let checked = self.authenticate(&user_id, now);
        if !checked.succeeded() {
            return checked;
        }
        if !server_id.is_valid() {
            return Response::Error(ServerError::BadRequest);
        }
        ServerHandler::get_block_content(store, server_id, &channel_name, &user_id, block_id)
    }
}

} // verus!
