//! The answer to a request, with the stores at hand: what is answered, and what the
//! sessions, the users and the guilds are afterwards.

use vstd::prelude::*;

use crate::error::ServerError;
use crate::handler::{
    after_gate, after_post, gate, gated, gated_store, post_response, signin_response,
    signup_response, Handler,
};
use crate::id::ID;
use crate::messages::{Request, RequestType, RequestTypeView, RequestView, Response, ResponseView};
use crate::server_handler::{
    after_delete_channel, after_delete_server, after_new_channel, after_new_server,
    delete_channel_response, get_block_response, get_channels_response, new_channel_response,
    new_server_response, privilege,
};
use crate::server_store::{ServerStore, ServerView};
use crate::session::after_start;
use crate::user::{with_status, SensitiveUserView};

verus! {

/// All that requests are decided by and can change: the sessions, the users and the
/// guilds.
pub struct State {
    pub sessions: Map<Seq<char>, u64>,
    pub users: Seq<SensitiveUserView>,
    pub servers: Map<Seq<char>, ServerView>,
}

/// The state that a handler and a guild store hold between them.
pub open spec fn state_of(handler: &Handler, store: &ServerStore) -> State {
    State { sessions: handler.sessions(), users: handler.users(), servers: store@ }
}

/// Whether a request needs a session cookie.
pub open spec fn needs_cookie(tp: RequestTypeView) -> bool {
    !(tp is Ping || tp is SignUp || tp is SignIn)
}

/// The answer to a request that needs a cookie and has none: a bad request for a
/// sign-out, else a denial.
pub open spec fn without_cookie(tp: RequestTypeView) -> ResponseView {
    if tp is SignOut {
        ResponseView::Error(ServerError::BadRequest)
    } else {
        ResponseView::Error(ServerError::PermissionDenied)
    }
}

/// The answer to a request that carries the cookie `cookie`.
pub open spec fn respond_with_cookie(
    state: State,
    tp: RequestTypeView,
    cookie: Seq<char>,
    now: u64,
    new_id: Seq<char>,
) -> ResponseView {
    match tp {
        RequestTypeView::Ping(text) => ResponseView::Pong(text),
        RequestTypeView::SignUp(username, password) => signup_response(
            state.users,
            username,
            new_id,
        ),
        RequestTypeView::SignIn(username, password, id) => signin_response(
            state.users,
            username,
            password,
            id,
        ),
        RequestTypeView::SignOut => gate(state.sessions, cookie, now),
        RequestTypeView::NewServer(name) => if gate(state.sessions, cookie, now) is Success {
            new_server_response(state.servers, new_id)
        } else {
            gate(state.sessions, cookie, now)
        },
        RequestTypeView::DeleteServer(server) => gated(
            state.sessions,
            cookie,
            server,
            now,
            privilege(state.servers, server, cookie),
        ),
        RequestTypeView::NewChannel(server, name) => gated(
            state.sessions,
            cookie,
            server,
            now,
            new_channel_response(state.servers, cookie, name, server),
        ),
        RequestTypeView::DeleteChannel(server, name) => gated(
            state.sessions,
            cookie,
            server,
            now,
            delete_channel_response(state.servers, cookie, name, server),
        ),
        RequestTypeView::GetChannels(server) => gated(
            state.sessions,
            cookie,
            server,
            now,
            get_channels_response(state.servers, server, cookie),
        ),
        RequestTypeView::SendMessage(server, channel, content) => gated(
            state.sessions,
            cookie,
            server,
            now,
            post_response(state.users, state.servers, cookie, server, channel),
        ),
        RequestTypeView::GetMessages(server, channel, block) => gated(
            state.sessions,
            cookie,
            server,
            now,
            get_block_response(state.servers, server, channel, cookie, block),
        ),
    }
}

/// The one answer to a request that arrives at `now`, where `new_id` is the identifier
/// at hand for what the request may create.
pub open spec fn respond(
    state: State,
    request: RequestView,
    now: u64,
    new_id: Seq<char>,
) -> ResponseView {
    match request.session_cookie {
        None => if needs_cookie(request.tp) {
            without_cookie(request.tp)
        } else {
            respond_with_cookie(state, request.tp, Seq::empty(), now, new_id)
        },
        Some(cookie) => respond_with_cookie(state, request.tp, cookie, now, new_id),
    }
}

/// The state after a request that carries the cookie `cookie`.
pub open spec fn advance_with_cookie(
    state: State,
    tp: RequestTypeView,
    cookie: Seq<char>,
    now: u64,
    new_id: Seq<char>,
) -> State {
    let checked = State { sessions: after_gate(state.sessions, cookie, now), ..state };
    match tp {
        RequestTypeView::Ping(text) => state,
        RequestTypeView::SignUp(username, password) => if signup_response(
            state.users,
            username,
            new_id,
        ) is SessionCreated {
            State {
                sessions: after_start(state.sessions, new_id, now),
                users: state.users.push(
                    SensitiveUserView {
                        id: new_id,
                        is_online: true,
                        username,
                        password,
                        servers: Seq::empty(),
                    },
                ),
                servers: state.servers,
            }
        } else {
            state
        },
        RequestTypeView::SignIn(username, password, id) => if signin_response(
            state.users,
            username,
            password,
            id,
        ) is Success {
            State {
                sessions: after_start(state.sessions, id, now),
                users: with_status(state.users, id, true),
                servers: state.servers,
            }
        } else {
            state
        },
        RequestTypeView::SignOut => if gate(state.sessions, cookie, now) is Success {
            State {
                sessions: state.sessions.remove(cookie),
                users: with_status(state.users, cookie, false),
                servers: state.servers,
            }
        } else {
            checked
        },
        RequestTypeView::NewServer(name) => if gate(state.sessions, cookie, now) is Success {
            State { servers: after_new_server(state.servers, cookie, name, new_id), ..checked }
        } else {
            checked
        },
        RequestTypeView::DeleteServer(server) => State {
            servers: gated_store(
                state.sessions,
                cookie,
                server,
                now,
                state.servers,
                after_delete_server(state.servers, cookie, server),
            ),
            ..checked
        },
        RequestTypeView::NewChannel(server, name) => State {
            servers: gated_store(
                state.sessions,
                cookie,
                server,
                now,
                state.servers,
                after_new_channel(state.servers, cookie, name, server, now),
            ),
            ..checked
        },
        RequestTypeView::DeleteChannel(server, name) => State {
            servers: gated_store(
                state.sessions,
                cookie,
                server,
                now,
                state.servers,
                after_delete_channel(state.servers, cookie, name, server),
            ),
            ..checked
        },
        RequestTypeView::GetChannels(server) => checked,
        RequestTypeView::SendMessage(server, channel, content) => State {
            servers: gated_store(
                state.sessions,
                cookie,
                server,
                now,
                state.servers,
                after_post(state.users, state.servers, cookie, server, channel, content, now),
            ),
            ..checked
        },
        RequestTypeView::GetMessages(server, channel, block) => checked,
    }
}

/// The state after a request.
pub open spec fn advance(state: State, request: RequestView, now: u64, new_id: Seq<char>) -> State {
    match request.session_cookie {
        None => if needs_cookie(request.tp) {
            state
        } else {
            advance_with_cookie(state, request.tp, Seq::empty(), now, new_id)
        },
        Some(cookie) => advance_with_cookie(state, request.tp, cookie, now, new_id),
    }
}

/// Answers one request: matches on its kind, lets the handler check the session cookie
/// where the kind needs one, and lets it act. `now` is the second at which the request
/// arrived; `new_id` is a fresh identifier, used where the request creates a user or a
/// guild.
pub fn process_request(
    store: &mut ServerStore,
    request: Request,
    handler: &mut Handler,
    now: u64,
    new_id: ID,
) -> (res: Response)
    requires
        old(handler).wf(),
        old(store).wf(),
    ensures
        final(handler).wf(),
        final(store).wf(),
        res@ == respond(state_of(old(handler), old(store)), request@, now, new_id@),
        state_of(final(handler), final(store)) == advance(
            state_of(old(handler), old(store)),
            request@,
            now,
            new_id@,
        ),
{
    match request.tp {
        RequestType::Ping(txt) => Response::Pong(txt),
        RequestType::SignUp(username, password) => handler.signup(username, password, now, new_id),
        RequestType::SignIn(username, password, id) => handler.signin_by_id(
            username.as_str(),
            password.as_str(),
            id,
            now,
        ),
        RequestType::SignOut() => match request.session_cookie {
            None => Response::Error(ServerError::BadRequest),
            Some(cookie) => handler.signout(cookie, now),
        },
        RequestType::NewServer(name) => match request.session_cookie {
            None => Response::Error(ServerError::PermissionDenied),
            Some(cookie) => handler.create_new_server(store, cookie, name, now, new_id),
        },
        RequestType::DeleteServer(server_id) => match request.session_cookie {
            None => Response::Error(ServerError::PermissionDenied),
            Some(cookie) => handler.delete_server(store, cookie, &server_id, now),
        },
        RequestType::NewChannel(server_id, name) => match request.session_cookie {
            None => Response::Error(ServerError::PermissionDenied),
            Some(cookie) => handler.new_channel(store, cookie, &name, &server_id, now),
        },
        RequestType::DeleteChannel(server_id, name) => match request.session_cookie {
            None => Response::Error(ServerError::PermissionDenied),
            Some(cookie) => handler.delete_channels(store, cookie, &name, &server_id, now),
        },
        RequestType::GetChannels(server_id) => match request.session_cookie {
            None => Response::Error(ServerError::PermissionDenied),
            Some(cookie) => handler.get_channels(store, cookie, &server_id, now),
        },
        RequestType::SendMessage(server_id, channel_name, message_content) => match request.session_cookie {
            None => Response::Error(ServerError::PermissionDenied),
            Some(cookie) => handler.send_message(
                store,
                cookie,
                &server_id,
                channel_name,
                message_content,
                now,
            ),
        },
        RequestType::GetMessages(server_id, channel_name, block_nr) => match request.session_cookie {
            None => Response::Error(ServerError::PermissionDenied),
            Some(cookie) => handler.get_message_block(
                store,
                cookie,
                &server_id,
                channel_name,
                block_nr,
                now,
            ),
        },
    }
}

/// Serves one connection, of which `request` is what could be read: a request is
/// answered as `process_request` answers it; where none could be read the answer is a
/// bad request, and nothing changes.
pub fn handler_fn(
    store: &mut ServerStore,
    request: Option<Request>,
    handler: &mut Handler,
    now: u64,
    new_id: ID,
) -> (res: Response)
    requires
        old(handler).wf(),
        old(store).wf(),
    ensures
        final(handler).wf(),
        final(store).wf(),
        match request {
            Some(request) => res@ == respond(
                state_of(old(handler), old(store)),
                request@,
                now,
                new_id@,
            ) && state_of(final(handler), final(store)) == advance(
                state_of(old(handler), old(store)),
                request@,
                now,
                new_id@,
            ),
            None => res@ == ResponseView::Error(ServerError::BadRequest) && state_of(
                final(handler),
                final(store),
            ) == state_of(old(handler), old(store)),
        },
{
    match request {
        Some(request) => process_request(store, request, handler, now, new_id),
        None => Response::Error(ServerError::BadRequest),
    }
}

/// Once a cookie was used to sign out, whatever the answer to that was, every later
/// request that needs a cookie and carries this one is a bad request.
pub proof fn lemma_requests_after_signout(
    state: State,
    cookie: Seq<char>,
    now: u64,
    new_id: Seq<char>,
    tp: RequestTypeView,
    later: u64,
    next_id: Seq<char>,
)
    requires
        needs_cookie(tp),
    ensures
        respond(
            advance(
                state,
                RequestView { tp: RequestTypeView::SignOut, session_cookie: Some(cookie) },
                now,
                new_id,
            ),
            RequestView { tp, session_cookie: Some(cookie) },
            later,
            next_id,
        ) == ResponseView::Error(ServerError::BadRequest),
{
}

} // verus!
