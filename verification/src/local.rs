//! The stores at hand as a document store: they answer look-ups and make changes, and
//! what is decided from their answers is what they answer and do themselves.

use vstd::prelude::*;

use crate::dispatch::{advance, needs_cookie, respond, state_of, State};
use crate::error::ServerError;
use crate::exchange::{
    decide, decided, decided_with_session, gate_of, is_channel_name, reads, reads_of, start_writes,
    DecisionView, Documents, DocumentsView, Reads, ReadsView, Write, WriteView,
};
use crate::handler::{after_gate, gate, Handler};
use crate::id::{is_id, ID};
use crate::keyed::distinct_keys;
use crate::messages::{
    views, MessageView, Request, RequestTypeView, RequestView, Response, ResponseView,
};
use crate::server_handler::{config_name, opening_message, BlockView, ServerConfigView};
use crate::server_store::{
    accepts_block, blocks_of, channel_key, collection_names, has_open_block, lemma_channel_names,
    storable, store_wf, with_block, with_open_block, ServerStore, ServerView,
};
use crate::session::{after_start, expired, SessionView};
use crate::user::{
    create_error, has_user, is_named, name_taken, publicly, user_key, user_of, with_status,
    SensitiveUserView,
};

verus! {

/// What a document store in the given state answers to the look-ups.
pub open spec fn documents_of(state: State, reads: ReadsView) -> DocumentsView {
    DocumentsView {
        session: match reads.session {
            Some(id) => if state.sessions.contains_key(id) {
                Some(SessionView { id, start: state.sessions[id] })
            } else {
                None
            },
            None => None,
        },
        user: match reads.user {
            Some(id) => if has_user(state.users, id) {
                Some(user_of(state.users, id))
            } else {
                None
            },
            None => None,
        },
        users_named: match reads.users_named {
            Some(name) => state.users.filter(is_named(name)).map_values(publicly()),
            None => Seq::empty(),
        },
        config: match reads.config {
            Some(server) => if state.servers.contains_key(server) {
                Some(state.servers[server].config)
            } else {
                None
            },
            None => None,
        },
        collections: match reads.collections {
            Some(server) => collection_names(state.servers, server),
            None => Seq::empty(),
        },
        open_block: match reads.open_block {
            Some(place) => if has_open_block(state.servers, place.0, place.1) {
                Some(state.servers[place.0].channel(place.1).blocks.last())
            } else {
                None
            },
            None => None,
        },
        blocks: match reads.blocks {
            Some(place) => blocks_of(state.servers, place.0, place.1),
            None => Seq::empty(),
        },
    }
}

/// The state after a document store in the given state made the change. A change that
/// the store cannot make leaves the state as it is.
pub open spec fn applied(state: State, write: WriteView) -> State {
    match write {
        WriteView::InsertSession(session) => if state.sessions.contains_key(session.id) {
            state
        } else {
            State { sessions: state.sessions.insert(session.id, session.start), ..state }
        },
        WriteView::DeleteSession(id) => State { sessions: state.sessions.remove(id), ..state },
        WriteView::InsertUser(user) => if create_error(state.users, user.username, user.id)
            is None {
            State { users: state.users.push(user), ..state }
        } else {
            state
        },
        WriteView::SetUserStatus(id, status) => State {
            users: with_status(state.users, id, status),
            ..state
        },
        WriteView::InsertConfig(server, config) => if !state.servers.contains_key(server)
            && config.wf() {
            State {
                servers: state.servers.insert(
                    server,
                    ServerView { config, channels: Seq::empty() },
                ),
                ..state
            }
        } else {
            state
        },
        WriteView::DropDatabase(server) => State { servers: state.servers.remove(server), ..state },
        WriteView::InsertBlock(server, channel, block) => if accepts_block(
            state.servers,
            server,
            channel,
            block,
        ) {
            State { servers: with_block(state.servers, server, channel, block), ..state }
        } else {
            state
        },
        WriteView::ReplaceOpenBlock(server, channel, block) => if has_open_block(
            state.servers,
            server,
            channel,
        ) && storable(block) {
            State { servers: with_open_block(state.servers, server, channel, block), ..state }
        } else {
            state
        },
        WriteView::DropCollection(server, channel) => if state.servers.contains_key(server)
            && state.servers[server].has_channel(channel) {
            State {
                servers: state.servers.insert(
                    server,
                    state.servers[server].without_channel(channel),
                ),
                ..state
            }
        } else {
            state
        },
    }
}

/// The state after the changes were made one after the other.
pub open spec fn replay(state: State, writes: Seq<WriteView>) -> State
    decreases writes.len(),
{
    if writes.len() == 0 {
        state
    } else {
        replay(applied(state, writes[0]), writes.drop_first())
    }
}

/// The states that the stores can be in: the guilds are well formed, and no two users
/// share an identifier.
pub open spec fn state_wf(state: State) -> bool {
    store_wf(state.servers) && distinct_keys(state.users, user_key())
}

/// What the stores at hand answer to the look-ups.
pub fn read(store: &ServerStore, handler: &Handler, reads: &Reads) -> (res: Documents)
    requires
        handler.wf(),
        store.wf(),
    ensures
        res@ == documents_of(state_of(handler, store), reads@),
{
    let res = Documents {
        session: match &reads.session {
            Some(id) => handler.session_handler.find_one(id),
            None => None,
        },
        user: match &reads.user {
            Some(id) => handler.user_handler.get_user_sensitive(id),
            None => None,
        },
        users_named: match &reads.users_named {
            Some(name) => handler.user_handler.find_user_by_name(name.clone()),
            None => Vec::new(),
        },
        config: match &reads.config {
            Some(server) => store.find_config(server),
            None => None,
        },
        collections: match &reads.collections {
            Some(server) => store.list_collection_names(server),
            None => Vec::new(),
        },
        open_block: match &reads.open_block {
            Some(place) => store.find_open_block(&place.0, &place.1),
            None => None,
        },
        blocks: match &reads.blocks {
            Some(place) => store.find_blocks(&place.0, &place.1),
            None => Vec::new(),
        },
    };
    proof {
        let expected = documents_of(state_of(handler, store), reads@);
        assert(res@.users_named =~= expected.users_named);
        assert(res@.collections =~= expected.collections);
        assert(res@.blocks =~= expected.blocks);
    }
    res
}

/// Makes the change in the stores at hand, as far as they can make it.
pub fn apply(store: &mut ServerStore, handler: &mut Handler, write: Write)
    requires
        old(handler).wf(),
        old(store).wf(),
    ensures
        final(handler).wf(),
        final(store).wf(),
        state_of(final(handler), final(store)) == applied(
            state_of(old(handler), old(store)),
            write@,
        ),
{
    match write {
        Write::InsertSession(session) => {
            handler.session_handler.insert_one(session);
        },
        Write::DeleteSession(id) => {
            handler.session_handler.end_session(&id);
        },
        Write::InsertUser(user) => {
            handler.user_handler.insert_one(user);
        },
        Write::SetUserStatus(id, status) => {
            handler.user_handler.set_user_status(&id, status);
        },
        Write::InsertConfig(server, config) => {
            store.insert_config(server, config);
        },
        Write::DropDatabase(server) => {
            store.drop_database(&server);
        },
        Write::InsertBlock(server, channel, block) => {
            store.insert_block(&server, &channel, block);
        },
        Write::ReplaceOpenBlock(server, channel, block) => {
            store.replace_open_block(&server, &channel, block);
        },
        Write::DropCollection(server, channel) => {
            store.drop_collection(&server, &channel);
        },
    }
}

/// Makes the changes in the stores at hand, one after the other.
pub fn apply_all(store: &mut ServerStore, handler: &mut Handler, writes: Vec<Write>)
    requires
        old(handler).wf(),
        old(store).wf(),
    ensures
        final(handler).wf(),
        final(store).wf(),
        state_of(final(handler), final(store)) == replay(
            state_of(old(handler), old(store)),
            views(writes@),
        ),
{
    let mut writes = writes;
    let ghost all = views(writes@);
    while writes.len() > 0
        invariant
            handler.wf(),
            store.wf(),
            replay(state_of(handler, store), views(writes@)) == replay(
                state_of(old(handler), old(store)),
                all,
            ),
        decreases writes.len(),
    {
        let ghost remaining = views(writes@);
        let write = writes.remove(0);
        assert(views(writes@) =~= remaining.drop_first());
        assert(write@ == remaining[0]);
        apply(store, handler, write);
    }
}

/// Some user has a name exactly when the users of that name are not none.
pub proof fn lemma_users_named(users: Seq<SensitiveUserView>, username: Seq<char>)
    ensures
        users.filter(is_named(username)).len() > 0 <==> name_taken(users, username),
    decreases users.len(),
{
    reveal(Seq::filter);
    if users.len() > 0 {
        let before = users.drop_last();
        lemma_users_named(before, username);
        if name_taken(before, username) {
            let i = choose|i: int| 0 <= i < before.len() && (#[trigger] before[i]).username == username;
            assert(users[i].username == username);
        }
        if name_taken(users, username) && users.last().username != username {
            let i = choose|i: int| 0 <= i < users.len() && (#[trigger] users[i]).username == username;
            assert(before[i].username == username);
        }
        if users.last().username == username {
            assert(users[users.len() - 1].username == username);
        }
    }
}

/// A name is among the collections of a guild exactly when it is the name of the
/// settings collection or that of a channel.
pub proof fn lemma_collections(
    store: Map<Seq<char>, ServerView>,
    server: Seq<char>,
    name: Seq<char>,
)
    requires
        store.contains_key(server),
    ensures
        collection_names(store, server).contains(name) <==> (name == config_name()
            || store[server].has_channel(name)),
{
    let guild = store[server];
    let all = collection_names(store, server);
    lemma_channel_names(guild, name);
    if all.contains(name) {
        let i = choose|i: int| 0 <= i < all.len() && all[i] == name;
        if i > 0 {
            assert(guild.channel_names()[i - 1] == name);
        }
    }
    if name == config_name() {
        assert(all[0] == name);
    }
    if guild.channel_names().contains(name) {
        let i = choose|i: int|
            0 <= i < guild.channel_names().len() && guild.channel_names()[i] == name;
        assert(all[i + 1] == name);
    }
}

proof fn lemma_filter_all(names: Seq<Seq<char>>)
    requires
        forall|i: int| 0 <= i < names.len() ==> #[trigger] names[i] != config_name(),
    ensures
        names.filter(is_channel_name()) == names,
    decreases names.len(),
{
    reveal(Seq::filter);
    if names.len() > 0 {
        let before = names.drop_last();
        assert forall|i: int| 0 <= i < before.len() implies #[trigger] before[i]
            != config_name() by {
            assert(before[i] == names[i]);
        }
        lemma_filter_all(before);
        assert(names[names.len() - 1] != config_name());
        assert(before.push(names.last()) =~= names);
    } else {
        assert(names.filter(is_channel_name()) =~= names);
    }
}

/// The collections of a well-formed guild that are not the settings collection are its
/// channels.
pub proof fn lemma_channels_of_collections(store: Map<Seq<char>, ServerView>, server: Seq<char>)
    requires
        store_wf(store),
        store.contains_key(server),
    ensures
        collection_names(store, server).filter(is_channel_name())
            == store[server].channel_names(),
{
    reveal(Seq::filter);
    let guild = store[server];
    let names = guild.channel_names();
    assert(guild.wf());
    assert forall|i: int| 0 <= i < names.len() implies #[trigger] names[i] != config_name() by {
        if names[i] == config_name() {
            assert(channel_key()(guild.channels[i]) == config_name());
        }
    }
    lemma_filter_all(names);
    let first = seq![config_name()];
    assert(first.drop_last() =~= Seq::empty());
    assert(Seq::<Seq<char>>::empty().filter(is_channel_name()) =~= Seq::empty());
    assert(!is_channel_name()(first.last()));
    assert(first.filter(is_channel_name()) =~= Seq::empty());
    Seq::filter_distributes_over_add(first, names, is_channel_name());
    assert(Seq::<Seq<char>>::empty() + names =~= names);
}

proof fn lemma_replay_none(state: State)
    ensures
        replay(state, Seq::empty()) == state,
{
}

proof fn lemma_replay_one(state: State, first: WriteView)
    ensures
        replay(state, seq![first]) == applied(state, first),
{
    assert(seq![first].drop_first() =~= Seq::empty());
    assert(seq![first][0] == first);
    lemma_replay_none(applied(state, first));
}

proof fn lemma_replay_first(state: State, first: WriteView, rest: Seq<WriteView>)
    ensures
        replay(state, seq![first] + rest) == replay(applied(state, first), rest),
{
    assert((seq![first] + rest).drop_first() =~= rest);
    assert((seq![first] + rest)[0] == first);
}

proof fn lemma_replay_two(state: State, first: WriteView, second: WriteView)
    ensures
        replay(state, seq![first, second]) == applied(applied(state, first), second),
{
    assert(seq![first, second] =~= seq![first] + seq![second]);
    lemma_replay_first(state, first, seq![second]);
    lemma_replay_one(applied(state, first), second);
}

/// The changes that start a session leave the sessions as a start of the session
/// leaves them, and touch nothing else.
proof fn lemma_start_writes(state: State, id: Seq<char>, now: u64)
    ensures
        replay(
            state,
            start_writes(
                id,
                documents_of(state, ReadsView { session: Some(id), ..ReadsView::nothing() }).session,
                now,
            ),
        ) == (State { sessions: after_start(state.sessions, id, now), ..state }),
{
    let session = documents_of(
        state,
        ReadsView { session: Some(id), ..ReadsView::nothing() },
    ).session;
    let started = WriteView::InsertSession(SessionView { id, start: now });
    let after = State { sessions: after_start(state.sessions, id, now), ..state };
    match session {
        None => {
            lemma_replay_one(state, started);
        },
        Some(found) => {
            if expired(found.start, now) {
                lemma_replay_two(state, WriteView::DeleteSession(id), started);
                assert(state.sessions.remove(id).insert(id, now) =~= state.sessions.insert(id, now));
            } else {
                lemma_replay_none(state);
                assert(after.sessions =~= state.sessions);
            }
        },
    }
}

/// Whether a decision is what the stores at hand would answer and do themselves.
pub open spec fn agrees(
    decision: DecisionView,
    state: State,
    request: RequestView,
    now: u64,
    new_id: Seq<char>,
) -> bool {
    &&& decision.response == respond(state, request, now, new_id)
    &&& replay(state, decision.writes) == advance(state, request, now, new_id)
}

/// The decision of `request` from what a store in `state` answers.
pub open spec fn decided_in(
    state: State,
    request: RequestView,
    now: u64,
    new_id: Seq<char>,
) -> DecisionView {
    decided(request, documents_of(state, reads_of(request, new_id)), now, new_id)
}

proof fn lemma_decided_signup(
    state: State,
    username: Seq<char>,
    password: Seq<char>,
    cookie: Option<Seq<char>>,
    now: u64,
    new_id: Seq<char>,
)
    requires
        state_wf(state),
    ensures
        agrees(
            decided_in(
                state,
                RequestView {
                    tp: RequestTypeView::SignUp(username, password),
                    session_cookie: cookie,
                },
                now,
                new_id,
            ),
            state,
            RequestView { tp: RequestTypeView::SignUp(username, password), session_cookie: cookie },
            now,
            new_id,
        ),
{
    let request = RequestView {
        tp: RequestTypeView::SignUp(username, password),
        session_cookie: cookie,
    };
    let documents = documents_of(state, reads_of(request, new_id));
    let decision = decided_in(state, request, now, new_id);
    lemma_users_named(state.users, username);
    assert(documents.users_named.len() == state.users.filter(is_named(username)).len());
    if create_error(state.users, username, new_id) is None {
        let user = SensitiveUserView {
            id: new_id,
            is_online: true,
            username,
            password,
            servers: Seq::empty(),
        };
        let created = applied(state, WriteView::InsertUser(user));
        lemma_replay_first(
            state,
            WriteView::InsertUser(user),
            start_writes(new_id, documents.session, now),
        );
        lemma_start_writes(created, new_id, now);
    } else {
        lemma_replay_none(state);
    }
}

proof fn lemma_decided_signin(
    state: State,
    username: Seq<char>,
    password: Seq<char>,
    id: Seq<char>,
    cookie: Option<Seq<char>>,
    now: u64,
    new_id: Seq<char>,
)
    requires
        state_wf(state),
    ensures
        agrees(
            decided_in(
                state,
                RequestView {
                    tp: RequestTypeView::SignIn(username, password, id),
                    session_cookie: cookie,
                },
                now,
                new_id,
            ),
            state,
            RequestView {
                tp: RequestTypeView::SignIn(username, password, id),
                session_cookie: cookie,
            },
            now,
            new_id,
        ),
{
    let request = RequestView {
        tp: RequestTypeView::SignIn(username, password, id),
        session_cookie: cookie,
    };
    let documents = documents_of(state, reads_of(request, new_id));
    let decision = decided_in(state, request, now, new_id);
    if decision.response is Success {
        let online = applied(state, WriteView::SetUserStatus(id, true));
        lemma_replay_first(
            state,
            WriteView::SetUserStatus(id, true),
            start_writes(id, documents.session, now),
        );
        lemma_start_writes(online, id, now);
    } else {
        lemma_replay_none(state);
    }
}

/// What the cookie's check says of the session found is what the sessions say, and a
/// request that the check stops is decided as the stores at hand would.
proof fn lemma_gate(
    state: State,
    request: RequestView,
    cookie: Seq<char>,
    now: u64,
    new_id: Seq<char>,
)
    requires
        needs_cookie(request.tp),
        request.session_cookie == Some(cookie),
    ensures
        gate_of(cookie, documents_of(state, reads_of(request, new_id)).session, now) == gate(
            state.sessions,
            cookie,
            now,
        ),
        !(gate(state.sessions, cookie, now) is Success) ==> agrees(
            decided_in(state, request, now, new_id),
            state,
            request,
            now,
            new_id,
        ),
        gate(state.sessions, cookie, now) is Success ==> after_gate(state.sessions, cookie, now)
            == state.sessions,
{
    let documents = documents_of(state, reads_of(request, new_id));
    let check = gate(state.sessions, cookie, now);
    if !(check is Success) {
        if check == ResponseView::Error(ServerError::SessionExpired) {
            lemma_replay_one(state, WriteView::DeleteSession(cookie));
        } else {
            lemma_replay_none(state);
        }
    }
}

/// A request whose cookie passes the check is decided as the stores at hand would.
proof fn lemma_decided_with_session(
    state: State,
    request: RequestView,
    cookie: Seq<char>,
    now: u64,
    new_id: Seq<char>,
)
    requires
        state_wf(state),
        needs_cookie(request.tp),
        request.session_cookie == Some(cookie),
        gate(state.sessions, cookie, now) is Success,
    ensures
        agrees(decided_in(state, request, now, new_id), state, request, now, new_id),
{
    lemma_gate(state, request, cookie, now, new_id);
    let documents = documents_of(state, reads_of(request, new_id));
    let decision = decided_in(state, request, now, new_id);
    let servers = state.servers;
    assert(decision == decided_with_session(request.tp, cookie, documents, now, new_id));
    assert(decision.writes.len() == 0 ==> replay(state, decision.writes) == state);
    match request.tp {
        RequestTypeView::SignOut => {
            lemma_replay_two(
                state,
                WriteView::DeleteSession(cookie),
                WriteView::SetUserStatus(cookie, false),
            );
        },
        RequestTypeView::NewServer(name) => {
            let config = ServerConfigView { name, admins: seq![cookie], users: seq![cookie] };
            assert(config.users[0] == cookie);
            assert(config.wf());
            lemma_replay_one(state, WriteView::InsertConfig(new_id, config));
        },
        RequestTypeView::DeleteServer(server) => {
            lemma_replay_one(state, WriteView::DropDatabase(server));
        },
        RequestTypeView::NewChannel(server, name) => {
            if is_id(server) && servers.contains_key(server) {
                lemma_collections(servers, server, name);
                let block = BlockView::empty(now).with_message(opening_message());
                assert(block.messages =~= seq![opening_message()]);
                lemma_replay_one(state, WriteView::InsertBlock(server, name, block));
            }
        },
        RequestTypeView::DeleteChannel(server, name) => {
            if is_id(server) && servers.contains_key(server) {
                lemma_collections(servers, server, name);
                assert(servers[server].wf());
                lemma_replay_one(state, WriteView::DropCollection(server, name));
            }
        },
        RequestTypeView::GetChannels(server) => {
            if is_id(server) && servers.contains_key(server) {
                lemma_channels_of_collections(servers, server);
            }
        },
        RequestTypeView::SendMessage(server, channel, content) => {
            if is_id(server) && servers.contains_key(server) && has_user(state.users, cookie) {
                let guild = servers[server];
                lemma_collections(servers, server, channel);
                lemma_channel_names(guild, channel);
                assert(guild.wf());
                let message = MessageView { content, author: user_of(state.users, cookie).username };
                if guild.has_channel(channel) {
                    let target = guild.channel(channel);
                    assert(guild.channels[guild.place(channel)].wf());
                    let last = target.blocks[target.blocks.len() - 1];
                    assert(last.wf());
                    if last.filled {
                        let block = BlockView::empty(now).with_message(message);
                        assert(block.messages =~= seq![message]);
                        lemma_replay_one(state, WriteView::InsertBlock(server, channel, block));
                    } else {
                        lemma_replay_one(
                            state,
                            WriteView::ReplaceOpenBlock(server, channel, last.with_message(message)),
                        );
                    }
                }
            }
        },
        RequestTypeView::GetMessages(server, channel, block) => {},
        _ => {},
    }
}

/// A decision from what a document store answers is the one that stores in the same
/// state make themselves: the response is the same, and the changes lead to the same
/// state.
pub proof fn lemma_decided(state: State, request: RequestView, now: u64, new_id: Seq<char>)
    requires
        state_wf(state),
    ensures
        agrees(decided_in(state, request, now, new_id), state, request, now, new_id),
{
    match request.tp {
        RequestTypeView::Ping(text) => {
            lemma_replay_none(state);
        },
        RequestTypeView::SignUp(username, password) => {
            lemma_decided_signup(state, username, password, request.session_cookie, now, new_id);
        },
        RequestTypeView::SignIn(username, password, id) => {
            lemma_decided_signin(
                state,
                username,
                password,
                id,
                request.session_cookie,
                now,
                new_id,
            );
        },
        tp => {
            match request.session_cookie {
                None => {
                    lemma_replay_none(state);
                },
                Some(cookie) => {
                    lemma_gate(state, request, cookie, now, new_id);
                    if gate(state.sessions, cookie, now) is Success {
                        lemma_decided_with_session(state, request, cookie, now, new_id);
                    }
                },
            }
        },
    }
}

/// Answers one request as `process_request` does, by the way that a document store
/// elsewhere is served: the look-ups, the decision, the changes.
pub fn serve(
    store: &mut ServerStore,
    request: Request,
    handler: &mut Handler,
    now: u64,
    new_id: ID,
) -> (res: Response)
    requires
        old(handler).wf(),
        old(store).wf(),
    ensures
        final(handler).wf(),
        final(store).wf(),
        res@ == respond(state_of(old(handler), old(store)), request@, now, new_id@),
        state_of(final(handler), final(store)) == advance(
            state_of(old(handler), old(store)),
            request@,
            now,
            new_id@,
        ),
{
    let needed = reads(&request, &new_id);
    let documents = read(store, handler, &needed);
    proof {
        lemma_decided(state_of(handler, store), request@, now, new_id@);
    }
    let decision = decide(request, documents, now, new_id);
    apply_all(store, handler, decision.writes);
    decision.response
}

} // verus!
