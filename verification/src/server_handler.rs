//! Guilds, channels and messages: the operations, each behind a check of the acting
//! user against the guild's settings, and what holds of them.

use vstd::prelude::*;
use vstd::string::*;

use crate::error::ServerError;
use crate::id::ID;
use crate::messages::{views, Message, MessageView, Response, ResponseView};
use crate::server_store::{
    blocks_of, lemma_blocks_chunk_history, lemma_channel_names, lemma_opened_channel,
    lemma_post_extends_history, lemma_with_channel, lemma_with_new_channel, store_wf, ChannelView,
    ServerStore, ServerView,
};
use crate::text::contains_name;

verus! {


/// The number of messages that fill a block.
pub const BLOCK_CAPACITY: usize = 50;

/// The name of the collection that holds a guild's settings; never a channel.
pub open spec fn config_name() -> Seq<char> {
    "config"@
}

/// The line that opens every channel.
pub open spec fn opening_message() -> MessageView {
    MessageView { content: "channel created..."@, author: "SERVER"@ }
}

/// A guild's settings: its display name, its admins and its members.
#[derive(Debug, PartialEq, Eq)]
pub struct ServerConfig {
    name: String,
    admins: Vec<ID>,
    users: Vec<ID>,
}

/// A guild's settings as contracts see them.
pub struct ServerConfigView {
    pub name: Seq<char>,
    pub admins: Seq<Seq<char>>,
    pub users: Seq<Seq<char>>,
}

impl ServerConfigView {
    /// Every admin is also a member.
    pub open spec fn wf(self) -> bool {
        forall|i: int| 0 <= i < self.admins.len() ==> self.users.contains(#[trigger] self.admins[i])
    }
}

impl View for ServerConfig {
    type V = ServerConfigView;

    closed spec fn view(&self) -> ServerConfigView {
        ServerConfigView {
            name: self.name@,
            admins: views(self.admins@),
            users: views(self.users@),
        }
    }
}

fn clone_ids(ids: &Vec<ID>) -> (res: Vec<ID>)
    ensures
        views(res@) == views(ids@),
{
    let mut res: Vec<ID> = Vec::new();
    let mut i: usize = 0;
    while i < ids.len()
        invariant
            i <= ids.len(),
            res.len() == i,
            forall|j: int| 0 <= j < i ==> res[j]@ == ids[j]@,
        decreases ids.len() - i,
    {
        res.push(ids[i].clone());
        i += 1;
    }
    assert(views(res@) =~= views(ids@));
    res
}

fn contains_id(ids: &Vec<ID>, id: &ID) -> (b: bool)
    ensures
        b == views(ids@).contains(id@),
{
    let mut i: usize = 0;
    while i < ids.len()
        invariant
            i <= ids.len(),
            forall|j: int| 0 <= j < i ==> views(ids@)[j] != id@,
        decreases ids.len() - i,
    {
        if ids[i].same(id) {
            assert(views(ids@)[i as int] == id@);
            return true;
        }
        i += 1;
    }
    false
}

impl Clone for ServerConfig {
    fn clone(&self) -> (res: Self)
        ensures
            res@ == self@,
    {
        ServerConfig {
            name: self.name.clone(),
            admins: clone_ids(&self.admins),
            users: clone_ids(&self.users),
        }
    }
}

impl ServerConfig {
    /// The settings of a new guild: its creator is its one admin and its one member.
    pub fn new(name: String, creator: ID) -> (res: Self)
        ensures
            res@ == (ServerConfigView {
                name: name@,
                admins: seq![creator@],
                users: seq![creator@],
            }),
            res@.wf(),
    {
        let mut admins: Vec<ID> = Vec::new();
        let mut users: Vec<ID> = Vec::new();
        admins.push(creator.clone());
        users.push(creator);
        let res = Self { name, admins, users };
        proof {
            assert(res@.admins =~= seq![creator@]);
            assert(res@.users =~= seq![creator@]);
            assert(res@.users[0] == creator@);
        }
        res
    }

    /// Whether every admin is a member.
    pub fn is_well_formed(&self) -> (b: bool)
        ensures
            b == self@.wf(),
    {
        let mut i: usize = 0;
        while i < self.admins.len()
            invariant
                i <= self.admins.len(),
                forall|j: int| 0 <= j < i ==> self@.users.contains(#[trigger] self@.admins[j]),
            decreases self.admins.len() - i,
        {
            assert(self@.admins[i as int] == self.admins[i as int]@);
            if !contains_id(&self.users, &self.admins[i]) {
                return false;
            }
            i += 1;
        }
        true
    }

    /// The settings with the given name, admins and members, if every admin is a member.
    pub fn from_parts(name: String, admins: Vec<ID>, users: Vec<ID>) -> (res: Option<Self>)
        ensures
            res is Some <==> (ServerConfigView {
                name: name@,
                admins: views(admins@),
                users: views(users@),
            }).wf(),
            res matches Some(config) ==> config@ == (ServerConfigView {
                name: name@,
                admins: views(admins@),
                users: views(users@),
            }),
    {
        let config = Self { name, admins, users };
        if config.is_well_formed() {
            Some(config)
        } else {
            None
        }
    }

    /// The admins, in their order.
    pub fn admins(&self) -> (res: Vec<ID>)
        ensures
            views(res@) == self@.admins,
    {
        clone_ids(&self.admins)
    }

    /// The members, in their order.
    pub fn users(&self) -> (res: Vec<ID>)
        ensures
            views(res@) == self@.users,
    {
        clone_ids(&self.users)
    }

    /// Whether the user is one of the admins.
    pub fn is_admin(&self, user_id: &ID) -> (b: bool)
        ensures
            b == self@.admins.contains(user_id@),
    {
        contains_id(&self.admins, user_id)
    }

    /// Whether the user is one of the members.
    pub fn is_user(&self, user_id: &ID) -> (b: bool)
        ensures
            b == self@.users.contains(user_id@),
    {
        contains_id(&self.users, user_id)
    }

    /// The display name.
    pub fn name(&self) -> (res: String)
        ensures
            res@ == self@.name,
    {
        self.name.clone()
    }
}

/// A chunk of a channel's history: up to fifty messages in the order they came.
#[derive(Debug, PartialEq, Eq)]
pub struct Block {
    messages: Vec<Message>,
    time_stamp: u64,
    filled: bool,
}

/// A block as contracts see it.
pub struct BlockView {
    pub messages: Seq<MessageView>,
    pub time_stamp: u64,
    pub filled: bool,
}

impl BlockView {
    /// A block holds at most fifty messages and is marked filled exactly when it holds fifty.
    pub open spec fn wf(self) -> bool {
        &&& self.messages.len() <= BLOCK_CAPACITY
        &&& self.filled <==> self.messages.len() == BLOCK_CAPACITY
    }

    /// The block with one more message, marked filled if that message is its fiftieth.
    pub open spec fn with_message(self, message: MessageView) -> BlockView {
        BlockView {
            messages: self.messages.push(message),
            time_stamp: self.time_stamp,
            filled: self.filled || self.messages.len() + 1 == BLOCK_CAPACITY,
        }
    }

    /// The empty block made at `now`.
    pub open spec fn empty(now: u64) -> BlockView {
        BlockView { messages: Seq::empty(), time_stamp: now, filled: false }
    }
}

impl View for Block {
    type V = BlockView;

    closed spec fn view(&self) -> BlockView {
        BlockView {
            messages: views(self.messages@),
            time_stamp: self.time_stamp,
            filled: self.filled,
        }
    }
}

fn clone_messages(messages: &Vec<Message>) -> (res: Vec<Message>)
    ensures
        views(res@) == views(messages@),
{
    let mut res: Vec<Message> = Vec::new();
    let mut i: usize = 0;
    while i < messages.len()
        invariant
            i <= messages.len(),
            res.len() == i,
            forall|j: int| 0 <= j < i ==> res[j]@ == messages[j]@,
        decreases messages.len() - i,
    {
        res.push(messages[i].clone());
        i += 1;
    }
    assert(views(res@) =~= views(messages@));
    res
}

impl Clone for Block {
    fn clone(&self) -> (res: Self)
        ensures
            res@ == self@,
    {
        Block {
            messages: clone_messages(&self.messages),
            time_stamp: self.time_stamp,
            filled: self.filled,
        }
    }
}

impl Block {
    /// An empty block that records `now` as the time of its creation.
    pub fn new(now: u64) -> (res: Self)
        ensures
            res@ == BlockView::empty(now),
            res@.wf(),
    {
        let res = Self { messages: Vec::new(), time_stamp: now, filled: false };
        assert(res@.messages =~= Seq::empty());
        res
    }

    /// The block with the given messages, time of creation and mark.
    pub fn from_parts(messages: Vec<Message>, time_stamp: u64, filled: bool) -> (res: Self)
        ensures
            res@ == (BlockView { messages: views(messages@), time_stamp, filled }),
    {
        Self { messages, time_stamp, filled }
    }

    /// Appends `message` unless the block already holds fifty, and says whether it did.
    /// The fiftieth message marks the block filled.
    pub fn add_message(&mut self, message: Message) -> (added: bool)
        ensures
            added == (old(self)@.messages.len() < BLOCK_CAPACITY),
            added ==> final(self)@ == old(self)@.with_message(message@),
            !added ==> final(self)@ == old(self)@,
            old(self)@.wf() ==> final(self)@.wf(),
    {
        if self.messages.len() >= BLOCK_CAPACITY {
            return false;
        }
        self.messages.push(message);
        if self.messages.len() == BLOCK_CAPACITY {
            self.filled = true
        };
        assert(self@.messages =~= old(self)@.messages.push(message@));
        true
    }

    /// The block's messages, oldest first.
    pub fn messages(&self) -> (res: Vec<Message>)
        ensures
            views(res@) == self@.messages,
    {
        clone_messages(&self.messages)
    }

    /// Whether the block is marked filled.
    pub fn is_filled(&self) -> (b: bool)
        ensures
            b == self@.filled,
    {
        self.filled
    }

    /// The number of messages in the block.
    pub fn len(&self) -> (n: usize)
        ensures
            n == self@.messages.len(),
    {
        self.messages.len()
    }

    /// The second at which the block was created.
    pub fn time_stamp(&self) -> (t: u64)
        ensures
            t == self@.time_stamp,
    {
        self.time_stamp
    }
}

/// The privilege check: a guild that does not exist is a bad request, a user who is not
/// one of its admins is denied, an admin passes.
pub open spec fn privilege(
    store: Map<Seq<char>, ServerView>,
    server: Seq<char>,
    user: Seq<char>,
) -> ResponseView {
    if !store.contains_key(server) {
        ResponseView::Error(ServerError::BadRequest)
    } else if !store[server].config.admins.contains(user) {
        ResponseView::Error(ServerError::PermissionDenied)
    } else {
        ResponseView::Success
    }
}

/// The membership check: as the privilege check, over the guild's members.
pub open spec fn membership(
    store: Map<Seq<char>, ServerView>,
    server: Seq<char>,
    user: Seq<char>,
) -> ResponseView {
    if !store.contains_key(server) {
        ResponseView::Error(ServerError::BadRequest)
    } else if !store[server].config.users.contains(user) {
        ResponseView::Error(ServerError::PermissionDenied)
    } else {
        ResponseView::Success
    }
}

/// The guild that `creator` founds under the display name `name`.
pub open spec fn founded(creator: Seq<char>, name: Seq<char>) -> ServerView {
    ServerView {
        config: ServerConfigView { name, admins: seq![creator], users: seq![creator] },
        channels: Seq::empty(),
    }
}

/// The answer to the creation of a guild under the identifier `server`: the identifier,
/// unless it is ill-formed or taken.
pub open spec fn new_server_response(
    store: Map<Seq<char>, ServerView>,
    server: Seq<char>,
) -> ResponseView {
    if !crate::id::is_id(server) || store.contains_key(server) {
        ResponseView::Error(ServerError::InternalServerError)
    } else {
        ResponseView::ServerCreated(server)
    }
}

/// The store after the creation of a guild was asked for.
pub open spec fn after_new_server(
    store: Map<Seq<char>, ServerView>,
    creator: Seq<char>,
    name: Seq<char>,
    server: Seq<char>,
) -> Map<Seq<char>, ServerView> {
    if new_server_response(store, server) is ServerCreated {
        store.insert(server, founded(creator, name))
    } else {
        store
    }
}

/// The store after `user` asked for the deletion of the guild `server`.
pub open spec fn after_delete_server(
    store: Map<Seq<char>, ServerView>,
    user: Seq<char>,
    server: Seq<char>,
) -> Map<Seq<char>, ServerView> {
    if privilege(store, server, user) is Success {
        store.remove(server)
    } else {
        store
    }
}

/// The answer to `user` asking for a new channel `name` in the guild `server`: what the
/// privilege check says unless it passes, a bad request where a collection of that name
/// exists (a channel, or the settings collection), else success.
pub open spec fn new_channel_response(
    store: Map<Seq<char>, ServerView>,
    user: Seq<char>,
    name: Seq<char>,
    server: Seq<char>,
) -> ResponseView {
    if !(privilege(store, server, user) is Success) {
        privilege(store, server, user)
    } else if name == config_name() || store[server].has_channel(name) {
        ResponseView::Error(ServerError::BadRequest)
    } else {
        ResponseView::Success
    }
}

/// The store after a new channel was asked for: on success the guild has the channel,
/// opened at `now` with the opening line.
pub open spec fn after_new_channel(
    store: Map<Seq<char>, ServerView>,
    user: Seq<char>,
    name: Seq<char>,
    server: Seq<char>,
    now: u64,
) -> Map<Seq<char>, ServerView> {
    if new_channel_response(store, user, name, server) is Success {
        store.insert(
            server,
            store[server].with_new_channel(ChannelView::opened(name, opening_message(), now)),
        )
    } else {
        store
    }
}

/// The answer to `user` asking for the deletion of the channel `name`: what the privilege
/// check says unless it passes, a bad request where the guild has no such channel, else
/// success.
pub open spec fn delete_channel_response(
    store: Map<Seq<char>, ServerView>,
    user: Seq<char>,
    name: Seq<char>,
    server: Seq<char>,
) -> ResponseView {
    if !(privilege(store, server, user) is Success) {
        privilege(store, server, user)
    } else if !store[server].has_channel(name) {
        ResponseView::Error(ServerError::BadRequest)
    } else {
        ResponseView::Success
    }
}

/// The store after the deletion of a channel was asked for.
pub open spec fn after_delete_channel(
    store: Map<Seq<char>, ServerView>,
    user: Seq<char>,
    name: Seq<char>,
    server: Seq<char>,
) -> Map<Seq<char>, ServerView> {
    if delete_channel_response(store, user, name, server) is Success {
        store.insert(server, store[server].without_channel(name))
    } else {
        store
    }
}

/// The answer to `user` asking for the channels of the guild `server`: what the
/// membership check says unless it passes, else the channels' names in the order of
/// their creation.
pub open spec fn get_channels_response(
    store: Map<Seq<char>, ServerView>,
    server: Seq<char>,
    user: Seq<char>,
) -> ResponseView {
    if !(membership(store, server, user) is Success) {
        membership(store, server, user)
    } else {
        ResponseView::ChannelList(store[server].channel_names())
    }
}

/// The answer to `user` posting to `channel`: what the membership check says unless it
/// passes, a bad request where the guild has no such channel, else success.
pub open spec fn send_message_response(
    store: Map<Seq<char>, ServerView>,
    server: Seq<char>,
    channel: Seq<char>,
    user: Seq<char>,
) -> ResponseView {
    if !(membership(store, server, user) is Success) {
        membership(store, server, user)
    } else if !store[server].has_channel(channel) {
        ResponseView::Error(ServerError::BadRequest)
    } else {
        ResponseView::Success
    }
}

/// The store after a post was asked for: on success the channel has the message as
/// its newest.
pub open spec fn after_send_message(
    store: Map<Seq<char>, ServerView>,
    server: Seq<char>,
    channel: Seq<char>,
    user: Seq<char>,
    message: MessageView,
    now: u64,
) -> Map<Seq<char>, ServerView> {
    if send_message_response(store, server, channel, user) is Success {
        store.insert(
            server,
            store[server].with_channel(store[server].channel(channel).with_message(message, now)),
        )
    } else {
        store
    }
}

/// The answer to `user` asking for the block `block` of `channel`: what the membership
/// check says unless it passes, the end of the channel where the channel has no block of
/// that index, else the block's messages, oldest first.
pub open spec fn get_block_response(
    store: Map<Seq<char>, ServerView>,
    server: Seq<char>,
    channel: Seq<char>,
    user: Seq<char>,
    block: u32,
) -> ResponseView {
    if !(membership(store, server, user) is Success) {
        membership(store, server, user)
    } else if block >= blocks_of(store, server, channel).len() {
        ResponseView::EndOfChannel
    } else {
        ResponseView::MessagesFound(blocks_of(store, server, channel)[block as int].messages)
    }
}

/// The operations on guilds, channels and messages, each gated by a check of the
/// acting user against the guild's settings.
#[derive(Debug, Clone, Copy)]
pub struct ServerHandler;

impl ServerHandler {
    /// Checks that `user_id` is an admin of the guild `server_id`.
    pub fn check_priviledge(store: &ServerStore, server_id: &ID, user_id: &ID) -> (res: Response)
        requires
            store.wf(),
        ensures
            res@ == privilege(store@, server_id@, user_id@),
    {
        match store.find_config(server_id) {
            None => Response::Error(ServerError::BadRequest),
            Some(config) => {
                if !config.is_admin(user_id) {
                    Response::Error(ServerError::PermissionDenied)
                } else {
                    Response::Success
                }
            },
        }
    }

    /// Checks that `user_id` is a member of the guild `server_id`.
    pub fn check_membership(store: &ServerStore, server_id: &ID, user_id: &ID) -> (res: Response)
        requires
            store.wf(),
        ensures
            res@ == membership(store@, server_id@, user_id@),
    {
        match store.find_config(server_id) {
            None => Response::Error(ServerError::BadRequest),
            Some(config) => {
                if !config.is_user(user_id) {
                    Response::Error(ServerError::PermissionDenied)
                } else {
                    Response::Success
                }
            },
        }
    }

    /// Creates the guild `server_id` with the display name `name`; `user_id` becomes
    /// its one admin and member. An identifier that is ill-formed or taken is an
    /// internal error and creates nothing.
    pub fn new_server(user_id: ID, store: &mut ServerStore, name: String, server_id: ID) -> (res:
        Response)
        requires
            old(store).wf(),
        ensures
            final(store).wf(),
            res@ == new_server_response(old(store)@, server_id@),
            final(store)@ == after_new_server(old(store)@, user_id@, name@, server_id@),
    {
        if !server_id.is_valid() {
            return Response::Error(ServerError::InternalServerError);
        }
        let config = ServerConfig::new(name, user_id);
        let created = server_id.clone();
        if store.insert_config(server_id, config) {
            Response::ServerCreated(created)
        } else {
            Response::Error(ServerError::InternalServerError)
        }
    }

    /// Deletes the guild with all its channels if `user_id` is one of its admins.
    pub fn delete_server(user_id: &ID, store: &mut ServerStore, server_id: &ID) -> (res: Response)
        requires
            old(store).wf(),
        ensures
            final(store).wf(),
            res@ == privilege(old(store)@, server_id@, user_id@),
            final(store)@ == after_delete_server(old(store)@, user_id@, server_id@),
    {
        match Self::check_priviledge(store, server_id, user_id) {
            Response::Success => {
                store.drop_database(server_id);
                Response::Success
            },
            Response::Error(e) => Response::Error(e),
            _other => Response::Error(ServerError::InternalServerError),
        }
    }

    /// The display name in the guild's settings; none where the guild does not exist.
    pub fn get_server_name_by_id(store: &ServerStore, server_id: &ID) -> (res: Option<String>)
        requires
            store.wf(),
        ensures
            res is Some <==> store@.contains_key(server_id@),
            res is Some ==> res->0@ == store@[server_id@].config.name,
    {
        match store.find_config(server_id) {
            None => None,
            Some(config) => Some(config.name()),
        }
    }

    /// Creates the channel `name` in the guild `server_id` if `user_id` is one of its
    /// admins and the name is free; the channel opens at `now` with the opening line.
    pub fn new_channel(
        user_id: &ID,
        store: &mut ServerStore,
        name: &String,
        server_id: &ID,
        now: u64,
    ) -> (res: Response)
        requires
            old(store).wf(),
        ensures
            final(store).wf(),
            res@ == new_channel_response(old(store)@, user_id@, name@, server_id@),
            final(store)@ == after_new_channel(old(store)@, user_id@, name@, server_id@, now),
    {
        match Self::check_priviledge(store, server_id, user_id) {
            Response::Success => {},
            Response::Error(e) => {
                return Response::Error(e);
            },
            _other => {
                return Response::Error(ServerError::InternalServerError);
            },
        }
        let channels = store.list_collection_names(server_id);
        proof {
            let guild = store@[server_id@];
            lemma_channel_names(guild, name@);
            let all = seq![config_name()] + guild.channel_names();
            if all.contains(name@) {
                let i = choose|i: int| 0 <= i < all.len() && all[i] == name@;
                if i > 0 {
                    assert(guild.channel_names()[i - 1] == name@);
                }
            }
            if name@ == config_name() {
                assert(all[0] == name@);
            }
            if guild.channel_names().contains(name@) {
                let i = choose|i: int|
                    0 <= i < guild.channel_names().len() && guild.channel_names()[i] == name@;
                assert(all[i + 1] == name@);
            }
        }
        if contains_name(&channels, name) {
            return Response::Error(ServerError::BadRequest);
        }
        let mut block = Block::new(now);
        block.add_message(
            Message::new(String::from_str("channel created..."), String::from_str("SERVER")),
        );
        let inserted = store.insert_block(server_id, name, block);
        assert(inserted);
        Response::Success
    }

    /// Deletes the channel `name` of the guild `server_id` if `user_id` is one of the
    /// guild's admins and the channel exists.
    pub fn delete_channel(
        user_id: &ID,
        store: &mut ServerStore,
        name: &String,
        server_id: &ID,
    ) -> (res: Response)
        requires
            old(store).wf(),
        ensures
            final(store).wf(),
            res@ == delete_channel_response(old(store)@, user_id@, name@, server_id@),
            final(store)@ == after_delete_channel(old(store)@, user_id@, name@, server_id@),
    {
        match Self::check_priviledge(store, server_id, user_id) {
            Response::Success => {},
            Response::Error(e) => {
                return Response::Error(e);
            },
            _other => {
                return Response::Error(ServerError::InternalServerError);
            },
        }
        if store.drop_collection(server_id, name) {
            Response::Success
        } else {
            Response::Error(ServerError::BadRequest)
        }
    }

    /// The names of the guild's channels, for a member of the guild.
    pub fn get_channels(store: &ServerStore, server_id: &ID, user_id: &ID) -> (res: Response)
        requires
            store.wf(),
        ensures
            res@ == get_channels_response(store@, server_id@, user_id@),
    {
        match Self::check_membership(store, server_id, user_id) {
            Response::Success => {},
            Response::Error(e) => {
                return Response::Error(e);
            },
            _other => {
                return Response::Error(ServerError::InternalServerError);
            },
        }
        let mut collections = store.list_collection_names(server_id);
        proof {
            let all = seq![config_name()] + store@[server_id@].channel_names();
            assert(all.remove(0) =~= store@[server_id@].channel_names());
        }
        collections.remove(0);
        assert(views(collections@) =~= store@[server_id@].channel_names());
        Response::ChannelList(collections)
    }

    /// Posts a message of `author` to `channel_name` for the member `user_id`: the
    /// message joins the channel's unfilled block, or starts a block at `now`.
    pub fn send_message(
        store: &mut ServerStore,
        server_id: &ID,
        channel_name: &String,
        user_id: &ID,
        content: String,
        author: String,
        now: u64,
    ) -> (res: Response)
        requires
            old(store).wf(),
        ensures
            final(store).wf(),
            res@ == send_message_response(old(store)@, server_id@, channel_name@, user_id@),
            final(store)@ == after_send_message(
                old(store)@,
                server_id@,
                channel_name@,
                user_id@,
                MessageView { content: content@, author: author@ },
                now,
            ),
    {
        match Self::check_membership(store, server_id, user_id) {
            Response::Success => {},
            Response::Error(e) => {
                return Response::Error(e);
            },
            _other => {
                return Response::Error(ServerError::InternalServerError);
            },
        }
        let ghost guild = store@[server_id@];
        proof {
            lemma_channel_names(guild, channel_name@);
            let all = seq![config_name()] + guild.channel_names();
            assert(all.remove(0) =~= guild.channel_names());
        }
        let mut channels = store.list_collection_names(server_id);
        channels.remove(0);
        assert(views(channels@) =~= guild.channel_names());
        if !contains_name(&channels, channel_name) {
            return Response::Error(ServerError::BadRequest);
        }
        let ghost target = guild.channel(channel_name@);
        proof {
            assert(guild.channels[guild.place(channel_name@)].wf());
            assert(target.blocks[target.blocks.len() - 1].wf());
        }
        let message = Message::new(content, author);
        match store.find_open_block(server_id, channel_name) {
            Some(mut block) => {
                if !block.add_message(message) {
                    return Response::Error(ServerError::InternalServerError);
                }
                let replaced = store.replace_open_block(server_id, channel_name, block);
                assert(replaced);
            },
            None => {
                let mut block = Block::new(now);
                block.add_message(message);
                let inserted = store.insert_block(server_id, channel_name, block);
                assert(inserted);
            },
        }
        Response::Success
    }

    /// The messages of the block `block_id` of `channel_name`, for a member of the
    /// guild; the end of the channel where it has no block of that index.
    pub fn get_block_content(
        store: &ServerStore,
        server_id: &ID,
        channel_name: &String,
        user_id: &ID,
        block_id: u32,
    ) -> (res: Response)
        requires
            store.wf(),
        ensures
            res@ == get_block_response(store@, server_id@, channel_name@, user_id@, block_id),
    {
        match Self::check_membership(store, server_id, user_id) {
            Response::Success => {},
            Response::Error(e) => {
                return Response::Error(e);
            },
            _other => {
                return Response::Error(ServerError::InternalServerError);
            },
        }
        let blocks = store.find_blocks(server_id, channel_name);
        let index: usize = block_id as usize;
        if index >= blocks.len() {
            return Response::EndOfChannel;
        }
        assert(views(blocks@)[index as int] == blocks[index as int]@);
        Response::MessagesFound(blocks[index].messages())
    }
}

/// The creation of a channel that succeeds keeps the guilds well formed, and leaves the
/// guild with the channel, whose history is the opening line.
pub proof fn lemma_new_channel(
    store: Map<Seq<char>, ServerView>,
    user: Seq<char>,
    name: Seq<char>,
    server: Seq<char>,
    now: u64,
)
    requires
        store_wf(store),
        new_channel_response(store, user, name, server) is Success,
    ensures
        store_wf(after_new_channel(store, user, name, server, now)),
        after_new_channel(store, user, name, server, now).contains_key(server),
        after_new_channel(store, user, name, server, now)[server].config == store[server].config,
        after_new_channel(store, user, name, server, now)[server].has_channel(name),
        after_new_channel(store, user, name, server, now)[server].channel(name).history()
            == seq![opening_message()],
        after_new_channel(store, user, name, server, now)[server].channel_names()
            == store[server].channel_names().push(name),
{
    let opened = ChannelView::opened(name, opening_message(), now);
    lemma_opened_channel(name, opening_message(), now);
    lemma_with_new_channel(store[server], opened);
}

/// After a channel was created, a member who lists the guild's channels finds the
/// channel's name among them, and does not find the name of the settings collection.
pub proof fn lemma_created_channel_is_listed(
    store: Map<Seq<char>, ServerView>,
    user: Seq<char>,
    name: Seq<char>,
    server: Seq<char>,
    now: u64,
    reader: Seq<char>,
)
    requires
        store_wf(store),
        new_channel_response(store, user, name, server) is Success,
        store[server].config.users.contains(reader),
    ensures
        get_channels_response(after_new_channel(store, user, name, server, now), server, reader)
            matches ResponseView::ChannelList(names) && names.contains(name) && !names.contains(
            config_name(),
        ),
{
    let after = after_new_channel(store, user, name, server, now);
    lemma_new_channel(store, user, name, server, now);
    lemma_channel_names(after[server], name);
    lemma_channel_names(after[server], config_name());
}

/// After a channel was created, creating it again is a bad request.
pub proof fn lemma_channel_created_twice(
    store: Map<Seq<char>, ServerView>,
    user: Seq<char>,
    name: Seq<char>,
    server: Seq<char>,
    now: u64,
)
    requires
        store_wf(store),
        new_channel_response(store, user, name, server) is Success,
    ensures
        new_channel_response(after_new_channel(store, user, name, server, now), user, name, server)
            == ResponseView::Error(ServerError::BadRequest),
{
    lemma_new_channel(store, user, name, server, now);
}

/// A post that succeeds keeps the guilds well formed and makes the message the newest
/// of the channel's history; no other channel of the guild changes.
pub proof fn lemma_send_message(
    store: Map<Seq<char>, ServerView>,
    server: Seq<char>,
    channel: Seq<char>,
    user: Seq<char>,
    message: MessageView,
    now: u64,
)
    requires
        store_wf(store),
        send_message_response(store, server, channel, user) is Success,
    ensures
        store_wf(after_send_message(store, server, channel, user, message, now)),
        after_send_message(store, server, channel, user, message, now)[server].config
            == store[server].config,
        after_send_message(store, server, channel, user, message, now)[server].has_channel(channel),
        after_send_message(store, server, channel, user, message, now)[server].channel(channel)
            == store[server].channel(channel).with_message(message, now),
        after_send_message(store, server, channel, user, message, now)[server].channel(
            channel,
        ).history() == store[server].channel(channel).history().push(message),
        after_send_message(store, server, channel, user, message, now)[server].channel_names()
            == store[server].channel_names(),
        send_message_response(
            after_send_message(store, server, channel, user, message, now),
            server,
            channel,
            user,
        ) is Success,
{
    let guild = store[server];
    lemma_channel_names(guild, channel);
    assert(guild.channels[guild.place(channel)].wf());
    lemma_post_extends_history(guild.channel(channel), message, now);
    lemma_with_channel(guild, guild.channel(channel).with_message(message, now));
}

/// A block index at or beyond the number of blocks that the channel's history takes is
/// answered with the end of the channel.
pub proof fn lemma_beyond_last_block(
    store: Map<Seq<char>, ServerView>,
    server: Seq<char>,
    channel: Seq<char>,
    user: Seq<char>,
    block: u32,
)
    requires
        store_wf(store),
        membership(store, server, user) is Success,
        store[server].has_channel(channel),
        50 * block >= store[server].channel(channel).history().len(),
    ensures
        get_block_response(store, server, channel, user, block) == ResponseView::EndOfChannel,
{
    let guild = store[server];
    lemma_channel_names(guild, channel);
    assert(guild.channels[guild.place(channel)].wf());
    lemma_blocks_chunk_history(guild.channel(channel), 0);
}

/// The guilds after `user` posted the messages to `channel` one after the other, each at
/// its time.
pub open spec fn after_posts(
    store: Map<Seq<char>, ServerView>,
    server: Seq<char>,
    channel: Seq<char>,
    user: Seq<char>,
    messages: Seq<MessageView>,
    times: Seq<u64>,
) -> Map<Seq<char>, ServerView>
    decreases messages.len(),
{
    if messages.len() == 0 {
        store
    } else {
        after_send_message(
            after_posts(store, server, channel, user, messages.drop_last(), times),
            server,
            channel,
            user,
            messages.last(),
            times[messages.len() - 1],
        )
    }
}

/// Any number of posts of a member to a channel succeed one after the other, and leave
/// the channel with its history and then the posted messages in their order.
pub proof fn lemma_posts(
    store: Map<Seq<char>, ServerView>,
    server: Seq<char>,
    channel: Seq<char>,
    user: Seq<char>,
    messages: Seq<MessageView>,
    times: Seq<u64>,
)
    requires
        store_wf(store),
        send_message_response(store, server, channel, user) is Success,
    ensures
        store_wf(after_posts(store, server, channel, user, messages, times)),
        send_message_response(
            after_posts(store, server, channel, user, messages, times),
            server,
            channel,
            user,
        ) is Success,
        after_posts(store, server, channel, user, messages, times)[server].channel(
            channel,
        ).history() == store[server].channel(channel).history() + messages,
    decreases messages.len(),
{
    if messages.len() == 0 {
        assert(store[server].channel(channel).history() + messages
            =~= store[server].channel(channel).history());
    } else {
        let before = after_posts(store, server, channel, user, messages.drop_last(), times);
        lemma_posts(store, server, channel, user, messages.drop_last(), times);
        lemma_send_message(
            before,
            server,
            channel,
            user,
            messages.last(),
            times[messages.len() - 1],
        );
        assert((store[server].channel(channel).history() + messages.drop_last()).push(
            messages.last(),
        ) =~= store[server].channel(channel).history() + messages);
    }
}

/// After a channel was created and a member posted any number of messages to it, the
/// block of index `block` holds the stretch of fifty that its index gives of the opening
/// line and then the posts: the first block the opening line and the first 49 posts,
/// each later block the next fifty. An index at or beyond the end of that is answered
/// with the end of the channel.
pub proof fn lemma_blocks_after_posts(
    store: Map<Seq<char>, ServerView>,
    admin: Seq<char>,
    name: Seq<char>,
    server: Seq<char>,
    now: u64,
    user: Seq<char>,
    messages: Seq<MessageView>,
    times: Seq<u64>,
    block: u32,
)
    requires
        store_wf(store),
        new_channel_response(store, admin, name, server) is Success,
        store[server].config.users.contains(user),
    ensures
        ({
            let history = seq![opening_message()] + messages;
            let created = after_new_channel(store, admin, name, server, now);
            get_block_response(
                after_posts(created, server, name, user, messages, times),
                server,
                name,
                user,
                block,
            ) == if 50 * block >= history.len() {
                ResponseView::EndOfChannel
            } else {
                ResponseView::MessagesFound(
                    history.subrange(
                        50 * block,
                        if 50 * block + 50 <= history.len() {
                            50 * block + 50
                        } else {
                            history.len() as int
                        },
                    ),
                )
            }
        }),
{
    let created = after_new_channel(store, admin, name, server, now);
    lemma_new_channel(store, admin, name, server, now);
    lemma_posts(created, server, name, user, messages, times);
    let after = after_posts(created, server, name, user, messages, times);
    let guild = after[server];
    lemma_channel_names(guild, name);
    assert(guild.channels[guild.place(name)].wf());
    let target = guild.channel(name);
    lemma_blocks_chunk_history(target, 0);
    if 50 * block < target.history().len() {
        lemma_blocks_chunk_history(target, block as int);
    }
}

} // verus!
