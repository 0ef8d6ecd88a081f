//! The guilds as the store holds them: for each guild its settings and its channels, for
//! each channel its blocks.

use vstd::prelude::*;
use vstd::string::*;

use crate::id::ID;
use crate::keyed::{
    distinct_keys, has_key, keyed, lemma_keyed_at, lemma_keyed_push, lemma_keyed_remove,
    lemma_keyed_update, place_of,
};
use crate::messages::{views, MessageView};
use crate::server_handler::{
    config_name, Block, BlockView, ServerConfig, ServerConfigView, BLOCK_CAPACITY,
};
use crate::text::same_text;

verus! {

/// A channel of a guild: its name and its blocks in the order of their creation.
#[derive(Debug)]
struct Channel {
    name: String,
    blocks: Vec<Block>,
}

/// A channel as contracts see it.
pub struct ChannelView {
    pub name: Seq<char>,
    pub blocks: Seq<BlockView>,
}

impl ChannelView {
    /// A channel has a block; each of its blocks is well formed and holds a message;
    /// every block but the last is filled.
    pub open spec fn wf(self) -> bool {
        &&& self.blocks.len() >= 1
        &&& forall|i: int|
            0 <= i < self.blocks.len() ==> (#[trigger] self.blocks[i]).wf()
                && self.blocks[i].messages.len() >= 1
        &&& forall|i: int| 0 <= i < self.blocks.len() - 1 ==> (#[trigger] self.blocks[i]).filled
    }

    /// The channel as it is created: one block that holds `first`.
    pub open spec fn opened(name: Seq<char>, first: MessageView, now: u64) -> ChannelView {
        ChannelView { name, blocks: seq![BlockView::empty(now).with_message(first)] }
    }

    /// The channel after `message` is posted at `now`: the message joins the last block
    /// if that block is not filled, and else starts a new block.
    pub open spec fn with_message(self, message: MessageView, now: u64) -> ChannelView {
        if self.blocks.last().filled {
            ChannelView {
                name: self.name,
                blocks: self.blocks.push(BlockView::empty(now).with_message(message)),
            }
        } else {
            ChannelView {
                name: self.name,
                blocks: self.blocks.update(
                    self.blocks.len() - 1,
                    self.blocks.last().with_message(message),
                ),
            }
        }
    }

    /// All messages of the channel, oldest first.
    pub open spec fn history(self) -> Seq<MessageView> {
        history_of(self.blocks)
    }
}

/// The messages of the blocks, one block after the other.
pub open spec fn history_of(blocks: Seq<BlockView>) -> Seq<MessageView>
    decreases blocks.len(),
{
    if blocks.len() == 0 {
        Seq::empty()
    } else {
        history_of(blocks.drop_last()) + blocks.last().messages
    }
}

impl View for Channel {
    type V = ChannelView;

    closed spec fn view(&self) -> ChannelView {
        ChannelView { name: self.name@, blocks: views(self.blocks@) }
    }
}

/// The name by which a channel is found.
pub open spec fn channel_key() -> spec_fn(ChannelView) -> Seq<char> {
    |channel: ChannelView| channel.name
}

/// The namespace of one guild: its settings and its channels in the order of their creation.
#[derive(Debug)]
struct Server {
    id: ID,
    config: ServerConfig,
    channels: Vec<Channel>,
}

/// A guild as contracts see it.
pub struct ServerView {
    pub config: ServerConfigView,
    pub channels: Seq<ChannelView>,
}

impl ServerView {
    /// Settings and channels are well formed, no two channels share a name, and none is
    /// named like the settings collection.
    pub open spec fn wf(self) -> bool {
        &&& self.config.wf()
        &&& forall|i: int| 0 <= i < self.channels.len() ==> (#[trigger] self.channels[i]).wf()
        &&& distinct_keys(self.channels, channel_key())
        &&& !self.has_channel(config_name())
    }

    /// Whether the guild has a channel of this name.
    pub open spec fn has_channel(self, name: Seq<char>) -> bool {
        has_key(self.channels, channel_key(), name)
    }

    /// Where the channel `name` stands among the channels; meaningful where it exists.
    pub open spec fn place(self, name: Seq<char>) -> int {
        place_of(self.channels, channel_key(), name)
    }

    /// The channel `name`; meaningful where it exists.
    pub open spec fn channel(self, name: Seq<char>) -> ChannelView {
        self.channels[self.place(name)]
    }

    /// The names of the channels, in the order of their creation.
    pub open spec fn channel_names(self) -> Seq<Seq<char>> {
        self.channels.map_values(channel_key())
    }

    /// The guild with `channel` as its newest channel.
    pub open spec fn with_new_channel(self, channel: ChannelView) -> ServerView {
        ServerView { config: self.config, channels: self.channels.push(channel) }
    }

    /// The guild with `channel` in the place of the channel of its name.
    pub open spec fn with_channel(self, channel: ChannelView) -> ServerView {
        ServerView {
            config: self.config,
            channels: self.channels.update(self.place(channel.name), channel),
        }
    }

    /// The guild without the channel `name`.
    pub open spec fn without_channel(self, name: Seq<char>) -> ServerView {
        ServerView { config: self.config, channels: self.channels.remove(self.place(name)) }
    }
}

impl View for Server {
    type V = ServerView;

    closed spec fn view(&self) -> ServerView {
        ServerView { config: self.config@, channels: views(self.channels@) }
    }
}

/// Replacing an existing channel by a well-formed one of the same name keeps the guild
/// well formed and changes no other channel.
pub proof fn lemma_with_channel(guild: ServerView, channel: ChannelView)
    requires
        guild.wf(),
        guild.has_channel(channel.name),
        channel.wf(),
    ensures
        guild.with_channel(channel).wf(),
        guild.with_channel(channel).has_channel(channel.name),
        guild.with_channel(channel).channel(channel.name) == channel,
        guild.with_channel(channel).channel_names() == guild.channel_names(),
        forall|name: Seq<char>|
            guild.with_channel(channel).has_channel(name) <==> guild.has_channel(name),
        forall|name: Seq<char>|
            name != channel.name && guild.has_channel(name) ==> guild.with_channel(
                channel,
            ).channel(name) == guild.channel(name),
{
    let place = guild.place(channel.name);
    let after = guild.with_channel(channel);
    assert(0 <= place < guild.channels.len() && channel_key()(guild.channels[place])
        == channel.name);
    lemma_keyed_update(guild.channels, channel_key(), channel_key(), place, channel);
    assert forall|i: int| 0 <= i < after.channels.len() implies channel_key()(
        #[trigger] after.channels[i],
    ) == channel_key()(guild.channels[i]) by {}
    assert forall|name: Seq<char>| after.has_channel(name) <==> guild.has_channel(name) by {
        if after.has_channel(name) {
            let i = after.place(name);
            assert(channel_key()(after.channels[i]) == channel_key()(guild.channels[i]));
            assert(channel_key()(guild.channels[i]) == name);
        }
        if guild.has_channel(name) {
            let i = guild.place(name);
            assert(channel_key()(after.channels[i]) == channel_key()(guild.channels[i]));
            assert(channel_key()(after.channels[i]) == name);
        }
    }
    assert(after.wf()) by {
        assert forall|i: int| 0 <= i < after.channels.len() implies (
        #[trigger] after.channels[i]).wf() by {
            if i != place {
                assert(after.channels[i] == guild.channels[i]);
            }
        }
    }
    assert(after.channels[place] == channel);
    lemma_keyed_at(after.channels, channel_key(), channel_key(), place);
    assert(after.channel_names() =~= guild.channel_names());
    assert forall|name: Seq<char>| name != channel.name && guild.has_channel(name) implies after.channel(
        name,
    ) == guild.channel(name) by {
        let i = guild.place(name);
        assert(0 <= i < guild.channels.len() && channel_key()(guild.channels[i]) == name);
        assert(after.channels[i] == guild.channels[i]);
        lemma_keyed_at(after.channels, channel_key(), channel_key(), i);
    }
}

/// Adding a well-formed channel under a name that is free, and is not that of the settings
/// collection, keeps the guild well formed and puts the name last.
pub proof fn lemma_with_new_channel(guild: ServerView, channel: ChannelView)
    requires
        guild.wf(),
        !guild.has_channel(channel.name),
        channel.name != config_name(),
        channel.wf(),
    ensures
        guild.with_new_channel(channel).wf(),
        guild.with_new_channel(channel).has_channel(channel.name),
        guild.with_new_channel(channel).channel(channel.name) == channel,
        guild.with_new_channel(channel).channel_names() == guild.channel_names().push(
            channel.name,
        ),
        forall|name: Seq<char>|
            guild.with_new_channel(channel).has_channel(name) <==> (guild.has_channel(name)
                || name == channel.name),
        forall|name: Seq<char>|
            guild.has_channel(name) ==> guild.with_new_channel(channel).channel(name)
                == guild.channel(name),
{
    let after = guild.with_new_channel(channel);
    let last = guild.channels.len() as int;
    assert(channel_key()(channel) == channel.name);
    lemma_keyed_push(guild.channels, channel_key(), channel_key(), channel);
    assert(after.channels[last] == channel);
    lemma_keyed_at(after.channels, channel_key(), channel_key(), last);
    assert forall|name: Seq<char>| after.has_channel(name) <==> (guild.has_channel(name) || name
        == channel.name) by {
        if after.has_channel(name) {
            let i = after.place(name);
            if i < last {
                assert(after.channels[i] == guild.channels[i]);
                assert(channel_key()(guild.channels[i]) == name);
            }
        }
        if guild.has_channel(name) {
            let i = guild.place(name);
            assert(after.channels[i] == guild.channels[i]);
            assert(channel_key()(after.channels[i]) == name);
        }
    }
    assert(after.wf()) by {
        assert forall|i: int| 0 <= i < after.channels.len() implies (
        #[trigger] after.channels[i]).wf() by {
            if i < last {
                assert(after.channels[i] == guild.channels[i]);
            }
        }
    }
    assert(after.channel_names() =~= guild.channel_names().push(channel.name));
    assert forall|name: Seq<char>| guild.has_channel(name) implies after.channel(name)
        == guild.channel(name) by {
        let i = guild.place(name);
        assert(0 <= i < guild.channels.len() && channel_key()(guild.channels[i]) == name);
        assert(after.channels[i] == guild.channels[i]);
        lemma_keyed_at(after.channels, channel_key(), channel_key(), i);
    }
}

/// Taking an existing channel out keeps the guild well formed and frees the name.
pub proof fn lemma_without_channel(guild: ServerView, gone: Seq<char>)
    requires
        guild.wf(),
        guild.has_channel(gone),
    ensures
        guild.without_channel(gone).wf(),
        !guild.without_channel(gone).has_channel(gone),
        guild.without_channel(gone).channel_names() == guild.channel_names().remove(
            guild.place(gone),
        ),
        forall|name: Seq<char>|
            guild.without_channel(gone).has_channel(name) <==> (guild.has_channel(name) && name
                != gone),
        forall|name: Seq<char>|
            name != gone && guild.has_channel(name) ==> guild.without_channel(gone).channel(name)
                == guild.channel(name),
{
    let place = guild.place(gone);
    let after = guild.without_channel(gone);
    assert(0 <= place < guild.channels.len() && channel_key()(guild.channels[place]) == gone);
    lemma_keyed_remove(guild.channels, channel_key(), channel_key(), place);
    assert forall|i: int| 0 <= i < after.channels.len() implies #[trigger] after.channels[i]
        == guild.channels[if i < place { i } else { i + 1 }] by {}
    assert forall|name: Seq<char>| after.has_channel(name) <==> (guild.has_channel(name) && name
        != gone) by {
        if after.has_channel(name) {
            let i = after.place(name);
            let i0 = if i < place { i } else { i + 1 };
            assert(after.channels[i] == guild.channels[i0]);
            assert(channel_key()(guild.channels[i0]) == name);
            if name == gone {
                lemma_keyed_at(guild.channels, channel_key(), channel_key(), i0);
            }
        }
        if guild.has_channel(name) && name != gone {
            let i = guild.place(name);
            assert(0 <= i < guild.channels.len() && channel_key()(guild.channels[i]) == name);
            let q = if i < place { i } else { i - 1 };
            assert(after.channels[q] == guild.channels[i]);
            assert(channel_key()(after.channels[q]) == name);
        }
    }
    assert(after.channel_names() =~= guild.channel_names().remove(place));
    assert forall|name: Seq<char>| name != gone && guild.has_channel(name) implies after.channel(
        name,
    ) == guild.channel(name) by {
        let i = guild.place(name);
        assert(0 <= i < guild.channels.len() && channel_key()(guild.channels[i]) == name);
        let q = if i < place { i } else { i - 1 };
        assert(after.channels[q] == guild.channels[i]);
        lemma_keyed_at(after.channels, channel_key(), channel_key(), q);
    }
}

/// Every guild of the store is well formed.
pub open spec fn store_wf(store: Map<Seq<char>, ServerView>) -> bool {
    forall|id: Seq<char>| store.contains_key(id) ==> (#[trigger] store[id]).wf()
}

/// A block that a channel can hold: well formed, with at least one message.
pub open spec fn storable(block: BlockView) -> bool {
    block.wf() && block.messages.len() >= 1
}

/// The names of the collections of a guild: the settings collection, then the channels.
/// A guild that does not exist has none.
pub open spec fn collection_names(store: Map<Seq<char>, ServerView>, server: Seq<char>) -> Seq<
    Seq<char>,
> {
    if store.contains_key(server) {
        seq![config_name()] + store[server].channel_names()
    } else {
        Seq::empty()
    }
}

/// Whether the store takes `block` as the newest block of `channel`: the guild exists, the
/// name is not that of the settings collection, the block can be held, and the channel, if
/// it exists, has no unfilled block.
pub open spec fn accepts_block(
    store: Map<Seq<char>, ServerView>,
    server: Seq<char>,
    channel: Seq<char>,
    block: BlockView,
) -> bool {
    &&& store.contains_key(server)
    &&& channel != config_name()
    &&& storable(block)
    &&& store[server].has_channel(channel) ==> store[server].channel(channel).blocks.last().filled
}

/// The store after `block` became the newest block of `channel`, which is created if it
/// did not exist.
pub open spec fn with_block(
    store: Map<Seq<char>, ServerView>,
    server: Seq<char>,
    channel: Seq<char>,
    block: BlockView,
) -> Map<Seq<char>, ServerView> {
    let guild = store[server];
    if guild.has_channel(channel) {
        store.insert(
            server,
            guild.with_channel(
                ChannelView { name: channel, blocks: guild.channel(channel).blocks.push(block) },
            ),
        )
    } else {
        store.insert(
            server,
            guild.with_new_channel(ChannelView { name: channel, blocks: seq![block] }),
        )
    }
}

/// Whether `channel` of `server` exists and its last block is not filled.
pub open spec fn has_open_block(
    store: Map<Seq<char>, ServerView>,
    server: Seq<char>,
    channel: Seq<char>,
) -> bool {
    &&& store.contains_key(server)
    &&& store[server].has_channel(channel)
    &&& !store[server].channel(channel).blocks.last().filled
}

/// The store after the unfilled block of `channel` was overwritten by `block`.
pub open spec fn with_open_block(
    store: Map<Seq<char>, ServerView>,
    server: Seq<char>,
    channel: Seq<char>,
    block: BlockView,
) -> Map<Seq<char>, ServerView> {
    let guild = store[server];
    let blocks = guild.channel(channel).blocks;
    store.insert(
        server,
        guild.with_channel(
            ChannelView { name: channel, blocks: blocks.update(blocks.len() - 1, block) },
        ),
    )
}

/// The blocks of `channel` of `server`, oldest first; none where either does not exist.
pub open spec fn blocks_of(
    store: Map<Seq<char>, ServerView>,
    server: Seq<char>,
    channel: Seq<char>,
) -> Seq<BlockView> {
    if store.contains_key(server) && store[server].has_channel(channel) {
        store[server].channel(channel).blocks
    } else {
        Seq::empty()
    }
}

/// The guild namespaces of the document store, each found by the guild's identifier.
#[derive(Debug)]
pub struct ServerStore {
    servers: Vec<Server>,
}

spec fn server_key() -> spec_fn(Server) -> Seq<char> {
    |server: Server| server.id@
}

spec fn server_value() -> spec_fn(Server) -> ServerView {
    |server: Server| server@
}

impl View for ServerStore {
    type V = Map<Seq<char>, ServerView>;

    closed spec fn view(&self) -> Map<Seq<char>, ServerView> {
        keyed(self.servers@, server_key(), server_value())
    }
}

fn is_config_name(name: &String) -> (b: bool)
    ensures
        b == (name@ == config_name()),
{
    let reserved = String::from_str("config");
    same_text(name, &reserved)
}

impl Server {
    /// Where the channel `name` stands, if the guild has it.
    fn channel_index(&self, name: &String) -> (res: Option<usize>)
        requires
            self@.wf(),
        ensures
            res is Some <==> self@.has_channel(name@),
            res matches Some(i) ==> i < self.channels.len() && i == self@.place(name@)
                && self.channels[i as int]@ == self@.channel(name@)
                && self@.channel(name@).name == name@,
    {
        let mut i: usize = 0;
        while i < self.channels.len()
            invariant
                i <= self.channels.len(),
                self@.wf(),
                forall|j: int| 0 <= j < i ==> channel_key()(#[trigger] self@.channels[j]) != name@,
            decreases self.channels.len() - i,
        {
            if same_text(&self.channels[i].name, name) {
                proof {
                    assert(self@.channels[i as int] == self.channels[i as int]@);
                    assert(channel_key()(self@.channels[i as int]) == name@);
                    lemma_keyed_at(self@.channels, channel_key(), channel_key(), i as int);
                }
                return Some(i);
            }
            assert(self@.channels[i as int] == self.channels[i as int]@);
            i += 1;
        }
        None
    }
}

impl ServerStore {
    /// No two guilds share an identifier.
    pub closed spec fn distinct(&self) -> bool {
        distinct_keys(self.servers@, server_key())
    }

    /// The store's invariant: guilds are found by distinct identifiers, and each is well formed.
    pub open spec fn wf(&self) -> bool {
        self.distinct() && store_wf(self@)
    }

    /// A store without guilds.
    pub fn new() -> (res: Self)
        ensures
            res.wf(),
            res@ == Map::<Seq<char>, ServerView>::empty(),
    {
        let res = ServerStore { servers: Vec::new() };
        assert(res@ =~= Map::<Seq<char>, ServerView>::empty());
        res
    }

    fn index_of(&self, server_id: &ID) -> (res: Option<usize>)
        requires
            self.wf(),
        ensures
            res is Some <==> self@.contains_key(server_id@),
            res matches Some(i) ==> i < self.servers.len() && self.servers[i as int].id@
                == server_id@ && self.servers[i as int]@ == self@[server_id@],
    {
        let mut i: usize = 0;
        while i < self.servers.len()
            invariant
                i <= self.servers.len(),
                self.wf(),
                forall|j: int| 0 <= j < i ==> server_key()(#[trigger] self.servers[j]) != server_id@,
            decreases self.servers.len() - i,
        {
            if self.servers[i].id.same(server_id) {
                proof {
                    assert(server_key()(self.servers[i as int]) == server_id@);
                    lemma_keyed_at(self.servers@, server_key(), server_value(), i as int);
                }
                return Some(i);
            }
            i += 1;
        }
        None
    }

    /// Whether the guild exists.
    pub fn contains(&self, server_id: &ID) -> (b: bool)
        requires
            self.wf(),
        ensures
            b == self@.contains_key(server_id@),
    {
        self.index_of(server_id).is_some()
    }

    /// Creates the namespace of the guild `server_id` with `config` as its settings and
    /// no channel, unless a guild of that identifier exists or an admin of the settings
    /// is no member.
    pub fn insert_config(&mut self, server_id: ID, config: ServerConfig) -> (inserted: bool)
        requires
            old(self).wf(),
        ensures
            final(self).wf(),
            inserted == (!old(self)@.contains_key(server_id@) && config@.wf()),
            inserted ==> final(self)@ == old(self)@.insert(
                server_id@,
                ServerView { config: config@, channels: Seq::empty() },
            ),
            !inserted ==> final(self)@ == old(self)@,
    {
        if self.index_of(&server_id).is_some() || !config.is_well_formed() {
            return false;
        }
        let server = Server { id: server_id, config, channels: Vec::new() };
        proof {
            assert(server@.channels =~= Seq::empty());
            assert(server_key()(server) == server_id@);
            assert(server_value()(server) == server@);
            lemma_keyed_push(self.servers@, server_key(), server_value(), server);
        }
        self.servers.push(server);
        true
    }

    /// The settings of the guild, if it exists.
    pub fn find_config(&self, server_id: &ID) -> (res: Option<ServerConfig>)
        requires
            self.wf(),
        ensures
            res is Some <==> self@.contains_key(server_id@),
            res is Some ==> res->0@ == self@[server_id@].config,
    {
        match self.index_of(server_id) {
            Some(i) => Some(self.servers[i].config.clone()),
            None => None,
        }
    }

    /// Removes the guild with its settings and all its channels, and says whether it existed.
    pub fn drop_database(&mut self, server_id: &ID) -> (dropped: bool)
        requires
            old(self).wf(),
        ensures
            final(self).wf(),
            dropped == old(self)@.contains_key(server_id@),
            final(self)@ == old(self)@.remove(server_id@),
    {
        match self.index_of(server_id) {
            Some(i) => {
                proof {
                    lemma_keyed_remove(self.servers@, server_key(), server_value(), i as int);
                }
                self.servers.remove(i);
                true
            },
            None => {
                assert(self@ =~= self@.remove(server_id@));
                false
            },
        }
    }
}

fn clone_blocks(blocks: &Vec<Block>) -> (res: Vec<Block>)
    ensures
        views(res@) == views(blocks@),
{
    let mut res: Vec<Block> = Vec::new();
    let mut i: usize = 0;
    while i < blocks.len()
        invariant
            i <= blocks.len(),
            res.len() == i,
            forall|j: int| 0 <= j < i ==> res[j]@ == blocks[j]@,
        decreases blocks.len() - i,
    {
        res.push(blocks[i].clone());
        i += 1;
    }
    assert(views(res@) =~= views(blocks@));
    res
}

fn can_be_stored(block: &Block) -> (b: bool)
    ensures
        b == storable(block@),
{
    let n: usize = block.len();
    n >= 1 && n <= BLOCK_CAPACITY && block.is_filled() == (n == BLOCK_CAPACITY)
}

impl ServerStore {
    /// The names of the guild's collections: the settings collection first, then the
    /// channels in the order of their creation. A guild that does not exist has none.
    pub fn list_collection_names(&self, server_id: &ID) -> (res: Vec<String>)
        requires
            self.wf(),
        ensures
            views(res@) == collection_names(self@, server_id@),
    {
        let mut res: Vec<String> = Vec::new();
        match self.index_of(server_id) {
            None => {
                assert(views(res@) =~= collection_names(self@, server_id@));
            },
            Some(i) => {
                let server = &self.servers[i];
                res.push(String::from_str("config"));
                let mut j: usize = 0;
                while j < server.channels.len()
                    invariant
                        j <= server.channels.len(),
                        res.len() == j + 1,
                        res[0]@ == config_name(),
                        forall|k: int| 0 <= k < j ==> res[k + 1]@ == server.channels[k].name@,
                    decreases server.channels.len() - j,
                {
                    res.push(server.channels[j].name.clone());
                    j += 1;
                }
                proof {
                    let names = server@.channel_names();
                    assert(names.len() == server.channels.len());
                    assert forall|k: int| 0 <= k < names.len() implies names[k]
                        == server.channels[k].name@ by {
                        assert(server@.channels[k] == server.channels[k]@);
                    }
                    assert(views(res@) =~= seq![config_name()] + names);
                }
            },
        }
        res
    }

    /// Makes `block` the newest block of `channel`, creating the channel if the guild does
    /// not have it, and says whether it did. It does not where the guild does not exist,
    /// the name is that of the settings collection, the block is empty or ill-formed, or
    /// the channel still has an unfilled block.
    pub fn insert_block(&mut self, server_id: &ID, channel: &String, block: Block) -> (inserted:
        bool)
        requires
            old(self).wf(),
        ensures
            final(self).wf(),
            inserted == accepts_block(old(self)@, server_id@, channel@, block@),
            inserted ==> final(self)@ == with_block(old(self)@, server_id@, channel@, block@),
            !inserted ==> final(self)@ == old(self)@,
    {
        let i: usize = match self.index_of(server_id) {
            Some(i) => i,
            None => {
                return false;
            },
        };
        if is_config_name(channel) || !can_be_stored(&block) {
            return false;
        }
        let ghost before = self.servers@;
        let ghost guild = self@[server_id@];
        match self.servers[i].channel_index(channel) {
            Some(j) => {
                let n: usize = self.servers[i].channels[j].blocks.len();
                proof {
                    assert(guild.channels[j as int] == self.servers[i as int].channels[j as int]@);
                    assert(guild.channels[j as int].wf());
                }
                if !self.servers[i].channels[j].blocks[n - 1].is_filled() {
                    return false;
                }
                let ghost grown = ChannelView {
                    name: channel@,
                    blocks: guild.channel(channel@).blocks.push(block@),
                };
                let server = &mut self.servers[i];
                let target = &mut server.channels[j];
                target.blocks.push(block);
                proof {
                    assert(self.servers[i as int].channels[j as int]@.blocks =~= grown.blocks);
                    assert(self.servers[i as int]@.channels =~= guild.with_channel(grown).channels);
                    assert(grown.wf());
                    lemma_with_channel(guild, grown);
                    assert(self.servers@ =~= before.update(i as int, self.servers[i as int]));
                    lemma_keyed_update(
                        before,
                        server_key(),
                        server_value(),
                        i as int,
                        self.servers[i as int],
                    );
                }
                true
            },
            None => {
                let mut blocks: Vec<Block> = Vec::new();
                blocks.push(block);
                let created = Channel { name: channel.clone(), blocks };
                let ghost fresh = ChannelView { name: channel@, blocks: seq![block@] };
                proof {
                    assert(created@.blocks =~= fresh.blocks);
                    assert(fresh.wf());
                }
                let server = &mut self.servers[i];
                server.channels.push(created);
                proof {
                    assert(self.servers[i as int]@.channels =~= guild.with_new_channel(
                        fresh,
                    ).channels);
                    lemma_with_new_channel(guild, fresh);
                    assert(self.servers@ =~= before.update(i as int, self.servers[i as int]));
                    lemma_keyed_update(
                        before,
                        server_key(),
                        server_value(),
                        i as int,
                        self.servers[i as int],
                    );
                }
                true
            },
        }
    }

    /// The unfilled block of `channel`, if the channel exists and has one.
    pub fn find_open_block(&self, server_id: &ID, channel: &String) -> (res: Option<Block>)
        requires
            self.wf(),
        ensures
            res is Some <==> has_open_block(self@, server_id@, channel@),
            res is Some ==> res->0@ == self@[server_id@].channel(channel@).blocks.last(),
    {
        let i: usize = match self.index_of(server_id) {
            Some(i) => i,
            None => {
                return None;
            },
        };
        let j: usize = match self.servers[i].channel_index(channel) {
            Some(j) => j,
            None => {
                return None;
            },
        };
        let blocks = &self.servers[i].channels[j].blocks;
        let n: usize = blocks.len();
        proof {
            assert(self@[server_id@].channels[j as int] == self.servers[i as int].channels[j as int]@);
            assert(self@[server_id@].channels[j as int].wf());
            assert(views(blocks@)[n - 1] == blocks[n - 1]@);
        }
        if blocks[n - 1].is_filled() {
            None
        } else {
            Some(blocks[n - 1].clone())
        }
    }

    /// Overwrites the unfilled block of `channel` by `block`, and says whether it did. It
    /// does not where the channel has no unfilled block or `block` is empty or ill-formed.
    pub fn replace_open_block(
        &mut self,
        server_id: &ID,
        channel: &String,
        block: Block,
    ) -> (replaced: bool)
        requires
            old(self).wf(),
        ensures
            final(self).wf(),
            replaced == (has_open_block(old(self)@, server_id@, channel@) && storable(block@)),
            replaced ==> final(self)@ == with_open_block(
                old(self)@,
                server_id@,
                channel@,
                block@,
            ),
            !replaced ==> final(self)@ == old(self)@,
    {
        let i: usize = match self.index_of(server_id) {
            Some(i) => i,
            None => {
                return false;
            },
        };
        let j: usize = match self.servers[i].channel_index(channel) {
            Some(j) => j,
            None => {
                return false;
            },
        };
        let ghost before = self.servers@;
        let ghost guild = self@[server_id@];
        let n: usize = self.servers[i].channels[j].blocks.len();
        proof {
            assert(guild.channels[j as int] == self.servers[i as int].channels[j as int]@);
            assert(guild.channels[j as int].wf());
            assert(views(self.servers[i as int].channels[j as int].blocks@)[n - 1]
                == self.servers[i as int].channels[j as int].blocks[n - 1]@);
        }
        if self.servers[i].channels[j].blocks[n - 1].is_filled() || !can_be_stored(&block) {
            return false;
        }
        let ghost changed = ChannelView {
            name: channel@,
            blocks: guild.channel(channel@).blocks.update(n - 1, block@),
        };
        let server = &mut self.servers[i];
        let target = &mut server.channels[j];
        target.blocks.pop();
        target.blocks.push(block);
        proof {
            assert(self.servers[i as int].channels[j as int]@.blocks =~= changed.blocks);
            assert(self.servers[i as int]@.channels =~= guild.with_channel(changed).channels);
            assert(changed.wf()) by {
                assert forall|k: int| 0 <= k < changed.blocks.len() - 1 implies (
                #[trigger] changed.blocks[k]).filled by {
                    assert(changed.blocks[k] == guild.channel(channel@).blocks[k]);
                }
                assert forall|k: int| 0 <= k < changed.blocks.len() implies (
                #[trigger] changed.blocks[k]).wf() && changed.blocks[k].messages.len() >= 1 by {
                    if k != n - 1 {
                        assert(changed.blocks[k] == guild.channel(channel@).blocks[k]);
                    }
                }
            }
            lemma_with_channel(guild, changed);
            assert(self.servers@ =~= before.update(i as int, self.servers[i as int]));
            lemma_keyed_update(
                before,
                server_key(),
                server_value(),
                i as int,
                self.servers[i as int],
            );
        }
        true
    }

    /// The blocks of `channel`, oldest first; none where the guild or the channel does
    /// not exist.
    pub fn find_blocks(&self, server_id: &ID, channel: &String) -> (res: Vec<Block>)
        requires
            self.wf(),
        ensures
            views(res@) == blocks_of(self@, server_id@, channel@),
    {
        let i: usize = match self.index_of(server_id) {
            Some(i) => i,
            None => {
                let res: Vec<Block> = Vec::new();
                assert(views(res@) =~= blocks_of(self@, server_id@, channel@));
                return res;
            },
        };
        match self.servers[i].channel_index(channel) {
            Some(j) => {
                proof {
                    assert(self@[server_id@].channels[j as int]
                        == self.servers[i as int].channels[j as int]@);
                }
                clone_blocks(&self.servers[i].channels[j].blocks)
            },
            None => {
                let res: Vec<Block> = Vec::new();
                assert(views(res@) =~= blocks_of(self@, server_id@, channel@));
                res
            },
        }
    }

    /// Removes `channel` with all its blocks, and says whether it existed.
    pub fn drop_collection(&mut self, server_id: &ID, channel: &String) -> (dropped: bool)
        requires
            old(self).wf(),
        ensures
            final(self).wf(),
            dropped == (old(self)@.contains_key(server_id@) && old(self)@[server_id@].has_channel(
                channel@,
            )),
            dropped ==> final(self)@ == old(self)@.insert(
                server_id@,
                old(self)@[server_id@].without_channel(channel@),
            ),
            !dropped ==> final(self)@ == old(self)@,
    {
        let i: usize = match self.index_of(server_id) {
            Some(i) => i,
            None => {
                return false;
            },
        };
        let j: usize = match self.servers[i].channel_index(channel) {
            Some(j) => j,
            None => {
                return false;
            },
        };
        let ghost before = self.servers@;
        let ghost guild = self@[server_id@];
        let server = &mut self.servers[i];
        server.channels.remove(j);
        proof {
            assert(self.servers[i as int]@.channels =~= guild.without_channel(channel@).channels);
            lemma_without_channel(guild, channel@);
            assert(self.servers@ =~= before.update(i as int, self.servers[i as int]));
            lemma_keyed_update(
                before,
                server_key(),
                server_value(),
                i as int,
                self.servers[i as int],
            );
        }
        true
    }
}

/// A guild has a channel exactly when the channel's name is among its channels' names.
pub proof fn lemma_channel_names(guild: ServerView, name: Seq<char>)
    ensures
        guild.channel_names().contains(name) <==> guild.has_channel(name),
        guild.has_channel(name) ==> 0 <= guild.place(name) < guild.channels.len()
            && guild.channel(name).name == name,
{
    let names = guild.channel_names();
    if names.contains(name) {
        let i = choose|i: int| 0 <= i < names.len() && names[i] == name;
        assert(channel_key()(guild.channels[i]) == name);
    }
    if guild.has_channel(name) {
        let i = guild.place(name);
        assert(0 <= i < guild.channels.len() && channel_key()(guild.channels[i]) == name);
        assert(names[i] == name);
    }
}

/// The history of blocks of which all but the last hold fifty messages is as long as
/// that makes it, and each block is the stretch of fifty that its index gives.
proof fn lemma_history_blocks(blocks: Seq<BlockView>, k: int)
    requires
        0 <= k < blocks.len(),
        forall|i: int| 0 <= i < blocks.len() - 1 ==> (#[trigger] blocks[i]).messages.len() == 50,
    ensures
        history_of(blocks).len() == 50 * (blocks.len() - 1) + blocks.last().messages.len(),
        blocks[k].messages == history_of(blocks).subrange(
            50 * k,
            50 * k + blocks[k].messages.len(),
        ),
    decreases blocks.len(),
{
    let n = blocks.len() as int;
    let init = blocks.drop_last();
    if n == 1 {
        assert(history_of(init) =~= Seq::empty());
        assert(history_of(blocks) =~= blocks.last().messages);
        assert(blocks[k].messages =~= history_of(blocks).subrange(
            0,
            blocks[k].messages.len() as int,
        ));
    } else {
        let j = if k < n - 1 { k } else { n - 2 };
        assert forall|i: int| 0 <= i < init.len() - 1 implies (#[trigger] init[i]).messages.len()
            == 50 by {
            assert(init[i] == blocks[i]);
        }
        lemma_history_blocks(init, j);
        assert(init.last() == blocks[n - 2]);
        assert(history_of(init).len() == 50 * (n - 1));
        if k < n - 1 {
            assert(init[k] == blocks[k]);
            assert(blocks[k].messages =~= history_of(blocks).subrange(
                50 * k,
                50 * k + blocks[k].messages.len(),
            ));
        } else {
            assert(blocks[k].messages =~= history_of(blocks).subrange(
                50 * k,
                50 * k + blocks[k].messages.len(),
            ));
        }
    }
}

/// The blocks of a channel are its history cut into stretches of fifty: the block of
/// index `k` holds the messages from `50 * k` up to `50 * k + 50`, or up to the end of
/// the history where that comes first, and there are as many blocks as that takes.
pub proof fn lemma_blocks_chunk_history(channel: ChannelView, k: int)
    requires
        channel.wf(),
        0 <= k < channel.blocks.len(),
    ensures
        channel.history().len() >= 1,
        channel.blocks.len() == (channel.history().len() + 49) / 50,
        channel.blocks[k].messages == channel.history().subrange(
            50 * k,
            if 50 * k + 50 <= channel.history().len() {
                50 * k + 50
            } else {
                channel.history().len() as int
            },
        ),
{
    let blocks = channel.blocks;
    assert forall|i: int| 0 <= i < blocks.len() - 1 implies (#[trigger] blocks[i]).messages.len()
        == 50 by {
        assert(blocks[i].wf() && blocks[i].filled);
    }
    lemma_history_blocks(blocks, k);
    assert(blocks[blocks.len() - 1].wf());
    assert(blocks[k].wf());
}

/// A post makes the message the newest of the channel's history, and keeps the channel
/// well formed.
pub proof fn lemma_post_extends_history(channel: ChannelView, message: MessageView, now: u64)
    requires
        channel.wf(),
    ensures
        channel.with_message(message, now).wf(),
        channel.with_message(message, now).name == channel.name,
        channel.with_message(message, now).history() == channel.history().push(message),
{
    let after = channel.with_message(message, now);
    let n = channel.blocks.len() as int;
    let last = channel.blocks[n - 1];
    assert(last.wf());
    if last.filled {
        let fresh = BlockView::empty(now).with_message(message);
        assert(after.blocks.drop_last() =~= channel.blocks);
        assert(fresh.messages =~= seq![message]);
        assert(after.history() =~= channel.history().push(message));
        assert forall|i: int| 0 <= i < after.blocks.len() implies (#[trigger] after.blocks[i]).wf()
            && after.blocks[i].messages.len() >= 1 by {
            if i < n {
                assert(after.blocks[i] == channel.blocks[i]);
            }
        }
        assert forall|i: int| 0 <= i < after.blocks.len() - 1 implies (
        #[trigger] after.blocks[i]).filled by {
            assert(after.blocks[i] == channel.blocks[i]);
        }
    } else {
        assert(after.blocks.drop_last() =~= channel.blocks.drop_last());
        assert(after.blocks.last().messages == last.messages.push(message));
        assert(after.history() =~= channel.history().push(message));
        assert forall|i: int| 0 <= i < after.blocks.len() implies (#[trigger] after.blocks[i]).wf()
            && after.blocks[i].messages.len() >= 1 by {
            if i < n - 1 {
                assert(after.blocks[i] == channel.blocks[i]);
            }
        }
        assert forall|i: int| 0 <= i < after.blocks.len() - 1 implies (
        #[trigger] after.blocks[i]).filled by {
            assert(after.blocks[i] == channel.blocks[i]);
        }
    }
}

/// The channel after the messages were posted one after the other, each at its time.
pub open spec fn with_messages(
    channel: ChannelView,
    messages: Seq<MessageView>,
    times: Seq<u64>,
) -> ChannelView
    decreases messages.len(),
{
    if messages.len() == 0 {
        channel
    } else {
        with_messages(channel, messages.drop_last(), times).with_message(
            messages.last(),
            times[messages.len() - 1],
        )
    }
}

/// After any number of posts to a channel its history is what it was, then the posted
/// messages in their order. On a channel that was just opened that is the opening line
/// and then the posts, so that the first block holds the opening line and the first 49
/// posts, and each later block the next fifty.
pub proof fn lemma_history_after_posts(
    channel: ChannelView,
    messages: Seq<MessageView>,
    times: Seq<u64>,
)
    requires
        channel.wf(),
    ensures
        with_messages(channel, messages, times).wf(),
        with_messages(channel, messages, times).name == channel.name,
        with_messages(channel, messages, times).history() == channel.history() + messages,
    decreases messages.len(),
{
    if messages.len() == 0 {
        assert(channel.history() + messages =~= channel.history());
    } else {
        let before = with_messages(channel, messages.drop_last(), times);
        lemma_history_after_posts(channel, messages.drop_last(), times);
        lemma_post_extends_history(before, messages.last(), times[messages.len() - 1]);
        assert((channel.history() + messages.drop_last()).push(messages.last())
            =~= channel.history() + messages);
    }
}

/// A channel as it is opened is well formed, and its history is its first line.
pub proof fn lemma_opened_channel(name: Seq<char>, first: MessageView, now: u64)
    ensures
        ChannelView::opened(name, first, now).wf(),
        ChannelView::opened(name, first, now).history() == seq![first],
{
    let channel = ChannelView::opened(name, first, now);
    assert(channel.blocks[0].messages =~= seq![first]);
    assert(history_of(channel.blocks.drop_last()) =~= Seq::empty());
    assert(channel.history() =~= seq![first]);
}

} // verus!
