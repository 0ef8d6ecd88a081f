//! Users: the store, and the public side of a user.

use vstd::prelude::*;
use vstd::string::*;

use crate::error::ServerError;
use crate::id::{is_id, ID};
use crate::keyed::{distinct_keys, has_key, lemma_keyed_at, lemma_keyed_push, place_of};
use crate::messages::views;
use crate::text::{clone_strings, same_as};

verus! {

/// What the public may know of a user.
#[derive(Debug, PartialEq, Eq)]
pub struct User {
    pub username: String,
    pub is_online: bool,
    pub servers: Vec<String>,
}

/// The public side of a user as contracts see it.
pub struct UserView {
    pub username: Seq<char>,
    pub is_online: bool,
    pub servers: Seq<Seq<char>>,
}

impl View for User {
    type V = UserView;

    open spec fn view(&self) -> UserView {
        UserView {
            username: self.username@,
            is_online: self.is_online,
            servers: views(self.servers@),
        }
    }
}

impl User {
    /// The public side of a user, from its parts.
    pub fn new(username: String, is_online: bool, servers: Vec<String>) -> (res: Self)
        ensures
            res@ == (UserView { username: username@, is_online, servers: views(servers@) }),
    {
        Self { username, is_online, servers }
    }
}

/// A user as the store holds it, password included.
#[derive(Debug, PartialEq, Eq)]
pub struct SensitiveUser {
    pub _id: ID,
    pub is_online: bool,
    pub username: String,
    pub password: String,
    pub servers: Vec<String>,
}

/// A user as contracts see it.
pub struct SensitiveUserView {
    pub id: Seq<char>,
    pub is_online: bool,
    pub username: Seq<char>,
    pub password: Seq<char>,
    pub servers: Seq<Seq<char>>,
}

impl SensitiveUserView {
    /// The user without identifier and password.
    pub open spec fn public(self) -> UserView {
        UserView { username: self.username, is_online: self.is_online, servers: self.servers }
    }

    /// The user with the online flag set to `status`.
    pub open spec fn with_status(self, status: bool) -> SensitiveUserView {
        SensitiveUserView { is_online: status, ..self }
    }

    /// The user with `server` as the newest of its guilds.
    pub open spec fn with_server(self, server: Seq<char>) -> SensitiveUserView {
        SensitiveUserView { servers: self.servers.push(server), ..self }
    }

    /// Whether name and password are exactly the user's.
    pub open spec fn has_credentials(self, username: Seq<char>, password: Seq<char>) -> bool {
        self.password == password && self.username == username
    }
}

impl View for SensitiveUser {
    type V = SensitiveUserView;

    open spec fn view(&self) -> SensitiveUserView {
        SensitiveUserView {
            id: self._id@,
            is_online: self.is_online,
            username: self.username@,
            password: self.password@,
            servers: views(self.servers@),
        }
    }
}

impl Clone for SensitiveUser {
    fn clone(&self) -> (res: Self)
        ensures
            res@ == self@,
    {
        SensitiveUser {
            _id: self._id.clone(),
            is_online: self.is_online,
            username: self.username.clone(),
            password: self.password.clone(),
            servers: clone_strings(&self.servers),
        }
    }
}

impl SensitiveUser {
    /// A user as the store holds it, from its parts.
    pub fn new(
        _id: ID,
        is_online: bool,
        username: String,
        password: String,
        servers: Vec<String>,
    ) -> (res: Self)
        ensures
            res@ == (SensitiveUserView {
                id: _id@,
                is_online,
                username: username@,
                password: password@,
                servers: views(servers@),
            }),
    {
        Self { _id, is_online, username, password, servers }
    }

    /// Whether `pwd` and `username` are exactly the user's password and name.
    pub fn check_credentials(&self, pwd: &str, username: &str) -> (b: bool)
        ensures
            b == self@.has_credentials(username@, pwd@),
    {
        same_as(&self.password, pwd) && same_as(&self.username, username)
    }

    /// The user without identifier and password.
    pub fn to_user(&self) -> (res: User)
        ensures
            res@ == self@.public(),
    {
        User::new(self.username.clone(), self.is_online, clone_strings(&self.servers))
    }
}

/// What a search gives: the thing found, or the error to answer with.
#[derive(Debug)]
pub enum FindError<T> {
    Found(T),
    Failed(ServerError),
}

/// The identifier by which a user is found.
pub open spec fn user_key() -> spec_fn(SensitiveUserView) -> Seq<char> {
    |user: SensitiveUserView| user.id
}

/// The test for the name `username`.
pub open spec fn is_named(username: Seq<char>) -> spec_fn(SensitiveUserView) -> bool {
    |user: SensitiveUserView| user.username == username
}

/// The public side of a user.
pub open spec fn publicly() -> spec_fn(SensitiveUserView) -> UserView {
    |user: SensitiveUserView| user.public()
}

/// Whether some user has the identifier `id`.
pub open spec fn has_user(users: Seq<SensitiveUserView>, id: Seq<char>) -> bool {
    has_key(users, user_key(), id)
}

/// The user of the identifier `id`; meaningful where there is one.
pub open spec fn user_of(users: Seq<SensitiveUserView>, id: Seq<char>) -> SensitiveUserView {
    users[place_of(users, user_key(), id)]
}

/// Whether some user has the name `username`.
pub open spec fn name_taken(users: Seq<SensitiveUserView>, username: Seq<char>) -> bool {
    exists|i: int| 0 <= i < users.len() && (#[trigger] users[i]).username == username
}

/// No two users share a name.
pub open spec fn names_unique(users: Seq<SensitiveUserView>) -> bool {
    forall|i: int, j: int|
        0 <= i < j < users.len() ==> (#[trigger] users[i]).username != (#[trigger] users[j]).username
}

/// The users that a sequence of documents holds: of two documents of one identifier the
/// first stays.
pub open spec fn collected(documents: Seq<SensitiveUserView>) -> Seq<SensitiveUserView>
    decreases documents.len(),
{
    if documents.len() == 0 {
        Seq::empty()
    } else {
        let before = collected(documents.drop_last());
        if has_user(before, documents.last().id) {
            before
        } else {
            before.push(documents.last())
        }
    }
}

/// Whether a user can be created: the name is taken by nobody, and the identifier is well
/// formed and taken by nobody. A taken name is a bad request; an unusable identifier an
/// internal error.
pub open spec fn create_error(
    users: Seq<SensitiveUserView>,
    username: Seq<char>,
    id: Seq<char>,
) -> Option<ServerError> {
    if name_taken(users, username) {
        Some(ServerError::BadRequest)
    } else if !is_id(id) || has_user(users, id) {
        Some(ServerError::InternalServerError)
    } else {
        None
    }
}

/// The users after the online flag of the user `id` was set; nothing changes where there
/// is no such user.
pub open spec fn with_status(users: Seq<SensitiveUserView>, id: Seq<char>, status: bool) -> Seq<
    SensitiveUserView,
> {
    if has_user(users, id) {
        users.update(place_of(users, user_key(), id), user_of(users, id).with_status(status))
    } else {
        users
    }
}

/// The users after `server` joined the guild list of the user `id`; nothing changes where
/// there is no such user.
pub open spec fn with_server(
    users: Seq<SensitiveUserView>,
    id: Seq<char>,
    server: Seq<char>,
) -> Seq<SensitiveUserView> {
    if has_user(users, id) {
        users.update(place_of(users, user_key(), id), user_of(users, id).with_server(server))
    } else {
        users
    }
}

/// Whether `id` is a user whose name and password are exactly those given.
pub open spec fn credentials_match(
    users: Seq<SensitiveUserView>,
    id: Seq<char>,
    username: Seq<char>,
    password: Seq<char>,
) -> bool {
    has_user(users, id) && user_of(users, id).has_credentials(username, password)
}

/// The user store: the users in the order of their creation, each found by its
/// identifier.
#[derive(Debug)]
pub struct UserHandler {
    database: String,
    name: String,
    collection: Vec<SensitiveUser>,
}

impl View for UserHandler {
    type V = Seq<SensitiveUserView>;

    closed spec fn view(&self) -> Seq<SensitiveUserView> {
        views(self.collection@)
    }
}

impl UserHandler {
    /// The store's invariant: no two users share an identifier.
    pub open spec fn wf(&self) -> bool {
        distinct_keys(self@, user_key())
    }

    /// The name of the database that the users belong to.
    pub closed spec fn database(&self) -> Seq<char> {
        self.database@
    }

    /// The name of the collection that the users belong to.
    pub closed spec fn name(&self) -> Seq<char> {
        self.name@
    }

    /// The name of the database that the store belongs to.
    pub fn database_name(&self) -> (res: String)
        ensures
            res@ == self.database(),
    {
        self.database.clone()
    }

    /// The name of the collection that the store holds.
    pub fn collection_name(&self) -> (res: String)
        ensures
            res@ == self.name(),
    {
        self.name.clone()
    }

    /// An empty store under the given names.
    pub fn from_names(database: &str, collection: &str) -> (res: Self)
        ensures
            res.wf(),
            res@ == Seq::<SensitiveUserView>::empty(),
            res.database() == database@,
            res.name() == collection@,
    {
        let res = UserHandler {
            database: String::from_str(database),
            name: String::from_str(collection),
            collection: Vec::new(),
        };
        assert(res@ =~= Seq::<SensitiveUserView>::empty());
        res
    }

    /// A store under the given names that holds `collection`.
    pub fn new(database: String, name: String, collection: Vec<SensitiveUser>) -> (res: Self)
        ensures
            res.wf(),
            res@ == collected(views(collection@)),
            res.database() == database@,
            res.name() == name@,
    {
        let mut res = UserHandler { database, name, collection: Vec::new() };
        assert(res@ =~= Seq::<SensitiveUserView>::empty());
        let mut i: usize = 0;
        while i < collection.len()
            invariant
                i <= collection.len(),
                res.wf(),
                res@ == collected(views(collection@).take(i as int)),
                res.database() == database@,
                res.name() == name@,
            decreases collection.len() - i,
        {
            let document = collection[i].clone();
            proof {
                let documents = views(collection@);
                assert(documents.take(i + 1).drop_last() =~= documents.take(i as int));
                assert(documents.take(i + 1).last() == document@);
            }
            if res.index_of(&document._id).is_none() {
                proof {
                    lemma_keyed_push(res@, user_key(), user_key(), document@);
                    assert(views(res.collection@.push(document)) =~= res@.push(document@));
                }
                res.collection.push(document);
            }
            i += 1;
        }
        assert(views(collection@).take(collection.len() as int) =~= views(collection@));
        res
    }

    fn index_of(&self, id: &ID) -> (res: Option<usize>)
        requires
            self.wf(),
        ensures
            res is Some <==> has_user(self@, id@),
            res matches Some(i) ==> i < self.collection.len() && i == place_of(
                self@,
                user_key(),
                id@,
            ) && self.collection[i as int]@ == user_of(self@, id@) && user_of(self@, id@).id == id@,
    {
        let mut i: usize = 0;
        while i < self.collection.len()
            invariant
                i <= self.collection.len(),
                self.wf(),
                forall|j: int| 0 <= j < i ==> user_key()(#[trigger] self@[j]) != id@,
            decreases self.collection.len() - i,
        {
            assert(self@[i as int] == self.collection[i as int]@);
            if self.collection[i]._id.same(id) {
                proof {
                    assert(user_key()(self@[i as int]) == id@);
                    lemma_keyed_at(self@, user_key(), user_key(), i as int);
                }
                return Some(i);
            }
            i += 1;
        }
        None
    }

    fn name_index(&self, username: &String) -> (res: Option<usize>)
        ensures
            res is Some <==> name_taken(self@, username@),
    {
        let mut i: usize = 0;
        while i < self.collection.len()
            invariant
                i <= self.collection.len(),
                forall|j: int| 0 <= j < i ==> (#[trigger] self@[j]).username != username@,
            decreases self.collection.len() - i,
        {
            assert(self@[i as int] == self.collection[i as int]@);
            if self.collection[i].username == *username {
                return Some(i);
            }
            i += 1;
        }
        None
    }

    /// Inserts `user` unless its name or its identifier is taken or its identifier is
    /// ill-formed, and says with which error it did not.
    pub fn insert_one(&mut self, user: SensitiveUser) -> (res: Option<ServerError>)
        requires
            old(self).wf(),
        ensures
            final(self).wf(),
            final(self).database() == old(self).database(),
            final(self).name() == old(self).name(),
            res == create_error(old(self)@, user@.username, user@.id),
            res is None ==> final(self)@ == old(self)@.push(user@),
            res is Some ==> final(self)@ == old(self)@,
            names_unique(old(self)@) ==> names_unique(final(self)@),
    {
        if self.name_index(&user.username).is_some() {
            return Some(ServerError::BadRequest);
        }
        if !user._id.is_valid() || self.index_of(&user._id).is_some() {
            return Some(ServerError::InternalServerError);
        }
        proof {
            lemma_keyed_push(self@, user_key(), user_key(), user@);
            assert(views(self.collection@.push(user)) =~= self@.push(user@));
        }
        self.collection.push(user);
        None
    }

    /// Creates the user `username` under the identifier `id`. A name that is taken is
    /// refused as a bad request; an identifier that is ill-formed or taken as an internal
    /// error.
    pub fn create_new_user(
        &mut self,
        username: String,
        password: String,
        is_online: bool,
        id: ID,
    ) -> (res: Result<ID, ServerError>)
        requires
            old(self).wf(),
        ensures
            final(self).wf(),
            final(self).database() == old(self).database(),
            final(self).name() == old(self).name(),
            match create_error(old(self)@, username@, id@) {
                Some(error) => res == Err::<ID, ServerError>(error) && final(self)@ == old(self)@,
                None => res matches Ok(created) && created@ == id@ && final(self)@ == old(self)@.push(
                    SensitiveUserView {
                        id: id@,
                        is_online,
                        username: username@,
                        password: password@,
                        servers: Seq::empty(),
                    },
                ),
            },
            names_unique(old(self)@) ==> names_unique(final(self)@),
    {
        let created = id.clone();
        let user = SensitiveUser::new(id, is_online, username, password, Vec::new());
        assert(user@.servers =~= Seq::empty());
        match self.insert_one(user) {
            Some(error) => Err(error),
            None => Ok(created),
        }
    }

    /// The user of the identifier `user_id` as the store holds it, if there is one.
    pub fn get_user_sensitive(&self, user_id: &ID) -> (res: Option<SensitiveUser>)
        requires
            self.wf(),
        ensures
            res is Some <==> has_user(self@, user_id@),
            res matches Some(user) ==> user@ == user_of(self@, user_id@) && user@.id == user_id@,
    {
        match self.index_of(user_id) {
            Some(i) => Some(self.collection[i].clone()),
            None => None,
        }
    }

    /// The public side of the user of the identifier `user_id`, if there is one.
    pub fn get_user(&self, user_id: &ID) -> (res: Option<User>)
        requires
            self.wf(),
        ensures
            res is Some <==> has_user(self@, user_id@),
            res matches Some(user) ==> user@ == user_of(self@, user_id@).public(),
    {
        let option = self.get_user_sensitive(user_id);
        match option {
            Some(sensitive) => Some(sensitive.to_user()),
            None => None,
        }
    }

    /// The public side of every user named `username`, in the order of their creation.
    pub fn find_user_by_name(&self, username: String) -> (res: Vec<User>)
        ensures
            views(res@) == self@.filter(is_named(username@)).map_values(publicly()),
            names_unique(self@) ==> res.len() <= 1,
    {
        let mut users: Vec<User> = Vec::new();
        let mut i: usize = 0;
        proof {
            reveal(Seq::filter);
            assert(self@.take(0).filter(is_named(username@)) =~= Seq::empty());
            assert(views(users@) =~= self@.take(0).filter(is_named(username@)).map_values(
                publicly(),
            ));
        }
        while i < self.collection.len()
            invariant
                i <= self.collection.len(),
                views(users@) == self@.take(i as int).filter(is_named(username@)).map_values(
                    publicly(),
                ),
            decreases self.collection.len() - i,
        {
            proof {
                reveal(Seq::filter);
                assert(self@.take(i + 1).drop_last() =~= self@.take(i as int));
                assert(self@.take(i + 1).last() == self.collection[i as int]@);
            }
            let ghost before = views(users@);
            if self.collection[i].username == username {
                users.push(self.collection[i].to_user());
                assert(views(users@) =~= before.push(self.collection[i as int]@.public()));
                assert(self@.take(i + 1).filter(is_named(username@)).map_values(publicly())
                    =~= before.push(self.collection[i as int]@.public()));
            }
            i += 1;
        }
        proof {
            assert(self@.take(self.collection.len() as int) =~= self@);
            if names_unique(self@) {
                lemma_unique_name(self@, username@);
            }
        }
        users
    }

    /// Sets the online flag of the user `user_id`; nothing changes where there is no
    /// such user.
    pub fn set_user_status(&mut self, user_id: &ID, status: bool)
        requires
            old(self).wf(),
        ensures
            final(self).wf(),
            final(self).database() == old(self).database(),
            final(self).name() == old(self).name(),
            final(self)@ == with_status(old(self)@, user_id@, status),
    {
        match self.index_of(user_id) {
            Some(i) => {
                let user = &mut self.collection[i];
                user.is_online = status;
                proof {
                    assert(self@ =~= with_status(old(self)@, user_id@, status));
                    assert forall|a: int, b: int| 0 <= a < b < self@.len() implies user_key()(
                        #[trigger] self@[a],
                    ) != user_key()(#[trigger] self@[b]) by {
                        assert(user_key()(self@[a]) == user_key()(old(self)@[a]));
                        assert(user_key()(self@[b]) == user_key()(old(self)@[b]));
                    }
                }
            },
            None => {},
        }
    }

    /// Appends the guild `name` to the guild list of the user `user_id`; nothing changes
    /// where there is no such user.
    pub fn add_user_server(&mut self, user_id: &ID, name: String)
        requires
            old(self).wf(),
        ensures
            final(self).wf(),
            final(self).database() == old(self).database(),
            final(self).name() == old(self).name(),
            final(self)@ == with_server(old(self)@, user_id@, name@),
    {
        match self.index_of(user_id) {
            Some(i) => {
                let user = &mut self.collection[i];
                user.servers.push(name);
                proof {
                    assert(self.collection[i as int]@.servers =~= old(self)@[i as int].servers.push(
                        name@,
                    ));
                    assert(self@ =~= with_server(old(self)@, user_id@, name@));
                    assert forall|a: int, b: int| 0 <= a < b < self@.len() implies user_key()(
                        #[trigger] self@[a],
                    ) != user_key()(#[trigger] self@[b]) by {
                        assert(user_key()(self@[a]) == user_key()(old(self)@[a]));
                        assert(user_key()(self@[b]) == user_key()(old(self)@[b]));
                    }
                }
            },
            None => {},
        }
    }

    /// Whether `user_id` is a user whose name and password are exactly those given.
    pub fn check_user_credentials(&self, user_id: &ID, username: &str, password: &str) -> (res:
        bool)
        requires
            self.wf(),
        ensures
            res == credentials_match(self@, user_id@, username@, password@),
    {
        let opt_usr = self.get_user_sensitive(user_id);
        match opt_usr {
            Some(user) => user.check_credentials(password, username),
            None => false,
        }
    }
}

/// Where names are unique, at most one user has a given name.
pub proof fn lemma_unique_name(users: Seq<SensitiveUserView>, username: Seq<char>)
    requires
        names_unique(users),
    ensures
        users.filter(is_named(username)).len() <= 1,
        !name_taken(users, username) ==> users.filter(is_named(username)).len() == 0,
    decreases users.len(),
{
    reveal(Seq::filter);
    if users.len() > 0 {
        let before = users.drop_last();
        assert forall|i: int, j: int| 0 <= i < j < before.len() implies (
        #[trigger] before[i]).username != (#[trigger] before[j]).username by {
            assert(before[i] == users[i] && before[j] == users[j]);
        }
        lemma_unique_name(before, username);
        if !name_taken(users, username) {
            if name_taken(before, username) {
                let i = choose|i: int| 0 <= i < before.len() && (#[trigger] before[i]).username == username;
                assert(users[i].username == username);
            }
            assert(users[users.len() - 1].username != username);
        }
        if users.last().username == username {
            if name_taken(before, username) {
                let i = choose|i: int| 0 <= i < before.len() && (#[trigger] before[i]).username == username;
                assert(users[i] == before[i]);
                assert(users[i].username != users[users.len() - 1].username);
            }
        }
    }
}

} // verus!
