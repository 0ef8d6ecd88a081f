//! Sessions: one for each user at most, expired after 600 seconds.

use vstd::prelude::*;
use vstd::string::*;

use crate::error::ServerError;
use crate::id::ID;
use crate::keyed::{distinct_keys, keyed, lemma_keyed_at, lemma_keyed_push, lemma_keyed_remove};
use crate::messages::{Response, ResponseView};

verus! {

/// The number of seconds after which a session has expired.
pub const SESSION_LIFETIME: u64 = 600;

/// Whether a session started at `start` has expired at `now`: more than 600 seconds
/// have passed.
pub open spec fn expired(start: u64, now: u64) -> bool {
    now - start > SESSION_LIFETIME
}

/// A session: the user it belongs to, whose identifier it shares, and the second at
/// which it started.
#[derive(Debug, PartialEq, Eq)]
pub struct Session {
    pub _id: ID,
    pub start: u64,
}

/// A session as contracts see it.
pub struct SessionView {
    pub id: Seq<char>,
    pub start: u64,
}

impl View for Session {
    type V = SessionView;

    open spec fn view(&self) -> SessionView {
        SessionView { id: self._id@, start: self.start }
    }
}

impl Clone for Session {
    fn clone(&self) -> (res: Self)
        ensures
            res@ == self@,
    {
        Session { _id: self._id.clone(), start: self.start }
    }
}

impl Session {
    /// The session of `user_id` that starts at `now`.
    pub fn new(user_id: ID, now: u64) -> (res: Self)
        ensures
            res@ == (SessionView { id: user_id@, start: now }),
    {
        Self { _id: user_id, start: now }
    }

    /// Whether the session has expired at `now`.
    pub fn is_expired(&self, now: u64) -> (b: bool)
        ensures
            b == expired(self.start, now),
    {
        now > self.start && now - self.start > SESSION_LIFETIME
    }
}

/// What a check of the session of `id` at `now` answers: a bad request where there is
/// none, an expired session where it has expired, else success.
pub open spec fn check_response(
    sessions: Map<Seq<char>, u64>,
    id: Seq<char>,
    now: u64,
) -> ResponseView {
    if !sessions.contains_key(id) {
        ResponseView::Error(ServerError::BadRequest)
    } else if expired(sessions[id], now) {
        ResponseView::Error(ServerError::SessionExpired)
    } else {
        ResponseView::Success
    }
}

/// The sessions after a check of the session of `id` at `now`: an expired session is
/// deleted.
pub open spec fn after_check(sessions: Map<Seq<char>, u64>, id: Seq<char>, now: u64) -> Map<
    Seq<char>,
    u64,
> {
    if sessions.contains_key(id) && expired(sessions[id], now) {
        sessions.remove(id)
    } else {
        sessions
    }
}

/// The sessions after the start of a session of `id` at `now`: an active session stays
/// as it is; else a session that starts at `now` takes the place.
pub open spec fn after_start(sessions: Map<Seq<char>, u64>, id: Seq<char>, now: u64) -> Map<
    Seq<char>,
    u64,
> {
    if check_response(sessions, id, now) is Success {
        sessions
    } else {
        sessions.insert(id, now)
    }
}

/// The sessions that a sequence of documents holds: of two documents of one user the
/// first stays.
pub open spec fn collected(documents: Seq<Session>) -> Map<Seq<char>, u64>
    decreases documents.len(),
{
    if documents.len() == 0 {
        Map::empty()
    } else {
        let before = collected(documents.drop_last());
        if before.contains_key(documents.last()._id@) {
            before
        } else {
            before.insert(documents.last()._id@, documents.last().start)
        }
    }
}

/// The session store: at most one session for each user, found by the user's identifier.
#[derive(Debug)]
pub struct SessionHandler {
    database: String,
    name: String,
    collection: Vec<Session>,
}

spec fn session_key() -> spec_fn(Session) -> Seq<char> {
    |session: Session| session._id@
}

spec fn session_start() -> spec_fn(Session) -> u64 {
    |session: Session| session.start
}

impl View for SessionHandler {
    type V = Map<Seq<char>, u64>;

    closed spec fn view(&self) -> Map<Seq<char>, u64> {
        keyed(self.collection@, session_key(), session_start())
    }
}

impl SessionHandler {
    /// The store's invariant: no two sessions belong to one user.
    pub closed spec fn wf(&self) -> bool {
        distinct_keys(self.collection@, session_key())
    }

    /// The name of the database that the sessions belong to.
    pub closed spec fn database(&self) -> Seq<char> {
        self.database@
    }

    /// The name of the collection that the sessions belong to.
    pub closed spec fn name(&self) -> Seq<char> {
        self.name@
    }

    /// A store under the given names that holds `collection`.
    pub fn new(database: String, name: String, collection: Vec<Session>) -> (res: Self)
        ensures
            res.wf(),
            res@ == collected(collection@),
            res.database() == database@,
            res.name() == name@,
    {
        let mut res = SessionHandler { database, name, collection: Vec::new() };
        assert(res@ =~= Map::<Seq<char>, u64>::empty());
        let mut i: usize = 0;
        while i < collection.len()
            invariant
                i <= collection.len(),
                res.wf(),
                res@ == collected(collection@.take(i as int)),
                res.database() == database@,
                res.name() == name@,
            decreases collection.len() - i,
        {
            assert(collection@.take(i + 1).drop_last() =~= collection@.take(i as int));
            res.insert_one(collection[i].clone());
            i += 1;
        }
        assert(collection@.take(collection.len() as int) =~= collection@);
        res
    }

    /// The name of the database that the store belongs to.
    pub fn database_name(&self) -> (res: String)
        ensures
            res@ == self.database(),
    {
        self.database.clone()
    }

    /// The name of the collection that the store holds.
    pub fn collection_name(&self) -> (res: String)
        ensures
            res@ == self.name(),
    {
        self.name.clone()
    }

    /// An empty store under the given names.
    pub fn from_names(database: &str, collection: &str) -> (res: Self)
        ensures
            res.wf(),
            res@ == Map::<Seq<char>, u64>::empty(),
            res.database() == database@,
            res.name() == collection@,
    {
        let res = SessionHandler {
            database: String::from_str(database),
            name: String::from_str(collection),
            collection: Vec::new(),
        };
        assert(res@ =~= Map::<Seq<char>, u64>::empty());
        res
    }

    fn index_of(&self, id: &ID) -> (res: Option<usize>)
        requires
            self.wf(),
        ensures
            res is Some <==> self@.contains_key(id@),
            res matches Some(i) ==> i < self.collection.len() && self.collection[i as int]._id@
                == id@ && self.collection[i as int].start == self@[id@],
    {
        let mut i: usize = 0;
        while i < self.collection.len()
            invariant
                i <= self.collection.len(),
                self.wf(),
                forall|j: int| 0 <= j < i ==> session_key()(#[trigger] self.collection[j]) != id@,
            decreases self.collection.len() - i,
        {
            if self.collection[i]._id.same(id) {
                proof {
                    assert(session_key()(self.collection[i as int]) == id@);
                    lemma_keyed_at(self.collection@, session_key(), session_start(), i as int);
                }
                return Some(i);
            }
            i += 1;
        }
        None
    }

    /// The session of `id`, if there is one.
    pub fn find_one(&self, id: &ID) -> (res: Option<Session>)
        requires
            self.wf(),
        ensures
            res is Some <==> self@.contains_key(id@),
            res matches Some(session) ==> session@ == (SessionView { id: id@, start: self@[id@] }),
    {
        match self.index_of(id) {
            Some(i) => Some(self.collection[i].clone()),
            None => None,
        }
    }

    /// Inserts `session` unless its user has a session, and says whether it did.
    pub fn insert_one(&mut self, session: Session) -> (inserted: bool)
        requires
            old(self).wf(),
        ensures
            final(self).wf(),
            inserted == !old(self)@.contains_key(session._id@),
            inserted ==> final(self)@ == old(self)@.insert(session._id@, session.start),
            !inserted ==> final(self)@ == old(self)@,
            final(self).database() == old(self).database(),
            final(self).name() == old(self).name(),
    {
        if self.index_of(&session._id).is_some() {
            return false;
        }
        proof {
            lemma_keyed_push(self.collection@, session_key(), session_start(), session);
        }
        self.collection.push(session);
        true
    }

    /// Starts a session of `user_id` at `now`, unless the user has an active one. An
    /// expired session of the user is replaced.
    pub fn start_session(&mut self, user_id: ID, now: u64)
        requires
            old(self).wf(),
        ensures
            final(self).wf(),
            final(self)@ == after_start(old(self)@, user_id@, now),
            final(self).database() == old(self).database(),
            final(self).name() == old(self).name(),
    {
        if self.check_session_active(&user_id, now).succeeded() {
            return ;
        }
        let session = Session::new(user_id, now);
        self.insert_one(session);
        assert(self@ =~= after_start(old(self)@, user_id@, now));
    }

    /// Deletes the session of `id`, if there is one.
    pub fn end_session(&mut self, id: &ID)
        requires
            old(self).wf(),
        ensures
            final(self).wf(),
            final(self)@ == old(self)@.remove(id@),
            final(self).database() == old(self).database(),
            final(self).name() == old(self).name(),
    {
        match self.index_of(id) {
            Some(i) => {
                proof {
                    lemma_keyed_remove(self.collection@, session_key(), session_start(), i as int);
                }
                self.collection.remove(i);
            },
            None => {
                assert(self@ =~= self@.remove(id@));
            },
        }
    }

    /// Checks the session of `id` at `now`, and deletes it if it has expired.
    pub fn check_session_active(&mut self, id: &ID, now: u64) -> (res: Response)
        requires
            old(self).wf(),
        ensures
            final(self).wf(),
            res@ == check_response(old(self)@, id@, now),
            final(self)@ == after_check(old(self)@, id@, now),
            final(self).database() == old(self).database(),
            final(self).name() == old(self).name(),
    {
        let session = self.find_one(id);
        if session.is_none() {
            return Response::Error(ServerError::BadRequest);
        }
        if session.unwrap().is_expired(now) {
            self.end_session(id);
            return Response::Error(ServerError::SessionExpired);
        }
        Response::Success
    }
}

/// After a session was ended, a check finds none.
pub proof fn lemma_check_after_end(sessions: Map<Seq<char>, u64>, id: Seq<char>, now: u64)
    ensures
        check_response(sessions.remove(id), id, now) == ResponseView::Error(
            ServerError::BadRequest,
        ),
{
}

/// A session that started more than 600 seconds ago is reported expired by the first
/// check and is gone after it, so that a second check finds none.
pub proof fn lemma_expired_session(
    sessions: Map<Seq<char>, u64>,
    id: Seq<char>,
    now: u64,
    later: u64,
)
    requires
        sessions.contains_key(id),
        now - sessions[id] > 600,
    ensures
        check_response(sessions, id, now) == ResponseView::Error(ServerError::SessionExpired),
        !after_check(sessions, id, now).contains_key(id),
        check_response(after_check(sessions, id, now), id, later) == ResponseView::Error(
            ServerError::BadRequest,
        ),
{
}

/// Starting a session leaves the user with an active one, and starting it again
/// changes nothing.
pub proof fn lemma_start_session(sessions: Map<Seq<char>, u64>, id: Seq<char>, now: u64)
    ensures
        check_response(after_start(sessions, id, now), id, now) == ResponseView::Success,
        after_start(after_start(sessions, id, now), id, now) == after_start(sessions, id, now),
{
}

} // verus!
