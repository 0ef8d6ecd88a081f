//! Sign-up, sign-in and sign-out with plain answers, over the stores at hand.

use vstd::prelude::*;

use crate::error::ServerError;
use crate::handler::{after_gate, gate};
use crate::id::{is_id, ID};
use crate::session::{after_start, SessionHandler};
use crate::user::{
    create_error, credentials_match, with_status, SensitiveUserView, UserHandler,
};

verus! {

/// Sign-up, sign-in and sign-out over the session store and the user store, answered
/// with plain values.
#[derive(Debug)]
pub struct AuthHandler {
    pub session_handler: SessionHandler,
    pub user_handler: UserHandler,
}

impl AuthHandler {
    /// Both stores are well formed.
    pub open spec fn wf(&self) -> bool {
        self.session_handler.wf() && self.user_handler.wf()
    }

    /// A handler over the two stores.
    pub fn new(session_handler: SessionHandler, user_handler: UserHandler) -> (res: Self)
        ensures
            res.session_handler == session_handler,
            res.user_handler == user_handler,
    {
        Self { session_handler, user_handler }
    }

    /// Creates the user `username` under the identifier `new_id`, online, and starts its
    /// session at `now`.
    pub fn signup(&mut self, username: String, password: String, now: u64, new_id: ID) -> (res:
        Result<ID, ServerError>)
        requires
            old(self).wf(),
        ensures
            final(self).wf(),
            match create_error(old(self).user_handler@, username@, new_id@) {
                Some(error) => res == Err::<ID, ServerError>(error)
                    && final(self).user_handler@ == old(self).user_handler@
                    && final(self).session_handler@ == old(self).session_handler@,
                None => res matches Ok(id) && id@ == new_id@
                    && final(self).user_handler@ == old(self).user_handler@.push(
                    SensitiveUserView {
                        id: new_id@,
                        is_online: true,
                        username: username@,
                        password: password@,
                        servers: Seq::empty(),
                    },
                ) && final(self).session_handler@ == after_start(
                    old(self).session_handler@,
                    new_id@,
                    now,
                ),
            },
    {
        match self.user_handler.create_new_user(username, password, true, new_id) {
            Err(error) => Err(error),
            Ok(id) => {
                self.session_handler.start_session(id.clone(), now);
                Ok(id)
            },
        }
    }

    /// Signs the user `id` in, and says whether it did: it does where `id` is an
    /// identifier and name and password are the user's. The user is then set online, and
    /// a session starts at `now` unless an active one exists.
    pub fn signin_by_id(&mut self, username: &str, password: &str, id: ID, now: u64) -> (res: bool)
        requires
            old(self).wf(),
        ensures
            final(self).wf(),
            res == (is_id(id@) && credentials_match(
                old(self).user_handler@,
                id@,
                username@,
                password@,
            )),
            res ==> final(self).user_handler@ == with_status(old(self).user_handler@, id@, true)
                && final(self).session_handler@ == after_start(
                old(self).session_handler@,
                id@,
                now,
            ),
            !res ==> final(self).user_handler@ == old(self).user_handler@
                && final(self).session_handler@ == old(self).session_handler@,
    {
        if !id.is_valid() {
            return false;
        }
        if !self.user_handler.check_user_credentials(&id, username, password) {
            return false;
        }
        self.user_handler.set_user_status(&id, true);
        self.session_handler.start_session(id, now);
        true
    }

    /// Deletes the session of `id`, if there is one, and sets the user offline.
    pub fn signout(&mut self, id: ID)
        requires
            old(self).wf(),
        ensures
            final(self).wf(),
            final(self).session_handler@ == old(self).session_handler@.remove(id@),
            final(self).user_handler@ == with_status(old(self).user_handler@, id@, false),
    {
        self.session_handler.end_session(&id);
        self.user_handler.set_user_status(&id, false);
    }

    /// Whether the session cookie `cookie` passes the check at `now`; an expired
    /// session is deleted.
    pub fn check_authentication(&mut self, cookie: ID, now: u64) -> (res: bool)
        requires
            old(self).wf(),
        ensures
            final(self).wf(),
            res == (gate(old(self).session_handler@, cookie@, now) is Success),
            final(self).session_handler@ == after_gate(old(self).session_handler@, cookie@, now),
            final(self).user_handler@ == old(self).user_handler@,
    {
        if !cookie.is_valid() {
            return false;
        }
        self.session_handler.check_session_active(&cookie, now).succeeded()
    }
}

} // verus!
