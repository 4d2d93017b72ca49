//! The conversation state that outlives a turn: for each user, the path of
//! the action that the next free text of that user is meant for.

use crate::payload::{root_path, ROOT_PATH};
use vstd::hash_map::StringHashMap;
use vstd::prelude::*;
use vstd::string::*;

verus! {

/// The sessions after `user` was seen: a user without a session gets one
/// that rests on the root action, a user with one keeps it.
pub open spec fn after_create(sessions: Map<Seq<char>, Seq<char>>, user: Seq<char>) -> Map<
    Seq<char>,
    Seq<char>,
> {
    if sessions.contains_key(user) {
        sessions
    } else {
        sessions.insert(user, root_path())
    }
}

/// The sessions after the session of `user` was pointed at `action`; a user
/// without a session still has none.
pub open spec fn after_set_action(
    sessions: Map<Seq<char>, Seq<char>>,
    user: Seq<char>,
    action: Seq<char>,
) -> Map<Seq<char>, Seq<char>> {
    if sessions.contains_key(user) {
        sessions.insert(user, action)
    } else {
        sessions
    }
}

/// The path that the session of `user` rests on, if the user has a session.
pub open spec fn action_of(sessions: Map<Seq<char>, Seq<char>>, user: Seq<char>) -> Option<
    Seq<char>,
> {
    if sessions.contains_key(user) {
        Some(sessions[user])
    } else {
        None
    }
}

/// Sessions kept in memory, one per user.
pub struct SessionTable {
    actions: StringHashMap<String>,
}

impl View for SessionTable {
    type V = Map<Seq<char>, Seq<char>>;

    closed spec fn view(&self) -> Map<Seq<char>, Seq<char>> {
        Map::new(
            |user: Seq<char>| self.actions@.contains_key(user),
            |user: Seq<char>| self.actions@[user]@,
        )
    }
}

impl SessionTable {
    /// A table without sessions.
    pub fn new() -> (table: SessionTable)
        ensures
            table@ == Map::<Seq<char>, Seq<char>>::empty(),
    {
        let table = SessionTable { actions: StringHashMap::new() };
        assert(table@ =~= Map::<Seq<char>, Seq<char>>::empty());
        table
    }

    /// Makes sure that `user_id` has a session. Says whether one was made.
    pub fn create(&mut self, user_id: &str) -> (created: bool)
        ensures
            created == !old(self)@.contains_key(user_id@),
            final(self)@ == after_create(old(self)@, user_id@),
    {
        if self.actions.contains_key(user_id) {
            false
        } else {
            self.actions.insert(user_id.to_owned(), ROOT_PATH.to_owned());
            assert(self@ =~= old(self)@.insert(user_id@, root_path()));
            true
        }
    }

    /// Points the session of `user_id` at `action`. Says whether the user
    /// had a session to point.
    pub fn set_action(&mut self, user_id: &str, action: &str) -> (updated: bool)
        ensures
            updated == old(self)@.contains_key(user_id@),
            final(self)@ == after_set_action(old(self)@, user_id@, action@),
    {
        if self.actions.contains_key(user_id) {
            self.actions.insert(user_id.to_owned(), action.to_owned());
            assert(self@ =~= old(self)@.insert(user_id@, action@));
            true
        } else {
            false
        }
    }

    /// The path that the session of `user_id` rests on.
    pub fn get_action(&self, user_id: &str) -> (action: Option<String>)
        ensures
            match action {
                Some(path) => action_of(self@, user_id@) == Some(path@),
                None => action_of(self@, user_id@) is None,
            },
    {
        match self.actions.get(user_id) {
            Some(path) => Some(path.clone()),
            None => None,
        }
    }
}

/// A user who was seen has a session, and seeing the user again changes
/// nothing.
pub proof fn create_is_idempotent(sessions: Map<Seq<char>, Seq<char>>, user: Seq<char>)
    ensures
        after_create(sessions, user).contains_key(user),
        after_create(after_create(sessions, user), user) == after_create(sessions, user),
        !sessions.contains_key(user) ==> action_of(after_create(sessions, user), user) == Some(
            root_path(),
        ),
{
}

/// What was written for a user is what is read for that user next, and the
/// sessions of other users are untouched.
pub proof fn read_your_writes(
    sessions: Map<Seq<char>, Seq<char>>,
    user: Seq<char>,
    action: Seq<char>,
    other: Seq<char>,
)
    requires
        sessions.contains_key(user),
        other != user,
    ensures
        action_of(after_set_action(sessions, user, action), user) == Some(action),
        action_of(after_set_action(sessions, user, action), other) == action_of(sessions, other),
{
}

} // verus!
