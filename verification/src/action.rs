//! Actions, the registry that finds them by path, and the lock that keeps
//! the events of one user from being handled at the same time.

use crate::data::{deserialized, following, serialized, truncated, Data, DataView, Page};
use crate::payload::{root_path, Payload, PayloadView, ROOT_PATH};
use vstd::hash_map::StringHashMap;
use vstd::hash_set::StringHashSet;
use vstd::prelude::*;
use vstd::string::*;

verus! {

/// Whether a user whose events are not being handled may be served, given
/// the users that are.
pub open spec fn lock_granted(locked: Set<Seq<char>>, user: Seq<char>) -> bool {
    !locked.contains(user)
}

/// The users being served after `user` asked to be.
pub open spec fn after_lock(locked: Set<Seq<char>>, user: Seq<char>) -> Set<Seq<char>> {
    locked.insert(user)
}

/// The users being served after the handling of `user` ended.
pub open spec fn after_unlock(locked: Set<Seq<char>>, user: Seq<char>) -> Set<Seq<char>> {
    locked.remove(user)
}

/// One call on the lock.
pub enum LockCall {
    Lock(Seq<char>),
    Unlock(Seq<char>),
}

/// The users being served after a series of calls on the lock.
pub open spec fn after_calls(locked: Set<Seq<char>>, calls: Seq<LockCall>) -> Set<Seq<char>>
    decreases calls.len(),
{
    if calls.len() == 0 {
        locked
    } else {
        let before = after_calls(locked, calls.drop_last());
        match calls.last() {
            LockCall::Lock(user) => after_lock(before, user),
            LockCall::Unlock(user) => after_unlock(before, user),
        }
    }
}

/// The users whose events are being handled right now.
pub struct ActionLock {
    locked_users: StringHashSet,
}

impl View for ActionLock {
    type V = Set<Seq<char>>;

    closed spec fn view(&self) -> Set<Seq<char>> {
        self.locked_users@
    }
}

impl ActionLock {
    /// A lock that nobody holds.
    pub fn new() -> (lock: ActionLock)
        ensures
            lock@ == Set::<Seq<char>>::empty(),
    {
        ActionLock { locked_users: StringHashSet::new() }
    }

    /// Asks to handle an event of `user`. The answer is yes exactly when no
    /// other event of that user is being handled; either way the user counts
    /// as being served afterwards.
    pub fn lock(&mut self, user: &str) -> (granted: bool)
        ensures
            granted == lock_granted(old(self)@, user@),
            final(self)@ == after_lock(old(self)@, user@),
    {
        if !self.locked_users.contains(user) {
            self.locked_users.insert(user.to_owned());
            true
        } else {
            assert(self@.insert(user@) == self@);
            false
        }
    }

    /// Ends the handling of an event of `user`, whether or not one was going
    /// on.
    pub fn unlock(&mut self, user: &str)
        ensures
            final(self)@ == after_unlock(old(self)@, user@),
    {
        self.locked_users.remove(user);
    }

    /// Whether an event of `user` is being handled.
    pub fn is_locked(&self, user: &str) -> (locked: bool)
        ensures
            locked == self@.contains(user@),
    {
        self.locked_users.contains(user)
    }
}

/// A user who was granted the lock is refused it for as long as nobody
/// unlocks that user, whatever happens to other users meanwhile.
pub proof fn lock_excludes(locked: Set<Seq<char>>, user: Seq<char>, calls: Seq<LockCall>)
    requires
        forall|i: int| 0 <= i < calls.len() ==> calls[i] != LockCall::Unlock(user),
    ensures
        !lock_granted(after_calls(after_lock(locked, user), calls), user),
    decreases calls.len(),
{
    if calls.len() > 0 {
        lock_excludes(locked, user, calls.drop_last());
    }
}

/// Asking twice in a row: granted if the user was free, then refused.
pub proof fn second_lock_is_refused(locked: Set<Seq<char>>, user: Seq<char>)
    ensures
        !locked.contains(user) ==> lock_granted(locked, user),
        !lock_granted(after_lock(locked, user), user),
{
}

/// Once a user was unlocked and did not ask again, the lock is free for that
/// user, whatever was called before and whatever happens to other users.
pub proof fn unlock_frees(
    locked: Set<Seq<char>>,
    before: Seq<LockCall>,
    user: Seq<char>,
    after: Seq<LockCall>,
)
    requires
        forall|i: int| 0 <= i < after.len() ==> after[i] != LockCall::Lock(user),
    ensures
        lock_granted(
            after_calls(after_unlock(after_calls(locked, before), user), after),
            user,
        ),
    decreases after.len(),
{
    if after.len() > 0 {
        unlock_frees(locked, before, user, after.drop_last());
    }
}

/// Something that can be run for a user: it is found by its path.
pub trait Action {
    /// The path of the action, as a sequence of characters.
    spec fn path_view(&self) -> Seq<char>;

    /// The path under which the action is registered.
    fn path(&self) -> (path: String)
        ensures
            path@ == self.path_view(),
    ;

    /// The instruction that shows the next window of what this action
    /// lists: this action again, with the same value and the window after
    /// the one in `data`.
    fn next(&self, data: &Data) -> (payload: Payload)
        requires
            data@.page matches Some(page) ==> page.0 + page.1 <= usize::MAX,
        ensures
            payload@ == next_payload(self.path_view(), data@),
            forall|written: Seq<char>|
                data@.value == #[trigger] serialized(written) ==> payload@.data->0.value
                    == truncated(serialized(written)),
    {
        let path = self.path();
        next_instruction(path.as_str(), data)
    }
}

/// An action together with the path it is found by.
pub struct Named<H> {
    /// The path of the action.
    pub path: String,
    /// The action itself.
    pub action: H,
}

impl<H> Named<H> {
    /// `action`, to be found by `path`.
    pub fn new(path: &str, action: H) -> (named: Named<H>)
        ensures
            named.path@ == path@,
            named.action == action,
    {
        Named { path: path.to_owned(), action }
    }
}

impl<H> Action for Named<H> {
    open spec fn path_view(&self) -> Seq<char> {
        self.path@
    }

    fn path(&self) -> (path: String) {
        self.path.clone()
    }
}

/// The data for the window after the one in `data`: the value is read and
/// serialized again, the window moves on.
pub open spec fn next_data(data: DataView) -> DataView {
    DataView {
        value: truncated(serialized(deserialized(data.value))),
        page: Some(following(data.page)),
    }
}

/// The instruction to run `path` on the window after the one in `data`.
pub open spec fn next_payload(path: Seq<char>, data: DataView) -> PayloadView {
    PayloadView { path, data: Some(next_data(data)) }
}

/// The instruction to run the action at `path` again on the window after
/// the one in `data`. A value that was serialized whole is carried on as it
/// is.
pub fn next_instruction(path: &str, data: &Data) -> (payload: Payload)
    requires
        data@.page matches Some(page) ==> page.0 + page.1 <= usize::MAX,
    ensures
        payload@ == next_payload(path@, data@),
        forall|written: Seq<char>|
            data@.value == #[trigger] serialized(written) ==> payload@.data->0.value
                == truncated(serialized(written)),
{
    let mut page = match data.get_page() {
        Some(page) => page,
        None => Page::default(),
    };
    page.next();
    let value = data.get_value();
    Payload::new(path, Some(Data::new(value.as_str(), Some(page))))
}

/// The path that is run when `wanted` is asked for: `wanted` itself if an
/// action is registered there, the root path otherwise.
pub open spec fn routed_path<H>(actions: Map<Seq<char>, H>, wanted: Seq<char>) -> Seq<char> {
    if actions.contains_key(wanted) {
        wanted
    } else {
        root_path()
    }
}

/// A path that is registered already.
#[derive(Debug)]
pub struct DuplicatePath;

/// The actions of the application, each under its path.
#[verifier::reject_recursive_types(H)]
pub struct ActionRegistry<H> {
    actions: StringHashMap<H>,
}

impl<H> View for ActionRegistry<H> {
    type V = Map<Seq<char>, H>;

    closed spec fn view(&self) -> Map<Seq<char>, H> {
        self.actions@
    }
}

impl<H> ActionRegistry<H> {
    /// A registry without actions.
    pub fn new() -> (registry: ActionRegistry<H>)
        ensures
            registry@ == Map::<Seq<char>, H>::empty(),
    {
        ActionRegistry { actions: StringHashMap::new() }
    }

    /// Registers `action` under `path`. A path that is taken is refused and
    /// the registry stays as it was.
    pub fn register(&mut self, path: String, action: H) -> (outcome: Result<(), DuplicatePath>)
        ensures
            match outcome {
                Ok(_) => !old(self)@.contains_key(path@) && final(self)@ == old(self)@.insert(
                    path@,
                    action,
                ),
                Err(_) => old(self)@.contains_key(path@) && final(self)@ == old(self)@,
            },
    {
        if self.actions.contains_key(path.as_str()) {
            Err(DuplicatePath)
        } else {
            self.actions.insert(path, action);
            Ok(())
        }
    }

    /// Whether an action is registered under `path`.
    pub fn contains(&self, path: &str) -> (found: bool)
        ensures
            found == self@.contains_key(path@),
    {
        self.actions.contains_key(path)
    }

    /// The action registered under `path`.
    pub fn resolve(&self, path: &str) -> (found: Option<&H>)
        ensures
            match found {
                Some(action) => self@.contains_key(path@) && *action == self@[path@],
                None => !self@.contains_key(path@),
            },
    {
        self.actions.get(path)
    }

    /// The action registered under `path`, or else the root action; nothing
    /// where neither is registered.
    pub fn resolve_or_root(&self, path: &str) -> (found: Option<&H>)
        ensures
            match found {
                Some(action) => self@.contains_key(routed_path(self@, path@)) && *action
                    == self@[routed_path(self@, path@)],
                None => !self@.contains_key(routed_path(self@, path@)),
            },
    {
        match self.actions.get(path) {
            Some(action) => Some(action),
            None => self.actions.get(ROOT_PATH),
        }
    }
}

impl<H: Action> ActionRegistry<H> {
    /// Registers `action` under its own path. A path that is taken is
    /// refused and the registry stays as it was.
    pub fn register_action(&mut self, action: H) -> (outcome: Result<(), DuplicatePath>)
        ensures
            match outcome {
                Ok(_) => !old(self)@.contains_key(action.path_view()) && final(self)@ == old(
                    self,
                )@.insert(action.path_view(), action),
                Err(_) => old(self)@.contains_key(action.path_view()) && final(self)@ == old(
                    self,
                )@,
            },
    {
        let path = action.path();
        self.register(path, action)
    }
}

} // verus!
