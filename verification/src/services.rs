//! What happens to an event that the webhook receives: whether it is
//! handled at all, and which action handles it with which data.

use crate::action::{after_lock, lock_granted, routed_path, ActionLock, ActionRegistry};
use crate::data::{serialized, truncated, Data, DataView};
use crate::payload::{
    decoded, default_data, root_path, token_text, Payload, PayloadView, ROOT_PATH,
};
use crate::session::{action_of, after_set_action};
use vstd::prelude::*;
use vstd::string::*;

verus! {

/// A message that a user typed or chose.
pub struct Message {
    /// What the user typed.
    pub text: String,
    /// The token of the quick reply that the user chose, if any.
    pub quick_reply: Option<String>,
}

/// An event as the webhook receives it.
pub struct InComingData {
    /// The user the event comes from.
    pub sender: String,
    /// The message of the event, if it is one.
    pub message: Option<Message>,
    /// The token of the button that the user pressed, if the event is one.
    pub postback: Option<String>,
}

/// What a [`Message`] holds.
pub struct MessageView {
    pub text: Seq<char>,
    pub quick_reply: Option<Seq<char>>,
}

/// What an [`InComingData`] holds.
pub struct InComingView {
    pub sender: Seq<char>,
    pub message: Option<MessageView>,
    pub postback: Option<Seq<char>>,
}

/// The characters of an optional string.
pub open spec fn optional_text(text: Option<String>) -> Option<Seq<char>> {
    match text {
        Some(text) => Some(text@),
        None => None,
    }
}

impl View for Message {
    type V = MessageView;

    open spec fn view(&self) -> MessageView {
        MessageView { text: self.text@, quick_reply: optional_text(self.quick_reply) }
    }
}

impl View for InComingData {
    type V = InComingView;

    open spec fn view(&self) -> InComingView {
        InComingView {
            sender: self.sender@,
            message: match self.message {
                Some(message) => Some(message@),
                None => None,
            },
            postback: optional_text(self.postback),
        }
    }
}

/// What there is to run for an event: an explicit instruction that came as
/// a token, or a free text. The first field is the user.
pub enum Executable {
    Payload(String, String),
    TextMessage(String, String),
}

/// What an [`Executable`] holds.
pub enum ExecutableView {
    Payload(Seq<char>, Seq<char>),
    TextMessage(Seq<char>, Seq<char>),
}

impl View for Executable {
    type V = ExecutableView;

    open spec fn view(&self) -> ExecutableView {
        match self {
            Executable::Payload(user, token) => ExecutableView::Payload(user@, token@),
            Executable::TextMessage(user, text) => ExecutableView::TextMessage(user@, text@),
        }
    }
}

/// What there is to run for an event. A quick reply in a message counts
/// before its text, and a message before a postback; an event with neither
/// message nor postback gives nothing to run.
pub open spec fn classified(data: InComingView) -> Option<ExecutableView> {
    match data.message {
        Some(message) => match message.quick_reply {
            Some(token) => Some(ExecutableView::Payload(data.sender, token)),
            None => Some(ExecutableView::TextMessage(data.sender, message.text)),
        },
        None => match data.postback {
            Some(token) => Some(ExecutableView::Payload(data.sender, token)),
            None => None,
        },
    }
}

/// Tells an explicit instruction from a free text.
pub fn classify(data: &InComingData) -> (executable: Option<Executable>)
    ensures
        match executable {
            Some(executable) => classified(data@) == Some(executable@),
            None => classified(data@) is None,
        },
{
    match &data.message {
        Some(message) => match &message.quick_reply {
            Some(token) => Some(Executable::Payload(data.sender.clone(), token.clone())),
            None => Some(Executable::TextMessage(data.sender.clone(), message.text.clone())),
        },
        None => match &data.postback {
            Some(token) => Some(Executable::Payload(data.sender.clone(), token.clone())),
            None => None,
        },
    }
}

/// What becomes of an event.
pub enum Admission {
    /// The sessions cannot be reached: the event is not handled, and nobody
    /// is locked for it.
    Unavailable,
    /// Another event of the same user is being handled: this one is dropped.
    Dropped,
    /// The event holds nothing to run.
    Idle,
    /// The event is to be handled; its user is locked until the handling
    /// ends.
    Run(Executable),
}

/// What an [`Admission`] holds.
pub enum AdmissionView {
    Unavailable,
    Dropped,
    Idle,
    Run(ExecutableView),
}

impl View for Admission {
    type V = AdmissionView;

    open spec fn view(&self) -> AdmissionView {
        match self {
            Admission::Unavailable => AdmissionView::Unavailable,
            Admission::Dropped => AdmissionView::Dropped,
            Admission::Idle => AdmissionView::Idle,
            Admission::Run(executable) => AdmissionView::Run(executable@),
        }
    }
}

/// What becomes of an event, and of the set of users being served, when the
/// event arrives while the users in `locked` are being served.
/// `session_ready` says whether the session of the sender could be made sure
/// of.
pub open spec fn admission(locked: Set<Seq<char>>, data: InComingView, session_ready: bool) -> (
    AdmissionView,
    Set<Seq<char>>,
) {
    if !session_ready {
        (AdmissionView::Unavailable, locked)
    } else if !lock_granted(locked, data.sender) {
        (AdmissionView::Dropped, locked)
    } else {
        match classified(data) {
            Some(executable) => (AdmissionView::Run(executable), after_lock(locked, data.sender)),
            None => (AdmissionView::Idle, locked),
        }
    }
}

/// Decides whether an event is handled. `session_ready` says whether the
/// session of the sender could be made sure of; where it could not, the lock
/// is not even asked for. An event of a user who is being served is dropped;
/// otherwise the user is locked for as long as there is something to run.
pub fn receive(lock: &mut ActionLock, data: &InComingData, session_ready: bool) -> (outcome:
    Admission)
    ensures
        (outcome@, final(lock)@) == admission(old(lock)@, data@, session_ready),
{
    if !session_ready {
        Admission::Unavailable
    } else if lock.lock(data.sender.as_str()) {
        match classify(data) {
            Some(executable) => Admission::Run(executable),
            None => {
                lock.unlock(data.sender.as_str());
                assert(lock@ == old(lock)@);
                Admission::Idle
            },
        }
    } else {
        assert(lock@ == old(lock)@);
        Admission::Dropped
    }
}

/// Where an event goes.
pub struct RouteView {
    pub user: Seq<char>,
    pub path: Seq<char>,
    pub data: DataView,
}

/// Where an event goes, given the registered actions and the path that the
/// session of its user rests on. An explicit instruction names its action
/// and brings its data; a free text goes to the action of the session, or
/// to the root action where there is no session, and is itself the data.
/// A path without an action leads to the root action.
pub open spec fn route<H>(
    actions: Map<Seq<char>, H>,
    executable: ExecutableView,
    session: Option<Seq<char>>,
) -> RouteView {
    match executable {
        ExecutableView::Payload(user, token) => RouteView {
            user,
            path: routed_path(actions, decoded(token).path),
            data: match decoded(token).data {
                Some(data) => data,
                None => default_data(),
            },
        },
        ExecutableView::TextMessage(user, text) => RouteView {
            user,
            path: routed_path(
                actions,
                match session {
                    Some(path) => path,
                    None => root_path(),
                },
            ),
            data: DataView { value: truncated(serialized(text)), page: None },
        },
    }
}

/// An action found for an event, and what to run it with.
pub struct Resolved<'a, H> {
    /// The user the event comes from.
    pub user: String,
    /// The path of the action.
    pub path: String,
    /// The data to run the action with.
    pub data: Data,
    /// The action.
    pub action: &'a H,
}

/// Finds the action for an event. `session` is the path that the session of
/// the user rests on; it counts for a free text only. Nothing is found only
/// where neither the wanted action nor the root action is registered.
pub fn resolve<'a, H>(
    registry: &'a ActionRegistry<H>,
    executable: &Executable,
    session: Option<&str>,
) -> (found: Option<Resolved<'a, H>>)
    ensures
        match found {
            Some(resolved) => {
                let to = route(registry@, executable@, session_view(session));
                &&& registry@.contains_key(to.path)
                &&& *resolved.action == registry@[to.path]
                &&& resolved.user@ == to.user
                &&& resolved.path@ == to.path
                &&& resolved.data@ == to.data
            },
            None => !registry@.contains_key(
                route(registry@, executable@, session_view(session)).path,
            ),
        },
{
    let (user, wanted, data) = match executable {
        Executable::Payload(user, token) => {
            let payload = Payload::decode(token.as_str());
            (user.clone(), payload.get_path(), payload.get_data())
        },
        Executable::TextMessage(user, text) => {
            let wanted = match session {
                Some(path) => path.to_owned(),
                None => ROOT_PATH.to_owned(),
            };
            (user.clone(), wanted, Data::new(text.as_str(), None))
        },
    };
    let path = if registry.contains(wanted.as_str()) {
        wanted
    } else {
        ROOT_PATH.to_owned()
    };
    match registry.resolve(path.as_str()) {
        Some(action) => Some(Resolved { user, path, data, action }),
        None => None,
    }
}

/// The characters of an optional path.
pub open spec fn session_view(session: Option<&str>) -> Option<Seq<char>> {
    match session {
        Some(path) => Some(path@),
        None => None,
    }
}

/// A free text of a user without a session goes to the root action, with
/// the text as its data and no window.
pub proof fn cold_start_goes_to_root<H>(
    actions: Map<Seq<char>, H>,
    sessions: Map<Seq<char>, Seq<char>>,
    user: Seq<char>,
    text: Seq<char>,
)
    requires
        !sessions.contains_key(user),
    ensures
        route(actions, ExecutableView::TextMessage(user, text), action_of(sessions, user))
            == (RouteView {
            user,
            path: root_path(),
            data: DataView { value: truncated(serialized(text)), page: None },
        }),
{
}

/// An explicit instruction goes where it says, with the data it brings,
/// whatever the session of the user rests on.
pub proof fn instruction_overrides_session<H>(
    actions: Map<Seq<char>, H>,
    user: Seq<char>,
    payload: PayloadView,
    session: Option<Seq<char>>,
)
    requires
        actions.contains_key(payload.path),
    ensures
        route(actions, ExecutableView::Payload(user, token_text(payload)), session).path
            == payload.path,
        route(actions, ExecutableView::Payload(user, token_text(payload)), session).data
            == match payload.data {
            Some(data) => data,
            None => default_data(),
        },
{
    crate::payload::decoding_inverts_encoding(payload);
}

/// Whatever token an event brings, the session has no say in where it goes.
pub proof fn session_is_ignored_for_tokens<H>(
    actions: Map<Seq<char>, H>,
    user: Seq<char>,
    token: Seq<char>,
    first: Option<Seq<char>>,
    second: Option<Seq<char>>,
)
    ensures
        route(actions, ExecutableView::Payload(user, token), first) == route(
            actions,
            ExecutableView::Payload(user, token),
            second,
        ),
{
}

/// After the session of a user was pointed at a registered action, the next
/// free text of that user goes to that action.
pub proof fn session_continuity<H>(
    actions: Map<Seq<char>, H>,
    sessions: Map<Seq<char>, Seq<char>>,
    user: Seq<char>,
    next: Seq<char>,
    text: Seq<char>,
)
    requires
        sessions.contains_key(user),
        actions.contains_key(next),
    ensures
        route(
            actions,
            ExecutableView::TextMessage(user, text),
            action_of(after_set_action(sessions, user, next), user),
        ).path == next,
{
}

/// Of two events of one user, the second arriving while the first is being
/// handled, the first is run and the second is dropped, and dropping it
/// leaves the lock as it was.
pub proof fn second_event_is_dropped(
    locked: Set<Seq<char>>,
    first: InComingView,
    second: InComingView,
)
    requires
        first.sender == second.sender,
        !locked.contains(first.sender),
        classified(first) is Some,
    ensures
        admission(locked, first, true).0 is Run,
        admission(admission(locked, first, true).1, second, true) == (
            AdmissionView::Dropped,
            admission(locked, first, true).1,
        ),
{
}

/// Only an event that is to be run changes the lock, and it locks its
/// sender and nobody else; an event that is not run leaves the lock as it
/// was, so that nothing is left to unlock for it.
pub proof fn only_a_run_locks(locked: Set<Seq<char>>, data: InComingView, session_ready: bool)
    ensures
        admission(locked, data, session_ready).0 is Run ==> !locked.contains(data.sender)
            && admission(locked, data, session_ready).1 == locked.insert(data.sender),
        !(admission(locked, data, session_ready).0 is Run) ==> admission(
            locked,
            data,
            session_ready,
        ).1 == locked,
        !session_ready ==> admission(locked, data, session_ready).0 is Unavailable,
{
}

} // verus!
