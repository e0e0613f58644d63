//! The privileged start of the daemon, as a state machine.
//!
//! The process starts with the rights of root, uses them for what needs
//! them, and gives them up for good before it serves anyone. The steps are
//! taken in one fixed order and none is ever taken back:
//!
//! 1. resolve the user and the group to run as,
//! 2. confine the process to the root directory, where the settings ask
//!    for it,
//! 3. enter the root directory,
//! 4. bind the listening socket,
//! 5. change the group id, then the user id.
//!
//! The machine decides; its caller performs. [`start`] gives the first
//! thing to do, and each [`step`] takes the outcome of the last thing done
//! and gives the next. Anything but the awaited success aborts: the
//! caller is told to exit with a non-zero code, and never to serve.
//!
//! The change of the user id ends the start: no state stands between it and
//! serving.

use crate::config::{Config, ConfigView};
use vstd::prelude::*;

verus! {

/// The code with which a start that was aborted exits.
pub const EXIT_FAILURE: i32 = 1;

/// The user id and the group id that the daemon runs as.
#[derive(Debug, Clone, Copy, PartialEq, Eq)]
pub struct Identity {
    pub uid: u32,
    pub gid: u32,
}

/// Why a start was aborted.
#[derive(Debug, Clone, Copy, PartialEq, Eq)]
pub enum Failure {
    /// The process was started without the rights of root.
    Unprivileged,
    /// The settings ask for no worker at all.
    Config,
    /// The user or the group is unknown.
    Identity,
    /// The root directory could not be made the root, or not be entered.
    Jail,
    /// The socket could not be bound.
    Bind,
    /// The group id or the user id could not be changed.
    Privilege,
}

/// How far the start has come.
#[derive(Debug, Clone, Copy, PartialEq, Eq)]
pub enum State {
    /// The lookup of the user and the group is awaited.
    Start,
    /// The identity is known. Where the settings ask for confinement to the
    /// root, that is awaited; else the entry into the root is.
    Resolved(Identity),
    /// The process is confined; the entry into the root is awaited.
    Jailed(Identity),
    /// The root is entered; the binding of the socket is awaited.
    Entered(Identity),
    /// The socket is bound; the change of the group id is awaited.
    Bound(Identity),
    /// The group id is changed; the change of the user id is awaited.
    GroupDropped(Identity),
    /// The rights of root are gone and the daemon serves.
    Serving,
    /// The start failed.
    Aborted(Failure),
}

/// The outcome of what the caller was told to do.
#[derive(Debug, Clone, Copy, PartialEq, Eq)]
pub enum Outcome {
    /// The user and the group were looked up: the id of each, where it
    /// exists.
    Lookup { uid: Option<u32>, gid: Option<u32> },
    /// It was done.
    Done,
    /// It failed.
    Failed,
}

/// What the caller is to do next.
#[derive(Debug, PartialEq, Eq)]
pub enum Action {
    /// Look up the ids of this user and of this group.
    Resolve { user: String, group: String },
    /// Make this directory the root of the file system.
    Chroot(String),
    /// Make this directory the working directory.
    Chdir(String),
    /// Bind the listening socket at this address.
    Bind(String),
    /// Change the group id of the process.
    SetGid(u32),
    /// Change the user id of the process.
    SetUid(u32),
    /// Start this many workers and accept connections.
    Serve { workers: usize },
    /// Exit with this code.
    Exit { code: i32 },
}

/// The mathematical content of an [`Action`].
pub enum ActionView {
    Resolve { user: Seq<char>, group: Seq<char> },
    Chroot(Seq<char>),
    Chdir(Seq<char>),
    Bind(Seq<char>),
    SetGid(u32),
    SetUid(u32),
    Serve { workers: nat },
    Exit { code: int },
}

impl View for Action {
    type V = ActionView;

    open spec fn view(&self) -> ActionView {
        match self {
            Action::Resolve { user, group } => ActionView::Resolve { user: user@, group: group@ },
            Action::Chroot(dir) => ActionView::Chroot(dir@),
            Action::Chdir(dir) => ActionView::Chdir(dir@),
            Action::Bind(at) => ActionView::Bind(at@),
            Action::SetGid(gid) => ActionView::SetGid(*gid),
            Action::SetUid(uid) => ActionView::SetUid(*uid),
            Action::Serve { workers } => ActionView::Serve { workers: *workers as nat },
            Action::Exit { code } => ActionView::Exit { code: *code as int },
        }
    }
}

/// Whether a process with these effective ids has the rights of root.
pub open spec fn privileged(uid: u32, gid: u32) -> bool {
    uid == 0 || gid == 0
}

/// The end of a start that failed for `reason`.
pub open spec fn abort(reason: Failure) -> (State, ActionView) {
    (State::Aborted(reason), ActionView::Exit { code: EXIT_FAILURE as int })
}

/// The first state and the first thing to do, for a process with the
/// effective ids `uid` and `gid`.
pub open spec fn first_step(config: ConfigView, uid: u32, gid: u32) -> (State, ActionView) {
    if !privileged(uid, gid) {
        abort(Failure::Unprivileged)
    } else if !config.valid() {
        abort(Failure::Config)
    } else {
        (State::Start, ActionView::Resolve { user: config.user, group: config.group })
    }
}

/// The two steps that give up the rights of root: in `Bound` the change of
/// the group id is awaited and that of the user id comes next; in
/// `GroupDropped` the change of the user id is awaited and serving comes
/// next. In any other state there is nothing to give up yet, or no more.
pub open spec fn drop_step(config: ConfigView, state: State, outcome: Outcome) -> (
    State,
    ActionView,
) {
    match (state, outcome) {
        (State::Bound(id), Outcome::Done) => (State::GroupDropped(id), ActionView::SetUid(id.uid)),
        (State::GroupDropped(_), Outcome::Done) => (
            State::Serving,
            ActionView::Serve { workers: config.threads },
        ),
        _ => abort(Failure::Privilege),
    }
}

/// The step that the machine takes from `state` on `outcome`.
pub open spec fn next_step(config: ConfigView, state: State, outcome: Outcome) -> (
    State,
    ActionView,
) {
    match state {
        State::Start => match outcome {
            Outcome::Lookup { uid: Some(uid), gid: Some(gid) } => {
                let id = Identity { uid, gid };
                if config.chroot {
                    (State::Resolved(id), ActionView::Chroot(config.root))
                } else {
                    (State::Resolved(id), ActionView::Chdir("/"@))
                }
            },
            _ => abort(Failure::Identity),
        },
        State::Resolved(id) => match outcome {
            Outcome::Done => if config.chroot {
                (State::Jailed(id), ActionView::Chdir("/"@))
            } else {
                (State::Entered(id), ActionView::Bind(config.bind_address()))
            },
            _ => abort(Failure::Jail),
        },
        State::Jailed(id) => match outcome {
            Outcome::Done => (State::Entered(id), ActionView::Bind(config.bind_address())),
            _ => abort(Failure::Jail),
        },
        State::Entered(id) => match outcome {
            Outcome::Done => (State::Bound(id), ActionView::SetGid(id.gid)),
            _ => abort(Failure::Bind),
        },
        State::Bound(_) | State::GroupDropped(_) => drop_step(config, state, outcome),
        State::Serving => (State::Serving, ActionView::Serve { workers: config.threads }),
        State::Aborted(reason) => abort(reason),
    }
}

/// Where the machine stands after it was started and told `outcomes`, one
/// after the other, and everything that it told the caller to do: the
/// outcome at a position is that of the action at the same position.
pub open spec fn run(config: ConfigView, uid: u32, gid: u32, outcomes: Seq<Outcome>) -> (
    State,
    Seq<ActionView>,
)
    decreases outcomes.len(),
{
    if outcomes.len() == 0 {
        let first = first_step(config, uid, gid);
        (first.0, seq![first.1])
    } else {
        let before = run(config, uid, gid, outcomes.drop_last());
        let step = next_step(config, before.0, outcomes.last());
        (step.0, before.1.push(step.1))
    }
}

/// Whether `outcome` is the success that `action` awaits. Serving and
/// exiting await nothing.
pub open spec fn succeeded(action: ActionView, outcome: Outcome) -> bool {
    match action {
        ActionView::Resolve { .. } => outcome matches Outcome::Lookup {
            uid: Some(_),
            gid: Some(_),
        },
        ActionView::Serve { .. } | ActionView::Exit { .. } => true,
        _ => outcome == Outcome::Done,
    }
}

/// The reason for which a start is aborted when `action` fails.
pub open spec fn failure_of(action: ActionView) -> Failure {
    match action {
        ActionView::Resolve { .. } => Failure::Identity,
        ActionView::Chroot(_) | ActionView::Chdir(_) => Failure::Jail,
        ActionView::Bind(_) => Failure::Bind,
        _ => Failure::Privilege,
    }
}

/// The place of an action in the order of the start.
pub open spec fn rank(action: ActionView) -> int {
    match action {
        ActionView::Resolve { .. } => 0,
        ActionView::Chroot(_) => 1,
        ActionView::Chdir(_) => 2,
        ActionView::Bind(_) => 3,
        ActionView::SetGid(_) => 4,
        ActionView::SetUid(_) => 5,
        ActionView::Serve { .. } => 6,
        ActionView::Exit { .. } => 7,
    }
}

/// Whether the action at position `j` changes the user id right after a
/// change of the group id that succeeded.
pub open spec fn user_follows_group(
    actions: Seq<ActionView>,
    outcomes: Seq<Outcome>,
    j: int,
) -> bool {
    &&& 1 <= j < actions.len()
    &&& j - 1 < outcomes.len()
    &&& actions[j] is SetUid
    &&& actions[j - 1] is SetGid
    &&& outcomes[j - 1] == Outcome::Done
}

/// Whether the rights of root were given up in full before position `k`:
/// the group id was changed, then the user id, and both changes succeeded.
pub open spec fn dropped_before(actions: Seq<ActionView>, outcomes: Seq<Outcome>, k: int) -> bool {
    exists|j: int|
        #![trigger actions[j]]
        j < k && j < outcomes.len() && user_follows_group(actions, outcomes, j) && outcomes[j]
            == Outcome::Done
}

/// What holds of every run, stated all at once so that it carries over
/// from one step to the next.
pub open spec fn orderly(
    config: ConfigView,
    state: State,
    actions: Seq<ActionView>,
    outcomes: Seq<Outcome>,
) -> bool {
    let n = outcomes.len() as int;
    &&& actions.len() == n + 1
    &&& match state {
        State::Start => actions[n] is Resolve,
        State::Resolved(_) => if config.chroot {
            actions[n] is Chroot
        } else {
            actions[n] is Chdir
        },
        State::Jailed(_) => actions[n] is Chdir,
        State::Entered(_) => actions[n] is Bind,
        State::Bound(id) => actions[n] == ActionView::SetGid(id.gid),
        State::GroupDropped(id) => actions[n] == ActionView::SetUid(id.uid)
            && user_follows_group(actions, outcomes, n),
        State::Serving => actions[n] is Serve && dropped_before(actions, outcomes, n),
        State::Aborted(_) => actions[n] is Exit,
    }
    &&& forall|j: int|
        0 <= j <= n && #[trigger] actions[j] is SetUid ==> user_follows_group(actions, outcomes, j)
    &&& forall|j: int|
        0 <= j <= n && #[trigger] actions[j] is Serve ==> state is Serving && dropped_before(
            actions,
            outcomes,
            j,
        )
    &&& forall|j: int|
        0 <= j < n && !succeeded(#[trigger] actions[j], outcomes[j]) ==> state == State::Aborted(
            failure_of(actions[j]),
        )
    &&& forall|i: int, j: int|
        0 <= i < j <= n && !(#[trigger] actions[i] is Serve) && !(#[trigger] actions[j] is Exit)
            ==> rank(actions[i]) < rank(actions[j])
    &&& forall|i: int| 0 <= i <= n && #[trigger] actions[i] is Exit ==> state is Aborted
}

/// Every run is orderly.
pub proof fn lemma_run_is_orderly(config: ConfigView, uid: u32, gid: u32, outcomes: Seq<Outcome>)
    ensures
        orderly(
            config,
            run(config, uid, gid, outcomes).0,
            run(config, uid, gid, outcomes).1,
            outcomes,
        ),
    decreases outcomes.len(),
{
    let (state, actions) = run(config, uid, gid, outcomes);
    let n = outcomes.len() as int;
    if n > 0 {
        let earlier = outcomes.drop_last();
        lemma_run_is_orderly(config, uid, gid, earlier);
        let (before, done) = run(config, uid, gid, earlier);
        assert(actions == done.push(next_step(config, before, outcomes.last()).1));
        assert forall|j: int| 0 <= j < n implies actions[j] == done[j] by {}
        assert forall|j: int| 0 <= j < n - 1 implies outcomes[j] == earlier[j] by {}
        assert forall|j: int| 0 <= j < n && user_follows_group(done, earlier, j) implies
            user_follows_group(actions, outcomes, j) by {}
        assert forall|j: int| 0 <= j <= n && #[trigger] actions[j] is SetUid implies
            user_follows_group(actions, outcomes, j) by {
            if j < n {
                assert(done[j] is SetUid);
                assert(user_follows_group(done, earlier, j));
            }
        }
        assert forall|k: int| 0 <= k < n && dropped_before(done, earlier, k) implies
            dropped_before(actions, outcomes, k) by {
            let j = choose|j: int|
                #![trigger done[j]]
                j < k && j < earlier.len() && user_follows_group(done, earlier, j) && earlier[j]
                    == Outcome::Done;
            assert(user_follows_group(actions, outcomes, j));
            assert(actions[j] == done[j]);
        }
        if state is Serving {
            if before is GroupDropped {
                assert(user_follows_group(actions, outcomes, n - 1));
                assert(actions[n - 1] is SetUid);
                assert(dropped_before(actions, outcomes, n));
            } else {
                assert(before is Serving);
                assert(dropped_before(done, earlier, n - 1));
                let j = choose|j: int|
                    #![trigger done[j]]
                    j < n - 1 && j < earlier.len() && user_follows_group(done, earlier, j)
                        && earlier[j] == Outcome::Done;
                assert(user_follows_group(actions, outcomes, j));
                assert(actions[j] == done[j]);
                assert(dropped_before(actions, outcomes, n));
            }
        }
        assert forall|j: int| 0 <= j <= n && #[trigger] actions[j] is Serve implies state
            is Serving && dropped_before(actions, outcomes, j) by {
            if j < n {
                assert(done[j] is Serve);
                assert(before is Serving);
                assert(dropped_before(done, earlier, j));
            }
        }
        assert forall|i: int, j: int|
            0 <= i < j <= n && !(#[trigger] actions[i] is Serve) && !(#[trigger] actions[j]
                is Exit) implies rank(actions[i]) < rank(actions[j]) by {
            if j < n {
                assert(rank(done[i]) < rank(done[j]));
            } else {
                assert(!(state is Aborted));
                assert(!(before is Aborted));
                assert(!(done[n - 1] is Exit));
                if i < n - 1 {
                    assert(rank(done[i]) < rank(done[n - 1]));
                }
            }
        }
        assert forall|i: int| 0 <= i <= n && #[trigger] actions[i] is Exit implies state
            is Aborted by {
            if i < n {
                assert(done[i] is Exit);
            }
        }
        assert forall|j: int|
            0 <= j < n && !succeeded(#[trigger] actions[j], outcomes[j]) implies state
                == State::Aborted(failure_of(actions[j])) by {
            if j < n - 1 {
                assert(!succeeded(done[j], earlier[j]));
                assert(before == State::Aborted(failure_of(done[j])));
            } else {
                assert(actions[j] == done[n - 1]);
            }
        }
    }
}

/// The group id is always changed before the user id: wherever the
/// machine asks for the change of the user id, it has asked for the change
/// of the group id just before, and was told that it succeeded.
pub proof fn lemma_group_before_user(
    config: ConfigView,
    uid: u32,
    gid: u32,
    outcomes: Seq<Outcome>,
    j: int,
)
    requires
        0 <= j <= outcomes.len(),
        run(config, uid, gid, outcomes).1[j] is SetUid,
    ensures
        user_follows_group(run(config, uid, gid, outcomes).1, outcomes, j),
{
    lemma_run_is_orderly(config, uid, gid, outcomes);
}

/// Where a step fails, the start is aborted for the reason that belongs to
/// the step, and the machine never asks to serve, before or after.
pub proof fn lemma_failed_step_aborts(
    config: ConfigView,
    uid: u32,
    gid: u32,
    outcomes: Seq<Outcome>,
    j: int,
)
    requires
        0 <= j < outcomes.len(),
        !succeeded(run(config, uid, gid, outcomes).1[j], outcomes[j]),
    ensures
        run(config, uid, gid, outcomes).0 == State::Aborted(
            failure_of(run(config, uid, gid, outcomes).1[j]),
        ),
        forall|k: int|
            0 <= k <= outcomes.len() ==> !(#[trigger] run(config, uid, gid, outcomes).1[k]
                is Serve),
{
    lemma_run_is_orderly(config, uid, gid, outcomes);
}

/// Where the change of the group id or of the user id fails, the start is
/// aborted and the machine never asks to serve, before or after.
pub proof fn lemma_failed_drop_aborts(
    config: ConfigView,
    uid: u32,
    gid: u32,
    outcomes: Seq<Outcome>,
    j: int,
)
    requires
        0 <= j < outcomes.len(),
        run(config, uid, gid, outcomes).1[j] is SetGid || run(config, uid, gid, outcomes).1[j]
            is SetUid,
        outcomes[j] != Outcome::Done,
    ensures
        run(config, uid, gid, outcomes).0 == State::Aborted(Failure::Privilege),
        forall|k: int|
            0 <= k <= outcomes.len() ==> !(#[trigger] run(config, uid, gid, outcomes).1[k]
                is Serve),
{
    lemma_failed_step_aborts(config, uid, gid, outcomes, j);
}

/// The steps are taken in their order: of two actions, the later one stands
/// later in the order of the start, unless the daemon serves already or the
/// start is aborted. So the socket is bound while the rights of root are
/// still held, and nothing is done to the file system once they are given
/// up.
pub proof fn lemma_steps_in_order(
    config: ConfigView,
    uid: u32,
    gid: u32,
    outcomes: Seq<Outcome>,
    i: int,
    j: int,
)
    requires
        0 <= i < j <= outcomes.len(),
        !(run(config, uid, gid, outcomes).1[i] is Serve),
        !(run(config, uid, gid, outcomes).1[j] is Exit),
    ensures
        rank(run(config, uid, gid, outcomes).1[i]) < rank(run(config, uid, gid, outcomes).1[j]),
{
    lemma_run_is_orderly(config, uid, gid, outcomes);
}

/// A start that is aborted tells the caller to exit, with a code that is
/// not zero, and goes on to tell it so whatever comes.
pub proof fn lemma_aborted_exits(config: ConfigView, reason: Failure, outcome: Outcome)
    ensures
        next_step(config, State::Aborted(reason), outcome) == abort(reason),
        abort(reason).1 == (ActionView::Exit { code: EXIT_FAILURE as int }),
        EXIT_FAILURE != 0,
{
}

/// The machine asks to serve only once the rights of root are given up in
/// full: the group id was changed, then the user id, and both changes
/// succeeded.
pub proof fn lemma_serves_only_dropped(
    config: ConfigView,
    uid: u32,
    gid: u32,
    outcomes: Seq<Outcome>,
    k: int,
)
    requires
        0 <= k <= outcomes.len(),
        run(config, uid, gid, outcomes).1[k] is Serve,
    ensures
        dropped_before(run(config, uid, gid, outcomes).1, outcomes, k),
{
    lemma_run_is_orderly(config, uid, gid, outcomes);
}

/// Whether a process with these effective ids has the rights of root.
pub fn is_privileged(uid: u32, gid: u32) -> (b: bool)
    ensures
        b == privileged(uid, gid),
{
    uid == 0 || gid == 0
}

/// The first state and the first thing to do, for a process with the
/// effective ids `uid` and `gid`.
pub fn start(config: &Config, uid: u32, gid: u32) -> (first: (State, Action))
    ensures
        (first.0, first.1@) == first_step(config@, uid, gid),
{
    if !is_privileged(uid, gid) {
        (State::Aborted(Failure::Unprivileged), Action::Exit { code: EXIT_FAILURE })
    } else if !config.is_valid() {
        (State::Aborted(Failure::Config), Action::Exit { code: EXIT_FAILURE })
    } else {
        (State::Start, Action::Resolve { user: config.user.clone(), group: config.group.clone() })
    }
}

/// Gives up the rights of root: the group id first, then the user id. The
/// order matters, for a process that has changed its user id may no longer
/// change its group id.
pub fn privdrop(config: &Config, state: State, outcome: Outcome) -> (next: (State, Action))
    ensures
        (next.0, next.1@) == drop_step(config@, state, outcome),
{
    match (state, outcome) {
        (State::Bound(id), Outcome::Done) => (State::GroupDropped(id), Action::SetUid(id.uid)),
        (State::GroupDropped(_), Outcome::Done) => (
            State::Serving,
            Action::Serve { workers: config.threads },
        ),
        _ => (State::Aborted(Failure::Privilege), Action::Exit { code: EXIT_FAILURE }),
    }
}

/// Takes one step: from `state`, on the outcome of what was last to be
/// done, to the next state and the next thing to do.
pub fn step(config: &Config, state: State, outcome: Outcome) -> (next: (State, Action))
    ensures
        (next.0, next.1@) == next_step(config@, state, outcome),
{
    match state {
        State::Start => match outcome {
            Outcome::Lookup { uid: Some(uid), gid: Some(gid) } => {
                let id = Identity { uid, gid };
                if config.chroot {
                    (State::Resolved(id), Action::Chroot(config.root.clone()))
                } else {
                    (State::Resolved(id), Action::Chdir(String::from_str("/")))
                }
            },
            _ => (State::Aborted(Failure::Identity), Action::Exit { code: EXIT_FAILURE }),
        },
        State::Resolved(id) => match outcome {
            Outcome::Done => if config.chroot {
                (State::Jailed(id), Action::Chdir(String::from_str("/")))
            } else {
                (State::Entered(id), Action::Bind(config.bind_address()))
            },
            _ => (State::Aborted(Failure::Jail), Action::Exit { code: EXIT_FAILURE }),
        },
        State::Jailed(id) => match outcome {
            Outcome::Done => (State::Entered(id), Action::Bind(config.bind_address())),
            _ => (State::Aborted(Failure::Jail), Action::Exit { code: EXIT_FAILURE }),
        },
        State::Entered(id) => match outcome {
            Outcome::Done => (State::Bound(id), Action::SetGid(id.gid)),
            _ => (State::Aborted(Failure::Bind), Action::Exit { code: EXIT_FAILURE }),
        },
        State::Bound(_) | State::GroupDropped(_) => privdrop(config, state, outcome),
        State::Serving => (State::Serving, Action::Serve { workers: config.threads }),
        State::Aborted(reason) => (State::Aborted(reason), Action::Exit { code: EXIT_FAILURE }),
    }
}

} // verus!
