//! The decisions of the process that feeds the index: a bulk scan of the
//! data directory, then a watch of its changes, until shutdown.

use vstd::prelude::*;
use crate::tid::{tid_from_file_name, tid_of_file_name};

verus! {

/// Where the process stands.
#[derive(Clone, Copy, Debug, PartialEq, Eq, Structural)]
pub enum Phase {
    Scanning,
    Watching,
    ShuttingDown,
    Stopped,
}

/// What a filesystem change did to a path.
#[derive(Clone, Copy, Debug, PartialEq, Eq, Structural)]
pub enum ChangeKind {
    Create,
    Modify,
    Other,
}

/// A failure that ends the process.
#[derive(Clone, Copy, Debug, PartialEq, Eq, Structural)]
pub enum Failure {
    /// The data directory could not be listed.
    Startup,
    /// The change feed could not be set up.
    Subscription,
}

/// What happened outside.
#[derive(Debug, PartialEq, Eq)]
pub enum Input {
    /// The directory listing produced a file with this name.
    Entry(String),
    /// The directory listing is exhausted.
    ListingDone,
    /// The directory could not be listed.
    ListingFailed,
    /// The change feed reported a change to a file with this name.
    Change(ChangeKind, String),
    /// The change feed could not be set up.
    WatchFailed,
    /// The shutdown signal arrived.
    Shutdown,
    /// Every upsert in flight has finished.
    Drained,
}

/// What to do next.
#[derive(Debug, PartialEq, Eq)]
pub enum Action {
    /// Read the file with this name and upsert it.
    Upsert(String),
    /// Nothing to do.
    Ignore,
    /// Set up the change feed on the data directory.
    Subscribe,
    /// Stop taking change events and release the feed.
    Unsubscribe,
    /// End the process with this failure.
    Abort(Failure),
    /// The process may exit.
    Exit,
}

pub ghost enum InputView {
    Entry(Seq<char>),
    ListingDone,
    ListingFailed,
    Change(ChangeKind, Seq<char>),
    WatchFailed,
    Shutdown,
    Drained,
}

pub ghost enum ActionView {
    Upsert(Seq<char>),
    Ignore,
    Subscribe,
    Unsubscribe,
    Abort(Failure),
    Exit,
}

impl View for Input {
    type V = InputView;

    open spec fn view(&self) -> InputView {
        match self {
            Input::Entry(n) => InputView::Entry(n@),
            Input::ListingDone => InputView::ListingDone,
            Input::ListingFailed => InputView::ListingFailed,
            Input::Change(k, n) => InputView::Change(*k, n@),
            Input::WatchFailed => InputView::WatchFailed,
            Input::Shutdown => InputView::Shutdown,
            Input::Drained => InputView::Drained,
        }
    }
}

impl View for Action {
    type V = ActionView;

    open spec fn view(&self) -> ActionView {
        match self {
            Action::Upsert(n) => ActionView::Upsert(n@),
            Action::Ignore => ActionView::Ignore,
            Action::Subscribe => ActionView::Subscribe,
            Action::Unsubscribe => ActionView::Unsubscribe,
            Action::Abort(f) => ActionView::Abort(*f),
            Action::Exit => ActionView::Exit,
        }
    }
}

/// Upsert a file that follows the naming convention; ignore any other.
pub open spec fn index_or_ignore(name: Seq<char>) -> ActionView {
    if tid_of_file_name(name) is Some {
        ActionView::Upsert(name)
    } else {
        ActionView::Ignore
    }
}

/// The next phase and the action for an input.
pub open spec fn transition(p: Phase, i: InputView) -> (Phase, ActionView) {
    match (p, i) {
        (Phase::Scanning, InputView::Entry(n)) => (Phase::Scanning, index_or_ignore(n)),
        (Phase::Scanning, InputView::ListingDone) => (Phase::Watching, ActionView::Subscribe),
        (Phase::Scanning, InputView::ListingFailed) => (
            Phase::Stopped,
            ActionView::Abort(Failure::Startup),
        ),
        (Phase::Scanning, InputView::Shutdown) => (Phase::ShuttingDown, ActionView::Ignore),
        (Phase::Watching, InputView::Change(k, n)) => (
            Phase::Watching,
            if k == ChangeKind::Other {
                ActionView::Ignore
            } else {
                index_or_ignore(n)
            },
        ),
        (Phase::Watching, InputView::WatchFailed) => (
            Phase::Stopped,
            ActionView::Abort(Failure::Subscription),
        ),
        (Phase::Watching, InputView::Shutdown) => (Phase::ShuttingDown, ActionView::Unsubscribe),
        (Phase::ShuttingDown, InputView::Drained) => (Phase::Stopped, ActionView::Exit),
        _ => (p, ActionView::Ignore),
    }
}

/// The order in which phases follow one another.
pub open spec fn rank(p: Phase) -> int {
    match p {
        Phase::Scanning => 0,
        Phase::Watching => 1,
        Phase::ShuttingDown => 2,
        Phase::Stopped => 3,
    }
}

fn index_or_ignore_exec(name: String) -> (r: Action)
    ensures
        r@ == index_or_ignore(name@),
{
    if tid_from_file_name(name.as_str()).is_some() {
        Action::Upsert(name)
    } else {
        Action::Ignore
    }
}

/// Decides the next phase and the action to perform for an input.
pub fn step(phase: Phase, input: Input) -> (r: (Phase, Action))
    ensures
        (r.0, r.1@) == transition(phase, input@),
{
    match (phase, input) {
        (Phase::Scanning, Input::Entry(n)) => (Phase::Scanning, index_or_ignore_exec(n)),
        (Phase::Scanning, Input::ListingDone) => (Phase::Watching, Action::Subscribe),
        (Phase::Scanning, Input::ListingFailed) => (Phase::Stopped, Action::Abort(Failure::Startup)),
        (Phase::Scanning, Input::Shutdown) => (Phase::ShuttingDown, Action::Ignore),
        (Phase::Watching, Input::Change(k, n)) => {
            if k == ChangeKind::Other {
                (Phase::Watching, Action::Ignore)
            } else {
                (Phase::Watching, index_or_ignore_exec(n))
            }
        },
        (Phase::Watching, Input::WatchFailed) => (
            Phase::Stopped,
            Action::Abort(Failure::Subscription),
        ),
        (Phase::Watching, Input::Shutdown) => (Phase::ShuttingDown, Action::Unsubscribe),
        (Phase::ShuttingDown, Input::Drained) => (Phase::Stopped, Action::Exit),
        (p, _) => (p, Action::Ignore),
    }
}

/// A file whose name does not follow the convention is never upserted, in
/// any phase and whatever happened to it.
pub proof fn lemma_foreign_names_never_indexed(p: Phase, i: InputView)
    requires
        i matches InputView::Entry(n) ==> tid_of_file_name(n) is None,
        i matches InputView::Change(_, n) ==> tid_of_file_name(n) is None,
    ensures
        !(transition(p, i).1 is Upsert),
{
}

/// An upsert is only ever asked for the file named by the input, and that
/// name follows the convention.
pub proof fn lemma_upserts_follow_the_convention(p: Phase, i: InputView)
    ensures
        transition(p, i).1 matches ActionView::Upsert(n) ==> tid_of_file_name(n) is Some && (
        i == InputView::Entry(n) || exists|k: ChangeKind| i == InputView::Change(k, n)),
{
    if let InputView::Change(k, n) = i {
        assert(i == InputView::Change(k, n));
    }
}

/// Phases never go back, and once stopped the process stays stopped and
/// does nothing.
pub proof fn lemma_phases_advance(p: Phase, i: InputView)
    ensures
        rank(transition(p, i).0) >= rank(p),
        p == Phase::Stopped ==> transition(p, i) == (Phase::Stopped, ActionView::Ignore),
{
}

/// After shutdown begins no new upsert is started.
pub proof fn lemma_no_upsert_after_shutdown(p: Phase, i: InputView)
    requires
        rank(p) >= rank(Phase::ShuttingDown),
    ensures
        !(transition(p, i).1 is Upsert),
{
}

} // verus!
