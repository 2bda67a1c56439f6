use vstd::prelude::*;

use crate::models::Routes;

verus! {

/// Where the hot-reload coordinator stands.
#[derive(Clone, Copy, Debug, PartialEq, Eq, Structural)]
pub enum ReloadState {
    /// No watch is active: hot reload is disabled, failed to start, or the
    /// service is shutting down.
    Idle,
    /// The links file is watched for changes.
    Watching,
    /// A change was seen; a rebuild and restart were asked for and have not
    /// completed yet.
    ReloadRequested,
}

/// What a file-change notification says of the watched file.
#[derive(Clone, Copy, Debug, PartialEq, Eq, Structural)]
pub enum ChangeKind {
    /// The file's content was modified.
    Modified,
    /// Anything else (access, metadata, creation, removal).
    Other,
}

/// What the watcher task must do after a notification.
#[derive(Clone, Copy, Debug, PartialEq, Eq, Structural)]
pub enum ReloadAction {
    /// Nothing: the notification is not a content change, no watch is
    /// active, or a reload is already pending.
    Ignore,
    /// Send the reload signal to the run loop, then ask the running
    /// listener to shut down gracefully, in that order.
    SignalReloadThenShutdown,
}

/// What the run loop must do once the listener has stopped.
#[derive(Clone, Copy, Debug, PartialEq, Eq, Structural)]
pub enum AfterStop {
    /// Rebuild the route table and start a fresh listener.
    Rebuild,
    /// Leave the loop: the stop was not caused by a reload.
    Terminate,
}

/// The coordinator's state after a change notification, and the action
/// that the notification calls for.
pub open spec fn change_step(m: (ReloadState, bool), kind: ChangeKind) -> (
    (ReloadState, bool),
    ReloadAction,
) {
    if m.0 == ReloadState::Watching && kind == ChangeKind::Modified {
        ((ReloadState::ReloadRequested, true), ReloadAction::SignalReloadThenShutdown)
    } else {
        (m, ReloadAction::Ignore)
    }
}

/// The state after a run of notifications, taken in order.
pub open spec fn after_changes(m: (ReloadState, bool), kinds: Seq<ChangeKind>) -> (
    ReloadState,
    bool,
)
    decreases kinds.len(),
{
    if kinds.len() == 0 {
        m
    } else {
        after_changes(change_step(m, kinds[0]).0, kinds.drop_first())
    }
}

/// How many reload signals a run of notifications sends.
pub open spec fn signals_sent(m: (ReloadState, bool), kinds: Seq<ChangeKind>) -> nat
    decreases kinds.len(),
{
    if kinds.len() == 0 {
        0
    } else {
        let (next, action) = change_step(m, kinds[0]);
        (if action == ReloadAction::SignalReloadThenShutdown {
            1nat
        } else {
            0nat
        }) + signals_sent(next, kinds.drop_first())
    }
}

/// Decides, from file-change notifications and listener stops, when the
/// route table is rebuilt and the listener restarted. The reload signal is a
/// single slot: while one is pending, further changes are dropped.
pub struct ReloadCoordinator {
    state: ReloadState,
    pending: bool,
}

impl View for ReloadCoordinator {
    /// The state, and whether a reload signal waits in the slot.
    type V = (ReloadState, bool);

    closed spec fn view(&self) -> (ReloadState, bool) {
        (self.state, self.pending)
    }
}

impl ReloadCoordinator {
    /// A signal is pending only while a reload is requested.
    pub open spec fn wf(&self) -> bool {
        self@.1 ==> self@.0 == ReloadState::ReloadRequested
    }

    /// Starts watching when file watching is enabled, else stays idle.
    pub fn new(watch_enabled: bool) -> (r: ReloadCoordinator)
        ensures
            r.wf(),
            r@ == (if watch_enabled {
                ReloadState::Watching
            } else {
                ReloadState::Idle
            }, false),
    {
        ReloadCoordinator {
            state: if watch_enabled {
                ReloadState::Watching
            } else {
                ReloadState::Idle
            },
            pending: false,
        }
    }

    /// The current state.
    pub fn state(&self) -> (r: ReloadState)
        ensures
            r == self@.0,
    {
        self.state
    }

    /// Setting up the watch failed: serve on without hot reload.
    pub fn watch_failed(&mut self)
        requires
            old(self).wf(),
        ensures
            final(self).wf(),
            final(self)@ == (if old(self)@.0 == ReloadState::Watching {
                (ReloadState::Idle, false)
            } else {
                old(self)@
            }),
    {
        if self.state == ReloadState::Watching {
            self.state = ReloadState::Idle;
            self.pending = false;
        }
    }

    /// A change notification for the watched file. A content change seen
    /// while watching requests a reload; anything else, including a change
    /// while a reload is already pending, is ignored.
    pub fn on_change(&mut self, kind: ChangeKind) -> (r: ReloadAction)
        requires
            old(self).wf(),
        ensures
            final(self).wf(),
            (final(self)@, r) == change_step(old(self)@, kind),
    {
        if self.state == ReloadState::Watching && kind == ChangeKind::Modified {
            self.state = ReloadState::ReloadRequested;
            self.pending = true;
            ReloadAction::SignalReloadThenShutdown
        } else {
            ReloadAction::Ignore
        }
    }

    /// The listener has stopped. A pending reload signal is consumed and
    /// asks for a rebuild; without one the stop was for another reason and
    /// the coordinator is torn down.
    pub fn on_listener_stopped(&mut self) -> (r: AfterStop)
        requires
            old(self).wf(),
        ensures
            final(self).wf(),
            old(self)@.1 ==> r == AfterStop::Rebuild && final(self)@ == (old(self)@.0, false),
            !old(self)@.1 ==> r == AfterStop::Terminate && final(self)@ == (
                ReloadState::Idle,
                false,
            ),
    {
        if self.pending {
            self.pending = false;
            AfterStop::Rebuild
        } else {
            self.state = ReloadState::Idle;
            AfterStop::Terminate
        }
    }

    /// The new listener runs: once the reload signal has been consumed,
    /// watch again for the next change.
    pub fn on_rebuilt(&mut self)
        requires
            old(self).wf(),
        ensures
            final(self).wf(),
            final(self)@ == (if old(self)@ == (ReloadState::ReloadRequested, false) {
                (ReloadState::Watching, false)
            } else {
                old(self)@
            }),
    {
        if self.state == ReloadState::ReloadRequested && !self.pending {
            self.state = ReloadState::Watching;
        }
    }
}

/// The table to serve after a reload: the freshly parsed one, or the last
/// good one when the links file failed to parse.
pub fn next_table(current: Routes, reloaded: Option<Routes>) -> (r: Routes)
    ensures
        r@ == (match reloaded {
            Some(t) => t@,
            None => current@,
        }),
{
    match reloaded {
        Some(t) => t,
        None => current,
    }
}

/// However many change notifications arrive while watching, before the
/// reload completes, exactly one reload signal is sent if any of them is a
/// content change, and none otherwise; one signal then waits in the slot.
pub proof fn lemma_changes_coalesce(kinds: Seq<ChangeKind>)
    ensures
        (exists|i: int| 0 <= i < kinds.len() && kinds[i] == ChangeKind::Modified) ==> signals_sent(
            (ReloadState::Watching, false),
            kinds,
        ) == 1 && after_changes((ReloadState::Watching, false), kinds) == (
            ReloadState::ReloadRequested,
            true,
        ),
        (forall|i: int| 0 <= i < kinds.len() ==> kinds[i] != ChangeKind::Modified) ==> signals_sent(
            (ReloadState::Watching, false),
            kinds,
        ) == 0 && after_changes((ReloadState::Watching, false), kinds) == (
            ReloadState::Watching,
            false,
        ),
    decreases kinds.len(),
{
    if kinds.len() > 0 {
        let rest = kinds.drop_first();
        lemma_changes_coalesce(rest);
        if kinds[0] == ChangeKind::Modified {
            lemma_pending_absorbs(rest);
        } else {
            assert forall|i: int| 0 <= i < rest.len() implies rest[i] == kinds[i + 1] by {}
            if exists|i: int| 0 <= i < kinds.len() && kinds[i] == ChangeKind::Modified {
                let i = choose|i: int| 0 <= i < kinds.len() && kinds[i] == ChangeKind::Modified;
                assert(rest[i - 1] == ChangeKind::Modified);
            } else {
                assert forall|i: int| 0 <= i < rest.len() implies rest[i] != ChangeKind::Modified by {
                    assert(kinds[i + 1] != ChangeKind::Modified);
                }
            }
        }
    }
}

/// Once a reload is pending, further notifications change nothing and send
/// nothing.
proof fn lemma_pending_absorbs(kinds: Seq<ChangeKind>)
    ensures
        signals_sent((ReloadState::ReloadRequested, true), kinds) == 0,
        after_changes((ReloadState::ReloadRequested, true), kinds) == (
            ReloadState::ReloadRequested,
            true,
        ),
    decreases kinds.len(),
{
    if kinds.len() > 0 {
        lemma_pending_absorbs(kinds.drop_first());
    }
}

} // verus!
