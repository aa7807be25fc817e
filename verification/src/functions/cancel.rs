//! Cancelling a download.
use vstd::prelude::*;

verus! {

/// What a cancelled download reports. It is no error to be shown.
pub const CANCEL_MSG: &'static str = "Download cancelled";

/// Whether the user has asked to cancel the download that is running.
pub struct CancelState {
    pub requested: bool,
}

impl CancelState {
    /// Nothing is cancelled.
    pub fn new() -> (r: CancelState)
        ensures
            !r.requested,
    {
        CancelState { requested: false }
    }
}

/// Asks to cancel the download that is running.
pub fn cancel_download(state: &mut CancelState)
    ensures
        final(state).requested,
{
    state.requested = true;
}

/// Whether the download that is running is to be cancelled.
pub fn is_cancelled(state: &CancelState) -> (r: bool)
    ensures
        r == state.requested,
{
    state.requested
}

/// Ties a request to cancel to one download: it ends with it, however the
/// download ends, and an earlier one does not reach it.
pub struct DownloadGuard;

impl DownloadGuard {
    /// A download begins: what was cancelled before does not concern it.
    pub fn new(state: &mut CancelState) -> (r: DownloadGuard)
        ensures
            !final(state).requested,
    {
        state.requested = false;
        DownloadGuard
    }

    /// The download has ended: what was cancelled with it is done with.
    pub fn release(self, state: &mut CancelState)
        ensures
            !final(state).requested,
    {
        state.requested = false;
    }
}

/// What happens to a program that was started.
pub enum ChildEvent {
    /// It runs.
    Started,
    /// It has ended.
    Exited { success: bool },
    /// It cannot be waited for.
    Broken(String),
    /// The user cancels.
    Cancelled,
}

/// What to do with a program that was started.
pub enum ChildAction {
    /// Wait for its end or for the user.
    Wait,
    /// Kill it and all that it started; the download reports that it was cancelled.
    Kill { report: String },
    /// Report its end.
    Report(Result<bool, String>),
}

/// `action` follows `event`. A request that came before the program ran kills it
/// at once.
pub open spec fn child_follows(
    event: ChildEvent,
    state: CancelState,
    action: ChildAction,
) -> bool {
    match event {
        ChildEvent::Started => if state.requested {
            action matches ChildAction::Kill { report } && report@ == CANCEL_MSG@
        } else {
            action is Wait
        },
        ChildEvent::Exited { success } => action == ChildAction::Report(Ok(success)),
        ChildEvent::Broken(e) => action == ChildAction::Report(Err(e)),
        ChildEvent::Cancelled => action matches ChildAction::Kill { report } && report@
            == CANCEL_MSG@,
    }
}

/// A program that is started in a download that has just begun, or after one has
/// ended, runs: no earlier request kills it. One that the user cancels is killed,
/// and nothing else is reported of it than that.
pub proof fn law_requests_reach_one_download(
    begun: CancelState,
    cancelled: CancelState,
    first: ChildAction,
    later: ChildAction,
)
    requires
        !begun.requested,
        cancelled.requested,
        child_follows(ChildEvent::Started, begun, first),
        child_follows(ChildEvent::Started, cancelled, later),
    ensures
        first is Wait,
        later matches ChildAction::Kill { report } && report@ == CANCEL_MSG@,
{
}

/// What follows an event.
pub fn on_child(event: ChildEvent, state: &CancelState) -> (r: ChildAction)
    ensures
        child_follows(event, *state, r),
{
    match event {
        ChildEvent::Started => if is_cancelled(state) {
            ChildAction::Kill { report: CANCEL_MSG.to_owned() }
        } else {
            ChildAction::Wait
        },
        ChildEvent::Exited { success } => ChildAction::Report(Ok(success)),
        ChildEvent::Broken(e) => ChildAction::Report(Err(e)),
        ChildEvent::Cancelled => ChildAction::Kill { report: CANCEL_MSG.to_owned() },
    }
}

} // verus!
