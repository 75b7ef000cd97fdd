//! The life cycle that an append session and a read session share.

use vstd::prelude::*;
use crate::error::{error_view, S2CliError, S2CliErrorView};

verus! {

/// Where a session stands in its life.
///
/// `Idle → Open → Draining → Closed` is the clean course. Cancellation ends an
/// open or draining session as `Aborted`; an error that cannot be recovered
/// from ends it as `Failed`.
#[derive(Debug, Clone, Copy, PartialEq, Eq, Structural)]
pub enum SessionPhase {
    /// Made, and not yet connected.
    Idle,
    /// Connected; events flow.
    Open,
    /// Nothing more goes in; what is under way is still delivered.
    Draining,
    /// Ended cleanly.
    Closed,
    /// Ended by cancellation.
    Aborted,
    /// Ended by an error.
    Failed,
}

impl SessionPhase {
    /// Whether the session has ended, one way or another.
    pub open spec fn is_terminal(self) -> bool {
        self == SessionPhase::Closed || self == SessionPhase::Aborted || self
            == SessionPhase::Failed
    }

    /// Whether the session is under way: connected and not ended.
    pub open spec fn is_running(self) -> bool {
        self == SessionPhase::Open || self == SessionPhase::Draining
    }

    /// Whether a session in phase `self` may be in phase `next` one event
    /// later.
    pub open spec fn may_become(self, next: SessionPhase) -> bool {
        ||| next == self
        ||| self == SessionPhase::Idle && next == SessionPhase::Open
        ||| self == SessionPhase::Open && next == SessionPhase::Draining
        ||| self == SessionPhase::Draining && next == SessionPhase::Closed
        ||| self.is_running() && next == SessionPhase::Aborted
        ||| self.is_running() && next == SessionPhase::Failed
    }

    /// Whether the session has ended, one way or another.
    pub fn terminal(&self) -> (t: bool)
        ensures
            t == self.is_terminal(),
    {
        match self {
            SessionPhase::Closed | SessionPhase::Aborted | SessionPhase::Failed => true,
            _ => false,
        }
    }

    /// Whether the session is under way: connected and not ended.
    pub fn running(&self) -> (r: bool)
        ensures
            r == self.is_running(),
    {
        match self {
            SessionPhase::Open | SessionPhase::Draining => true,
            _ => false,
        }
    }
}

/// How a session ended: cleanly, by cancellation, or with an error.
#[derive(Debug, Clone, PartialEq, Eq)]
pub enum SessionEnd {
    /// Everything was delivered.
    Completed,
    /// The session was cancelled. This is no failure, and no completion
    /// either.
    Aborted,
    /// The session failed with this error.
    Failed(S2CliError),
}

/// Mathematical model of a [`SessionEnd`].
pub enum SessionEndView {
    Completed,
    Aborted,
    Failed(S2CliErrorView),
}

impl View for SessionEnd {
    type V = SessionEndView;

    open spec fn view(&self) -> SessionEndView {
        match self {
            SessionEnd::Completed => SessionEndView::Completed,
            SessionEnd::Aborted => SessionEndView::Aborted,
            SessionEnd::Failed(e) => SessionEndView::Failed(e@),
        }
    }
}

/// Model of an optional end.
pub open spec fn end_view(end: Option<SessionEnd>) -> Option<SessionEndView> {
    match end {
        Some(e) => Some(e@),
        None => None,
    }
}

/// How a session in `phase` has ended, if it has; `failure` is the error that
/// a failed session carries.
pub open spec fn end_of(phase: SessionPhase, failure: Option<S2CliErrorView>) -> Option<
    SessionEndView,
> {
    match phase {
        SessionPhase::Closed => Some(SessionEndView::Completed),
        SessionPhase::Aborted => Some(SessionEndView::Aborted),
        SessionPhase::Failed => match failure {
            Some(error) => Some(SessionEndView::Failed(error)),
            None => None,
        },
        _ => None,
    }
}

impl SessionEndView {
    /// The error to report for the end, if any: none after completion, the
    /// cancellation after an abort, the failure after a failure.
    pub open spec fn error(self) -> Option<S2CliErrorView> {
        match self {
            SessionEndView::Completed => None,
            SessionEndView::Aborted => Some(S2CliErrorView::Aborted),
            SessionEndView::Failed(error) => Some(error),
        }
    }
}

impl SessionEnd {
    /// The error to report for the end, if any: none after completion, the
    /// cancellation after an abort, the failure after a failure.
    pub fn into_error(self) -> (error: Option<S2CliError>)
        ensures
            error_view(error) == self@.error(),
    {
        match self {
            SessionEnd::Completed => None,
            SessionEnd::Aborted => Some(S2CliError::Aborted),
            SessionEnd::Failed(error) => Some(error),
        }
    }
}

} // verus!
