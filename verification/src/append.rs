//! The append session: batches go out in order, a bounded number of them ahead
//! of their acknowledgements, and acknowledgements come back in the same
//! order, each continuing the sequence where the one before it ended.
//!
//! The session is a state machine. The caller performs the exchange with the
//! service and tells the session what happened; the session answers with what
//! to do next.

use vstd::prelude::*;
use crate::batcher::{lemma_total_size_push, AppendBatch};
use crate::command::{CommandRecord, CommandView, FencingToken, MAX_FENCING_TOKEN_BYTES};
use crate::error::{
    error_view,
    RequestStatus,
    RequestStatusView,
    S2CliError,
    S2CliErrorView,
    ServiceError,
    ServiceErrorContext,
    ServiceErrorView,
};
use crate::record::{headers_len, Record, RecordView};
use crate::session::{end_of, end_view, SessionEnd, SessionPhase};
use vstd::string::StringExecFns;

verus! {

/// Batches that may be under way, unacknowledged, unless the caller asks for
/// another depth.
pub const DEFAULT_MAX_IN_FLIGHT: usize = 4;

/// The service's answer to one batch: the sequence numbers it gave the
/// records, and the number that the next append should expect.
#[derive(Debug, Clone, Copy, PartialEq, Eq, Structural)]
pub struct AppendAck {
    pub start_seq_num: u64,
    pub end_seq_num: u64,
    pub next_seq_num: u64,
}

/// One batch as it is handed to the service, with what the session asks the
/// service to enforce.
#[derive(Debug, Clone, PartialEq, Eq)]
pub struct AppendInput {
    pub records: AppendBatch,
    pub match_seq_num: Option<u64>,
    pub fencing_token: Option<FencingToken>,
}

/// Mathematical model of an [`AppendInput`].
pub struct AppendInputView {
    pub records: Seq<RecordView>,
    pub match_seq_num: Option<u64>,
    pub fencing_token: Option<Seq<u8>>,
}

/// Model of an optional fencing token.
pub open spec fn token_view(token: Option<FencingToken>) -> Option<Seq<u8>> {
    match token {
        Some(t) => Some(t@),
        None => None,
    }
}

impl View for AppendInput {
    type V = AppendInputView;

    open spec fn view(&self) -> AppendInputView {
        AppendInputView {
            records: self.records@,
            match_seq_num: self.match_seq_num,
            fencing_token: token_view(self.fencing_token),
        }
    }
}

/// What can happen to an append session.
#[derive(Debug, Clone, PartialEq, Eq)]
pub enum AppendEvent {
    /// The exchange with the service is established.
    Opened,
    /// The batcher has the next batch ready.
    Batch(AppendBatch),
    /// The input has ended; no batch will follow.
    InputExhausted,
    /// Reading or batching the input failed.
    InputFailed(S2CliError),
    /// The service acknowledged a batch.
    Ack(AppendAck),
    /// The service rejected a batch or ended the session with an error.
    Rejected(RequestStatus),
    /// The caller cancelled the session.
    Cancelled,
    /// The service ended the exchange.
    RemoteClosed,
}

/// Mathematical model of an [`AppendEvent`].
pub enum AppendEventView {
    Opened,
    Batch(Seq<RecordView>),
    InputExhausted,
    InputFailed(S2CliErrorView),
    Ack(AppendAck),
    Rejected(RequestStatusView),
    Cancelled,
    RemoteClosed,
}

impl View for AppendEvent {
    type V = AppendEventView;

    open spec fn view(&self) -> AppendEventView {
        match self {
            AppendEvent::Opened => AppendEventView::Opened,
            AppendEvent::Batch(b) => AppendEventView::Batch(b@),
            AppendEvent::InputExhausted => AppendEventView::InputExhausted,
            AppendEvent::InputFailed(e) => AppendEventView::InputFailed(e@),
            AppendEvent::Ack(a) => AppendEventView::Ack(*a),
            AppendEvent::Rejected(s) => AppendEventView::Rejected(s@),
            AppendEvent::Cancelled => AppendEventView::Cancelled,
            AppendEvent::RemoteClosed => AppendEventView::RemoteClosed,
        }
    }
}

/// What the caller of an append session is to do next.
#[derive(Debug, Clone, PartialEq, Eq)]
pub enum AppendAction {
    /// Nothing; go on with the next event.
    Continue,
    /// Send the batch to the service.
    Send(AppendInput),
    /// The batch was not taken: the pipeline is full, or the session no longer
    /// sends. The batch comes back unchanged.
    Refused(AppendBatch),
    /// Hand the acknowledgement on.
    Yield(AppendAck),
    /// Close the sending side; acknowledgements may still arrive.
    HalfClose,
    /// The session ended cleanly.
    Finish,
    /// The session ended with this error.
    Fail(S2CliError),
    /// The session was cancelled: release the exchange. `lost` batches were
    /// sent and never acknowledged; they are not confirmed.
    Abort { lost: usize },
}

/// Mathematical model of an [`AppendAction`].
pub enum AppendActionView {
    Continue,
    Send(AppendInputView),
    Refused(Seq<RecordView>),
    Yield(AppendAck),
    HalfClose,
    Finish,
    Fail(S2CliErrorView),
    Abort { lost: nat },
}

impl View for AppendAction {
    type V = AppendActionView;

    open spec fn view(&self) -> AppendActionView {
        match self {
            AppendAction::Continue => AppendActionView::Continue,
            AppendAction::Send(i) => AppendActionView::Send(i@),
            AppendAction::Refused(b) => AppendActionView::Refused(b@),
            AppendAction::Yield(a) => AppendActionView::Yield(*a),
            AppendAction::HalfClose => AppendActionView::HalfClose,
            AppendAction::Finish => AppendActionView::Finish,
            AppendAction::Fail(e) => AppendActionView::Fail(e@),
            AppendAction::Abort { lost } => AppendActionView::Abort { lost: *lost as nat },
        }
    }
}

/// The status that reports an acknowledgement which does not fit the batch it
/// answers or does not continue the sequence.
pub open spec fn out_of_sequence() -> RequestStatusView {
    RequestStatusView {
        message: "the acknowledgement does not continue the sequence of the session"@,
        status: "OutOfSequence"@,
    }
}

/// The error that ends an append session after the service answered with
/// `status`.
pub open spec fn append_failure(status: RequestStatusView) -> S2CliErrorView {
    S2CliErrorView::ServiceError(
        ServiceErrorView::of_session(ServiceErrorContext::AppendSession, status),
    )
}

/// Mathematical model of an [`AppendSession`].
pub struct AppendSessionView {
    pub phase: SessionPhase,
    /// The token that the session asks the service to enforce.
    pub fencing_token: Option<Seq<u8>>,
    /// The sequence number that the first record of the session must get.
    pub match_seq_num: Option<u64>,
    /// Most batches under way at once.
    pub max_in_flight: nat,
    /// Record counts of the batches sent and not yet acknowledged, oldest first.
    pub in_flight: Seq<nat>,
    /// Whether the first batch has been sent.
    pub started: bool,
    /// `next_seq_num` of the last acknowledgement handed on.
    pub next_seq_num: Option<u64>,
    /// Batches that were under way when the session was cut short.
    pub lost: nat,
    /// The error that ended the session.
    pub failure: Option<S2CliErrorView>,
}

impl AppendSessionView {
    /// What holds of every session, whatever has happened to it.
    pub open spec fn wf(self) -> bool {
        &&& self.max_in_flight >= 1
        &&& self.in_flight.len() <= self.max_in_flight
        &&& !self.phase.is_running() ==> self.in_flight.len() == 0
        &&& self.phase == SessionPhase::Failed <==> self.failure is Some
        &&& self.phase == SessionPhase::Idle ==> !self.started && self.next_seq_num is None
        &&& self.phase != SessionPhase::Aborted && self.phase != SessionPhase::Failed ==> self.lost
            == 0
    }

    /// A session that has not been connected yet.
    pub open spec fn idle(
        fencing_token: Option<Seq<u8>>,
        match_seq_num: Option<u64>,
        max_in_flight: nat,
    ) -> AppendSessionView {
        AppendSessionView {
            phase: SessionPhase::Idle,
            fencing_token,
            match_seq_num,
            max_in_flight,
            in_flight: Seq::empty(),
            started: false,
            next_seq_num: None,
            lost: 0,
            failure: None,
        }
    }

    /// Whether the session would send a batch offered now.
    pub open spec fn can_send(self) -> bool {
        self.phase == SessionPhase::Open && self.in_flight.len() < self.max_in_flight
    }

    /// Whether `ack` answers the oldest batch under way and continues the
    /// sequence: it covers as many sequence numbers as the batch has records;
    /// it starts where the acknowledgement before it said the next append
    /// would; and the first one starts at the number the session was asked to
    /// match, where it was asked.
    pub open spec fn accepts(self, ack: AppendAck) -> bool {
        &&& self.in_flight.len() > 0
        &&& ack.start_seq_num <= ack.end_seq_num <= ack.next_seq_num
        &&& ack.end_seq_num - ack.start_seq_num == self.in_flight[0]
        &&& match self.next_seq_num {
            Some(next) => ack.start_seq_num == next,
            None => match self.match_seq_num {
                Some(expected) => ack.start_seq_num == expected,
                None => true,
            },
        }
    }

    /// The input that carries `batch`: the first one of a session carries the
    /// session's fencing token and sequence number to match, the later ones
    /// carry neither.
    pub open spec fn input_for(self, batch: Seq<RecordView>) -> AppendInputView {
        if self.started {
            AppendInputView { records: batch, match_seq_num: None, fencing_token: None }
        } else {
            AppendInputView {
                records: batch,
                match_seq_num: self.match_seq_num,
                fencing_token: self.fencing_token,
            }
        }
    }

    /// The session after it sent `batch`.
    pub open spec fn sent(self, batch: Seq<RecordView>) -> AppendSessionView {
        AppendSessionView { in_flight: self.in_flight.push(batch.len()), started: true, ..self }
    }

    /// The session after it handed on `ack`. A draining session with nothing
    /// more under way is closed.
    pub open spec fn acknowledged(self, ack: AppendAck) -> AppendSessionView {
        AppendSessionView {
            phase: if self.phase == SessionPhase::Draining && self.in_flight.len() == 1 {
                SessionPhase::Closed
            } else {
                self.phase
            },
            in_flight: self.in_flight.remove(0),
            next_seq_num: Some(ack.next_seq_num),
            ..self
        }
    }

    /// The session after `error` ended it.
    pub open spec fn failed(self, error: S2CliErrorView) -> AppendSessionView {
        AppendSessionView {
            phase: SessionPhase::Failed,
            in_flight: Seq::empty(),
            lost: self.in_flight.len(),
            failure: Some(error),
            ..self
        }
    }

    /// The session after it was cancelled.
    pub open spec fn aborted(self) -> AppendSessionView {
        AppendSessionView {
            phase: SessionPhase::Aborted,
            in_flight: Seq::empty(),
            lost: self.in_flight.len(),
            ..self
        }
    }

    /// What an acknowledgement does to a session that is under way.
    pub open spec fn on_ack(self, ack: AppendAck) -> (AppendSessionView, AppendActionView) {
        if self.accepts(ack) {
            (self.acknowledged(ack), AppendActionView::Yield(ack))
        } else {
            let error = append_failure(out_of_sequence());
            (self.failed(error), AppendActionView::Fail(error))
        }
    }

    /// The state after `event`, and what the caller is to do.
    pub open spec fn step(self, event: AppendEventView) -> (AppendSessionView, AppendActionView) {
        match self.phase {
            SessionPhase::Idle => match event {
                AppendEventView::Opened => (
                    AppendSessionView { phase: SessionPhase::Open, ..self },
                    AppendActionView::Continue,
                ),
                AppendEventView::Batch(batch) => (self, AppendActionView::Refused(batch)),
                _ => (self, AppendActionView::Continue),
            },
            SessionPhase::Open => match event {
                AppendEventView::Opened => (self, AppendActionView::Continue),
                AppendEventView::Batch(batch) => if self.can_send() {
                    (self.sent(batch), AppendActionView::Send(self.input_for(batch)))
                } else {
                    (self, AppendActionView::Refused(batch))
                },
                AppendEventView::InputExhausted => (
                    AppendSessionView { phase: SessionPhase::Draining, ..self },
                    AppendActionView::HalfClose,
                ),
                AppendEventView::InputFailed(error) => (
                    self.failed(error),
                    AppendActionView::Fail(error),
                ),
                AppendEventView::Ack(ack) => self.on_ack(ack),
                AppendEventView::Rejected(status) => (
                    self.failed(append_failure(status)),
                    AppendActionView::Fail(append_failure(status)),
                ),
                AppendEventView::Cancelled => (
                    self.aborted(),
                    AppendActionView::Abort { lost: self.in_flight.len() },
                ),
                AppendEventView::RemoteClosed => (
                    self.aborted(),
                    AppendActionView::Abort { lost: self.in_flight.len() },
                ),
            },
            SessionPhase::Draining => match event {
                AppendEventView::Batch(batch) => (self, AppendActionView::Refused(batch)),
                AppendEventView::Ack(ack) => self.on_ack(ack),
                AppendEventView::Rejected(status) => (
                    self.failed(append_failure(status)),
                    AppendActionView::Fail(append_failure(status)),
                ),
                AppendEventView::Cancelled => (
                    self.aborted(),
                    AppendActionView::Abort { lost: self.in_flight.len() },
                ),
                AppendEventView::RemoteClosed => if self.in_flight.len() == 0 {
                    (
                        AppendSessionView { phase: SessionPhase::Closed, ..self },
                        AppendActionView::Finish,
                    )
                } else {
                    (self.aborted(), AppendActionView::Abort { lost: self.in_flight.len() })
                },
                _ => (self, AppendActionView::Continue),
            },
            _ => match event {
                AppendEventView::Batch(batch) => (self, AppendActionView::Refused(batch)),
                _ => (self, AppendActionView::Continue),
            },
        }
    }
}

/// An append session.
#[derive(Debug, Clone, PartialEq, Eq)]
pub struct AppendSession {
    phase: SessionPhase,
    fencing_token: Option<FencingToken>,
    match_seq_num: Option<u64>,
    max_in_flight: usize,
    in_flight: Vec<usize>,
    started: bool,
    next_seq_num: Option<u64>,
    lost: usize,
    failure: Option<S2CliError>,
}

/// Record counts as numbers.
pub open spec fn counts(in_flight: Seq<usize>) -> Seq<nat> {
    in_flight.map_values(|c: usize| c as nat)
}

impl View for AppendSession {
    type V = AppendSessionView;

    closed spec fn view(&self) -> AppendSessionView {
        AppendSessionView {
            phase: self.phase,
            fencing_token: token_view(self.fencing_token),
            match_seq_num: self.match_seq_num,
            max_in_flight: self.max_in_flight as nat,
            in_flight: counts(self.in_flight@),
            started: self.started,
            next_seq_num: self.next_seq_num,
            lost: self.lost as nat,
            failure: error_view(self.failure),
        }
    }
}

impl AppendSession {
    /// What holds of every session, whatever has happened to it.
    pub open spec fn wf(&self) -> bool {
        self@.wf()
    }

    /// A session that is not connected yet. It will ask the service to enforce
    /// `fencing_token` and to give the first record the number
    /// `match_seq_num`, and will keep at most `max_in_flight` batches under
    /// way. A depth of zero would never send anything and gives `None`.
    pub fn new(
        fencing_token: Option<FencingToken>,
        match_seq_num: Option<u64>,
        max_in_flight: usize,
    ) -> (session: Option<AppendSession>)
        ensures
            session.is_some() <==> max_in_flight >= 1,
            session matches Some(s) ==> s.wf() && s@ == AppendSessionView::idle(
                token_view(fencing_token),
                match_seq_num,
                max_in_flight as nat,
            ),
    {
        if max_in_flight == 0 {
            return None;
        }
        let session = AppendSession {
            phase: SessionPhase::Idle,
            fencing_token,
            match_seq_num,
            max_in_flight,
            in_flight: Vec::new(),
            started: false,
            next_seq_num: None,
            lost: 0,
            failure: None,
        };
        assert(counts(session.in_flight@) =~= Seq::<nat>::empty());
        Some(session)
    }

    /// Where the session stands.
    pub fn phase(&self) -> (phase: SessionPhase)
        ensures
            phase == self@.phase,
    {
        self.phase
    }

    /// Whether the session would send a batch offered now.
    pub fn can_send(&self) -> (yes: bool)
        ensures
            yes == self@.can_send(),
    {
        self.phase == SessionPhase::Open && self.in_flight.len() < self.max_in_flight
    }

    /// Number of batches sent and not yet acknowledged.
    pub fn in_flight(&self) -> (n: usize)
        ensures
            n == self@.in_flight.len(),
    {
        self.in_flight.len()
    }

    /// Number of batches that were under way when the session was cut short.
    pub fn lost(&self) -> (n: usize)
        ensures
            n == self@.lost,
    {
        self.lost
    }

    /// `next_seq_num` of the last acknowledgement handed on.
    pub fn next_seq_num(&self) -> (n: Option<u64>)
        ensures
            n == self@.next_seq_num,
    {
        self.next_seq_num
    }

    /// The error that ended the session, if one did.
    pub fn failure(&self) -> (failure: Option<S2CliError>)
        ensures
            error_view(failure) == self@.failure,
    {
        match &self.failure {
            Some(e) => Some(e.duplicate()),
            None => None,
        }
    }

    /// How the session ended, once it has: cleanly, by cancellation, or with
    /// the error that it carries.
    pub fn end(&self) -> (end: Option<SessionEnd>)
        requires
            self.wf(),
        ensures
            end_view(end) == end_of(self@.phase, self@.failure),
            end.is_some() <==> self@.phase.is_terminal(),
    {
        match self.phase {
            SessionPhase::Closed => Some(SessionEnd::Completed),
            SessionPhase::Aborted => Some(SessionEnd::Aborted),
            SessionPhase::Failed => match &self.failure {
                Some(error) => Some(SessionEnd::Failed(error.duplicate())),
                None => None,
            },
            _ => None,
        }
    }

    fn send(&mut self, batch: AppendBatch) -> (action: AppendAction)
        requires
            old(self).wf(),
            old(self)@.can_send(),
        ensures
            final(self).wf(),
            final(self)@ == old(self)@.sent(batch@),
            action@ == AppendActionView::Send(old(self)@.input_for(batch@)),
    {
        let count = batch.len();
        let input = if self.started {
            AppendInput { records: batch, match_seq_num: None, fencing_token: None }
        } else {
            let fencing_token = match &self.fencing_token {
                Some(t) => Some(t.duplicate()),
                None => None,
            };
            AppendInput { records: batch, match_seq_num: self.match_seq_num, fencing_token }
        };
        proof {
            assert(counts(self.in_flight@.push(count)) =~= counts(self.in_flight@).push(
                count as nat,
            ));
        }
        self.in_flight.push(count);
        self.started = true;
        AppendAction::Send(input)
    }

    fn fail(&mut self, error: S2CliError) -> (action: AppendAction)
        requires
            old(self).wf(),
            old(self)@.phase.is_running(),
        ensures
            final(self).wf(),
            final(self)@ == old(self)@.failed(error@),
            action@ == AppendActionView::Fail(error@),
    {
        self.lost = self.in_flight.len();
        self.in_flight.clear();
        self.phase = SessionPhase::Failed;
        self.failure = Some(error.duplicate());
        proof {
            assert(counts(self.in_flight@) =~= Seq::<nat>::empty());
        }
        AppendAction::Fail(error)
    }

    fn abort(&mut self) -> (action: AppendAction)
        requires
            old(self).wf(),
            old(self)@.phase.is_running(),
        ensures
            final(self).wf(),
            final(self)@ == old(self)@.aborted(),
            action@ == (AppendActionView::Abort { lost: old(self)@.in_flight.len() }),
    {
        let lost = self.in_flight.len();
        self.lost = lost;
        self.in_flight.clear();
        self.phase = SessionPhase::Aborted;
        proof {
            assert(counts(self.in_flight@) =~= Seq::<nat>::empty());
        }
        AppendAction::Abort { lost }
    }

    fn accepts(&self, ack: &AppendAck) -> (yes: bool)
        requires
            self.wf(),
        ensures
            yes == self@.accepts(*ack),
    {
        if self.in_flight.len() == 0 {
            return false;
        }
        if ack.start_seq_num > ack.end_seq_num || ack.end_seq_num > ack.next_seq_num {
            return false;
        }
        let count = self.in_flight[0];
        assert(counts(self.in_flight@)[0] == count as nat);
        let covered = ack.end_seq_num - ack.start_seq_num;
        if count as u64 != covered {
            return false;
        }
        match self.next_seq_num {
            Some(next) => ack.start_seq_num == next,
            None => match self.match_seq_num {
                Some(expected) => ack.start_seq_num == expected,
                None => true,
            },
        }
    }

    fn acknowledge(&mut self, ack: AppendAck) -> (action: AppendAction)
        requires
            old(self).wf(),
            old(self)@.phase.is_running(),
        ensures
            final(self).wf(),
            (final(self)@, action@) == old(self)@.on_ack(ack),
    {
        if self.accepts(&ack) {
            proof {
                assert(counts(self.in_flight@.remove(0)) =~= counts(self.in_flight@).remove(0));
            }
            self.in_flight.remove(0);
            self.next_seq_num = Some(ack.next_seq_num);
            if self.phase == SessionPhase::Draining && self.in_flight.len() == 0 {
                self.phase = SessionPhase::Closed;
            }
            AppendAction::Yield(ack)
        } else {
            let status = RequestStatus::new(
                String::from_str("OutOfSequence"),
                String::from_str(
                    "the acknowledgement does not continue the sequence of the session",
                ),
            );
            let error = S2CliError::ServiceError(
                ServiceError::in_session(ServiceErrorContext::AppendSession, status),
            );
            self.fail(error)
        }
    }

    fn reject(&mut self, status: RequestStatus) -> (action: AppendAction)
        requires
            old(self).wf(),
            old(self)@.phase.is_running(),
        ensures
            final(self).wf(),
            final(self)@ == old(self)@.failed(append_failure(status@)),
            action@ == AppendActionView::Fail(append_failure(status@)),
    {
        let error = S2CliError::ServiceError(
            ServiceError::in_session(ServiceErrorContext::AppendSession, status),
        );
        self.fail(error)
    }

    /// Takes one event and says what to do next. The new state and the action
    /// are those of [`AppendSessionView::step`].
    pub fn step(&mut self, event: AppendEvent) -> (action: AppendAction)
        requires
            old(self).wf(),
        ensures
            final(self).wf(),
            (final(self)@, action@) == old(self)@.step(event@),
    {
        match self.phase {
            SessionPhase::Idle => match event {
                AppendEvent::Opened => {
                    self.phase = SessionPhase::Open;
                    AppendAction::Continue
                },
                AppendEvent::Batch(batch) => AppendAction::Refused(batch),
                _ => AppendAction::Continue,
            },
            SessionPhase::Open => match event {
                AppendEvent::Opened => AppendAction::Continue,
                AppendEvent::Batch(batch) => {
                    if self.can_send() {
                        self.send(batch)
                    } else {
                        AppendAction::Refused(batch)
                    }
                },
                AppendEvent::InputExhausted => {
                    self.phase = SessionPhase::Draining;
                    AppendAction::HalfClose
                },
                AppendEvent::InputFailed(error) => self.fail(error),
                AppendEvent::Ack(ack) => self.acknowledge(ack),
                AppendEvent::Rejected(status) => self.reject(status),
                AppendEvent::Cancelled => self.abort(),
                AppendEvent::RemoteClosed => self.abort(),
            },
            SessionPhase::Draining => match event {
                AppendEvent::Batch(batch) => AppendAction::Refused(batch),
                AppendEvent::Ack(ack) => self.acknowledge(ack),
                AppendEvent::Rejected(status) => self.reject(status),
                AppendEvent::Cancelled => self.abort(),
                AppendEvent::RemoteClosed => {
                    if self.in_flight.len() == 0 {
                        self.phase = SessionPhase::Closed;
                        AppendAction::Finish
                    } else {
                        self.abort()
                    }
                },
                _ => AppendAction::Continue,
            },
            _ => match event {
                AppendEvent::Batch(batch) => AppendAction::Refused(batch),
                _ => AppendAction::Continue,
            },
        }
    }
}

impl AppendSessionView {
    /// The state after all of `events`, taken in order.
    pub open spec fn after(self, events: Seq<AppendEventView>) -> AppendSessionView
        decreases events.len(),
    {
        if events.len() == 0 {
            self
        } else {
            self.step(events[0]).0.after(events.drop_first())
        }
    }

    /// The acknowledgements handed on while `events` are taken, in order.
    pub open spec fn acks(self, events: Seq<AppendEventView>) -> Seq<AppendAck>
        decreases events.len(),
    {
        if events.len() == 0 {
            Seq::empty()
        } else {
            let (next, action) = self.step(events[0]);
            match action {
                AppendActionView::Yield(ack) => seq![ack] + next.acks(events.drop_first()),
                _ => next.acks(events.drop_first()),
            }
        }
    }

    /// The record counts of the batches sent while `events` are taken, in
    /// order.
    pub open spec fn sent_counts(self, events: Seq<AppendEventView>) -> Seq<nat>
        decreases events.len(),
    {
        if events.len() == 0 {
            Seq::empty()
        } else {
            let (next, action) = self.step(events[0]);
            match action {
                AppendActionView::Send(input) => seq![input.records.len()] + next.sent_counts(
                    events.drop_first(),
                ),
                _ => next.sent_counts(events.drop_first()),
            }
        }
    }
}

/// Every event leaves a session well formed, and moves it only along the life
/// cycle: `Idle → Open → Draining → Closed`, or from a running session to
/// `Aborted` or `Failed`.
pub proof fn lemma_append_step_follows_life_cycle(s: AppendSessionView, event: AppendEventView)
    requires
        s.wf(),
    ensures
        s.step(event).0.wf(),
        s.phase.may_become(s.step(event).0.phase),
{
}

/// A session fails exactly when it tells its caller so, and a failed session
/// carries the error that it told.
pub proof fn lemma_append_failure_is_carried(s: AppendSessionView, event: AppendEventView)
    requires
        s.wf(),
    ensures
        s.step(event).1 matches AppendActionView::Fail(error) ==> s.step(event).0.phase
            == SessionPhase::Failed && s.step(event).0.failure == Some(error),
        s.phase != SessionPhase::Failed && s.step(event).0.phase == SessionPhase::Failed
            ==> s.step(event).1 is Fail,
{
}

/// A session that has ended stays as it is, whatever happens: no event
/// changes its state, and nothing is sent, handed on or reported any more.
pub proof fn lemma_append_end_is_final(s: AppendSessionView, event: AppendEventView)
    requires
        s.phase.is_terminal(),
    ensures
        s.step(event).0 == s,
        s.step(event).1 is Continue || s.step(event).1 is Refused,
{
}

/// Cancelling a session that is under way ends it as `Aborted`, with every
/// batch that was sent and not acknowledged counted as lost; and whatever
/// happens afterwards, the session stays `Aborted`: it is never `Closed`.
pub proof fn lemma_append_cancel_aborts(s: AppendSessionView, later: Seq<AppendEventView>)
    requires
        s.phase.is_running(),
    ensures
        s.step(AppendEventView::Cancelled).0.phase == SessionPhase::Aborted,
        s.step(AppendEventView::Cancelled).1 == (AppendActionView::Abort {
            lost: s.in_flight.len(),
        }),
        s.step(AppendEventView::Cancelled).0.lost == s.in_flight.len(),
        s.step(AppendEventView::Cancelled).0.after(later) == s.step(AppendEventView::Cancelled).0,
        s.step(AppendEventView::Cancelled).0.acks(later).len() == 0,
    decreases later.len(),
{
    let cancelled = s.step(AppendEventView::Cancelled).0;
    lemma_append_ended_stays(cancelled, later);
}

/// A session that has ended is the same after any further events, and hands
/// on no acknowledgement.
pub proof fn lemma_append_ended_stays(s: AppendSessionView, later: Seq<AppendEventView>)
    requires
        s.phase.is_terminal(),
    ensures
        s.after(later) == s,
        s.acks(later).len() == 0,
        s.sent_counts(later).len() == 0,
    decreases later.len(),
{
    if later.len() > 0 {
        lemma_append_end_is_final(s, later[0]);
        lemma_append_ended_stays(s, later.drop_first());
    }
}

/// The acknowledgements that a session hands on continue one another: the
/// first starts where the session's last acknowledgement said the next append
/// would, and the session remembers the `next_seq_num` of the last.
pub proof fn lemma_append_acks_chain(s: AppendSessionView, events: Seq<AppendEventView>)
    requires
        s.wf(),
    ensures
        s.acks(events).len() > 0 ==> {
            &&& s.next_seq_num matches Some(next) ==> s.acks(events)[0].start_seq_num == next
            &&& s.after(events).next_seq_num == Some(s.acks(events).last().next_seq_num)
        },
        s.acks(events).len() == 0 ==> s.after(events).next_seq_num == s.next_seq_num,
        forall|i: int|
            1 <= i < s.acks(events).len() ==> (#[trigger] s.acks(events)[i]).start_seq_num
                == s.acks(events)[i - 1].next_seq_num,
    decreases events.len(),
{
    if events.len() > 0 {
        let (next, action) = s.step(events[0]);
        let rest = events.drop_first();
        lemma_append_step_follows_life_cycle(s, events[0]);
        lemma_append_acks_chain(next, rest);
        match action {
            AppendActionView::Yield(ack) => {
                let tail = next.acks(rest);
                let all = s.acks(events);
                assert(all == seq![ack] + tail);
                assert(all[0] == ack);
                assert(next.next_seq_num == Some(ack.next_seq_num));
                assert forall|i: int| 1 <= i < all.len() implies (#[trigger] all[i]).start_seq_num
                    == all[i - 1].next_seq_num by {
                    assert(all[i] == tail[i - 1]);
                    if i > 1 {
                        assert(all[i - 1] == tail[i - 2]);
                    }
                }
                if tail.len() > 0 {
                    assert(all.last() == tail.last());
                }
            },
            _ => {
                assert(next.next_seq_num == s.next_seq_num);
            },
        }
    }
}

/// Contiguity: of the acknowledgements that a session hands on, each starts at
/// the `next_seq_num` of the one before it.
pub proof fn lemma_append_acks_contiguous(
    s: AppendSessionView,
    events: Seq<AppendEventView>,
    i: int,
)
    requires
        s.wf(),
        1 <= i < s.acks(events).len(),
    ensures
        s.acks(events)[i].start_seq_num == s.acks(events)[i - 1].next_seq_num,
{
    lemma_append_acks_chain(s, events);
}

/// Where a session was asked to match a sequence number, the first
/// acknowledgement it hands on starts at that number.
pub proof fn lemma_append_first_ack_matches(
    fencing_token: Option<Seq<u8>>,
    match_seq_num: u64,
    max_in_flight: nat,
    events: Seq<AppendEventView>,
)
    requires
        max_in_flight >= 1,
    ensures
        ({
            let s = AppendSessionView::idle(fencing_token, Some(match_seq_num), max_in_flight);
            s.acks(events).len() > 0 ==> s.acks(events)[0].start_seq_num == match_seq_num
        }),
{
    let s = AppendSessionView::idle(fencing_token, Some(match_seq_num), max_in_flight);
    lemma_append_first_ack(s, events);
}

/// Until a session has handed on an acknowledgement, the first it hands on
/// starts at the number it was asked to match.
proof fn lemma_append_first_ack(s: AppendSessionView, events: Seq<AppendEventView>)
    requires
        s.wf(),
        s.next_seq_num is None,
        s.match_seq_num is Some,
    ensures
        s.acks(events).len() > 0 ==> s.acks(events)[0].start_seq_num == s.match_seq_num->0,
    decreases events.len(),
{
    if events.len() > 0 {
        let (next, action) = s.step(events[0]);
        lemma_append_step_follows_life_cycle(s, events[0]);
        match action {
            AppendActionView::Yield(ack) => {
                assert(s.acks(events)[0] == ack);
            },
            _ => {
                lemma_append_first_ack(next, events.drop_first());
            },
        }
    }
}

/// Acknowledgements come in the order in which the batches went out: the
/// session hands on no more acknowledgements than batches are or were under
/// way, and the k-th covers as many sequence numbers as the k-th of those
/// batches has records.
pub proof fn lemma_append_acks_in_order(s: AppendSessionView, events: Seq<AppendEventView>)
    requires
        s.wf(),
    ensures
        s.acks(events).len() <= s.in_flight.len() + s.sent_counts(events).len(),
        forall|k: int|
            0 <= k < s.acks(events).len() ==> (#[trigger] s.acks(events)[k]).end_seq_num
                - s.acks(events)[k].start_seq_num == (s.in_flight + s.sent_counts(events))[k],
    decreases events.len(),
{
    if events.len() > 0 {
        let (next, action) = s.step(events[0]);
        let rest = events.drop_first();
        lemma_append_step_follows_life_cycle(s, events[0]);
        lemma_append_acks_in_order(next, rest);
        let all = s.acks(events);
        let queue = s.in_flight + s.sent_counts(events);
        let later = next.in_flight + next.sent_counts(rest);
        match action {
            AppendActionView::Yield(ack) => {
                assert(all == seq![ack] + next.acks(rest));
                assert(queue =~= seq![s.in_flight[0]] + later);
                assert forall|k: int| 0 <= k < all.len() implies (#[trigger] all[k]).end_seq_num
                    - all[k].start_seq_num == queue[k] by {
                    if k > 0 {
                        assert(all[k] == next.acks(rest)[k - 1]);
                        assert(queue[k] == later[k - 1]);
                    }
                }
            },
            AppendActionView::Send(input) => {
                assert(queue =~= later);
            },
            _ => {
                if next.in_flight == s.in_flight {
                    assert(queue =~= later);
                } else {
                    lemma_append_ended_stays(next, rest);
                }
            },
        }
    }
}

impl AppendSessionView {
    /// The inputs sent while `events` are taken, in order.
    pub open spec fn inputs(self, events: Seq<AppendEventView>) -> Seq<AppendInputView>
        decreases events.len(),
    {
        if events.len() == 0 {
            Seq::empty()
        } else {
            let (next, action) = self.step(events[0]);
            match action {
                AppendActionView::Send(input) => seq![input] + next.inputs(events.drop_first()),
                _ => next.inputs(events.drop_first()),
            }
        }
    }
}

/// What a session asks the service to enforce goes out with its first batch
/// and with no other: the first input of a session carries the session's
/// fencing token and the sequence number to match, every later input carries
/// neither.
pub proof fn lemma_append_parameters_go_first(s: AppendSessionView, events: Seq<AppendEventView>)
    requires
        s.wf(),
    ensures
        ({
            let inputs = s.inputs(events);
            &&& forall|i: int|
                0 <= i < inputs.len() && (s.started || i > 0) ==> {
                    &&& (#[trigger] inputs[i]).match_seq_num is None
                    &&& inputs[i].fencing_token is None
                }
            &&& !s.started && inputs.len() > 0 ==> {
                &&& inputs[0].match_seq_num == s.match_seq_num
                &&& inputs[0].fencing_token == s.fencing_token
            }
        }),
    decreases events.len(),
{
    if events.len() > 0 {
        let (next, action) = s.step(events[0]);
        let rest = events.drop_first();
        lemma_append_step_follows_life_cycle(s, events[0]);
        lemma_append_parameters_go_first(next, rest);
        assert(next.match_seq_num == s.match_seq_num);
        assert(next.fencing_token == s.fencing_token);
        assert(s.started ==> next.started);
        let all = s.inputs(events);
        let tail = next.inputs(rest);
        match action {
            AppendActionView::Send(input) => {
                assert(all == seq![input] + tail);
                assert(next.started);
                assert forall|i: int| 0 <= i < all.len() && (s.started || i > 0) implies {
                    &&& (#[trigger] all[i]).match_seq_num is None
                    &&& all[i].fencing_token is None
                } by {
                    if i > 0 {
                        assert(all[i] == tail[i - 1]);
                    }
                }
            },
            _ => {
                assert(all == tail);
            },
        }
    }
}

/// A command record weighs a few bytes: the record and header overheads, the
/// name of the command, and a token or a sequence number.
pub proof fn lemma_command_record_is_small(command: CommandView)
    requires
        command matches CommandView::Fence { fencing_token } ==> fencing_token.len()
            <= MAX_FENCING_TOKEN_BYTES,
    ensures
        command.encode().metered_size() <= 31,
{
    let headers = command.encode().headers;
    assert(headers.drop_last().len() == 0);
    assert(headers_len(headers.drop_last()) == 0);
}

/// The input that submits one command on its own: a batch of the single
/// record that carries the command, with no token and no sequence number to
/// match.
pub fn command_input(command: &CommandRecord) -> (input: AppendInput)
    ensures
        input@ == (AppendInputView {
            records: seq![command@.encode()],
            match_seq_num: None,
            fencing_token: None,
        }),
{
    match command {
        CommandRecord::Fence { fencing_token } => {
            let length = fencing_token.len();
        },
        CommandRecord::Trim { seq_num } => {},
    }
    let record = command.to_record();
    let mut records: Vec<Record> = Vec::new();
    records.push(record);
    proof {
        lemma_command_record_is_small(command@);
        lemma_total_size_push(Seq::<RecordView>::empty(), command@.encode());
        assert(crate::batcher::record_views(records@) =~= seq![command@.encode()]);
        assert(seq![command@.encode()] =~= Seq::<RecordView>::empty().push(command@.encode()));
    }
    match AppendBatch::new(records) {
        Ok(batch) => AppendInput { records: batch, match_seq_num: None, fencing_token: None },
        Err(_) => vstd::pervasive::unreached(),
    }
}

/// The error that reports a command which the service did not take: a failure
/// to `fence` or to `trim` the stream, with the status that came back.
pub fn command_failure(command: &CommandRecord, status: RequestStatus) -> (error: S2CliError)
    ensures
        error@ == S2CliErrorView::ServiceError(
            ServiceErrorView {
                entity: "stream"@,
                operation: command@.name(),
                error: status@,
                extra: Seq::empty(),
                plural: None,
                context: None,
            },
        ),
{
    S2CliError::ServiceError(
        ServiceError::new(String::from_str("stream"), String::from_str(command.name()), status),
    )
}

} // verus!
