//! The read session: what the service sends is checked for order, split into
//! data records and command records, metered, and handed on, until a limit is
//! reached, the service has no more to send, or the caller cancels.
//!
//! The session is a state machine. The caller performs the exchange with the
//! service and tells the session what happened and when; the session answers
//! with what to do next.

use vstd::prelude::*;
use crate::batcher::total_size;
use crate::command::{CommandRecord, CommandView};
use crate::error::{
    error_view,
    RequestStatus,
    RequestStatusView,
    S2CliError,
    S2CliErrorView,
    ServiceError,
    ServiceErrorContext,
    ServiceErrorView,
};
use crate::metrics::{saturating_sum, SessionMetrics};
use crate::record::{RecordView, SequencedRecord, SequencedRecordView};
use crate::session::{end_of, end_view, SessionEnd, SessionPhase};
use vstd::string::StringExecFns;

verus! {

/// What the service sends in a read session.
#[derive(Debug, Clone, PartialEq, Eq)]
pub enum ReadOutput {
    /// Records, in the order of the stream.
    Batch(Vec<SequencedRecord>),
    /// The lowest sequence number that the stream still holds.
    FirstSeqNum(u64),
    /// The stream has no more records for now; this is the number that the
    /// next one will get.
    NextSeqNum(u64),
}

/// Models of the records in a vector.
pub open spec fn sequenced_views(records: Seq<SequencedRecord>) -> Seq<SequencedRecordView> {
    records.map_values(|r: SequencedRecord| r@)
}

/// Mathematical model of a [`ReadOutput`].
pub enum ReadOutputView {
    Batch(Seq<SequencedRecordView>),
    FirstSeqNum(u64),
    NextSeqNum(u64),
}

impl View for ReadOutput {
    type V = ReadOutputView;

    open spec fn view(&self) -> ReadOutputView {
        match self {
            ReadOutput::Batch(records) => ReadOutputView::Batch(sequenced_views(records@)),
            ReadOutput::FirstSeqNum(n) => ReadOutputView::FirstSeqNum(*n),
            ReadOutput::NextSeqNum(n) => ReadOutputView::NextSeqNum(*n),
        }
    }
}

/// What can happen to a read session.
#[derive(Debug, Clone, PartialEq, Eq)]
pub enum ReadInput {
    /// The exchange with the service is established.
    Opened,
    /// The service sent something.
    Output(ReadOutput),
    /// The service ended the session with an error.
    Rejected(RequestStatus),
    /// Writing what was handed on failed.
    SinkFailed(S2CliError),
    /// Everything handed on so far has been written out.
    Flushed,
    /// The caller cancelled the session.
    Cancelled,
    /// The service ended the exchange.
    RemoteClosed,
}

/// Mathematical model of a [`ReadInput`].
pub enum ReadInputView {
    Opened,
    Output(ReadOutputView),
    Rejected(RequestStatusView),
    SinkFailed(S2CliErrorView),
    Flushed,
    Cancelled,
    RemoteClosed,
}

impl View for ReadInput {
    type V = ReadInputView;

    open spec fn view(&self) -> ReadInputView {
        match self {
            ReadInput::Opened => ReadInputView::Opened,
            ReadInput::Output(o) => ReadInputView::Output(o@),
            ReadInput::Rejected(s) => ReadInputView::Rejected(s@),
            ReadInput::SinkFailed(e) => ReadInputView::SinkFailed(e@),
            ReadInput::Flushed => ReadInputView::Flushed,
            ReadInput::Cancelled => ReadInputView::Cancelled,
            ReadInput::RemoteClosed => ReadInputView::RemoteClosed,
        }
    }
}

/// A record as a read session hands it on: told apart, once and for all, as
/// data or as a command.
#[derive(Debug, Clone, PartialEq, Eq)]
pub enum ReadItem {
    /// An ordinary record.
    Data(SequencedRecord),
    /// A command record, with the command it carries.
    Command { seq_num: u64, command: CommandRecord },
}

/// Mathematical model of a [`ReadItem`].
pub enum ReadItemView {
    Data(SequencedRecordView),
    Command { seq_num: u64, command: CommandView },
}

impl View for ReadItem {
    type V = ReadItemView;

    open spec fn view(&self) -> ReadItemView {
        match self {
            ReadItem::Data(r) => ReadItemView::Data(r@),
            ReadItem::Command { seq_num, command } => ReadItemView::Command {
                seq_num: *seq_num,
                command: command@,
            },
        }
    }
}

impl ReadItemView {
    /// The item that a record is handed on as: a command where the record
    /// carries one, else data.
    pub open spec fn of(record: SequencedRecordView) -> ReadItemView {
        match CommandView::decode(record.record) {
            Some(command) => ReadItemView::Command { seq_num: record.seq_num, command },
            None => ReadItemView::Data(record),
        }
    }

    /// The sequence number of the record behind the item.
    pub open spec fn seq_num(self) -> u64 {
        match self {
            ReadItemView::Data(r) => r.seq_num,
            ReadItemView::Command { seq_num, command } => seq_num,
        }
    }

    /// What the item adds to the output: the body and a line break for data,
    /// nothing for a command.
    pub open spec fn line(self) -> Seq<u8> {
        match self {
            ReadItemView::Data(r) => r.record.body.push(10u8),
            ReadItemView::Command { seq_num, command } => Seq::empty(),
        }
    }
}

/// Models of the items in a vector.
pub open spec fn item_views(items: Seq<ReadItem>) -> Seq<ReadItemView> {
    items.map_values(|i: ReadItem| i@)
}

/// The items that records are handed on as.
pub open spec fn routed(records: Seq<SequencedRecordView>) -> Seq<ReadItemView> {
    records.map_values(|r: SequencedRecordView| ReadItemView::of(r))
}

/// The records without their sequence numbers.
pub open spec fn bare(records: Seq<SequencedRecordView>) -> Seq<RecordView> {
    records.map_values(|r: SequencedRecordView| r.record)
}

/// A count of bytes, held at the largest count there is.
pub open spec fn capped(n: nat) -> u64 {
    if n > u64::MAX {
        u64::MAX
    } else {
        n as u64
    }
}

/// The metered size of all of `records`, held at the largest count there is.
pub open spec fn batch_bytes(records: Seq<SequencedRecordView>) -> u64 {
    capped(total_size(bare(records)))
}

/// The output that items make: one line for each data record, in order.
pub open spec fn lines_of(items: Seq<ReadItemView>) -> Seq<u8>
    decreases items.len(),
{
    if items.len() == 0 {
        Seq::empty()
    } else {
        lines_of(items.drop_last()) + items.last().line()
    }
}

/// Whether each record has a higher sequence number than the one before it.
pub open spec fn ascending(records: Seq<SequencedRecordView>) -> bool {
    forall|i: int| 0 < i < records.len() ==> records[i - 1].seq_num < (#[trigger] records[i]).seq_num
}

/// The records of one batch as a read session hands them on.
#[derive(Debug, Clone, PartialEq, Eq)]
pub struct ReadBatch {
    /// The records, each told apart as data or command, in order.
    pub items: Vec<ReadItem>,
    /// The metered size of the records.
    pub metered_bytes: u64,
}

/// Mathematical model of a [`ReadBatch`].
pub struct ReadBatchView {
    pub items: Seq<ReadItemView>,
    pub metered_bytes: u64,
}

impl View for ReadBatch {
    type V = ReadBatchView;

    open spec fn view(&self) -> ReadBatchView {
        ReadBatchView { items: item_views(self.items@), metered_bytes: self.metered_bytes }
    }
}

impl ReadBatchView {
    /// The batch that records are handed on as.
    pub open spec fn of(records: Seq<SequencedRecordView>) -> ReadBatchView {
        ReadBatchView { items: routed(records), metered_bytes: batch_bytes(records) }
    }
}

/// What a read session hands on to its caller.
#[derive(Debug, Clone, PartialEq, Eq)]
pub enum ReadEvent {
    Batch(ReadBatch),
    FirstSeqNum(u64),
    NextSeqNum(u64),
}

/// Mathematical model of a [`ReadEvent`].
pub enum ReadEventView {
    Batch(ReadBatchView),
    FirstSeqNum(u64),
    NextSeqNum(u64),
}

impl View for ReadEvent {
    type V = ReadEventView;

    open spec fn view(&self) -> ReadEventView {
        match self {
            ReadEvent::Batch(b) => ReadEventView::Batch(b@),
            ReadEvent::FirstSeqNum(n) => ReadEventView::FirstSeqNum(*n),
            ReadEvent::NextSeqNum(n) => ReadEventView::NextSeqNum(*n),
        }
    }
}

/// What the caller of a read session is to do next.
#[derive(Debug, Clone, PartialEq, Eq)]
pub enum ReadAction {
    /// Nothing; go on with the next event.
    Continue,
    /// Hand the event on.
    Emit(ReadEvent),
    /// Nothing more will be handed on: write out what has been, and say so.
    Flush,
    /// The session ended cleanly.
    Finish,
    /// The session ended with this error.
    Fail(S2CliError),
    /// The session was cancelled: release the exchange.
    Abort,
}

/// Mathematical model of a [`ReadAction`].
pub enum ReadActionView {
    Continue,
    Emit(ReadEventView),
    Flush,
    Finish,
    Fail(S2CliErrorView),
    Abort,
}

impl View for ReadAction {
    type V = ReadActionView;

    open spec fn view(&self) -> ReadActionView {
        match self {
            ReadAction::Continue => ReadActionView::Continue,
            ReadAction::Emit(e) => ReadActionView::Emit(e@),
            ReadAction::Flush => ReadActionView::Flush,
            ReadAction::Finish => ReadActionView::Finish,
            ReadAction::Fail(e) => ReadActionView::Fail(e@),
            ReadAction::Abort => ReadActionView::Abort,
        }
    }
}

/// The status that reports records which are none, out of order, or before
/// the point from which the session reads.
pub open spec fn out_of_order() -> RequestStatusView {
    RequestStatusView {
        message: "the records do not continue the sequence of the session"@,
        status: "OutOfOrder"@,
    }
}

/// The error that ends a read session after the service answered with
/// `status`.
pub open spec fn read_failure(status: RequestStatusView) -> S2CliErrorView {
    S2CliErrorView::ServiceError(
        ServiceErrorView::of_session(ServiceErrorContext::ReadSession, status),
    )
}

/// Mathematical model of a [`ReadSession`].
pub struct ReadSessionView {
    pub phase: SessionPhase,
    /// The sequence number from which the session reads.
    pub start_seq_num: u64,
    /// Most records to hand on.
    pub limit_count: Option<u64>,
    /// Most metered bytes to hand on.
    pub limit_bytes: Option<u64>,
    /// The sequence number of the last record handed on.
    pub last_seq_num: Option<u64>,
    /// Whether the lowest sequence number of the stream has been handed on.
    pub first_reported: bool,
    /// Number of records handed on.
    pub delivered_records: u64,
    /// Metered bytes handed on, and the instant of the first event.
    pub metrics: SessionMetrics,
    /// The error that ended the session.
    pub failure: Option<S2CliErrorView>,
}

impl ReadSessionView {
    /// What holds of every session, whatever has happened to it.
    pub open spec fn wf(self) -> bool {
        &&& self.phase == SessionPhase::Failed <==> self.failure is Some
        &&& self.last_seq_num matches Some(last) ==> last >= self.start_seq_num
        &&& self.phase == SessionPhase::Idle ==> self.last_seq_num is None && !self.first_reported
    }

    /// A session that has not been connected yet.
    pub open spec fn idle(
        start_seq_num: u64,
        limit_count: Option<u64>,
        limit_bytes: Option<u64>,
    ) -> ReadSessionView {
        ReadSessionView {
            phase: SessionPhase::Idle,
            start_seq_num,
            limit_count,
            limit_bytes,
            last_seq_num: None,
            first_reported: false,
            delivered_records: 0,
            metrics: SessionMetrics::fresh(),
            failure: None,
        }
    }

    /// Whether the session reads up to a limit, rather than tailing the stream
    /// until it is cancelled.
    pub open spec fn is_bounded(self) -> bool {
        self.limit_count is Some || self.limit_bytes is Some
    }

    /// Whether the lowest sequence number of the stream may still be handed
    /// on: it is handed on once, and before any record.
    pub open spec fn awaits_first(self) -> bool {
        !self.first_reported && self.last_seq_num is None
    }

    /// Whether a limit has been reached.
    pub open spec fn limit_reached(self) -> bool {
        ||| self.limit_count matches Some(count) && self.delivered_records >= count
        ||| self.limit_bytes matches Some(bytes) && self.metrics.total_metered_bytes >= bytes
    }

    /// Whether a record with this sequence number may be handed on next: it is
    /// not before the start of the session, and it is after every record that
    /// was handed on.
    pub open spec fn may_follow(self, seq_num: u64) -> bool {
        match self.last_seq_num {
            Some(last) => seq_num > last,
            None => seq_num >= self.start_seq_num,
        }
    }

    /// Whether the session hands `records` on: there is at least one, the
    /// first may follow what was handed on before, and each has a higher
    /// sequence number than the one before it.
    pub open spec fn admits(self, records: Seq<SequencedRecordView>) -> bool {
        &&& records.len() > 0
        &&& self.may_follow(records[0].seq_num)
        &&& ascending(records)
    }

    /// The session after an event from the service at `now`.
    pub open spec fn touched(self, now: u64) -> ReadSessionView {
        ReadSessionView { metrics: self.metrics.observed(now, 0), ..self }
    }

    /// The session after it handed `records` on at `now`. Once a limit is
    /// reached the session drains.
    pub open spec fn delivered(
        self,
        records: Seq<SequencedRecordView>,
        now: u64,
    ) -> ReadSessionView {
        let counted = ReadSessionView {
            last_seq_num: Some(records.last().seq_num),
            delivered_records: saturating_sum(self.delivered_records, capped(records.len())),
            metrics: self.metrics.observed(now, batch_bytes(records)),
            ..self
        };
        ReadSessionView {
            phase: if counted.limit_reached() {
                SessionPhase::Draining
            } else {
                self.phase
            },
            ..counted
        }
    }

    /// The session after `error` ended it.
    pub open spec fn failed(self, error: S2CliErrorView) -> ReadSessionView {
        ReadSessionView { phase: SessionPhase::Failed, failure: Some(error), ..self }
    }

    /// What something sent by the service does to an open session.
    pub open spec fn on_output(self, output: ReadOutputView, now: u64) -> (
        ReadSessionView,
        ReadActionView,
    ) {
        match output {
            ReadOutputView::Batch(records) => if self.admits(records) {
                (
                    self.delivered(records, now),
                    ReadActionView::Emit(ReadEventView::Batch(ReadBatchView::of(records))),
                )
            } else {
                let error = read_failure(out_of_order());
                (self.touched(now).failed(error), ReadActionView::Fail(error))
            },
            ReadOutputView::FirstSeqNum(n) => if self.awaits_first() {
                (
                    ReadSessionView { first_reported: true, ..self.touched(now) },
                    ReadActionView::Emit(ReadEventView::FirstSeqNum(n)),
                )
            } else {
                (self.touched(now), ReadActionView::Continue)
            },
            ReadOutputView::NextSeqNum(n) => if self.is_bounded() {
                (
                    ReadSessionView { phase: SessionPhase::Draining, ..self.touched(now) },
                    ReadActionView::Flush,
                )
            } else {
                (self.touched(now), ReadActionView::Emit(ReadEventView::NextSeqNum(n)))
            },
        }
    }

    /// The state after `input` at the instant `now`, and what the caller is to
    /// do.
    pub open spec fn step(self, input: ReadInputView, now: u64) -> (
        ReadSessionView,
        ReadActionView,
    ) {
        match self.phase {
            SessionPhase::Idle => match input {
                ReadInputView::Opened => (
                    ReadSessionView { phase: SessionPhase::Open, ..self },
                    ReadActionView::Continue,
                ),
                _ => (self, ReadActionView::Continue),
            },
            SessionPhase::Open => match input {
                ReadInputView::Output(output) => self.on_output(output, now),
                ReadInputView::Rejected(status) => (
                    self.failed(read_failure(status)),
                    ReadActionView::Fail(read_failure(status)),
                ),
                ReadInputView::SinkFailed(error) => (
                    self.failed(error),
                    ReadActionView::Fail(error),
                ),
                ReadInputView::Cancelled => (
                    ReadSessionView { phase: SessionPhase::Aborted, ..self },
                    ReadActionView::Abort,
                ),
                ReadInputView::RemoteClosed => (
                    ReadSessionView { phase: SessionPhase::Draining, ..self },
                    ReadActionView::Flush,
                ),
                _ => (self, ReadActionView::Continue),
            },
            SessionPhase::Draining => match input {
                ReadInputView::Flushed => (
                    ReadSessionView { phase: SessionPhase::Closed, ..self },
                    ReadActionView::Finish,
                ),
                ReadInputView::Rejected(status) => (
                    self.failed(read_failure(status)),
                    ReadActionView::Fail(read_failure(status)),
                ),
                ReadInputView::SinkFailed(error) => (
                    self.failed(error),
                    ReadActionView::Fail(error),
                ),
                ReadInputView::Cancelled => (
                    ReadSessionView { phase: SessionPhase::Aborted, ..self },
                    ReadActionView::Abort,
                ),
                _ => (self, ReadActionView::Continue),
            },
            _ => (self, ReadActionView::Continue),
        }
    }
}

/// A read session.
#[derive(Debug, Clone, PartialEq, Eq)]
pub struct ReadSession {
    phase: SessionPhase,
    start_seq_num: u64,
    limit_count: Option<u64>,
    limit_bytes: Option<u64>,
    last_seq_num: Option<u64>,
    first_reported: bool,
    delivered_records: u64,
    metrics: SessionMetrics,
    failure: Option<S2CliError>,
}

impl View for ReadSession {
    type V = ReadSessionView;

    closed spec fn view(&self) -> ReadSessionView {
        ReadSessionView {
            phase: self.phase,
            start_seq_num: self.start_seq_num,
            limit_count: self.limit_count,
            limit_bytes: self.limit_bytes,
            last_seq_num: self.last_seq_num,
            first_reported: self.first_reported,
            delivered_records: self.delivered_records,
            metrics: self.metrics,
            failure: error_view(self.failure),
        }
    }
}

/// The metered size of all of `records`, held at the largest count there is.
pub fn metered_bytes_of(records: &Vec<SequencedRecord>) -> (bytes: u64)
    ensures
        bytes == batch_bytes(sequenced_views(records@)),
{
    let ghost sizes = bare(sequenced_views(records@));
    let mut bytes: u64 = 0;
    let mut i: usize = 0;
    while i < records.len()
        invariant
            i <= records.len(),
            sizes == bare(sequenced_views(records@)),
            bytes == capped(total_size(sizes.take(i as int))),
        decreases records.len() - i,
    {
        let size = records[i].metered_bytes();
        proof {
            assert(sizes[i as int] == records@[i as int]@.record);
            assert(sizes.take(i as int + 1) =~= sizes.take(i as int).push(sizes[i as int]));
            crate::batcher::lemma_total_size_push(sizes.take(i as int), sizes[i as int]);
        }
        bytes = if size > u64::MAX - bytes {
            u64::MAX
        } else {
            bytes + size
        };
        i += 1;
    }
    proof {
        assert(sizes.take(i as int) =~= sizes);
    }
    bytes
}

/// Tells each record apart as data or command, keeping the order.
pub fn route(records: Vec<SequencedRecord>) -> (items: Vec<ReadItem>)
    ensures
        item_views(items@) == routed(sequenced_views(records@)),
{
    let ghost views = sequenced_views(records@);
    let mut items: Vec<ReadItem> = Vec::new();
    proof {
        assert(item_views(items@) =~= routed(views).take(0));
    }
    for record in it: records
        invariant
            it.seq() == records@,
            views == sequenced_views(records@),
            item_views(items@) == routed(views).take(it.index() as int),
    {
        let ghost i = it.index() as int;
        let ghost before = item_views(items@);
        proof {
            assert(record@ == views[i]);
            assert(routed(views).take(i + 1) =~= routed(views).take(i).push(routed(views)[i]));
        }
        let item = match record.as_command_record() {
            Some(command) => ReadItem::Command { seq_num: record.seq_num, command },
            None => ReadItem::Data(record),
        };
        proof {
            assert(item@ == ReadItemView::of(views[i]));
            assert(item_views(items@.push(item)) =~= before.push(item@));
        }
        items.push(item);
    }
    proof {
        assert(routed(views).take(views.len() as int) =~= routed(views));
    }
    items
}

impl ReadBatchView {
    /// The sequence numbers of the first and the last record, where there is a
    /// record.
    pub open spec fn seq_range(self) -> Option<(u64, u64)> {
        if self.items.len() == 0 {
            None
        } else {
            Some((self.items.first().seq_num(), self.items.last().seq_num()))
        }
    }
}

impl ReadBatch {
    /// The sequence numbers of the first and the last record, where there is a
    /// record.
    pub fn seq_range(&self) -> (range: Option<(u64, u64)>)
        ensures
            range == self@.seq_range(),
    {
        let n = self.items.len();
        if n == 0 {
            None
        } else {
            Some((self.items[0].seq_num(), self.items[n - 1].seq_num()))
        }
    }

    /// The bytes to write out for the batch: for each data record, in order,
    /// its body and a line break; nothing for a command record.
    pub fn to_lines(&self) -> (out: Vec<u8>)
        ensures
            out@ == lines_of(self@.items),
    {
        let ghost views = item_views(self.items@);
        let mut out: Vec<u8> = Vec::new();
        let mut i: usize = 0;
        proof {
            assert(views.take(0) =~= Seq::<ReadItemView>::empty());
        }
        while i < self.items.len()
            invariant
                i <= self.items.len(),
                views == item_views(self.items@),
                out@ == lines_of(views.take(i as int)),
            decreases self.items.len() - i,
        {
            proof {
                assert(views.take(i as int + 1).drop_last() =~= views.take(i as int));
                assert(views.take(i as int + 1).last() == self.items@[i as int]@);
            }
            match &self.items[i] {
                ReadItem::Data(record) => {
                    let ghost before = out@;
                    let mut body = record.record.body.clone();
                    out.append(&mut body);
                    out.push(10u8);
                    assert(out@ =~= before + record@.record.body.push(10u8));
                },
                ReadItem::Command { seq_num, command } => {
                    assert(out@ =~= out@ + Seq::<u8>::empty());
                },
            }
            i += 1;
        }
        proof {
            assert(views.take(i as int) =~= views);
        }
        out
    }
}

impl ReadItem {
    /// The sequence number of the record behind the item.
    pub fn seq_num(&self) -> (n: u64)
        ensures
            n == self@.seq_num(),
    {
        match self {
            ReadItem::Data(record) => record.seq_num,
            ReadItem::Command { seq_num, command } => *seq_num,
        }
    }
}

impl ReadSession {
    /// What holds of every session, whatever has happened to it.
    pub open spec fn wf(&self) -> bool {
        self@.wf()
    }

    /// A session that is not connected yet. It will read from `start_seq_num`
    /// on; with a limit it ends when the limit is reached or the stream has no
    /// more records, without one it follows the stream until it is cancelled.
    pub fn new(start_seq_num: u64, limit_count: Option<u64>, limit_bytes: Option<u64>) -> (session:
        ReadSession)
        ensures
            session.wf(),
            session@ == ReadSessionView::idle(start_seq_num, limit_count, limit_bytes),
    {
        ReadSession {
            phase: SessionPhase::Idle,
            start_seq_num,
            limit_count,
            limit_bytes,
            last_seq_num: None,
            first_reported: false,
            delivered_records: 0,
            metrics: SessionMetrics::new(),
            failure: None,
        }
    }

    /// Where the session stands.
    pub fn phase(&self) -> (phase: SessionPhase)
        ensures
            phase == self@.phase,
    {
        self.phase
    }

    /// The sequence number from which the session reads.
    pub fn start_seq_num(&self) -> (n: u64)
        ensures
            n == self@.start_seq_num,
    {
        self.start_seq_num
    }

    /// Most records to hand on, where there is such a limit.
    pub fn limit_count(&self) -> (limit: Option<u64>)
        ensures
            limit == self@.limit_count,
    {
        self.limit_count
    }

    /// Most metered bytes to hand on, where there is such a limit.
    pub fn limit_bytes(&self) -> (limit: Option<u64>)
        ensures
            limit == self@.limit_bytes,
    {
        self.limit_bytes
    }

    /// Metered bytes handed on, and the instant of the first event.
    pub fn metrics(&self) -> (metrics: SessionMetrics)
        ensures
            metrics == self@.metrics,
    {
        self.metrics
    }

    /// Number of records handed on.
    pub fn delivered_records(&self) -> (n: u64)
        ensures
            n == self@.delivered_records,
    {
        self.delivered_records
    }

    /// The sequence number of the last record handed on.
    pub fn last_seq_num(&self) -> (n: Option<u64>)
        ensures
            n == self@.last_seq_num,
    {
        self.last_seq_num
    }

    /// The error that ended the session, if one did.
    pub fn failure(&self) -> (failure: Option<S2CliError>)
        ensures
            error_view(failure) == self@.failure,
    {
        match &self.failure {
            Some(e) => Some(e.duplicate()),
            None => None,
        }
    }

    /// How the session ended, once it has: cleanly, by cancellation, or with
    /// the error that it carries.
    pub fn end(&self) -> (end: Option<SessionEnd>)
        requires
            self.wf(),
        ensures
            end_view(end) == end_of(self@.phase, self@.failure),
            end.is_some() <==> self@.phase.is_terminal(),
    {
        match self.phase {
            SessionPhase::Closed => Some(SessionEnd::Completed),
            SessionPhase::Aborted => Some(SessionEnd::Aborted),
            SessionPhase::Failed => match &self.failure {
                Some(error) => Some(SessionEnd::Failed(error.duplicate())),
                None => None,
            },
            _ => None,
        }
    }

    fn is_bounded(&self) -> (yes: bool)
        ensures
            yes == self@.is_bounded(),
    {
        self.limit_count.is_some() || self.limit_bytes.is_some()
    }

    fn limit_reached(&self) -> (yes: bool)
        ensures
            yes == self@.limit_reached(),
    {
        let by_count = match self.limit_count {
            Some(count) => self.delivered_records >= count,
            None => false,
        };
        let by_bytes = match self.limit_bytes {
            Some(bytes) => self.metrics.total_metered_bytes >= bytes,
            None => false,
        };
        by_count || by_bytes
    }

    fn admits(&self, records: &Vec<SequencedRecord>) -> (yes: bool)
        ensures
            yes == self@.admits(sequenced_views(records@)),
    {
        let ghost views = sequenced_views(records@);
        if records.len() == 0 {
            return false;
        }
        let first = records[0].seq_num;
        assert(views[0].seq_num == first);
        let follows = match self.last_seq_num {
            Some(last) => first > last,
            None => first >= self.start_seq_num,
        };
        if !follows {
            return false;
        }
        let mut i: usize = 1;
        while i < records.len()
            invariant
                1 <= i <= records.len(),
                views == sequenced_views(records@),
                ascending(views.take(i as int)),
            decreases records.len() - i,
        {
            if records[i - 1].seq_num >= records[i].seq_num {
                proof {
                    assert(views[i as int - 1].seq_num >= views[i as int].seq_num);
                }
                return false;
            }
            proof {
                assert forall|j: int| 0 < j < i + 1 implies views.take(i as int + 1)[j
                    - 1].seq_num < (#[trigger] views.take(i as int + 1)[j]).seq_num by {
                    if j < i {
                        assert(views.take(i as int)[j - 1].seq_num < views.take(i as int)[j].seq_num);
                    } else {
                        assert(views[i as int - 1] == records@[i as int - 1]@);
                        assert(views[i as int] == records@[i as int]@);
                    }
                }
            }
            i += 1;
        }
        proof {
            assert(views.take(i as int) =~= views);
        }
        true
    }

    fn fail(&mut self, error: S2CliError) -> (action: ReadAction)
        requires
            old(self).wf(),
            old(self)@.phase.is_running(),
        ensures
            final(self).wf(),
            final(self)@ == old(self)@.failed(error@),
            action@ == ReadActionView::Fail(error@),
    {
        self.phase = SessionPhase::Failed;
        self.failure = Some(error.duplicate());
        ReadAction::Fail(error)
    }

    fn reject(&mut self, status: RequestStatus) -> (action: ReadAction)
        requires
            old(self).wf(),
            old(self)@.phase.is_running(),
        ensures
            final(self).wf(),
            final(self)@ == old(self)@.failed(read_failure(status@)),
            action@ == ReadActionView::Fail(read_failure(status@)),
    {
        let error = S2CliError::ServiceError(
            ServiceError::in_session(ServiceErrorContext::ReadSession, status),
        );
        self.fail(error)
    }

    fn deliver(&mut self, records: Vec<SequencedRecord>, now: u64) -> (action: ReadAction)
        requires
            old(self).wf(),
            old(self)@.phase == SessionPhase::Open,
        ensures
            final(self).wf(),
            (final(self)@, action@) == old(self)@.on_output(
                ReadOutputView::Batch(sequenced_views(records@)),
                now,
            ),
    {
        let ghost views = sequenced_views(records@);
        if self.admits(&records) {
            let count = records.len();
            let last = records[count - 1].seq_num;
            let first = records[0].seq_num;
            proof {
                assert(views.last().seq_num == last);
                assert(views[0].seq_num == first);
                lemma_ascending_bounds(views, 0, count as int - 1);
            }
            let bytes = metered_bytes_of(&records);
            let items = route(records);
            self.last_seq_num = Some(last);
            self.delivered_records = if (count as u64) > u64::MAX - self.delivered_records {
                u64::MAX
            } else {
                self.delivered_records + count as u64
            };
            self.metrics.observe(now, bytes);
            if self.limit_reached() {
                self.phase = SessionPhase::Draining;
            }
            ReadAction::Emit(ReadEvent::Batch(ReadBatch { items, metered_bytes: bytes }))
        } else {
            self.metrics.observe(now, 0);
            let status = RequestStatus::new(
                String::from_str("OutOfOrder"),
                String::from_str("the records do not continue the sequence of the session"),
            );
            self.reject(status)
        }
    }

    /// Takes one event, which happened at the instant `now`, and says what to
    /// do next. The new state and the action are those of
    /// [`ReadSessionView::step`].
    pub fn step(&mut self, input: ReadInput, now: u64) -> (action: ReadAction)
        requires
            old(self).wf(),
        ensures
            final(self).wf(),
            (final(self)@, action@) == old(self)@.step(input@, now),
    {
        match self.phase {
            SessionPhase::Idle => match input {
                ReadInput::Opened => {
                    self.phase = SessionPhase::Open;
                    ReadAction::Continue
                },
                _ => ReadAction::Continue,
            },
            SessionPhase::Open => match input {
                ReadInput::Output(ReadOutput::Batch(records)) => self.deliver(records, now),
                ReadInput::Output(ReadOutput::FirstSeqNum(n)) => {
                    self.metrics.observe(now, 0);
                    if !self.first_reported && self.last_seq_num.is_none() {
                        self.first_reported = true;
                        ReadAction::Emit(ReadEvent::FirstSeqNum(n))
                    } else {
                        ReadAction::Continue
                    }
                },
                ReadInput::Output(ReadOutput::NextSeqNum(n)) => {
                    self.metrics.observe(now, 0);
                    if self.is_bounded() {
                        self.phase = SessionPhase::Draining;
                        ReadAction::Flush
                    } else {
                        ReadAction::Emit(ReadEvent::NextSeqNum(n))
                    }
                },
                ReadInput::Rejected(status) => self.reject(status),
                ReadInput::SinkFailed(error) => self.fail(error),
                ReadInput::Cancelled => {
                    self.phase = SessionPhase::Aborted;
                    ReadAction::Abort
                },
                ReadInput::RemoteClosed => {
                    self.phase = SessionPhase::Draining;
                    ReadAction::Flush
                },
                _ => ReadAction::Continue,
            },
            SessionPhase::Draining => match input {
                ReadInput::Flushed => {
                    self.phase = SessionPhase::Closed;
                    ReadAction::Finish
                },
                ReadInput::Rejected(status) => self.reject(status),
                ReadInput::SinkFailed(error) => self.fail(error),
                ReadInput::Cancelled => {
                    self.phase = SessionPhase::Aborted;
                    ReadAction::Abort
                },
                _ => ReadAction::Continue,
            },
            _ => ReadAction::Continue,
        }
    }
}

/// In ascending records, a later record has a higher sequence number than an
/// earlier one.
pub proof fn lemma_ascending_bounds(records: Seq<SequencedRecordView>, i: int, j: int)
    requires
        ascending(records),
        0 <= i <= j < records.len(),
    ensures
        records[i].seq_num <= records[j].seq_num,
        i < j ==> records[i].seq_num < records[j].seq_num,
    decreases j - i,
{
    if i < j {
        lemma_ascending_bounds(records, i, j - 1);
        assert(records[j - 1].seq_num < records[j].seq_num);
    }
}

/// Something that happened to a read session, with the instant at which it
/// happened.
pub struct TimedInput {
    pub input: ReadInputView,
    pub now: u64,
}

/// The sequence numbers of items, in order.
pub open spec fn seq_nums_of(items: Seq<ReadItemView>) -> Seq<u64> {
    items.map_values(|i: ReadItemView| i.seq_num())
}

impl ReadSessionView {
    /// The state after all of `events`, taken in order.
    pub open spec fn after(self, events: Seq<TimedInput>) -> ReadSessionView
        decreases events.len(),
    {
        if events.len() == 0 {
            self
        } else {
            self.step(events[0].input, events[0].now).0.after(events.drop_first())
        }
    }

    /// What the session hands on while `events` are taken, in order.
    pub open spec fn emitted(self, events: Seq<TimedInput>) -> Seq<ReadEventView>
        decreases events.len(),
    {
        if events.len() == 0 {
            Seq::empty()
        } else {
            let (next, action) = self.step(events[0].input, events[0].now);
            match action {
                ReadActionView::Emit(event) => seq![event] + next.emitted(events.drop_first()),
                _ => next.emitted(events.drop_first()),
            }
        }
    }

    /// The sequence numbers of the records that the session hands on while
    /// `events` are taken, batch after batch.
    pub open spec fn seq_nums(self, events: Seq<TimedInput>) -> Seq<u64>
        decreases events.len(),
    {
        if events.len() == 0 {
            Seq::empty()
        } else {
            let (next, action) = self.step(events[0].input, events[0].now);
            match action {
                ReadActionView::Emit(ReadEventView::Batch(batch)) => seq_nums_of(batch.items)
                    + next.seq_nums(events.drop_first()),
                _ => next.seq_nums(events.drop_first()),
            }
        }
    }
}

/// An item has the sequence number of the record it was made from.
pub proof fn lemma_routed_seq_nums(records: Seq<SequencedRecordView>)
    ensures
        seq_nums_of(routed(records)).len() == records.len(),
        forall|i: int|
            0 <= i < records.len() ==> (#[trigger] seq_nums_of(routed(records))[i])
                == records[i].seq_num,
{
}

/// Every event leaves a session well formed, and moves it only along the life
/// cycle: `Idle → Open → Draining → Closed`, or from a running session to
/// `Aborted` or `Failed`.
pub proof fn lemma_read_step_follows_life_cycle(s: ReadSessionView, input: ReadInputView, now: u64)
    requires
        s.wf(),
    ensures
        s.step(input, now).0.wf(),
        s.phase.may_become(s.step(input, now).0.phase),
{
    match input {
        ReadInputView::Output(ReadOutputView::Batch(records)) => {
            if s.phase == SessionPhase::Open && s.admits(records) {
                lemma_ascending_bounds(records, 0, records.len() - 1);
            }
        },
        _ => {},
    }
}

/// A session fails exactly when it tells its caller so, and a failed session
/// carries the error that it told.
pub proof fn lemma_read_failure_is_carried(s: ReadSessionView, input: ReadInputView, now: u64)
    requires
        s.wf(),
    ensures
        s.step(input, now).1 matches ReadActionView::Fail(error) ==> s.step(input, now).0.phase
            == SessionPhase::Failed && s.step(input, now).0.failure == Some(error),
        s.phase != SessionPhase::Failed && s.step(input, now).0.phase == SessionPhase::Failed
            ==> s.step(input, now).1 is Fail,
{
}

/// A session that has ended stays as it is, whatever happens: no event
/// changes its state, and nothing is handed on or reported any more.
pub proof fn lemma_read_end_is_final(s: ReadSessionView, input: ReadInputView, now: u64)
    requires
        s.phase.is_terminal(),
    ensures
        s.step(input, now) == (s, ReadActionView::Continue),
{
}

/// A session that has ended is the same after any further events, and hands
/// nothing on.
pub proof fn lemma_read_ended_stays(s: ReadSessionView, later: Seq<TimedInput>)
    requires
        s.phase.is_terminal(),
    ensures
        s.after(later) == s,
        s.emitted(later).len() == 0,
        s.seq_nums(later).len() == 0,
    decreases later.len(),
{
    if later.len() > 0 {
        lemma_read_end_is_final(s, later[0].input, later[0].now);
        lemma_read_ended_stays(s, later.drop_first());
    }
}

/// Cancelling a session that is under way ends it as `Aborted`; what was
/// handed on before stays handed on, and whatever happens afterwards, the
/// session stays `Aborted`: it is never `Closed`, and it hands nothing on.
pub proof fn lemma_read_cancel_aborts(s: ReadSessionView, now: u64, later: Seq<TimedInput>)
    requires
        s.phase.is_running(),
    ensures
        s.step(ReadInputView::Cancelled, now).0.phase == SessionPhase::Aborted,
        s.step(ReadInputView::Cancelled, now).1 == ReadActionView::Abort,
        s.step(ReadInputView::Cancelled, now).0.last_seq_num == s.last_seq_num,
        s.step(ReadInputView::Cancelled, now).0.delivered_records == s.delivered_records,
        s.step(ReadInputView::Cancelled, now).0.metrics == s.metrics,
        s.step(ReadInputView::Cancelled, now).0.after(later) == s.step(
            ReadInputView::Cancelled,
            now,
        ).0,
        s.step(ReadInputView::Cancelled, now).0.emitted(later).len() == 0,
{
    lemma_read_ended_stays(s.step(ReadInputView::Cancelled, now).0, later);
}

/// The sequence numbers that a session hands on rise from record to record,
/// within a batch and from one batch to the next; none is before the start of
/// the session, and all come after what the session handed on before.
pub proof fn lemma_read_seq_nums_rise(s: ReadSessionView, events: Seq<TimedInput>)
    requires
        s.wf(),
    ensures
        forall|i: int|
            0 <= i < s.seq_nums(events).len() ==> s.may_follow(#[trigger] s.seq_nums(events)[i]),
        forall|i: int|
            0 <= i < s.seq_nums(events).len() ==> (#[trigger] s.seq_nums(events)[i])
                >= s.start_seq_num,
        forall|i: int, j: int|
            0 <= i < j < s.seq_nums(events).len() ==> (#[trigger] s.seq_nums(events)[i]) < (
            #[trigger] s.seq_nums(events)[j]),
    decreases events.len(),
{
    if events.len() > 0 {
        let (next, action) = s.step(events[0].input, events[0].now);
        let rest = events.drop_first();
        lemma_read_step_follows_life_cycle(s, events[0].input, events[0].now);
        lemma_read_seq_nums_rise(next, rest);
        let all = s.seq_nums(events);
        let tail = next.seq_nums(rest);
        match action {
            ReadActionView::Emit(ReadEventView::Batch(batch)) => {
                let records = events[0].input->Output_0->Batch_0;
                assert(batch == ReadBatchView::of(records));
                lemma_routed_seq_nums(records);
                let head = seq_nums_of(batch.items);
                assert(all == head + tail);
                assert(next.last_seq_num == Some(records.last().seq_num));
                assert forall|i: int| 0 <= i < head.len() implies s.may_follow(
                    #[trigger] head[i],
                ) && head[i] <= records.last().seq_num by {
                    lemma_ascending_bounds(records, 0, i);
                    lemma_ascending_bounds(records, i, records.len() - 1);
                }
                assert forall|i: int| 0 <= i < all.len() implies s.may_follow(
                    #[trigger] all[i],
                ) by {
                    if i >= head.len() {
                        assert(all[i] == tail[i - head.len()]);
                        assert(next.may_follow(tail[i - head.len()]));
                        lemma_ascending_bounds(records, 0, records.len() - 1);
                    }
                }
                assert forall|i: int, j: int| 0 <= i < j < all.len() implies (#[trigger] all[i])
                    < (#[trigger] all[j]) by {
                    if j < head.len() {
                        lemma_ascending_bounds(records, i, j);
                    } else if i < head.len() {
                        assert(all[j] == tail[j - head.len()]);
                        assert(next.may_follow(tail[j - head.len()]));
                    } else {
                        assert(all[i] == tail[i - head.len()]);
                        assert(all[j] == tail[j - head.len()]);
                    }
                }
            },
            _ => {
                assert(all == tail);
                assert(next.last_seq_num == s.last_seq_num);
                assert(next.start_seq_num == s.start_seq_num);
            },
        }
    }
}

/// No batch that a session hands on begins before the sequence number from
/// which the session reads, and sequence numbers never fall, neither within a
/// batch nor from one batch to the next.
pub proof fn lemma_read_never_goes_back(
    start_seq_num: u64,
    limit_count: Option<u64>,
    limit_bytes: Option<u64>,
    events: Seq<TimedInput>,
    i: int,
    j: int,
)
    requires
        0 <= i <= j < ReadSessionView::idle(start_seq_num, limit_count, limit_bytes).seq_nums(
            events,
        ).len(),
    ensures
        ({
            let seq_nums = ReadSessionView::idle(start_seq_num, limit_count, limit_bytes).seq_nums(
                events,
            );
            start_seq_num <= seq_nums[i] <= seq_nums[j]
        }),
{
    lemma_read_seq_nums_rise(
        ReadSessionView::idle(start_seq_num, limit_count, limit_bytes),
        events,
    );
}

/// The lowest sequence number of the stream is handed on at most once, and
/// only before any records: nothing that a session hands on before it is a
/// batch or another such number.
pub proof fn lemma_read_first_seq_num_once(s: ReadSessionView, events: Seq<TimedInput>)
    requires
        s.wf(),
    ensures
        ({
            let emitted = s.emitted(events);
            &&& forall|i: int, j: int|
                #![trigger emitted[i], emitted[j]]
                0 <= i < j < emitted.len() && emitted[j] is FirstSeqNum ==> {
                    &&& !(emitted[i] is FirstSeqNum)
                    &&& !(emitted[i] is Batch)
                }
            &&& forall|j: int|
                0 <= j < emitted.len() && !s.awaits_first() ==> !(#[trigger] emitted[j]
                    is FirstSeqNum)
        }),
    decreases events.len(),
{
    if events.len() > 0 {
        let (next, action) = s.step(events[0].input, events[0].now);
        let rest = events.drop_first();
        lemma_read_step_follows_life_cycle(s, events[0].input, events[0].now);
        lemma_read_first_seq_num_once(next, rest);
        let all = s.emitted(events);
        let tail = next.emitted(rest);
        assert(!s.awaits_first() ==> !next.awaits_first());
        match action {
            ReadActionView::Emit(event) => {
                assert(all == seq![event] + tail);
                assert(event is FirstSeqNum ==> s.awaits_first());
                assert(event is FirstSeqNum || event is Batch ==> !next.awaits_first());
                assert forall|i: int, j: int|
                    #![trigger all[i], all[j]]
                    0 <= i < j < all.len() && all[j] is FirstSeqNum implies {
                    &&& !(all[i] is FirstSeqNum)
                    &&& !(all[i] is Batch)
                } by {
                    assert(all[j] == tail[j - 1]);
                    if i > 0 {
                        assert(all[i] == tail[i - 1]);
                    }
                }
                assert forall|j: int| 0 <= j < all.len() && !s.awaits_first() implies !(
                #[trigger] all[j] is FirstSeqNum) by {
                    if j > 0 {
                        assert(all[j] == tail[j - 1]);
                    }
                }
            },
            _ => {
                assert(all == tail);
            },
        }
    }
}

/// While a session runs, the account of what it has handed on never goes
/// down, and its clock, once started, is never reset.
pub proof fn lemma_read_metrics_monotone(s: ReadSessionView, input: ReadInputView, now: u64)
    ensures
        s.step(input, now).0.metrics.total_metered_bytes >= s.metrics.total_metered_bytes,
        s.metrics.started_at is Some ==> s.step(input, now).0.metrics.started_at
            == s.metrics.started_at,
        s.step(input, now).0.delivered_records >= s.delivered_records,
{
}

/// A session that reads up to a limit does not wait when the stream has no
/// more records: it drains, and is closed once its output is written out.
pub proof fn lemma_read_bounded_completes(s: ReadSessionView, n: u64, now: u64, then: u64)
    requires
        s.phase == SessionPhase::Open,
        s.is_bounded(),
    ensures
        s.step(ReadInputView::Output(ReadOutputView::NextSeqNum(n)), now).1
            == ReadActionView::Flush,
        s.step(ReadInputView::Output(ReadOutputView::NextSeqNum(n)), now).0.step(
            ReadInputView::Flushed,
            then,
        ).0.phase == SessionPhase::Closed,
{
}

} // verus!
