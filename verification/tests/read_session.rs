use s2_cli::command::{CommandRecord, FencingToken};
use s2_cli::error::{RequestStatus, S2CliError, ServiceError, ServiceErrorContext};
use s2_cli::metrics::SessionMetrics;
use s2_cli::read::{
    metered_bytes_of, route, ReadAction, ReadBatch, ReadEvent, ReadInput, ReadItem, ReadOutput,
    ReadSession,
};
use s2_cli::record::{Header, Record, SequencedRecord};
use s2_cli::session::{SessionEnd, SessionPhase};

fn data(seq_num: u64, body: &[u8]) -> SequencedRecord {
    SequencedRecord { seq_num, record: Record::plain(body.to_vec()) }
}

fn command(seq_num: u64, command: &CommandRecord) -> SequencedRecord {
    SequencedRecord { seq_num, record: command.to_record() }
}

fn open(start: u64, count: Option<u64>, bytes: Option<u64>) -> ReadSession {
    let mut session = ReadSession::new(start, count, bytes);
    assert_eq!(session.phase(), SessionPhase::Idle);
    assert_eq!(session.step(ReadInput::Opened, 0), ReadAction::Continue);
    assert_eq!(session.phase(), SessionPhase::Open);
    session
}

fn batch_of(records: Vec<SequencedRecord>) -> ReadInput {
    ReadInput::Output(ReadOutput::Batch(records))
}

fn out_of_order() -> S2CliError {
    S2CliError::ServiceError(ServiceError::in_session(
        ServiceErrorContext::ReadSession,
        RequestStatus::new(
            "OutOfOrder".to_string(),
            "the records do not continue the sequence of the session".to_string(),
        ),
    ))
}

#[test]
fn three_records_under_a_limit_of_ten_then_completion() {
    let mut session = open(0, Some(10), None);
    let records = vec![data(0, b"a"), data(1, b"b"), data(2, b"c")];
    let mut batches = 0;
    match session.step(batch_of(records.clone()), 5) {
        ReadAction::Emit(ReadEvent::Batch(batch)) => {
            batches += 1;
            assert_eq!(batch.items.len(), 3);
            assert_eq!(
                batch.items,
                vec![
                    ReadItem::Data(data(0, b"a")),
                    ReadItem::Data(data(1, b"b")),
                    ReadItem::Data(data(2, b"c")),
                ]
            );
            assert_eq!(batch.metered_bytes, 27);
            assert_eq!(batch.to_lines(), b"a\nb\nc\n".to_vec());
        }
        other => panic!("expected a batch, got {:?}", other),
    }
    assert_eq!(session.phase(), SessionPhase::Open);
    // the stream has no more records: a session with a limit does not wait
    assert_eq!(
        session.step(ReadInput::Output(ReadOutput::NextSeqNum(3)), 6),
        ReadAction::Flush
    );
    assert_eq!(session.phase(), SessionPhase::Draining);
    assert_eq!(session.step(ReadInput::Flushed, 7), ReadAction::Finish);
    assert_eq!(session.phase(), SessionPhase::Closed);
    assert_eq!(batches, 1);
    assert_eq!(session.delivered_records(), 3);
    assert_eq!(session.last_seq_num(), Some(2));
}

#[test]
fn service_closing_completes_the_session() {
    let mut session = open(0, Some(10), None);
    assert!(matches!(
        session.step(batch_of(vec![data(0, b"a")]), 1),
        ReadAction::Emit(ReadEvent::Batch(_))
    ));
    assert_eq!(session.step(ReadInput::RemoteClosed, 2), ReadAction::Flush);
    assert_eq!(session.phase(), SessionPhase::Draining);
    assert_eq!(session.step(ReadInput::RemoteClosed, 3), ReadAction::Continue);
    assert_eq!(session.step(ReadInput::Flushed, 4), ReadAction::Finish);
    assert_eq!(session.phase(), SessionPhase::Closed);
}

#[test]
fn a_session_without_limits_tails_the_stream() {
    let mut session = open(5, None, None);
    assert_eq!(
        session.step(ReadInput::Output(ReadOutput::NextSeqNum(5)), 1),
        ReadAction::Emit(ReadEvent::NextSeqNum(5))
    );
    assert_eq!(session.phase(), SessionPhase::Open);
    assert!(matches!(
        session.step(batch_of(vec![data(5, b"late")]), 2),
        ReadAction::Emit(ReadEvent::Batch(_))
    ));
    assert_eq!(
        session.step(ReadInput::Output(ReadOutput::NextSeqNum(6)), 3),
        ReadAction::Emit(ReadEvent::NextSeqNum(6))
    );
    assert_eq!(session.phase(), SessionPhase::Open);
    assert_eq!(session.step(ReadInput::Flushed, 4), ReadAction::Continue);
}

#[test]
fn first_seq_num_is_handed_on() {
    let mut session = open(0, None, None);
    assert_eq!(
        session.step(ReadInput::Output(ReadOutput::FirstSeqNum(17)), 9),
        ReadAction::Emit(ReadEvent::FirstSeqNum(17))
    );
    assert_eq!(session.metrics(), SessionMetrics { total_metered_bytes: 0, started_at: Some(9) });
    assert!(matches!(
        session.step(batch_of(vec![data(17, b"x")]), 10),
        ReadAction::Emit(ReadEvent::Batch(_))
    ));
}

#[test]
fn count_limit_drains_the_session() {
    let mut session = open(0, Some(2), None);
    assert!(matches!(
        session.step(batch_of(vec![data(0, b"a"), data(1, b"b")]), 1),
        ReadAction::Emit(ReadEvent::Batch(_))
    ));
    assert_eq!(session.phase(), SessionPhase::Draining);
    // what comes after the limit is not handed on
    assert_eq!(session.step(batch_of(vec![data(2, b"c")]), 2), ReadAction::Continue);
    assert_eq!(session.delivered_records(), 2);
    assert_eq!(session.step(ReadInput::Flushed, 3), ReadAction::Finish);
    assert_eq!(session.phase(), SessionPhase::Closed);
}

#[test]
fn byte_limit_drains_the_session() {
    let mut session = open(0, None, Some(20));
    assert!(matches!(
        session.step(batch_of(vec![data(0, b"ab")]), 1),
        ReadAction::Emit(ReadEvent::Batch(_))
    ));
    assert_eq!(session.phase(), SessionPhase::Open);
    assert!(matches!(
        session.step(batch_of(vec![data(1, b"cd")]), 2),
        ReadAction::Emit(ReadEvent::Batch(_))
    ));
    assert_eq!(session.metrics().total_metered_bytes, 20);
    assert_eq!(session.phase(), SessionPhase::Draining);
}

#[test]
fn commands_are_told_apart_from_data() {
    let fence = CommandRecord::fence(FencingToken::new(vec![1, 2]).unwrap());
    let trim = CommandRecord::trim(3);
    let looks_alike = SequencedRecord {
        seq_num: 12,
        record: Record {
            headers: vec![Header { name: b"x".to_vec(), value: b"fence".to_vec() }],
            body: vec![1, 2],
        },
    };
    let records = vec![
        data(9, b"before"),
        command(10, &fence),
        command(11, &trim),
        looks_alike.clone(),
    ];
    let expected_bytes: u64 = 14 + 17 + 22 + 18;
    assert_eq!(metered_bytes_of(&records), expected_bytes);
    let mut session = open(9, None, None);
    match session.step(batch_of(records), 100) {
        ReadAction::Emit(ReadEvent::Batch(batch)) => {
            assert_eq!(
                batch.items,
                vec![
                    ReadItem::Data(data(9, b"before")),
                    ReadItem::Command { seq_num: 10, command: fence },
                    ReadItem::Command { seq_num: 11, command: trim },
                    ReadItem::Data(looks_alike),
                ]
            );
            assert_eq!(batch.metered_bytes, expected_bytes);
            let seq_nums: Vec<u64> = batch.items.iter().map(|i| i.seq_num()).collect();
            assert_eq!(seq_nums, vec![9, 10, 11, 12]);
            assert_eq!(batch.to_lines(), b"before\n\x01\x02\n".to_vec());
        }
        other => panic!("expected a batch, got {:?}", other),
    }
    // commands are metered like any record
    assert_eq!(
        session.metrics(),
        SessionMetrics { total_metered_bytes: expected_bytes, started_at: Some(100) }
    );
}

#[test]
fn route_keeps_the_order() {
    let trim = CommandRecord::trim(1);
    let items = route(vec![command(4, &trim), data(5, b"x")]);
    assert_eq!(
        items,
        vec![ReadItem::Command { seq_num: 4, command: trim }, ReadItem::Data(data(5, b"x"))]
    );
    assert_eq!(route(Vec::new()), Vec::new());
}

#[test]
fn metrics_add_up_over_batches() {
    let mut session = open(0, None, None);
    session.step(batch_of(vec![data(0, b"1234")]), 1_000);
    session.step(batch_of(vec![data(1, b"12"), data(2, b"")]), 3_000);
    let metrics = session.metrics();
    assert_eq!(metrics.total_metered_bytes, 12 + 10 + 8);
    assert_eq!(metrics.started_at, Some(1_000));
    assert_eq!(metrics.throughput(3_000), Some(15));
}

#[test]
fn batch_before_the_start_fails_the_session() {
    let mut session = open(10, None, None);
    assert_eq!(
        session.step(batch_of(vec![data(9, b"early"), data(10, b"ok")]), 1),
        ReadAction::Fail(out_of_order())
    );
    assert_eq!(session.phase(), SessionPhase::Failed);
    assert_eq!(session.failure(), Some(out_of_order()));
    assert_eq!(session.delivered_records(), 0);
    assert_eq!(session.metrics().total_metered_bytes, 0);
}

#[test]
fn batch_that_goes_back_fails_the_session() {
    let mut session = open(0, None, None);
    assert!(matches!(
        session.step(batch_of(vec![data(0, b"a"), data(1, b"b")]), 1),
        ReadAction::Emit(ReadEvent::Batch(_))
    ));
    assert_eq!(session.step(batch_of(vec![data(1, b"again")]), 2), ReadAction::Fail(out_of_order()));
    assert_eq!(session.phase(), SessionPhase::Failed);
}

#[test]
fn batch_out_of_order_within_fails_the_session() {
    let mut session = open(0, None, None);
    assert_eq!(
        session.step(batch_of(vec![data(0, b"a"), data(2, b"c"), data(1, b"b")]), 1),
        ReadAction::Fail(out_of_order())
    );
    let mut repeated = open(0, None, None);
    assert_eq!(
        repeated.step(batch_of(vec![data(3, b"a"), data(3, b"a")]), 1),
        ReadAction::Fail(out_of_order())
    );
}

#[test]
fn empty_batch_fails_the_session() {
    let mut session = open(0, None, None);
    assert_eq!(session.step(batch_of(Vec::new()), 1), ReadAction::Fail(out_of_order()));
    assert_eq!(session.phase(), SessionPhase::Failed);
}

#[test]
fn gaps_are_allowed() {
    let mut session = open(0, None, None);
    assert!(matches!(
        session.step(batch_of(vec![data(5, b"a"), data(9, b"b")]), 1),
        ReadAction::Emit(ReadEvent::Batch(_))
    ));
    assert!(matches!(
        session.step(batch_of(vec![data(20, b"c")]), 2),
        ReadAction::Emit(ReadEvent::Batch(_))
    ));
    assert_eq!(session.last_seq_num(), Some(20));
}

#[test]
fn cancelling_a_read_aborts_and_keeps_what_was_delivered() {
    let mut session = open(0, None, None);
    assert!(matches!(
        session.step(batch_of(vec![data(0, b"a")]), 1),
        ReadAction::Emit(ReadEvent::Batch(_))
    ));
    assert_eq!(session.step(ReadInput::Cancelled, 2), ReadAction::Abort);
    assert_eq!(session.phase(), SessionPhase::Aborted);
    assert_eq!(session.delivered_records(), 1);
    assert_eq!(session.step(batch_of(vec![data(1, b"b")]), 3), ReadAction::Continue);
    assert_eq!(session.step(ReadInput::Flushed, 4), ReadAction::Continue);
    assert_eq!(session.step(ReadInput::RemoteClosed, 5), ReadAction::Continue);
    assert_eq!(session.phase(), SessionPhase::Aborted);
    assert_eq!(session.delivered_records(), 1);
}

#[test]
fn cancelling_while_draining_a_read_aborts() {
    let mut session = open(0, Some(1), None);
    session.step(batch_of(vec![data(0, b"a")]), 1);
    assert_eq!(session.phase(), SessionPhase::Draining);
    assert_eq!(session.step(ReadInput::Cancelled, 2), ReadAction::Abort);
    assert_eq!(session.phase(), SessionPhase::Aborted);
}

#[test]
fn read_rejection_carries_the_read_context() {
    let mut session = open(0, None, None);
    let status = RequestStatus::new("NotFound".to_string(), "no such stream".to_string());
    match session.step(ReadInput::Rejected(status.clone()), 1) {
        ReadAction::Fail(S2CliError::ServiceError(error)) => {
            assert_eq!(error.context(), Some(ServiceErrorContext::ReadSession));
            assert_eq!(error.status(), &status);
        }
        other => panic!("expected a service error, got {:?}", other),
    }
    assert_eq!(session.phase(), SessionPhase::Failed);
    assert_eq!(session.step(ReadInput::Cancelled, 2), ReadAction::Continue);
    assert_eq!(session.phase(), SessionPhase::Failed);
}

#[test]
fn sink_failure_fails_the_session() {
    let mut session = open(0, Some(1), None);
    session.step(batch_of(vec![data(0, b"a")]), 1);
    let error = S2CliError::RecordWrite("disk full".to_string());
    assert_eq!(
        session.step(ReadInput::SinkFailed(error.clone()), 2),
        ReadAction::Fail(error.clone())
    );
    assert_eq!(session.phase(), SessionPhase::Failed);
    assert_eq!(session.failure(), Some(error));
}

#[test]
fn nothing_is_read_before_the_session_is_open() {
    let mut session = ReadSession::new(0, None, None);
    assert_eq!(session.step(batch_of(vec![data(0, b"a")]), 1), ReadAction::Continue);
    assert_eq!(session.step(ReadInput::Cancelled, 2), ReadAction::Continue);
    assert_eq!(session.phase(), SessionPhase::Idle);
    assert_eq!(session.metrics(), SessionMetrics { total_metered_bytes: 0, started_at: None });
}

#[test]
fn lines_of_an_empty_body() {
    let batch = ReadBatch { items: vec![ReadItem::Data(data(0, b"")), ReadItem::Data(data(1, b"x"))], metered_bytes: 17 };
    assert_eq!(batch.to_lines(), b"\nx\n".to_vec());
}

#[test]
fn the_end_of_a_read_session_is_told_apart() {
    let mut clean = open(0, Some(1), None);
    clean.step(batch_of(vec![data(0, b"a")]), 1);
    assert_eq!(clean.end(), None);
    clean.step(ReadInput::Flushed, 2);
    assert_eq!(clean.end(), Some(SessionEnd::Completed));

    let mut cancelled = open(0, None, None);
    cancelled.step(ReadInput::Cancelled, 1);
    assert_eq!(cancelled.end(), Some(SessionEnd::Aborted));

    let mut failed = open(0, None, None);
    failed.step(batch_of(Vec::new()), 1);
    assert_eq!(failed.end(), Some(SessionEnd::Failed(out_of_order())));
}

#[test]
fn a_batch_knows_its_range() {
    let mut session = open(3, None, None);
    match session.step(batch_of(vec![data(3, b"a"), data(4, b"b"), data(9, b"c")]), 1) {
        ReadAction::Emit(ReadEvent::Batch(batch)) => assert_eq!(batch.seq_range(), Some((3, 9))),
        other => panic!("expected a batch, got {:?}", other),
    }
    let empty = ReadBatch { items: Vec::new(), metered_bytes: 0 };
    assert_eq!(empty.seq_range(), None);
    assert_eq!(empty.to_lines(), Vec::<u8>::new());
}

#[test]
fn a_session_remembers_what_it_was_asked() {
    let session = ReadSession::new(12, Some(5), Some(4096));
    assert_eq!(session.start_seq_num(), 12);
    assert_eq!(session.limit_count(), Some(5));
    assert_eq!(session.limit_bytes(), Some(4096));
}

#[test]
fn first_seq_num_is_handed_on_once_and_only_before_records() {
    let mut session = open(0, None, None);
    assert_eq!(
        session.step(ReadInput::Output(ReadOutput::FirstSeqNum(4)), 1),
        ReadAction::Emit(ReadEvent::FirstSeqNum(4))
    );
    assert_eq!(
        session.step(ReadInput::Output(ReadOutput::FirstSeqNum(4)), 2),
        ReadAction::Continue
    );
    let mut late = open(0, None, None);
    late.step(batch_of(vec![data(0, b"a")]), 1);
    assert_eq!(
        late.step(ReadInput::Output(ReadOutput::FirstSeqNum(0)), 2),
        ReadAction::Continue
    );
    assert_eq!(late.phase(), SessionPhase::Open);
}

#[test]
fn sequence_numbers_never_go_back_across_batches() {
    let mut session = open(7, None, None);
    let batches = vec![
        vec![data(7, b"a"), data(8, b"b")],
        vec![data(9, b"c")],
        vec![data(12, b"d"), data(13, b"e"), data(20, b"f")],
    ];
    let mut seen = Vec::new();
    let mut at = 0;
    for records in batches {
        at += 1;
        match session.step(batch_of(records), at) {
            ReadAction::Emit(ReadEvent::Batch(batch)) => {
                assert!(batch.seq_range().unwrap().0 >= 7);
                seen.extend(batch.items.iter().map(|i| i.seq_num()));
            }
            other => panic!("expected a batch, got {:?}", other),
        }
    }
    assert_eq!(seen, vec![7, 8, 9, 12, 13, 20]);
    for pair in seen.windows(2) {
        assert!(pair[0] <= pair[1]);
    }
}
