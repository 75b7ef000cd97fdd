use s2_cli::command::{CommandRecord, FencingToken};
use s2_cli::record::{Header, Record, SequencedRecord};

fn header(name: &[u8], value: &[u8]) -> Header {
    Header { name: name.to_vec(), value: value.to_vec() }
}

fn sequenced(seq_num: u64, headers: Vec<Header>, body: &[u8]) -> SequencedRecord {
    SequencedRecord { seq_num, record: Record { headers, body: body.to_vec() } }
}

#[test]
fn metered_size_of_a_plain_record() {
    assert_eq!(Record::plain(Vec::new()).metered_bytes(), 8);
    assert_eq!(Record::plain(b"hello".to_vec()).metered_bytes(), 13);
}

#[test]
fn metered_size_counts_headers() {
    let record = Record {
        headers: vec![header(b"a", b"bc"), header(b"", b"xyz"), header(b"name", b"")],
        body: b"0123456789".to_vec(),
    };
    // 8 + 2 * 3 + (1 + 2) + (0 + 3) + (4 + 0) + 10
    assert_eq!(record.metered_bytes(), 34);
}

#[test]
fn metered_size_agrees_with_the_client_library() {
    let record = Record {
        headers: vec![header(b"content-type", b"text/plain")],
        body: b"some body".to_vec(),
    };
    let outside = s2::types::SequencedRecord {
        seq_num: 5,
        headers: vec![s2::types::Header::new(b"content-type".to_vec(), b"text/plain".to_vec())],
        body: b"some body".to_vec().into(),
    };
    assert_eq!(
        record.metered_bytes(),
        s2::types::MeteredBytes::metered_bytes(&outside)
    );
}

#[test]
fn sequence_number_is_not_metered() {
    let low = sequenced(0, vec![header(b"k", b"v")], b"body");
    let high = sequenced(u64::MAX, vec![header(b"k", b"v")], b"body");
    assert_eq!(low.metered_bytes(), 16);
    assert_eq!(high.metered_bytes(), 16);
}

#[test]
fn duplicate_is_equal() {
    let record = Record { headers: vec![header(b"a", b"b"), header(b"c", b"d")], body: b"x".to_vec() };
    assert_eq!(record.duplicate(), record);
    assert_eq!(header(b"a", b"b").duplicate(), header(b"a", b"b"));
}

#[test]
fn fencing_token_holds_at_most_sixteen_bytes() {
    assert!(FencingToken::new(vec![0; 16]).is_some());
    assert!(FencingToken::new(vec![0; 17]).is_none());
    let token = FencingToken::new(vec![1, 2]).unwrap();
    assert_eq!(token.as_bytes(), &vec![1, 2]);
    assert_eq!(token.len(), 2);
    assert_eq!(FencingToken::empty().len(), 0);
    assert_eq!(token.duplicate(), token);
    assert_eq!(token.clone(), token);
}

#[test]
fn fence_command_becomes_a_record_with_the_token_as_body() {
    let token = FencingToken::new(vec![0x01, 0x02]).unwrap();
    let record = CommandRecord::fence(token).to_record();
    assert_eq!(record.headers, vec![header(b"", b"fence")]);
    assert_eq!(record.body, vec![0x01, 0x02]);
    // 8 + 2 + 5 + 2
    assert_eq!(record.metered_bytes(), 17);
}

#[test]
fn empty_fence_clears_the_token() {
    let record = CommandRecord::fence(FencingToken::empty()).to_record();
    assert_eq!(record.headers, vec![header(b"", b"fence")]);
    assert!(record.body.is_empty());
}

#[test]
fn trim_command_becomes_a_record_with_big_endian_body() {
    let record = CommandRecord::trim(0x0102_0304_0506_0708).to_record();
    assert_eq!(record.headers, vec![header(b"", b"trim")]);
    assert_eq!(record.body, vec![1, 2, 3, 4, 5, 6, 7, 8]);
    let small = CommandRecord::trim(258).to_record();
    assert_eq!(small.body, vec![0, 0, 0, 0, 0, 0, 1, 2]);
}

#[test]
fn command_records_are_recognised() {
    let fence = sequenced(3, vec![header(b"", b"fence")], &[9, 8, 7]);
    assert_eq!(
        fence.as_command_record(),
        Some(CommandRecord::Fence { fencing_token: FencingToken::new(vec![9, 8, 7]).unwrap() })
    );
    let trim = sequenced(4, vec![header(b"", b"trim")], &[0, 0, 0, 0, 0, 0, 0, 42]);
    assert_eq!(trim.as_command_record(), Some(CommandRecord::Trim { seq_num: 42 }));
    let top = sequenced(4, vec![header(b"", b"trim")], &[255; 8]);
    assert_eq!(top.as_command_record(), Some(CommandRecord::Trim { seq_num: u64::MAX }));
}

#[test]
fn data_records_are_not_commands() {
    assert_eq!(sequenced(0, Vec::new(), b"fence").as_command_record(), None);
    assert_eq!(sequenced(0, vec![header(b"x", b"fence")], b"").as_command_record(), None);
    assert_eq!(sequenced(0, vec![header(b"", b"other")], b"").as_command_record(), None);
    assert_eq!(
        sequenced(0, vec![header(b"", b"fence"), header(b"", b"trim")], b"").as_command_record(),
        None
    );
}

#[test]
fn malformed_command_bodies_are_not_commands() {
    assert_eq!(sequenced(0, vec![header(b"", b"fence")], &[0; 17]).as_command_record(), None);
    assert_eq!(sequenced(0, vec![header(b"", b"trim")], &[0; 7]).as_command_record(), None);
    assert_eq!(sequenced(0, vec![header(b"", b"trim")], &[0; 9]).as_command_record(), None);
}

#[test]
fn commands_survive_the_round_trip() {
    let commands = vec![
        CommandRecord::fence(FencingToken::new(vec![0xde, 0xad]).unwrap()),
        CommandRecord::fence(FencingToken::empty()),
        CommandRecord::trim(0),
        CommandRecord::trim(1 << 40),
        CommandRecord::trim(u64::MAX),
    ];
    for command in commands {
        let record = command.to_record();
        let read_back = SequencedRecord { seq_num: 11, record }.as_command_record();
        assert_eq!(read_back, Some(command));
    }
}
