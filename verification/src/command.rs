//! Fencing tokens and command records: the in-band control instructions that
//! travel through a stream as records with a reserved header.

use vstd::prelude::*;
use crate::record::{Header, HeaderView, Record, RecordView, SequencedRecord};

verus! {

/// Longest fencing token the service accepts, in bytes.
pub const MAX_FENCING_TOKEN_BYTES: usize = 16;

/// Length of the body of a trim command: a sequence number in eight bytes.
pub const TRIM_BODY_BYTES: usize = 8;

/// Up to sixteen raw bytes that gate which session may append. The empty token
/// clears a fence.
#[derive(Debug, PartialEq, Eq)]
pub struct FencingToken {
    bytes: Vec<u8>,
}

impl View for FencingToken {
    type V = Seq<u8>;

    closed spec fn view(&self) -> Seq<u8> {
        self.bytes@
    }
}

impl Clone for FencingToken {
    fn clone(&self) -> (token: FencingToken)
        ensures
            token@ == self@,
    {
        self.duplicate()
    }
}

impl FencingToken {
    #[verifier::type_invariant]
    spec fn within_limit(self) -> bool {
        self.bytes@.len() <= MAX_FENCING_TOKEN_BYTES
    }

    /// A token of the given bytes, or `None` when there are more than sixteen.
    pub fn new(bytes: Vec<u8>) -> (token: Option<FencingToken>)
        ensures
            token.is_some() <==> bytes@.len() <= MAX_FENCING_TOKEN_BYTES,
            token matches Some(t) ==> t@ == bytes@,
    {
        if bytes.len() <= MAX_FENCING_TOKEN_BYTES {
            Some(FencingToken { bytes })
        } else {
            None
        }
    }

    /// The empty token, which clears a fence.
    pub fn empty() -> (token: FencingToken)
        ensures
            token@ == Seq::<u8>::empty(),
    {
        FencingToken { bytes: Vec::new() }
    }

    /// The token's bytes.
    pub fn as_bytes(&self) -> (bytes: &Vec<u8>)
        ensures
            bytes@ == self@,
            bytes@.len() <= MAX_FENCING_TOKEN_BYTES,
    {
        proof {
            use_type_invariant(self);
        }
        &self.bytes
    }

    /// Number of bytes in the token.
    pub fn len(&self) -> (n: usize)
        ensures
            n == self@.len(),
            n <= MAX_FENCING_TOKEN_BYTES,
    {
        proof {
            use_type_invariant(self);
        }
        self.bytes.len()
    }

    /// A copy of the token.
    pub fn duplicate(&self) -> (token: FencingToken)
        ensures
            token@ == self@,
    {
        proof {
            use_type_invariant(self);
        }
        FencingToken { bytes: self.bytes.clone() }
    }
}

/// A control instruction carried in-band by a record.
#[derive(Debug, Clone, PartialEq, Eq)]
pub enum CommandRecord {
    /// Set the stream's fencing token; the empty token clears it.
    Fence { fencing_token: FencingToken },
    /// Ask for everything before `seq_num` to be trimmed.
    Trim { seq_num: u64 },
}

/// Mathematical model of a [`CommandRecord`].
pub enum CommandView {
    Fence { fencing_token: Seq<u8> },
    Trim { seq_num: u64 },
}

impl View for CommandRecord {
    type V = CommandView;

    open spec fn view(&self) -> CommandView {
        match self {
            CommandRecord::Fence { fencing_token } => CommandView::Fence {
                fencing_token: fencing_token@,
            },
            CommandRecord::Trim { seq_num } => CommandView::Trim { seq_num: *seq_num },
        }
    }
}

/// The header value `fence`.
pub open spec fn fence_tag() -> Seq<u8> {
    seq![102u8, 101u8, 110u8, 99u8, 101u8]
}

/// The header value `trim`.
pub open spec fn trim_tag() -> Seq<u8> {
    seq![116u8, 114u8, 105u8, 109u8]
}

/// The number that eight bytes spell, most significant byte first.
pub open spec fn be_value(b: Seq<u8>) -> nat
    decreases b.len(),
{
    if b.len() == 0 {
        0
    } else {
        be_value(b.drop_last()) * 256 + b.last() as nat
    }
}

/// The eight bytes that spell `n`, most significant byte first.
pub open spec fn be_bytes(n: u64) -> Seq<u8> {
    seq![
        (n / 0x100_0000_0000_0000) as u8,
        (n / 0x1_0000_0000_0000 % 256) as u8,
        (n / 0x100_0000_0000 % 256) as u8,
        (n / 0x1_0000_0000 % 256) as u8,
        (n / 0x100_0000 % 256) as u8,
        (n / 0x1_0000 % 256) as u8,
        (n / 0x100 % 256) as u8,
        (n % 256) as u8,
    ]
}

impl CommandView {
    /// The name of the command.
    pub open spec fn name(self) -> Seq<char> {
        match self {
            CommandView::Fence { fencing_token } => "fence"@,
            CommandView::Trim { seq_num } => "trim"@,
        }
    }

    /// The record that carries the command: one header with an empty name, whose
    /// value names the operation, and the operand as the body.
    pub open spec fn encode(self) -> RecordView {
        match self {
            CommandView::Fence { fencing_token } => RecordView {
                headers: seq![HeaderView { name: Seq::empty(), value: fence_tag() }],
                body: fencing_token,
            },
            CommandView::Trim { seq_num } => RecordView {
                headers: seq![HeaderView { name: Seq::empty(), value: trim_tag() }],
                body: be_bytes(seq_num),
            },
        }
    }

    /// The command that a record carries, if it carries one: a sole header with
    /// an empty name and a known value, and a body of fitting length.
    pub open spec fn decode(r: RecordView) -> Option<CommandView> {
        if r.headers.len() != 1 || r.headers[0].name.len() != 0 {
            None
        } else if r.headers[0].value == fence_tag() {
            if r.body.len() <= MAX_FENCING_TOKEN_BYTES {
                Some(CommandView::Fence { fencing_token: r.body })
            } else {
                None
            }
        } else if r.headers[0].value == trim_tag() {
            if r.body.len() == TRIM_BODY_BYTES {
                Some(CommandView::Trim { seq_num: be_value(r.body) as u64 })
            } else {
                None
            }
        } else {
            None
        }
    }
}

/// Model of an optional command.
pub open spec fn command_view(c: Option<CommandRecord>) -> Option<CommandView> {
    match c {
        Some(c) => Some(c@),
        None => None,
    }
}

/// The command that the service's client library reads out of a record.
///
/// Calls `SequencedRecord::as_command_record` of the `s2` crate on a record
/// with the same sequence number, headers and body. The contract restates that
/// function: it answers only for a record with exactly one header whose name
/// is empty; a header value `fence` with a body of at most sixteen bytes is a
/// fence with the body as its token; a header value `trim` with a body of
/// exactly eight bytes is a trim at the big-endian number in the body;
/// anything else is no command.
#[verifier::external_body]
pub(crate) fn service_command_of(record: &SequencedRecord) -> (c: Option<CommandRecord>)
    ensures
        command_view(c) == CommandView::decode(record@.record),
{
    let headers = record.record.headers.iter().map(
        |h| s2::types::Header::new(h.name.clone(), h.value.clone()),
    ).collect();
    let body = record.record.body.clone().into();
    let outside = s2::types::SequencedRecord { seq_num: record.seq_num, headers, body };
    match outside.as_command_record() {
        Some(s2::types::CommandRecord::Fence { fencing_token }) => Some(
            CommandRecord::Fence { fencing_token: FencingToken { bytes: fencing_token.into() } },
        ),
        Some(s2::types::CommandRecord::Trim { seq_num }) => Some(CommandRecord::Trim { seq_num }),
        None => None,
    }
}

/// The record into which the service's client library packs a command.
///
/// Makes the command with `CommandRecord::fence` or `CommandRecord::trim` of
/// the `s2` crate, converts it with the crate's `From<CommandRecord> for
/// AppendRecord`, and takes the record apart with `AppendRecord::into_parts`.
/// The contract restates that conversion: one header with an empty name and
/// the value `fence` or `trim`, and as the body the token, or the eight
/// big-endian bytes of the sequence number. `FencingToken::new` of the crate
/// refuses more than sixteen bytes, which no token of this library has.
#[verifier::external_body]
pub(crate) fn service_command_record(command: &CommandRecord) -> (r: Record)
    ensures
        r@ == command@.encode(),
{
    let outside = match command {
        CommandRecord::Fence { fencing_token } => s2::types::CommandRecord::fence(
            s2::types::FencingToken::new(fencing_token.bytes.clone()).expect("at most 16 bytes"),
        ),
        CommandRecord::Trim { seq_num } => s2::types::CommandRecord::trim(*seq_num),
    };
    let parts = s2::types::AppendRecord::from(outside).into_parts();
    let headers = parts.headers.into_iter().map(
        |h| Header { name: h.name.to_vec(), value: h.value.to_vec() },
    ).collect();
    Record { headers, body: parts.body.to_vec() }
}

impl CommandRecord {
    /// A fence command for `fencing_token`.
    pub fn fence(fencing_token: FencingToken) -> (c: CommandRecord)
        ensures
            c@ == (CommandView::Fence { fencing_token: fencing_token@ }),
    {
        CommandRecord::Fence { fencing_token }
    }

    /// A trim command at `seq_num`.
    pub fn trim(seq_num: u64) -> (c: CommandRecord)
        ensures
            c@ == (CommandView::Trim { seq_num }),
    {
        CommandRecord::Trim { seq_num }
    }

    /// The record that carries this command to the service.
    pub fn to_record(&self) -> (r: Record)
        ensures
            r@ == self@.encode(),
    {
        service_command_record(self)
    }

    /// The name of the command: `fence` or `trim`.
    pub fn name(&self) -> (name: &'static str)
        ensures
            name@ == self@.name(),
    {
        match self {
            CommandRecord::Fence { fencing_token } => "fence",
            CommandRecord::Trim { seq_num } => "trim",
        }
    }
}

impl SequencedRecord {
    /// The command that this record carries, or `None` for a data record.
    pub fn as_command_record(&self) -> (c: Option<CommandRecord>)
        ensures
            command_view(c) == CommandView::decode(self@.record),
    {
        service_command_of(self)
    }
}

/// The value of eight bytes, written out.
proof fn lemma_be_value_of_eight(b: Seq<u8>)
    requires
        b.len() == 8,
    ensures
        be_value(b) == ((((((b[0] as nat * 256 + b[1] as nat) * 256 + b[2] as nat) * 256
            + b[3] as nat) * 256 + b[4] as nat) * 256 + b[5] as nat) * 256 + b[6] as nat) * 256
            + b[7] as nat,
{
    let b7 = b.drop_last();
    let b6 = b7.drop_last();
    let b5 = b6.drop_last();
    let b4 = b5.drop_last();
    let b3 = b4.drop_last();
    let b2 = b3.drop_last();
    let b1 = b2.drop_last();
    let b0 = b1.drop_last();
    assert(be_value(b0) == 0);
    assert(be_value(b1) == be_value(b0) * 256 + b[0] as nat);
    assert(be_value(b2) == be_value(b1) * 256 + b[1] as nat);
    assert(be_value(b3) == be_value(b2) * 256 + b[2] as nat);
    assert(be_value(b4) == be_value(b3) * 256 + b[3] as nat);
    assert(be_value(b5) == be_value(b4) * 256 + b[4] as nat);
    assert(be_value(b6) == be_value(b5) * 256 + b[5] as nat);
    assert(be_value(b7) == be_value(b6) * 256 + b[6] as nat);
    assert(be_value(b) == be_value(b7) * 256 + b[7] as nat);
}

/// Eight big-endian bytes spell the number they were made from.
pub proof fn lemma_be_round_trip(n: u64)
    ensures
        be_bytes(n).len() == TRIM_BODY_BYTES,
        be_value(be_bytes(n)) == n,
{
    let b = be_bytes(n);
    lemma_be_value_of_eight(b);
    let q7: u64 = n / 0x100_0000_0000_0000;
    let q6: u64 = n / 0x1_0000_0000_0000;
    let q5: u64 = n / 0x100_0000_0000;
    let q4: u64 = n / 0x1_0000_0000;
    let q3: u64 = n / 0x100_0000;
    let q2: u64 = n / 0x1_0000;
    let q1: u64 = n / 0x100;
    assert(q7 < 256 && q6 / 256 == q7 && q5 / 256 == q6 && q4 / 256 == q5 && q3 / 256 == q4 && q2
        / 256 == q3 && q1 / 256 == q2 && n / 256 == q1) by (bit_vector)
        requires
            q7 == n / 0x100_0000_0000_0000,
            q6 == n / 0x1_0000_0000_0000,
            q5 == n / 0x100_0000_0000,
            q4 == n / 0x1_0000_0000,
            q3 == n / 0x100_0000,
            q2 == n / 0x1_0000,
            q1 == n / 0x100,
    ;
    assert(b[0] == q7);
    assert(b[1] == q6 % 256);
    assert(b[2] == q5 % 256);
    assert(b[3] == q4 % 256);
    assert(b[4] == q3 % 256);
    assert(b[5] == q2 % 256);
    assert(b[6] == q1 % 256);
    assert(b[7] == n % 256);
    assert(q7 * 256 + q6 % 256 == q6);
    assert(q6 * 256 + q5 % 256 == q5);
    assert(q5 * 256 + q4 % 256 == q4);
    assert(q4 * 256 + q3 % 256 == q3);
    assert(q3 * 256 + q2 % 256 == q2);
    assert(q2 * 256 + q1 % 256 == q1);
    assert(q1 * 256 + n % 256 == n);
}

/// Decoding the record of a command gives the command back: what one session
/// appends as a fence or a trim, a reading session recognises as the same.
pub proof fn lemma_decode_encode(c: CommandView)
    requires
        c matches CommandView::Fence { fencing_token } ==> fencing_token.len()
            <= MAX_FENCING_TOKEN_BYTES,
    ensures
        CommandView::decode(c.encode()) == Some(c),
{
    assert(fence_tag() != trim_tag()) by {
        assert(fence_tag().len() == 5);
        assert(trim_tag().len() == 4);
    }
    match c {
        CommandView::Fence { fencing_token } => {},
        CommandView::Trim { seq_num } => {
            lemma_be_round_trip(seq_num);
        },
    }
}

} // verus!
