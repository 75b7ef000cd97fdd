//! Records as the session layer sees them: plain bytes with optional header
//! metadata, their metered size, and the sequence numbers the service assigns.

use vstd::prelude::*;

verus! {

/// One name/value pair of record metadata.
#[derive(Debug, Clone, PartialEq, Eq)]
pub struct Header {
    pub name: Vec<u8>,
    pub value: Vec<u8>,
}

/// Mathematical model of a [`Header`].
pub struct HeaderView {
    pub name: Seq<u8>,
    pub value: Seq<u8>,
}

impl View for Header {
    type V = HeaderView;

    open spec fn view(&self) -> HeaderView {
        HeaderView { name: self.name@, value: self.value@ }
    }
}

/// A record before the service has sequenced it: a body and its headers.
#[derive(Debug, Clone, PartialEq, Eq)]
pub struct Record {
    pub headers: Vec<Header>,
    pub body: Vec<u8>,
}

/// Mathematical model of a [`Record`].
pub struct RecordView {
    pub headers: Seq<HeaderView>,
    pub body: Seq<u8>,
}

impl View for Record {
    type V = RecordView;

    open spec fn view(&self) -> RecordView {
        RecordView { headers: self.headers@.map_values(|h: Header| h@), body: self.body@ }
    }
}

/// A record together with the sequence number the service gave it.
#[derive(Debug, Clone, PartialEq, Eq)]
pub struct SequencedRecord {
    pub seq_num: u64,
    pub record: Record,
}

/// Mathematical model of a [`SequencedRecord`].
pub struct SequencedRecordView {
    pub seq_num: u64,
    pub record: RecordView,
}

impl View for SequencedRecord {
    type V = SequencedRecordView;

    open spec fn view(&self) -> SequencedRecordView {
        SequencedRecordView { seq_num: self.seq_num, record: self.record@ }
    }
}

/// Total length of the names and values of `headers`.
pub open spec fn headers_len(headers: Seq<HeaderView>) -> nat
    decreases headers.len(),
{
    if headers.len() == 0 {
        0
    } else {
        headers_len(headers.drop_last()) + headers.last().name.len() + headers.last().value.len()
    }
}

/// Fixed per-record overhead of the metering formula.
pub const RECORD_OVERHEAD: u64 = 8;

/// Per-header overhead of the metering formula.
pub const HEADER_OVERHEAD: u64 = 2;

impl RecordView {
    /// The metered size: 8 bytes, plus 2 bytes per header, plus the length of
    /// every header name and value, plus the length of the body.
    pub open spec fn metered_size(self) -> nat {
        (RECORD_OVERHEAD + HEADER_OVERHEAD * self.headers.len() + headers_len(self.headers)
            + self.body.len()) as nat
    }

    /// A record that carries nothing but a body.
    pub open spec fn plain(body: Seq<u8>) -> RecordView {
        RecordView { headers: Seq::empty(), body }
    }
}

/// Metered size of a record with no headers.
pub proof fn lemma_plain_metered_size(body: Seq<u8>)
    ensures
        RecordView::plain(body).metered_size() == 8 + body.len(),
{
}

/// The metered size that the service's client library computes for the record.
///
/// Calls `MeteredBytes::metered_bytes` of the `s2` crate on a
/// `s2::types::SequencedRecord` with the same headers and body. The contract
/// repeats the formula that the crate documents for the trait and implements
/// for that type: `8 + 2 * headers + sum of name and value lengths + body
/// length`. The crate adds the lengths up in `usize`; every byte it counts is
/// held in memory by the record itself, so the sum is the exact one.
#[verifier::external_body]
pub(crate) fn service_metered_bytes(record: &Record) -> (n: u64)
    ensures
        n == record@.metered_size(),
{
    let headers = record.headers.iter().map(
        |h| s2::types::Header::new(h.name.clone(), h.value.clone()),
    ).collect();
    let body = record.body.clone().into();
    let outside = s2::types::SequencedRecord { seq_num: 0, headers, body };
    s2::types::MeteredBytes::metered_bytes(&outside)
}

impl Header {
    /// A copy of the header.
    pub fn duplicate(&self) -> (h: Header)
        ensures
            h@ == self@,
    {
        Header { name: self.name.clone(), value: self.value.clone() }
    }
}

impl Record {
    /// A copy of the record.
    pub fn duplicate(&self) -> (r: Record)
        ensures
            r@ == self@,
    {
        let mut headers: Vec<Header> = Vec::new();
        let mut i: usize = 0;
        while i < self.headers.len()
            invariant
                i <= self.headers.len(),
                headers@.len() == i,
                forall|j: int| 0 <= j < i ==> (#[trigger] headers@[j])@ == self.headers@[j]@,
            decreases self.headers.len() - i,
        {
            headers.push(self.headers[i].duplicate());
            i += 1;
        }
        let r = Record { headers, body: self.body.clone() };
        assert(r@.headers =~= self@.headers);
        r
    }

    /// A record that carries `body` and no headers.
    pub fn plain(body: Vec<u8>) -> (r: Record)
        ensures
            r@ == RecordView::plain(body@),
    {
        let r = Record { headers: Vec::new(), body };
        assert(r@.headers =~= Seq::<HeaderView>::empty());
        r
    }

    /// The record's metered size in bytes.
    pub fn metered_bytes(&self) -> (n: u64)
        ensures
            n == self@.metered_size(),
    {
        service_metered_bytes(self)
    }
}

impl SequencedRecord {
    /// The record's metered size in bytes; the sequence number is not counted.
    pub fn metered_bytes(&self) -> (n: u64)
        ensures
            n == self@.record.metered_size(),
    {
        service_metered_bytes(&self.record)
    }
}

} // verus!
