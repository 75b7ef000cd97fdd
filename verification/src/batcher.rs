//! Batching of records into append batches that respect the service's
//! ceilings on record count and metered size.

use vstd::prelude::*;
use crate::error::{S2CliError, S2CliErrorView};
use crate::record::{Record, RecordView};

verus! {

/// Most records the service takes in one batch.
pub const MAX_BATCH_RECORDS: usize = 1000;

/// Most metered bytes the service takes in one batch: one mebibyte.
pub const MAX_BATCH_BYTES: u64 = 1_048_576;

/// Models of the records in a vector.
pub open spec fn record_views(records: Seq<Record>) -> Seq<RecordView> {
    records.map_values(|r: Record| r@)
}

/// Sum of the metered sizes of `records`.
pub open spec fn total_size(records: Seq<RecordView>) -> nat
    decreases records.len(),
{
    if records.len() == 0 {
        0
    } else {
        total_size(records.drop_last()) + records.last().metered_size()
    }
}

/// Adding a record adds its metered size.
pub proof fn lemma_total_size_push(records: Seq<RecordView>, record: RecordView)
    ensures
        total_size(records.push(record)) == total_size(records) + record.metered_size(),
{
    assert(records.push(record).drop_last() =~= records);
}

/// No record weighs more than the records it is among.
pub proof fn lemma_total_size_bounds_each(records: Seq<RecordView>, i: int)
    requires
        0 <= i < records.len(),
    ensures
        records[i].metered_size() <= total_size(records),
    decreases records.len(),
{
    if i < records.len() - 1 {
        lemma_total_size_bounds_each(records.drop_last(), i);
    }
}

/// The two ceilings of a batch, as numbers.
pub struct LimitsView {
    pub max_records: nat,
    pub max_bytes: nat,
}

impl LimitsView {
    /// Ceilings between one and what the service takes.
    pub open spec fn valid(self) -> bool {
        &&& 1 <= self.max_records <= MAX_BATCH_RECORDS
        &&& 1 <= self.max_bytes <= MAX_BATCH_BYTES
    }

    /// Whether `records` may travel as one batch.
    pub open spec fn admits(self, records: Seq<RecordView>) -> bool {
        records.len() <= self.max_records && total_size(records) <= self.max_bytes
    }

    /// Whether every record is small enough to travel at all.
    pub open spec fn admits_each(self, records: Seq<RecordView>) -> bool {
        forall|i: int| 0 <= i < records.len() ==> (#[trigger] records[i]).metered_size()
            <= self.max_bytes
    }

    /// Whether `records[i]` is the first record too large to travel.
    pub open spec fn is_first_oversize(self, records: Seq<RecordView>, i: int) -> bool {
        &&& 0 <= i < records.len()
        &&& records[i].metered_size() > self.max_bytes
        &&& self.admits_each(records.take(i))
    }

    /// Whether `error` reports the first record too large to travel, with its
    /// metered size and the ceiling it breaks.
    pub open spec fn reports_first_oversize(
        self,
        records: Seq<RecordView>,
        error: S2CliErrorView,
    ) -> bool {
        exists|i: int|
            {
                &&& #[trigger] self.is_first_oversize(records, i)
                &&& error matches S2CliErrorView::RecordTooLarge { size, limit }
                &&& size == records[i].metered_size()
                &&& limit == self.max_bytes
            }
    }

    /// Whether `batches` is the batching of `records`: the batches joined give
    /// the records back in order, every batch holds at least one record and
    /// keeps both ceilings, and no batch could have taken the first record of
    /// the batch that follows it.
    pub open spec fn is_batching(
        self,
        records: Seq<RecordView>,
        batches: Seq<Seq<RecordView>>,
    ) -> bool {
        &&& batches.flatten() == records
        &&& forall|i: int|
            0 <= i < batches.len() ==> (#[trigger] batches[i]).len() > 0 && self.admits(batches[i])
        &&& forall|i: int|
            0 <= i < batches.len() - 1 ==> !self.admits(
                (#[trigger] batches[i]).push(batches[i + 1][0]),
            )
    }
}

/// The ceilings that a batcher keeps: at least one record and one byte, at
/// most what the service takes.
#[derive(Debug, Clone, Copy, PartialEq, Eq)]
pub struct BatchLimits {
    max_records: usize,
    max_bytes: u64,
}

impl View for BatchLimits {
    type V = LimitsView;

    closed spec fn view(&self) -> LimitsView {
        LimitsView { max_records: self.max_records as nat, max_bytes: self.max_bytes as nat }
    }
}

impl BatchLimits {
    #[verifier::type_invariant]
    spec fn within_service_limits(self) -> bool {
        self@.valid()
    }

    /// The ceilings `max_records` and `max_bytes`, or `None` where one of them
    /// is zero or above what the service takes.
    pub fn new(max_records: usize, max_bytes: u64) -> (limits: Option<BatchLimits>)
        ensures
            limits.is_some() <==> (LimitsView {
                max_records: max_records as nat,
                max_bytes: max_bytes as nat,
            }).valid(),
            limits matches Some(l) ==> l@ == (LimitsView {
                max_records: max_records as nat,
                max_bytes: max_bytes as nat,
            }),
    {
        if 1 <= max_records && max_records <= MAX_BATCH_RECORDS && 1 <= max_bytes && max_bytes
            <= MAX_BATCH_BYTES {
            Some(BatchLimits { max_records, max_bytes })
        } else {
            None
        }
    }

    /// The service's own ceilings: a thousand records, one mebibyte.
    pub fn service() -> (limits: BatchLimits)
        ensures
            limits@ == (LimitsView {
                max_records: MAX_BATCH_RECORDS as nat,
                max_bytes: MAX_BATCH_BYTES as nat,
            }),
    {
        BatchLimits { max_records: MAX_BATCH_RECORDS, max_bytes: MAX_BATCH_BYTES }
    }

    /// Most records in a batch.
    pub fn max_records(&self) -> (n: usize)
        ensures
            n == self@.max_records,
            self@.valid(),
    {
        proof {
            use_type_invariant(self);
        }
        self.max_records
    }

    /// Most metered bytes in a batch.
    pub fn max_bytes(&self) -> (n: u64)
        ensures
            n == self@.max_bytes,
            self@.valid(),
    {
        proof {
            use_type_invariant(self);
        }
        self.max_bytes
    }
}

/// A batch of records as it is handed to the service: at least one record, and
/// within the service's ceilings. A batch is never changed once it is made.
#[derive(Debug, PartialEq, Eq)]
pub struct AppendBatch {
    records: Vec<Record>,
    metered_bytes: u64,
}

impl View for AppendBatch {
    type V = Seq<RecordView>;

    closed spec fn view(&self) -> Seq<RecordView> {
        record_views(self.records@)
    }
}

/// Models of the batches in a vector.
pub open spec fn batch_views(batches: Seq<AppendBatch>) -> Seq<Seq<RecordView>> {
    batches.map_values(|b: AppendBatch| b@)
}

/// The service's own ceilings.
pub open spec fn service_limits() -> LimitsView {
    LimitsView { max_records: MAX_BATCH_RECORDS as nat, max_bytes: MAX_BATCH_BYTES as nat }
}

impl Clone for AppendBatch {
    fn clone(&self) -> (batch: AppendBatch)
        ensures
            batch@ == self@,
    {
        proof {
            use_type_invariant(self);
        }
        let mut records: Vec<Record> = Vec::new();
        let mut i: usize = 0;
        while i < self.records.len()
            invariant
                i <= self.records.len(),
                records@.len() == i,
                forall|j: int| 0 <= j < i ==> (#[trigger] records@[j])@ == self.records@[j]@,
            decreases self.records.len() - i,
        {
            records.push(self.records[i].duplicate());
            i += 1;
        }
        assert(record_views(records@) =~= record_views(self.records@));
        AppendBatch { records, metered_bytes: self.metered_bytes }
    }
}

impl AppendBatch {
    #[verifier::type_invariant]
    spec fn well_formed(self) -> bool {
        &&& self.records@.len() > 0
        &&& service_limits().admits(record_views(self.records@))
        &&& self.metered_bytes == total_size(record_views(self.records@))
    }

    /// The batch of `records`, or the records back where they are none, more
    /// than a thousand, or more than a mebibyte of metered size.
    pub fn new(records: Vec<Record>) -> (r: Result<AppendBatch, Vec<Record>>)
        ensures
            r.is_ok() <==> records@.len() > 0 && service_limits().admits(record_views(records@)),
            r matches Ok(batch) ==> batch@ == record_views(records@),
            r matches Err(back) ==> back == records,
    {
        let ghost views = record_views(records@);
        if records.len() == 0 || records.len() > MAX_BATCH_RECORDS {
            return Err(records);
        }
        let mut bytes: u64 = 0;
        let mut i: usize = 0;
        while i < records.len()
            invariant
                i <= records.len(),
                views == record_views(records@),
                bytes == total_size(views.take(i as int)),
                bytes <= MAX_BATCH_BYTES,
            decreases records.len() - i,
        {
            let size = records[i].metered_bytes();
            proof {
                assert(views.take(i as int + 1) =~= views.take(i as int).push(views[i as int]));
                lemma_total_size_push(views.take(i as int), views[i as int]);
                lemma_total_size_monotone(views, i as int + 1);
            }
            if size > MAX_BATCH_BYTES - bytes {
                return Err(records);
            }
            bytes = bytes + size;
            i += 1;
        }
        assert(views.take(i as int) =~= views);
        Ok(AppendBatch { records, metered_bytes: bytes })
    }

    /// Number of records in the batch: at least one.
    pub fn len(&self) -> (n: usize)
        ensures
            n == self@.len(),
            1 <= n <= MAX_BATCH_RECORDS,
    {
        proof {
            use_type_invariant(self);
        }
        self.records.len()
    }

    /// Metered size of the whole batch.
    pub fn metered_bytes(&self) -> (n: u64)
        ensures
            n == total_size(self@),
            n <= MAX_BATCH_BYTES,
    {
        proof {
            use_type_invariant(self);
        }
        self.metered_bytes
    }

    /// The records of the batch, in order.
    pub fn records(&self) -> (records: &Vec<Record>)
        ensures
            record_views(records@) == self@,
    {
        &self.records
    }

    /// The records of the batch, in order, giving the batch up.
    pub fn into_records(self) -> (records: Vec<Record>)
        ensures
            record_views(records@) == self@,
    {
        self.records
    }
}

/// A prefix of records weighs no more than all of them.
pub proof fn lemma_total_size_monotone(records: Seq<RecordView>, n: int)
    requires
        0 <= n <= records.len(),
    ensures
        total_size(records.take(n)) <= total_size(records),
    decreases records.len(),
{
    if n < records.len() {
        lemma_total_size_monotone(records.drop_last(), n);
        assert(records.drop_last().take(n) =~= records.take(n));
    } else {
        assert(records.take(n) =~= records);
    }
}

/// What the batcher answers to one record.
#[derive(Debug, Clone, PartialEq, Eq)]
pub enum Pushed {
    /// The record joined the batch that is being filled.
    Held,
    /// The batch that was being filled is complete; the record starts the next.
    Flushed(AppendBatch),
}

/// Turns records, one at a time and in order, into batches. A batch is handed
/// out when the next record would break one of the ceilings, or when the input
/// has ended.
#[derive(Debug, Clone, PartialEq, Eq)]
pub struct RecordBatcher {
    limits: BatchLimits,
    pending: Vec<Record>,
    pending_bytes: u64,
}

impl RecordBatcher {
    /// The ceilings that the batcher keeps.
    pub closed spec fn limits(self) -> LimitsView {
        self.limits@
    }

    /// The records that wait for their batch to fill.
    pub closed spec fn pending(self) -> Seq<RecordView> {
        record_views(self.pending@)
    }

    /// The waiting records keep the ceilings.
    pub closed spec fn wf(self) -> bool {
        &&& self.limits@.valid()
        &&& self.limits@.admits(record_views(self.pending@))
        &&& self.pending_bytes == total_size(record_views(self.pending@))
    }

    /// A batcher with nothing waiting.
    pub fn new(limits: BatchLimits) -> (batcher: RecordBatcher)
        ensures
            batcher.wf(),
            batcher.limits() == limits@,
            batcher.pending() == Seq::<RecordView>::empty(),
    {
        proof {
            use_type_invariant(&limits);
        }
        let batcher = RecordBatcher { limits, pending: Vec::new(), pending_bytes: 0 };
        assert(record_views(batcher.pending@) =~= Seq::<RecordView>::empty());
        batcher
    }

    /// Number of records that wait for their batch to fill.
    pub fn pending_len(&self) -> (n: usize)
        requires
            self.wf(),
        ensures
            n == self.pending().len(),
    {
        self.pending.len()
    }

    /// Takes the next record. A record that alone weighs more than a batch may
    /// is refused with `RecordTooLarge` and changes nothing. Otherwise the record
    /// joins the waiting ones if they still keep both ceilings with it; if
    /// not, the waiting ones leave as a batch and the record waits alone.
    pub fn push(&mut self, record: Record) -> (r: Result<Pushed, S2CliError>)
        requires
            old(self).wf(),
        ensures
            final(self).wf(),
            final(self).limits() == old(self).limits(),
            r.is_err() <==> record@.metered_size() > old(self).limits().max_bytes,
            r matches Err(e) ==> {
                &&& e@ matches S2CliErrorView::RecordTooLarge { size, limit }
                &&& size == record@.metered_size()
                &&& limit == old(self).limits().max_bytes
                &&& final(self).pending() == old(self).pending()
            },
            r matches Ok(Pushed::Held) ==> {
                &&& old(self).limits().admits(old(self).pending().push(record@))
                &&& final(self).pending() == old(self).pending().push(record@)
            },
            r matches Ok(Pushed::Flushed(batch)) ==> {
                &&& !old(self).limits().admits(old(self).pending().push(record@))
                &&& batch@ == old(self).pending()
                &&& final(self).pending() == seq![record@]
            },
    {
        let max_records = self.limits.max_records();
        let max_bytes = self.limits.max_bytes();
        let size = record.metered_bytes();
        if size > max_bytes {
            return Err(S2CliError::RecordTooLarge { size, limit: max_bytes });
        }
        let ghost before = record_views(self.pending@);
        proof {
            lemma_total_size_push(before, record@);
            assert(record_views(self.pending@.push(record)) =~= before.push(record@));
        }
        if self.pending.len() >= max_records || size > max_bytes - self.pending_bytes {
            let mut full: Vec<Record> = Vec::new();
            core::mem::swap(&mut self.pending, &mut full);
            let bytes = self.pending_bytes;
            proof {
                lemma_total_size_push(Seq::<RecordView>::empty(), record@);
                assert(record_views(self.pending@) =~= Seq::<RecordView>::empty());
                assert(record_views(self.pending@.push(record)) =~= seq![record@]);
                assert(seq![record@] =~= Seq::<RecordView>::empty().push(record@));
                assert(before.len() > 0) by {
                    if before.len() == 0 {
                        assert(before =~= Seq::<RecordView>::empty());
                    }
                }
            }
            self.pending.push(record);
            self.pending_bytes = size;
            Ok(Pushed::Flushed(AppendBatch { records: full, metered_bytes: bytes }))
        } else {
            self.pending.push(record);
            self.pending_bytes = self.pending_bytes + size;
            Ok(Pushed::Held)
        }
    }

    /// Ends the input: the waiting records leave as the last batch, or nothing
    /// leaves where none waits.
    pub fn finish(self) -> (last: Option<AppendBatch>)
        requires
            self.wf(),
        ensures
            last.is_some() <==> self.pending().len() > 0,
            last matches Some(batch) ==> batch@ == self.pending(),
    {
        if self.pending.len() == 0 {
            None
        } else {
            Some(AppendBatch { records: self.pending, metered_bytes: self.pending_bytes })
        }
    }
}

impl RecordBatcher {
    /// What waits in a batcher keeps the batcher's ceilings.
    pub proof fn lemma_pending_admitted(self)
        requires
            self.wf(),
        ensures
            self.limits().valid(),
            self.limits().admits(self.pending()),
    {
    }
}

/// Batches all of `records`, in order. Every record must be small enough to
/// travel in a batch of its own; the first that is not is reported as
/// `RecordTooLarge`, and no batch is handed out.
pub fn batch_records(records: Vec<Record>, limits: BatchLimits) -> (r: Result<
    Vec<AppendBatch>,
    S2CliError,
>)
    ensures
        r.is_ok() <==> limits@.admits_each(record_views(records@)),
        r matches Ok(batches) ==> limits@.is_batching(
            record_views(records@),
            batch_views(batches@),
        ),
        r matches Err(e) ==> limits@.reports_first_oversize(record_views(records@), e@),
{
    let ghost views = record_views(records@);
    let mut batcher = RecordBatcher::new(limits);
    let mut batches: Vec<AppendBatch> = Vec::new();
    proof {
        assert(batch_views(batches@) =~= Seq::<Seq<RecordView>>::empty());
        assert(views.take(0) =~= Seq::<RecordView>::empty());
    }
    for record in it: records
        invariant
            views == record_views(it.seq()),
            it.seq() == records@,
            batcher.wf(),
            batcher.limits() == limits@,
            limits@.admits_each(views.take(it.index() as int)),
            batch_views(batches@).flatten() + batcher.pending() == views.take(it.index() as int),
            forall|j: int|
                0 <= j < batches@.len() ==> (#[trigger] batch_views(batches@)[j]).len() > 0
                    && limits@.admits(batch_views(batches@)[j]),
            forall|j: int|
                0 <= j < batches@.len() - 1 ==> !limits@.admits(
                    (#[trigger] batch_views(batches@)[j]).push(batch_views(batches@)[j + 1][0]),
                ),
            batches@.len() > 0 ==> batcher.pending().len() > 0 && !limits@.admits(
                batch_views(batches@).last().push(batcher.pending()[0]),
            ),
    {
        let ghost i = it.index() as int;
        let ghost done = batch_views(batches@);
        let ghost pend = batcher.pending();
        proof {
            batcher.lemma_pending_admitted();
            assert(record@ == views[i]);
            assert(views.take(i + 1) =~= views.take(i).push(views[i]));
            lemma_total_size_push(Seq::<RecordView>::empty(), record@);
        }
        match batcher.push(record) {
            Err(e) => {
                proof {
                    assert(limits@.is_first_oversize(views, i));
                }
                return Err(e);
            },
            Ok(Pushed::Held) => {
                proof {
                    assert(done.flatten() + pend.push(views[i]) =~= (done.flatten() + pend).push(
                        views[i],
                    ));
                }
            },
            Ok(Pushed::Flushed(batch)) => {
                proof {
                    assert(pend.len() > 0) by {
                        if pend.len() == 0 {
                            assert(pend =~= Seq::<RecordView>::empty());
                        }
                    }
                    assert(batch_views(batches@.push(batch)) =~= done.push(pend));
                    done.lemma_flatten_push(pend);
                    assert(done.push(pend).flatten() + seq![views[i]] =~= (done.flatten()
                        + pend).push(views[i]));
                }
                batches.push(batch);
            },
        }
    }
    let ghost done = batch_views(batches@);
    let ghost pend = batcher.pending();
    proof {
        batcher.lemma_pending_admitted();
        assert(views.take(views.len() as int) =~= views);
    }
    match batcher.finish() {
        Some(batch) => {
            proof {
                assert(batch_views(batches@.push(batch)) =~= done.push(pend));
                done.lemma_flatten_push(pend);
            }
            batches.push(batch);
        },
        None => {
            proof {
                assert(pend =~= Seq::<RecordView>::empty());
                assert(done.flatten() + pend =~= done.flatten());
            }
        },
    }
    Ok(batches)
}

/// The records that lines of text become: each line is the body of one record
/// that has no headers.
pub open spec fn line_records(lines: Seq<Vec<u8>>) -> Seq<RecordView> {
    lines.map_values(|line: Vec<u8>| RecordView::plain(line@))
}

/// Batches lines of input, in order: each line becomes one record with the
/// line as its body, and the records are batched as [`batch_records`] does.
/// No line means no batch.
pub fn batch_lines(lines: Vec<Vec<u8>>, limits: BatchLimits) -> (r: Result<
    Vec<AppendBatch>,
    S2CliError,
>)
    ensures
        r.is_ok() <==> limits@.admits_each(line_records(lines@)),
        r matches Ok(batches) ==> limits@.is_batching(line_records(lines@), batch_views(batches@)),
        r matches Err(e) ==> limits@.reports_first_oversize(line_records(lines@), e@),
{
    let mut records: Vec<Record> = Vec::new();
    proof {
        assert(record_views(records@) =~= line_records(lines@).take(0));
    }
    for line in it: lines
        invariant
            it.seq() == lines@,
            record_views(records@) == line_records(lines@).take(it.index() as int),
    {
        let ghost i = it.index() as int;
        let ghost before = record_views(records@);
        proof {
            assert(line == lines@[i]);
            assert(line_records(lines@)[i] == RecordView::plain(line@));
        }
        let record = Record::plain(line);
        proof {
            assert(record_views(records@.push(record)) =~= before.push(record@));
            assert(line_records(lines@).take(i + 1) =~= line_records(lines@).take(i).push(
                line_records(lines@)[i],
            ));
        }
        records.push(record);
    }
    proof {
        assert(line_records(lines@).take(lines@.len() as int) =~= line_records(lines@));
    }
    batch_records(records, limits)
}

/// What travels as one batch would also travel if it were cut short.
pub proof fn lemma_admits_prefix(limits: LimitsView, records: Seq<RecordView>, n: int)
    requires
        limits.admits(records),
        0 <= n <= records.len(),
    ensures
        limits.admits(records.take(n)),
{
    lemma_total_size_monotone(records, n);
}

/// In a batching, every batch but the first is a batching of what the first
/// leaves over.
proof fn lemma_batching_rest(
    limits: LimitsView,
    records: Seq<RecordView>,
    batches: Seq<Seq<RecordView>>,
)
    requires
        limits.is_batching(records, batches),
        batches.len() > 0,
    ensures
        records.take(batches[0].len() as int) == batches[0],
        limits.is_batching(records.skip(batches[0].len() as int), batches.drop_first()),
{
    let first = batches[0];
    let rest = batches.drop_first();
    assert(batches.flatten() == first + rest.flatten());
    assert(records.take(first.len() as int) =~= first);
    assert(records.skip(first.len() as int) =~= rest.flatten());
    assert forall|i: int| 0 <= i < rest.len() implies (#[trigger] rest[i]).len() > 0
        && limits.admits(rest[i]) by {
        assert(rest[i] == batches[i + 1]);
    }
    assert forall|i: int| 0 <= i < rest.len() - 1 implies !limits.admits(
        (#[trigger] rest[i]).push(rest[i + 1][0]),
    ) by {
        assert(rest[i] == batches[i + 1]);
        assert(rest[i + 1] == batches[i + 2]);
    }
}

/// Of two batchings of the same records, the first batch of one is not
/// shorter than the first batch of the other.
proof fn lemma_first_batch_not_shorter(
    limits: LimitsView,
    records: Seq<RecordView>,
    a: Seq<Seq<RecordView>>,
    b: Seq<Seq<RecordView>>,
)
    requires
        limits.is_batching(records, a),
        limits.is_batching(records, b),
        a.len() > 0,
        b.len() > 0,
    ensures
        a[0].len() >= b[0].len(),
{
    if a[0].len() < b[0].len() {
        let n = a[0].len() as int;
        lemma_batching_rest(limits, records, a);
        lemma_batching_rest(limits, records, b);
        let rest = a.drop_first();
        assert(rest.flatten() == records.skip(n));
        assert(rest.len() > 0);
        assert(rest.flatten() == rest[0] + rest.drop_first().flatten());
        assert(rest[0] == a[1]);
        assert(a[1].len() > 0);
        assert(records[n] == records.skip(n)[0]);
        assert(records[n] == a[1][0]);
        assert(b[0].take(n + 1) =~= a[0].push(a[1][0])) by {
            assert(records.take(b[0].len() as int) == b[0]);
            assert(records.take(n) == a[0]);
            assert forall|k: int| 0 <= k < n + 1 implies b[0].take(n + 1)[k] == a[0].push(
                a[1][0],
            )[k] by {
                assert(b[0][k] == records.take(b[0].len() as int)[k]);
                if k < n {
                    assert(a[0][k] == records.take(n)[k]);
                }
            }
        }
        lemma_admits_prefix(limits, b[0], n + 1);
    }
}

/// Records have one batching, and no other: whatever meets
/// [`LimitsView::is_batching`] is what the batcher hands out.
pub proof fn lemma_batching_unique(
    limits: LimitsView,
    records: Seq<RecordView>,
    a: Seq<Seq<RecordView>>,
    b: Seq<Seq<RecordView>>,
)
    requires
        limits.is_batching(records, a),
        limits.is_batching(records, b),
    ensures
        a == b,
    decreases a.len(),
{
    if a.len() == 0 || b.len() == 0 {
        if a.len() > 0 {
            assert(a.flatten() == a.first() + a.drop_first().flatten());
        }
        if b.len() > 0 {
            assert(b.flatten() == b.first() + b.drop_first().flatten());
        }
        assert(a =~= b);
    } else {
        lemma_first_batch_not_shorter(limits, records, a, b);
        lemma_first_batch_not_shorter(limits, records, b, a);
        lemma_batching_rest(limits, records, a);
        lemma_batching_rest(limits, records, b);
        lemma_batching_unique(
            limits,
            records.skip(a[0].len() as int),
            a.drop_first(),
            b.drop_first(),
        );
        assert(a =~= seq![a[0]] + a.drop_first());
        assert(b =~= seq![b[0]] + b.drop_first());
    }
}

/// A batching gives the records back in order, and keeps both ceilings in
/// every batch; so no record in it is larger than a batch may be.
pub proof fn lemma_batching_keeps_records_and_ceilings(
    limits: LimitsView,
    records: Seq<RecordView>,
    batches: Seq<Seq<RecordView>>,
)
    requires
        limits.is_batching(records, batches),
    ensures
        batches.flatten() == records,
        forall|i: int|
            0 <= i < batches.len() ==> 1 <= (#[trigger] batches[i]).len() <= limits.max_records
                && total_size(batches[i]) <= limits.max_bytes,
        forall|i: int, k: int|
            #![trigger batches[i][k]]
            0 <= i < batches.len() && 0 <= k < batches[i].len() ==> batches[i][k].metered_size()
                <= limits.max_bytes,
{
    assert forall|i: int, k: int|
        #![trigger batches[i][k]]
        0 <= i < batches.len() && 0 <= k < batches[i].len() implies batches[i][k].metered_size()
            <= limits.max_bytes by {
        lemma_total_size_bounds_each(batches[i], k);
    }
}

} // verus!
