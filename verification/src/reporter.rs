//! The reporter: the buffer with its two flush triggers.
//!
//! The reporter decides; its caller acts. An insert says whether a flush is
//! due, a flush is planned here and written by the caller, and the caller
//! reports back whether the write succeeded. The caller keeps the reporter
//! under one exclusive lock from the planning of a flush to its end.

use crate::buffer::{
    distinct_ids, lemma_distinct_inserts, mapping_of, upsert, upsert_all, ReportBuffer,
};
use crate::config::{batch_threshold_of, effective_interval_of, Config};
use crate::report::{report_of, Report, ReportView, Timestamp};
use crate::request::CoprocessorRequest;
use crate::sink::{encode_reports, file_name, file_name_of, rows_of, FlushPlan};
use vstd::prelude::*;

verus! {

/// Why a flush could not be planned.
#[derive(Debug, Clone, Copy, PartialEq, Eq, Structural)]
pub enum FlushError {
    /// The time of the flush has no date to name the file after.
    FileName,
    /// A buffered record could not be written as a CSV row.
    Record,
}

/// What the periodic ticker is told.
#[derive(Debug, Clone, Copy, PartialEq, Eq, Structural)]
pub enum TickerEvent {
    /// The reporter has just been made.
    Started,
    /// The wait is over.
    Elapsed,
    /// The flush has ended; `true` if it succeeded.
    Flushed(bool),
}

/// What the periodic ticker does next.
#[derive(Debug, Clone, Copy, PartialEq, Eq, Structural)]
pub enum TickerAction {
    /// Wait this many seconds.
    Wait(u64),
    /// Flush the buffer.
    Flush,
}

/// The buffer of reports and the configuration that governs it.
#[derive(Debug)]
pub struct Reporter {
    pub config: Config,
    pub reports: ReportBuffer,
}

/// Whether an insert that leaves `buffered` records asks for a flush: the
/// batch trigger is on and the buffer has reached the batch size.
pub open spec fn flush_due(config: Config, buffered: nat) -> bool {
    match batch_threshold_of(config.batch_size) {
        Some(threshold) => buffered >= threshold,
        None => false,
    }
}

/// What a flush at `now` has to do with these records: nothing if there are
/// none, else append their rows to the file of the day.
pub open spec fn flush_of(entries: Seq<ReportView>, now: Timestamp) -> Result<
    Option<(Seq<char>, Seq<u8>)>,
    FlushError,
> {
    if entries.len() == 0 {
        Ok(None)
    } else {
        match (file_name_of(now), rows_of(entries)) {
            (None, _) => Err(FlushError::FileName),
            (Some(_), None) => Err(FlushError::Record),
            (Some(name), Some(rows)) => Ok(Some((name, rows))),
        }
    }
}

/// The outcome of planning a flush as a mathematical value: a plan is the
/// file's name and the rows.
pub open spec fn outcome_view(outcome: Result<Option<FlushPlan>, FlushError>) -> Result<
    Option<(Seq<char>, Seq<u8>)>,
    FlushError,
> {
    match outcome {
        Ok(Some(plan)) => Ok(Some((plan.file_name@, plan.rows@))),
        Ok(None) => Ok(None),
        Err(e) => Err(e),
    }
}

/// What the ticker does on `event` when flushes are `interval` seconds
/// apart: it waits first, flushes when the wait is over, and waits again
/// after a flush, whether the flush succeeded or not.
pub open spec fn ticker_step(interval: u64, event: TickerEvent) -> TickerAction {
    match event {
        TickerEvent::Started => TickerAction::Wait(effective_interval_of(interval)),
        TickerEvent::Elapsed => TickerAction::Flush,
        TickerEvent::Flushed(_) => TickerAction::Wait(effective_interval_of(interval)),
    }
}

/// With a batch size of `N > 0`, of records with distinct identifiers that go
/// into an empty buffer, the `N`-th is the first whose insert asks for a
/// flush.
pub proof fn lemma_batch_trigger(config: Config, reports: Seq<ReportView>, k: int)
    requires
        distinct_ids(reports),
        0 < config.batch_size <= usize::MAX,
        1 <= k <= reports.len(),
    ensures
        flush_due(config, mapping_of(upsert_all(Seq::empty(), reports.take(k))).len()) == (k
            >= config.batch_size),
{
    let firsts = reports.take(k);
    assert(distinct_ids(firsts)) by {
        assert forall|i: int, j: int| 0 <= i < j < firsts.len() implies (#[trigger] firsts[i]).id
            != (#[trigger] firsts[j]).id by {
            assert(reports[i].id != reports[j].id);
        }
    }
    lemma_distinct_inserts(firsts);
}

/// With a batch size of `0`, no insert asks for a flush, whatever the buffer
/// holds: only the ticker flushes.
pub proof fn lemma_batch_off(config: Config, buffered: nat)
    requires
        config.batch_size == 0,
    ensures
        !flush_due(config, buffered),
{
}

/// `chrono::Utc::now`, read back with `DateTime::timestamp` and
/// `DateTime::timestamp_subsec_nanos`. Trusted only to return; nothing is
/// claimed of the instant. `Utc::now` stops the program if the system clock
/// is set before 1970.
#[verifier::external_body]
fn utc_now() -> (now: Timestamp) {
    let now = chrono::Utc::now();
    Timestamp { secs: now.timestamp(), nanos: now.timestamp_subsec_nanos() }
}

impl Reporter {
    /// A reporter with an empty buffer.
    pub fn new(config: Config) -> (reporter: Reporter)
        ensures
            reporter.config == config,
            reporter.reports@ == Map::<Seq<char>, ReportView>::empty(),
            reporter.reports.entries() == Seq::<ReportView>::empty(),
    {
        Reporter { config, reports: ReportBuffer::new() }
    }

    /// Buffers the report of `request` with `timestamp` as its time of
    /// entry, in place of any report with the same `id`, and says whether a
    /// flush is due: the batch trigger is on and the buffer has reached the
    /// batch size.
    pub fn add_report_at(&mut self, request: CoprocessorRequest, timestamp: Timestamp) -> (due:
        bool)
        ensures
            final(self).config == old(self).config,
            final(self).reports@ == old(self).reports@.insert(
                request.id@,
                report_of(request, timestamp),
            ),
            final(self).reports.entries() == upsert(
                old(self).reports.entries(),
                report_of(request, timestamp),
            ),
            due == flush_due(old(self).config, final(self).reports@.len()),
            old(self).config.batch_size == 0 ==> !due,
    {
        let report = Report::from_request(&request, timestamp);
        self.reports.insert(report);
        let buffered: usize = self.reports.len();
        match self.config.batch_threshold() {
            Some(threshold) => buffered >= threshold,
            None => false,
        }
    }

    /// Buffers the report of `request` with the current time as its time of
    /// entry, and says whether a flush is due.
    pub fn add_report(&mut self, request: CoprocessorRequest) -> (due: bool)
        ensures
            final(self).config == old(self).config,
            exists|timestamp: Timestamp|
                {
                    &&& final(self).reports@ == old(self).reports@.insert(
                        request.id@,
                        #[trigger] report_of(request, timestamp),
                    )
                    &&& final(self).reports.entries() == upsert(
                        old(self).reports.entries(),
                        report_of(request, timestamp),
                    )
                },
            due == flush_due(old(self).config, final(self).reports@.len()),
            old(self).config.batch_size == 0 ==> !due,
    {
        let now = utc_now();
        self.add_report_at(request, now)
    }

    /// Plans the flush of the buffer at `now`, and leaves the buffer as it
    /// is. With an empty buffer there is nothing to do and no file is named.
    /// Otherwise the plan names the file of the UTC date of `now` and holds
    /// one row for each record with a non-empty `id`.
    pub fn process_records_at(&self, now: Timestamp) -> (plan: Result<Option<FlushPlan>, FlushError>)
        ensures
            outcome_view(plan) == flush_of(self.reports.entries(), now),
    {
        if self.reports.is_empty() {
            return Ok(None);
        }
        let name = match file_name(now) {
            Some(name) => name,
            None => {
                return Err(FlushError::FileName);
            },
        };
        match encode_reports(self.reports.records()) {
            Some(rows) => Ok(Some(FlushPlan { file_name: name, rows })),
            None => Err(FlushError::Record),
        }
    }

    /// Plans the flush of the buffer at the current time, and leaves the
    /// buffer as it is.
    pub fn process_records(&self) -> (plan: Result<Option<FlushPlan>, FlushError>)
        ensures
            self.reports.entries().len() == 0 ==> plan == Ok::<Option<FlushPlan>, FlushError>(None),
            exists|now: Timestamp|
                outcome_view(plan) == #[trigger] flush_of(self.reports.entries(), now),
    {
        let now = utc_now();
        self.process_records_at(now)
    }

    /// Ends a flush: empties the buffer if the plan was `written`, and
    /// leaves it as it is if not.
    pub fn finish_flush(&mut self, written: bool)
        ensures
            final(self).config == old(self).config,
            written ==> final(self).reports@ == Map::<Seq<char>, ReportView>::empty(),
            written ==> final(self).reports.entries() == Seq::<ReportView>::empty(),
            !written ==> final(self).reports@ == old(self).reports@,
            !written ==> final(self).reports.entries() == old(self).reports.entries(),
    {
        if written {
            self.reports.clear();
        }
    }
}

/// One step of the periodic ticker: what to do after `event`.
pub fn poll(reporter: &Reporter, event: TickerEvent) -> (action: TickerAction)
    ensures
        action == ticker_step(reporter.config.interval, event),
{
    match event {
        TickerEvent::Started => TickerAction::Wait(reporter.config.effective_interval()),
        TickerEvent::Elapsed => TickerAction::Flush,
        TickerEvent::Flushed(_) => TickerAction::Wait(reporter.config.effective_interval()),
    }
}

} // verus!
