//! The decisions of the query-log writer: a bounded queue that drops the
//! newest entry when full (and counts it), and batches that grow until they
//! are full, the queue closes or the linger window ends.

use vstd::prelude::*;
use crate::models::CreateQueryLog;

verus! {

/// Queue capacity: deep enough to absorb a burst, small enough that a
/// stalled writer cannot hold an unbounded amount of memory.
pub const QUEUE_CAPACITY: usize = 4096;

/// Most rows written in one transaction.
pub const MAX_BATCH: usize = 256;

/// How long a partial batch waits for more rows, in milliseconds.
pub const LINGER_MS: u64 = 200;

/// Every how many drops a report is due.
pub const DROP_REPORT_INTERVAL: u64 = 1000;

/// Entries discarded because the queue was full.
#[derive(Debug)]
pub struct DropCounter {
    pub dropped: u64,
}

impl DropCounter {
    /// No drop yet.
    pub fn new() -> (c: DropCounter)
        ensures
            c.dropped == 0,
    {
        DropCounter { dropped: 0 }
    }

    /// Counts a drop (wrapping as an atomic counter does) and says whether
    /// a report is due: on the first drop and every `DROP_REPORT_INTERVAL`
    /// drops after it.
    pub fn note_drop(&mut self) -> (report: bool)
        ensures
            final(self).dropped == (if old(self).dropped == u64::MAX {
                0
            } else {
                (old(self).dropped + 1) as u64
            }),
            report == (final(self).dropped % DROP_REPORT_INTERVAL == 1),
    {
        self.dropped = self.dropped.wrapping_add(1);
        self.dropped % DROP_REPORT_INTERVAL == 1
    }

    /// The number of entries dropped so far.
    pub fn dropped_count(&self) -> (n: u64)
        ensures
            n == self.dropped,
    {
        self.dropped
    }
}

/// What happened while a batch waited for more rows.
#[derive(Debug)]
pub enum FillEvent {
    /// Another row arrived.
    Received(CreateQueryLog),
    /// The queue was closed.
    Closed,
    /// The linger window ended.
    LingerOver,
}

/// Rows gathered for one transaction.
#[derive(Debug)]
pub struct LogBatch {
    rows: Vec<CreateQueryLog>,
}

impl LogBatch {
    /// The rows, in arrival order.
    pub closed spec fn rows_view(&self) -> Seq<CreateQueryLog> {
        self.rows@
    }

    /// A batch started by its first row.
    pub fn start(first: CreateQueryLog) -> (b: LogBatch)
        ensures
            b.rows_view() == seq![first],
    {
        let mut rows: Vec<CreateQueryLog> = Vec::new();
        rows.push(first);
        LogBatch { rows }
    }

    /// Whether the batch should wait for more rows: it is not full yet.
    pub fn wants_more(&self) -> (r: bool)
        ensures
            r == (self.rows_view().len() < MAX_BATCH),
    {
        self.rows.len() < MAX_BATCH
    }

    /// Takes what happened while waiting: a row joins the batch; a closed
    /// queue or an ended linger window ends the filling. Returns whether to
    /// keep filling.
    pub fn on_event(&mut self, event: FillEvent) -> (keep: bool)
        ensures
            match event {
                FillEvent::Received(log) => {
                    &&& final(self).rows_view() == old(self).rows_view().push(log)
                    &&& keep == (final(self).rows_view().len() < MAX_BATCH)
                },
                _ => !keep && final(self).rows_view() == old(self).rows_view(),
            },
    {
        match event {
            FillEvent::Received(log) => {
                self.rows.push(log);
                self.rows.len() < MAX_BATCH
            },
            _ => false,
        }
    }

    /// The rows to commit, leaving the batch empty.
    pub fn take(&mut self) -> (rows: Vec<CreateQueryLog>)
        ensures
            rows@ == old(self).rows_view(),
            final(self).rows_view().len() == 0,
    {
        let mut rows: Vec<CreateQueryLog> = Vec::new();
        std::mem::swap(&mut rows, &mut self.rows);
        rows
    }
}

} // verus!
