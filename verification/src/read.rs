use vstd::prelude::*;

use crate::flow::Flow;
use crate::verify::{FileStats, StatsModel};

verus! {

/// Totals of a read run, as mathematical values.
pub struct TotalsModel {
    /// Sectors found intact.
    pub secs_ok: nat,
    /// Sectors found corrupted.
    pub secs_corrupted: nat,
    /// Sectors found slightly changed.
    pub secs_changed: nat,
    /// Sectors found overwritten.
    pub secs_overwritten: nat,
    /// Bytes read in all.
    pub bytes_read: nat,
}

impl TotalsModel {
    /// The totals with the counters of one more file.
    pub open spec fn add(self, stats: StatsModel) -> TotalsModel {
        TotalsModel {
            secs_ok: self.secs_ok + stats.secs_ok,
            secs_corrupted: self.secs_corrupted + stats.secs_corrupted,
            secs_changed: self.secs_changed + stats.secs_changed,
            secs_overwritten: self.secs_overwritten + stats.secs_overwritten,
            bytes_read: self.bytes_read + stats.bytes_read,
        }
    }

    /// Sectors whose data is lost: corrupted, changed or overwritten.
    pub open spec fn secs_lost(self) -> nat {
        self.secs_corrupted + self.secs_changed + self.secs_overwritten
    }

    /// Whether every total fits in 64 bits, the lost sectors together too.
    pub open spec fn fits(self) -> bool {
        &&& self.secs_ok <= u64::MAX
        &&& self.secs_lost() <= u64::MAX
        &&& self.bytes_read <= u64::MAX
    }

    /// Whether the bytes read are exactly those of the sectors classified.
    pub open spec fn consistent(self) -> bool {
        self.bytes_read == 512 * (self.secs_ok + self.secs_lost())
    }
}

/// Totals of a read run: the counters of its files added up.
pub struct RunTotals {
    secs_ok: u64,
    secs_corrupted: u64,
    secs_changed: u64,
    secs_overwritten: u64,
    bytes_read: u64,
}

impl View for RunTotals {
    type V = TotalsModel;

    closed spec fn view(&self) -> TotalsModel {
        TotalsModel {
            secs_ok: self.secs_ok as nat,
            secs_corrupted: self.secs_corrupted as nat,
            secs_changed: self.secs_changed as nat,
            secs_overwritten: self.secs_overwritten as nat,
            bytes_read: self.bytes_read as nat,
        }
    }
}

impl RunTotals {
    /// The lost sectors together fit in 64 bits.
    #[verifier::type_invariant]
    closed spec fn wf(self) -> bool {
        self.secs_corrupted + self.secs_changed + self.secs_overwritten <= u64::MAX
    }

    /// Totals of a run that has read no file yet.
    pub fn new() -> (totals: Self)
        ensures
            totals@ == (TotalsModel {
                secs_ok: 0,
                secs_corrupted: 0,
                secs_changed: 0,
                secs_overwritten: 0,
                bytes_read: 0,
            }),
    {
        RunTotals {
            secs_ok: 0,
            secs_corrupted: 0,
            secs_changed: 0,
            secs_overwritten: 0,
            bytes_read: 0,
        }
    }

    /// Whether `add` can take in the counters of one more file.
    pub fn can_add(&self, stats: &FileStats) -> (fits: bool)
        ensures
            fits == self@.add(stats@).fits(),
    {
        proof {
            use_type_invariant(self);
        }
        let lost: u128 = self.secs_corrupted as u128 + self.secs_changed as u128
            + self.secs_overwritten as u128 + stats.secs_corrupted() as u128
            + stats.secs_changed() as u128 + stats.secs_overwritten() as u128;
        stats.secs_ok() <= u64::MAX - self.secs_ok && lost <= u64::MAX as u128
            && stats.bytes_read() <= u64::MAX - self.bytes_read
    }

    /// Adds the counters of one file.
    pub fn add(&mut self, stats: &FileStats)
        requires
            old(self)@.add(stats@).fits(),
        ensures
            final(self)@ == old(self)@.add(stats@),
    {
        *self = RunTotals {
            secs_ok: self.secs_ok + stats.secs_ok(),
            secs_corrupted: self.secs_corrupted + stats.secs_corrupted(),
            secs_changed: self.secs_changed + stats.secs_changed(),
            secs_overwritten: self.secs_overwritten + stats.secs_overwritten(),
            bytes_read: self.bytes_read + stats.bytes_read(),
        };
    }

    /// Sectors found intact.
    pub fn secs_ok(&self) -> (n: u64)
        ensures
            n == self@.secs_ok,
    {
        self.secs_ok
    }

    /// Sectors found corrupted.
    pub fn secs_corrupted(&self) -> (n: u64)
        ensures
            n == self@.secs_corrupted,
    {
        self.secs_corrupted
    }

    /// Sectors found slightly changed.
    pub fn secs_changed(&self) -> (n: u64)
        ensures
            n == self@.secs_changed,
    {
        self.secs_changed
    }

    /// Sectors found overwritten.
    pub fn secs_overwritten(&self) -> (n: u64)
        ensures
            n == self@.secs_overwritten,
    {
        self.secs_overwritten
    }

    /// Bytes read in all.
    pub fn bytes_read(&self) -> (n: u64)
        ensures
            n == self@.bytes_read,
    {
        self.bytes_read
    }

    /// Sectors whose data is lost: corrupted, changed or overwritten.
    pub fn secs_lost(&self) -> (n: u64)
        ensures
            n == self@.secs_lost(),
    {
        proof {
            use_type_invariant(self);
        }
        self.secs_corrupted + self.secs_changed + self.secs_overwritten
    }

    /// Whether the bytes read are exactly those of the sectors classified.
    pub fn is_consistent(&self) -> (consistent: bool)
        ensures
            consistent == self@.consistent(),
    {
        proof {
            use_type_invariant(self);
        }
        let sectors: u128 = self.secs_ok as u128 + self.secs_corrupted as u128
            + self.secs_changed as u128 + self.secs_overwritten as u128;
        self.bytes_read as u128 == 512 * sectors
    }
}

/// Which file number a read run expects next, and whether any was missing,
/// as mathematical values.
pub struct SequenceModel {
    /// Number of the file expected next.
    pub number: int,
    /// Whether any file was not the expected one.
    pub missing: bool,
}

impl SequenceModel {
    /// The sequence after the file `file_num` has turned up: the numbers from
    /// the expected one up to it are missing, and the one behind it is
    /// expected next. A file that is not the expected one counts as a gap
    /// even if its number is lower.
    pub open spec fn advance(self, file_num: int) -> SequenceModel {
        SequenceModel {
            number: if self.number < file_num {
                file_num + 1
            } else {
                self.number + 1
            },
            missing: self.missing || file_num != self.number,
        }
    }
}

/// Follows the numbers of the files of a read run, which come in ascending
/// order, and finds the gaps between them.
pub struct FileSequence {
    number: i64,
    missing: bool,
}

impl View for FileSequence {
    type V = SequenceModel;

    closed spec fn view(&self) -> SequenceModel {
        SequenceModel { number: self.number as int, missing: self.missing }
    }
}

impl FileSequence {
    /// A sequence that expects the file `start_at` first.
    pub fn new(start_at: i64) -> (sequence: Self)
        ensures
            sequence@ == (SequenceModel { number: start_at as int, missing: false }),
    {
        FileSequence { number: start_at, missing: false }
    }

    /// Number of the file expected next.
    pub fn number(&self) -> (number: i64)
        ensures
            number == self@.number,
    {
        self.number
    }

    /// Whether any file was not the expected one.
    pub fn missing(&self) -> (missing: bool)
        ensures
            missing == self@.missing,
    {
        self.missing
    }

    /// Whether `advance` can take in the file `file_num`: the number
    /// expected behind it fits in 64 bits.
    pub fn can_advance(&self, file_num: i64) -> (fits: bool)
        ensures
            fits == (self@.advance(file_num as int).number <= i64::MAX),
    {
        self.number < i64::MAX && file_num < i64::MAX
    }

    /// Takes in the next file found, `file_num`, and returns the numbers that
    /// are missing before it: those from the first of the pair up to, but
    /// not including, the second.
    pub fn advance(&mut self, file_num: i64) -> (gap: (i64, i64))
        requires
            old(self)@.advance(file_num as int).number <= i64::MAX,
        ensures
            final(self)@ == old(self)@.advance(file_num as int),
            gap.0 == old(self)@.number,
            gap.1 == if old(self)@.number < file_num {
                file_num
            } else {
                old(self)@.number as i64
            },
    {
        let first = self.number;
        let end = if self.number < file_num {
            file_num
        } else {
            self.number
        };
        self.missing = self.missing || file_num != self.number;
        self.number = end + 1;
        (first, end)
    }
}

/// The rate in bytes per second that the summary of a read run shows after
/// `total_time_ms` milliseconds: the average of the windows measured where
/// they are enough; else what the open window makes of the whole time; none
/// where no time has passed.
pub open spec fn reading_speed_of(flow: &Flow, total_time_ms: u64) -> Option<int> {
    if flow@.has_enough_measurements() {
        Some(flow@.avg_speed())
    } else if total_time_ms > 0 {
        Some(flow@.avg_speed_given_time(total_time_ms as int))
    } else {
        None
    }
}

/// The rate in bytes per second for the summary of a read run that took
/// `total_time_ms` milliseconds, if there is one to show.
pub fn reading_speed(flow: &Flow, total_time_ms: u64) -> (speed: Option<u64>)
    ensures
        match speed {
            Some(rate) => reading_speed_of(flow, total_time_ms) == Some(rate as int),
            None => reading_speed_of(flow, total_time_ms) is None,
        },
{
    if flow.has_enough_measurements() {
        Some(flow.get_avg_speed())
    } else if total_time_ms > 0 {
        Some(flow.get_avg_speed_given_time(total_time_ms))
    } else {
        None
    }
}

} // verus!
