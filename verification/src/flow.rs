use vstd::prelude::*;

use crate::flow_model::{
    FlowModel, State, BLOCK_SIZE, DELAY_MS, MAX_BLOCKS_PER_DELAY, REPORT_INTERVAL_SECS,
};

verus! {

/// Adaptive flow controller: it calibrates how many blocks are processed
/// between two measurements so that a window takes about `DELAY_MS`, keeps
/// the rate under an optional cap, and keeps the totals of the run.
///
/// The controller reads no clock and touches no file. Its caller processes
/// `get_remaining_chunk_size` bytes and reports them with `measure`; once a
/// window is full the caller flushes the file, takes the time, and hands it
/// to `complete_window`, which says how long to sleep.
pub struct Flow {
    total_size: u64,
    total_processed: u64,
    progress: bool,
    block_size: u64,
    delay_ms: u64,
    step: u64,
    blocks_per_delay: u64,
    /// Rate cap in KiB per second.
    max_rate_kb: Option<u64>,
    measured_blocks: u64,
    measured_time_ms: u64,
    state: State,
    processed_blocks: u64,
    acc_delay_us: u64,
    bpd_low: u64,
    bpd_high: u64,
    last_inst_bps: u64,
}

/// What a progress line shows.
pub struct ProgressReport {
    /// Bytes processed so far.
    pub total_processed: u64,
    /// Bytes to process in all, at least `total_processed`.
    pub total_size: u64,
    /// Rate in bytes per second: the average over the windows measured once
    /// there are enough of them, else the rate of the last window.
    pub speed: u64,
    /// Seconds left at the average rate, where that is known and not zero.
    pub eta_secs: Option<u64>,
}

impl View for Flow {
    type V = FlowModel;

    closed spec fn view(&self) -> FlowModel {
        FlowModel {
            total_size: self.total_size as int,
            total_processed: self.total_processed as int,
            progress: self.progress,
            block_size: self.block_size as int,
            delay_ms: self.delay_ms as int,
            step: self.step as int,
            blocks_per_delay: self.blocks_per_delay as int,
            max_process_rate: match self.max_rate_kb {
                Some(kb) => Some(kb * 1024),
                None => None,
            },
            measured_blocks: self.measured_blocks as int,
            measured_time_ms: self.measured_time_ms as int,
            state: self.state,
            processed_blocks: self.processed_blocks as int,
            acc_delay_us: self.acc_delay_us as int,
            bpd_low: self.bpd_low as int,
            bpd_high: self.bpd_high as int,
            last_inst_bps: self.last_inst_bps as int,
        }
    }
}

impl Flow {
    /// The invariant of the state machine, and the bounds that keep every
    /// step of it within 64 bits.
    #[verifier::type_invariant]
    closed spec fn wf(self) -> bool {
        &&& self@.inv()
        &&& self.blocks_per_delay <= MAX_BLOCKS_PER_DELAY
        &&& self.step <= MAX_BLOCKS_PER_DELAY
        &&& self.state == State::Dec ==> self.blocks_per_delay + self.step <= MAX_BLOCKS_PER_DELAY
            + 1
        &&& self.state == State::Search ==> self.bpd_low <= MAX_BLOCKS_PER_DELAY && self.bpd_high
            <= MAX_BLOCKS_PER_DELAY
        &&& self.measured_blocks * 512_000 <= i64::MAX * self.measured_time_ms
        &&& self.last_inst_bps <= i64::MAX
        &&& self.max_rate_kb matches Some(kb) ==> 1 <= kb <= i64::MAX
    }

    /// A controller for `total_size` bytes that starts with one block per
    /// window. `max_process_rate` is the cap in KiB per second; zero or
    /// less means no cap.
    pub fn new(total_size: u64, max_process_rate: i64, progress: bool) -> (flow: Flow)
        ensures
            flow@ == FlowModel::init(total_size as int, max_process_rate as int, progress),
            flow@.inv(),
    {
        Flow {
            total_size,
            total_processed: 0,
            progress,
            block_size: BLOCK_SIZE,
            delay_ms: DELAY_MS,
            step: 1,
            blocks_per_delay: 1,
            max_rate_kb: if max_process_rate <= 0 {
                None
            } else {
                Some(max_process_rate as u64)
            },
            measured_blocks: 0,
            measured_time_ms: 0,
            state: State::Inc,
            processed_blocks: 0,
            acc_delay_us: 0,
            bpd_low: 0,
            bpd_high: 0,
            last_inst_bps: 0,
        }
    }

    /// Whether enough time has been measured for the average rate to mean
    /// anything: more than one target window.
    pub fn has_enough_measurements(&self) -> (enough: bool)
        ensures
            enough == self@.has_enough_measurements(),
            self@.inv(),
    {
        proof {
            use_type_invariant(self);
        }
        self.measured_time_ms > self.delay_ms
    }

    /// Number of bytes that the caller has to process next: what the open
    /// window still lacks.
    pub fn get_remaining_chunk_size(&self) -> (size: u64)
        requires
            !self@.window_complete(),
        ensures
            size == self@.remaining_chunk_size(),
            size > 0,
            size % BLOCK_SIZE == 0,
            self@.inv(),
    {
        proof {
            use_type_invariant(self);
        }
        let left_blocks: u64 = self.blocks_per_delay - self.processed_blocks;
        left_blocks * self.block_size
    }

    /// Average rate in bytes per second over all the windows measured.
    pub fn get_avg_speed(&self) -> (speed: u64)
        requires
            self@.measured_time_ms > 0,
        ensures
            speed == self@.avg_speed(),
    {
        proof {
            use_type_invariant(self);
        }
        let bytes_k: u128 = self.measured_blocks as u128 * 512_000;
        let speed: u128 = bytes_k / (self.measured_time_ms as u128);
        assert(speed <= i64::MAX) by (nonlinear_arith)
            requires
                bytes_k <= i64::MAX * self.measured_time_ms,
                self.measured_time_ms > 0,
                speed == bytes_k / (self.measured_time_ms as u128),
        ;
        speed as u64
    }

    /// Whether `measure` can take in `processed` more bytes.
    pub fn can_measure(&self, processed: u64) -> (fits: bool)
        ensures
            fits == self@.can_measure(processed as int),
    {
        proof {
            use_type_invariant(self);
        }
        processed % self.block_size == 0 && processed / self.block_size <= self.blocks_per_delay
            - self.processed_blocks && processed <= u64::MAX - self.total_processed
    }

    /// Takes in `processed` more bytes of the open window, and says whether
    /// the window is now full. If it is, the caller flushes the file, takes
    /// the time and calls `complete_window`.
    pub fn measure(&mut self, processed: u64) -> (window_complete: bool)
        requires
            old(self)@.can_measure(processed as int),
        ensures
            final(self)@ == old(self)@.measure(processed as int),
            window_complete == final(self)@.window_complete(),
            final(self)@.inv(),
    {
        proof {
            use_type_invariant(&*self);
        }
        let blocks: u64 = processed / self.block_size;
        *self = Flow {
            processed_blocks: self.processed_blocks + blocks,
            total_processed: self.total_processed + processed,
            ..*self
        };
        self.processed_blocks >= self.blocks_per_delay
    }

    /// Bytes in a full window, times 1000.
    fn bytes_k(&self) -> (bytes_k: u64)
        ensures
            bytes_k == self@.bytes_k(),
            512_000 <= bytes_k <= i64::MAX,
    {
        proof {
            use_type_invariant(self);
        }
        self.blocks_per_delay * self.block_size * 1000
    }

    /// Length in milliseconds of the window that completes after another
    /// `elapsed_us` microseconds.
    fn window_delay(&self, elapsed_us: u64) -> (delay: u64)
        ensures
            delay == self@.window_delay(elapsed_us as int),
            1 <= delay <= 0x0100_0000_0000_0000,
    {
        let total_us: u128 = elapsed_us as u128 + self.acc_delay_us as u128;
        let delay: u64 = (total_us / 1000) as u64;
        if delay == 0 {
            1
        } else {
            delay
        }
    }

    /// Whether `bytes_k / 1000` bytes in `delay` milliseconds is a rate
    /// above the cap.
    fn exceeds_cap(&self, delay: u64, bytes_k: u64) -> (exceeds: bool)
        ensures
            exceeds == self@.exceeds_cap(delay as int, bytes_k as int),
    {
        proof {
            use_type_invariant(self);
        }
        match self.max_rate_kb {
            Some(kb) => {
                let rate: u128 = kb as u128 * 1024;
                match rate.checked_mul(delay as u128) {
                    Some(allowed) => bytes_k as u128 > allowed,
                    None => false,
                }
            },
            None => false,
        }
    }

    /// Whether `bytes_k / 1000` bytes in `delay` milliseconds is a rate
    /// below the cap.
    fn under_cap(&self, delay: u64, bytes_k: u64) -> (under: bool)
        ensures
            under == self@.under_cap(delay as int, bytes_k as int),
    {
        proof {
            use_type_invariant(self);
        }
        match self.max_rate_kb {
            Some(kb) => {
                let rate: u128 = kb as u128 * 1024;
                match rate.checked_mul(delay as u128) {
                    Some(allowed) => (bytes_k as u128) < allowed,
                    None => true,
                }
            },
            None => true,
        }
    }

    fn is_rate_above(&self, delay: u64, bytes_k: u64) -> (above: bool)
        ensures
            above == self@.is_rate_above(delay as int, bytes_k as int),
    {
        delay > self.delay_ms || self.exceeds_cap(delay, bytes_k)
    }

    fn is_rate_below(&self, delay: u64, bytes_k: u64) -> (below: bool)
        ensures
            below == self@.is_rate_below(delay as int, bytes_k as int),
    {
        delay <= self.delay_ms && self.under_cap(delay, bytes_k)
    }

    /// Milliseconds to sleep after a full window that took `delay`
    /// milliseconds.
    fn throttle_wait(&self, delay: u64) -> (wait_ms: u64)
        requires
            1 <= delay,
        ensures
            wait_ms == self@.throttle_wait(delay as int),
            wait_ms <= i64::MAX,
            self@.throttled(delay as int) <==> wait_ms > 0,
    {
        proof {
            use_type_invariant(self);
        }
        if delay >= self.delay_ms {
            return 0;
        }
        match self.max_rate_kb {
            Some(kb) => {
                let rate: u128 = kb as u128 * 1024;
                assert(rate * delay <= 0x0200_0000_0000_0000_0000 * 1000) by (nonlinear_arith)
                    requires
                        0 <= rate <= 0x0200_0000_0000_0000_0000,
                        0 <= delay < 1000,
                ;
                let allowed: u128 = rate * delay as u128;
                let bytes_k: u128 = self.bytes_k() as u128;
                if bytes_k > allowed {
                    // The excess is positive, so the rounded quotient is
                    // never negative, and nothing has to make up for that.
                    let excess: u128 = bytes_k - allowed;
                    let wait: u128 = (2 * excess + rate) / (2 * rate);
                    assert(wait <= excess) by (nonlinear_arith)
                        requires
                            wait == (2 * excess + rate) / (2 * rate),
                            rate >= 1,
                            excess >= 1,
                    ;
                    assert(allowed == delay * (kb * 1024)) by (nonlinear_arith)
                        requires
                            allowed == (kb * 1024) * delay,
                    ;
                    let wait: u64 = wait as u64;
                    if delay + wait < self.delay_ms {
                        wait + 1
                    } else {
                        wait
                    }
                } else {
                    0
                }
            },
            None => 0,
        }
    }

    /// One step up.
    fn inc_step(&mut self)
        requires
            old(self)@.state == State::Inc,
            old(self)@.blocks_per_delay + old(self)@.step <= MAX_BLOCKS_PER_DELAY,
        ensures
            final(self)@ == old(self)@.inc_step(),
    {
        proof {
            use_type_invariant(&*self);
        }
        *self = Flow {
            blocks_per_delay: self.blocks_per_delay + self.step,
            step: self.step * 2,
            ..*self
        };
    }

    /// One step down, or the start of a search from one block.
    fn dec_step(&mut self)
        requires
            old(self)@.state == State::Dec,
            old(self)@.processed_blocks == 0,
        ensures
            final(self)@ == old(self)@.dec_step(),
    {
        proof {
            use_type_invariant(&*self);
        }
        if self.blocks_per_delay > self.step {
            *self = Flow {
                blocks_per_delay: self.blocks_per_delay - self.step,
                step: self.step * 2,
                ..*self
            };
        } else {
            let half: u64 = self.step / 2;
            *self = Flow {
                bpd_high: self.blocks_per_delay,
                bpd_low: if self.blocks_per_delay > half {
                    self.blocks_per_delay - half
                } else {
                    1
                },
                blocks_per_delay: 1,
                state: State::Search,
                ..*self
            };
        }
    }

    /// Moves to the middle of `low` and `high`, and searches between them
    /// unless they are at most 3 apart.
    fn move_to_search(&mut self, low: u64, high: u64)
        requires
            low > 0,
            high >= low,
            high <= MAX_BLOCKS_PER_DELAY,
            old(self)@.state == State::Inc || old(self)@.state == State::Dec,
            old(self)@.processed_blocks == 0,
        ensures
            final(self)@ == old(self)@.move_to_search(low as int, high as int),
    {
        proof {
            use_type_invariant(&*self);
        }
        if high - low <= 3 {
            *self = Flow { blocks_per_delay: (low + high) / 2, state: State::Steady, ..*self };
        } else {
            *self = Flow {
                blocks_per_delay: (low + high) / 2,
                bpd_low: low,
                bpd_high: high,
                state: State::Search,
                ..*self
            };
        }
    }

    /// Adjusts the calibration to a window of `bytes_k / 1000` bytes that
    /// took `delay` milliseconds.
    fn adjust_state(&mut self, bytes_k: u64, delay: u64)
        requires
            old(self)@.processed_blocks == 0,
            old(self)@.adjust_state(bytes_k as int, delay as int).blocks_per_delay
                <= MAX_BLOCKS_PER_DELAY,
        ensures
            final(self)@ == old(self)@.adjust_state(bytes_k as int, delay as int),
    {
        proof {
            use_type_invariant(&*self);
        }
        let above = self.is_rate_above(delay, bytes_k);
        let below = self.is_rate_below(delay, bytes_k);
        match self.state {
            State::Inc => {
                if above {
                    self.move_to_search(
                        self.blocks_per_delay - self.step / 2,
                        self.blocks_per_delay,
                    );
                } else if below {
                    self.inc_step();
                } else {
                    *self = Flow { state: State::Steady, ..*self };
                }
            },
            State::Dec => {
                if above {
                    self.dec_step();
                } else if below {
                    self.move_to_search(
                        self.blocks_per_delay,
                        self.blocks_per_delay + self.step / 2,
                    );
                } else {
                    *self = Flow { state: State::Steady, ..*self };
                }
            },
            State::Search => {
                if self.bpd_high <= self.bpd_low + 3 {
                    *self = Flow { state: State::Steady, ..*self };
                } else if above {
                    *self = Flow {
                        bpd_high: self.blocks_per_delay,
                        blocks_per_delay: (self.bpd_low + self.blocks_per_delay) / 2,
                        ..*self
                    };
                } else if below {
                    *self = Flow {
                        bpd_low: self.blocks_per_delay,
                        blocks_per_delay: (self.blocks_per_delay + self.bpd_high) / 2,
                        ..*self
                    };
                } else {
                    *self = Flow { state: State::Steady, ..*self };
                }
            },
            State::Steady => {
                if delay <= self.delay_ms {
                    if self.under_cap(delay, bytes_k) {
                        *self = Flow { step: 1, state: State::Inc, ..*self };
                        self.inc_step();
                    } else if self.blocks_per_delay > 1 {
                        *self = Flow { step: 1, state: State::Dec, ..*self };
                        self.dec_step();
                    } else {
                        *self = Flow { step: 1, ..*self };
                    }
                } else if self.blocks_per_delay > 1 {
                    *self = Flow { step: 1, state: State::Dec, ..*self };
                    self.dec_step();
                } else {
                    *self = Flow { step: 1, ..*self };
                }
            },
        }
    }

    /// Whether `complete_window` can take in the window that completes after
    /// another `elapsed_us` microseconds.
    pub fn window_fits(&self, elapsed_us: u64) -> (fits: bool)
        ensures
            fits == self@.window_fits(elapsed_us as int),
    {
        proof {
            use_type_invariant(self);
        }
        let delay = self.window_delay(elapsed_us);
        let time: u64 = delay + self.throttle_wait(delay);
        if time > u64::MAX - self.measured_time_ms {
            return false;
        }
        let bytes_k = self.bytes_k();
        let below = self.is_rate_below(time, bytes_k);
        let above = self.is_rate_above(time, bytes_k);
        match self.state {
            State::Inc => above || !below || self.blocks_per_delay + self.step
                <= MAX_BLOCKS_PER_DELAY,
            State::Steady => !below || self.blocks_per_delay + 1 <= MAX_BLOCKS_PER_DELAY,
            State::Dec => true,
            State::Search => true,
        }
    }

    /// Takes in the full window, completed after another `elapsed_us`
    /// microseconds of work: adds it to what has been measured, adjusts the
    /// calibration to it, and opens a new window. Returns the milliseconds
    /// that the caller has to sleep now to keep the rate under the cap;
    /// they count as part of the window.
    pub fn complete_window(&mut self, elapsed_us: u64) -> (wait_ms: u64)
        requires
            old(self)@.window_complete(),
            old(self)@.window_fits(elapsed_us as int),
        ensures
            final(self)@ == old(self)@.complete_window(elapsed_us as int),
            wait_ms == old(self)@.throttle_wait(old(self)@.window_delay(elapsed_us as int)),
            final(self)@.inv(),
            !final(self)@.window_complete(),
    {
        proof {
            use_type_invariant(&*self);
        }
        let delay = self.window_delay(elapsed_us);
        let wait_ms = self.throttle_wait(delay);
        let time: u64 = delay + wait_ms;
        let bytes_k = self.bytes_k();
        *self = Flow {
            measured_blocks: self.measured_blocks + self.processed_blocks,
            measured_time_ms: self.measured_time_ms + time,
            last_inst_bps: bytes_k / time,
            processed_blocks: 0,
            acc_delay_us: 0,
            ..*self
        };
        self.adjust_state(bytes_k, time);
        proof {
            use_type_invariant(&*self);
        }
        wait_ms
    }

    /// Whether `end_measurement` can end a stretch of work after
    /// `elapsed_us` microseconds.
    pub fn can_end_measurement(&self, elapsed_us: u64) -> (fits: bool)
        ensures
            fits == self@.can_end_measurement(elapsed_us as int),
    {
        self.processed_blocks == 0 || elapsed_us <= u64::MAX - self.acc_delay_us
    }

    /// Ends a stretch of work `elapsed_us` microseconds after it started:
    /// if the open window holds anything, the time is carried over to the
    /// next stretch, so that the window is not measured short.
    pub fn end_measurement(&mut self, elapsed_us: u64)
        requires
            old(self)@.can_end_measurement(elapsed_us as int),
        ensures
            final(self)@ == old(self)@.end_measurement(elapsed_us as int),
            final(self)@.inv(),
    {
        proof {
            use_type_invariant(&*self);
        }
        if self.processed_blocks > 0 {
            *self = Flow { acc_delay_us: self.acc_delay_us + elapsed_us, ..*self };
        }
    }

    /// Whether a progress line is due when a stretch of work starts.
    pub fn start_measurement(&self) -> (report: bool)
        ensures
            report == (self@.progress && self@.has_enough_measurements()),
    {
        self.progress && self.has_enough_measurements()
    }

    /// Whether a progress line is due after a window, the last line having
    /// been shown `since_last_report_secs` whole seconds ago.
    pub fn report_due(&self, since_last_report_secs: u64) -> (report: bool)
        ensures
            report == (self@.progress && since_last_report_secs >= REPORT_INTERVAL_SECS),
    {
        self.progress && since_last_report_secs >= REPORT_INTERVAL_SECS
    }

    /// What the next progress line shows. The total is first raised to what
    /// has been processed, should that be more.
    pub fn report_progress(&mut self) -> (report: ProgressReport)
        ensures
            final(self)@ == old(self)@.report_progress(),
            final(self)@.inv(),
            report.total_processed == old(self)@.total_processed,
            report.total_size == final(self)@.total_size,
            report.speed == if old(self)@.has_enough_measurements() {
                old(self)@.avg_speed()
            } else {
                old(self)@.last_inst_bps
            },
            report.eta_secs == if old(self)@.has_enough_measurements() && old(self)@.avg_speed()
                > 0 {
                Some(
                    ((final(self)@.total_size - old(self)@.total_processed) / old(
                        self,
                    )@.avg_speed()) as u64,
                )
            } else {
                None
            },
    {
        proof {
            use_type_invariant(&*self);
        }
        let enough = self.has_enough_measurements();
        let speed: u64 = if enough {
            self.get_avg_speed()
        } else {
            self.last_inst_bps
        };
        if self.total_size < self.total_processed {
            *self = Flow { total_size: self.total_processed, ..*self };
        }
        let eta_secs: Option<u64> = if enough && speed > 0 {
            Some((self.total_size - self.total_processed) / speed)
        } else {
            None
        };
        ProgressReport {
            total_processed: self.total_processed,
            total_size: self.total_size,
            speed,
            eta_secs,
        }
    }

    /// Blocks to process between two measurements.
    pub fn blocks_per_delay(&self) -> (blocks: u64)
        ensures
            blocks == self@.blocks_per_delay,
    {
        self.blocks_per_delay
    }

    /// Calibration state.
    pub fn state(&self) -> (state: State)
        ensures
            state == self@.state,
    {
        self.state
    }

    /// Step that the next increase or decrease moves by.
    pub fn step(&self) -> (step: u64)
        ensures
            step == self@.step,
    {
        self.step
    }

    /// Lower end of the interval searched.
    pub fn bpd_low(&self) -> (low: u64)
        ensures
            low == self@.bpd_low,
    {
        self.bpd_low
    }

    /// Upper end of the interval searched.
    pub fn bpd_high(&self) -> (high: u64)
        ensures
            high == self@.bpd_high,
    {
        self.bpd_high
    }

    /// Blocks processed in the open window.
    pub fn processed_blocks(&self) -> (blocks: u64)
        ensures
            blocks == self@.processed_blocks,
    {
        self.processed_blocks
    }

    /// Bytes processed so far.
    pub fn total_processed(&self) -> (bytes: u64)
        ensures
            bytes == self@.total_processed,
    {
        self.total_processed
    }

    /// Bytes to process in all.
    pub fn total_size(&self) -> (bytes: u64)
        ensures
            bytes == self@.total_size,
    {
        self.total_size
    }

    /// Blocks in all the windows measured so far.
    pub fn measured_blocks(&self) -> (blocks: u64)
        ensures
            blocks == self@.measured_blocks,
    {
        self.measured_blocks
    }

    /// Length in milliseconds of all the windows measured so far.
    pub fn measured_time_ms(&self) -> (ms: u64)
        ensures
            ms == self@.measured_time_ms,
    {
        self.measured_time_ms
    }

    /// Time in microseconds carried over into the open window.
    pub fn acc_delay_us(&self) -> (us: u64)
        ensures
            us == self@.acc_delay_us,
    {
        self.acc_delay_us
    }

    /// Rate cap in KiB per second, if there is one.
    pub fn max_process_rate_kb(&self) -> (cap: Option<u64>)
        ensures
            match cap {
                Some(kb) => self@.max_process_rate == Some(kb * 1024),
                None => self@.max_process_rate is None,
            },
    {
        self.max_rate_kb
    }

    /// Rate in bytes per second of the open window, had it taken
    /// `total_time_ms` milliseconds so far; zero for no time at all.
    pub fn get_avg_speed_given_time(&self, total_time_ms: u64) -> (speed: u64)
        ensures
            speed == self@.avg_speed_given_time(total_time_ms as int),
    {
        proof {
            use_type_invariant(self);
        }
        if total_time_ms > 0 {
            let bytes_k: u64 = self.processed_blocks * self.block_size * 1000;
            bytes_k / total_time_ms
        } else {
            0
        }
    }
}


/// Length in bytes of a scratch buffer that has not grown yet.
pub const DEFAULT_BUF_SIZE: usize = 2 * 1024 * 1024;

/// `Vec::as_mut_slice`: the vector's elements as one mutable slice. Whatever
/// is written through the slice is what the vector holds afterwards, and a
/// slice cannot change its length.
#[verifier::external_body]
fn whole_slice(bytes: &mut Vec<u8>) -> (slice: &mut [u8])
    ensures
        slice@ == old(bytes)@,
        final(slice)@ == final(bytes)@,
        final(slice)@.len() == slice@.len(),
{
    bytes.as_mut_slice()
}

/// Scratch buffer that is reused between calls: it grows at most once, to the
/// first size asked for that it cannot hold, and never shrinks.
pub struct DynamicBuffer {
    buf: Vec<u8>,
    max_buf: bool,
}

impl View for DynamicBuffer {
    type V = Seq<u8>;

    closed spec fn view(&self) -> Seq<u8> {
        self.buf@
    }
}

impl DynamicBuffer {
    /// Whether the buffer has grown already, and so will not grow again.
    pub closed spec fn is_max(&self) -> bool {
        self.max_buf
    }

    /// Whether a request for `size` bytes makes the buffer grow.
    pub open spec fn grows(&self, size: usize) -> bool {
        size > self@.len() && !self.is_max()
    }

    /// The bytes held once `size` bytes have been asked for: as before, with
    /// zeros behind them up to `size` where the buffer grows.
    pub open spec fn content_for(&self, size: usize) -> Seq<u8> {
        if self.grows(size) {
            self@ + Seq::new((size - self@.len()) as nat, |i: int| 0u8)
        } else {
            self@
        }
    }

    /// A buffer of `DEFAULT_BUF_SIZE` zero bytes that has not grown yet.
    pub fn new() -> (dbuf: Self)
        ensures
            dbuf@ == Seq::new(DEFAULT_BUF_SIZE as nat, |i: int| 0u8),
            !dbuf.is_max(),
    {
        let dbuf = Self { buf: vec![0u8; DEFAULT_BUF_SIZE], max_buf: false };
        dbuf
    }

    /// Hands out the whole buffer, after growing it to exactly `size` bytes if
    /// it is shorter than that and has never grown before.
    pub fn get_buf(&mut self, size: usize) -> (buf: &mut [u8])
        ensures
            buf@ == old(self).content_for(size),
            final(self)@ == final(buf)@,
            final(self).is_max() == (old(self).is_max() || old(self).grows(size)),
            final(self)@.len() == buf@.len() >= old(self)@.len(),
    {
        if size <= self.get_len() || self.max_buf {
            return whole_slice(&mut self.buf);
        }
        self.buf.resize(size, 0);
        self.max_buf = true;
        whole_slice(&mut self.buf)
    }

    /// Current length of the buffer in bytes.
    pub fn get_len(&self) -> (len: usize)
        ensures
            len == self@.len(),
    {
        self.buf.len()
    }

    /// Gives up the buffer for the bytes it holds.
    pub fn into_inner(self) -> (bytes: Vec<u8>)
        ensures
            bytes@ == self@,
    {
        self.buf
    }
}

} // verus!
