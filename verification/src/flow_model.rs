use vstd::prelude::*;

verus! {

/// Size in bytes of the blocks in which the controller counts.
pub const BLOCK_SIZE: u64 = 512;

/// Length in milliseconds that a measurement window is calibrated to.
pub const DELAY_MS: u64 = 1000;

/// Shortest time in seconds between two progress lines.
pub const REPORT_INTERVAL_SECS: u64 = 1;

/// Largest number of blocks per window: with more of them the number of
/// bytes in a window, times 1000, leaves the range of a signed 64-bit integer.
pub const MAX_BLOCKS_PER_DELAY: u64 = 18_014_398_509_481;

/// How the controller is looking for the number of blocks per window.
#[derive(Clone, Copy, PartialEq, Eq, Debug, Structural)]
pub enum State {
    /// Growing by a step that doubles each time.
    Inc,
    /// Shrinking by a step that doubles each time.
    Dec,
    /// Halving the interval between `bpd_low` and `bpd_high`.
    Search,
    /// Calibrated; only single steps up or down.
    Steady,
}

/// The controller as a mathematical value: the state machine is defined on
/// it, free of any machine limit.
pub struct FlowModel {
    /// Total number of bytes to be processed.
    pub total_size: int,
    /// Total number of bytes already processed.
    pub total_processed: int,
    /// Whether progress is shown.
    pub progress: bool,
    /// Size of a block in bytes.
    pub block_size: int,
    /// Target length of a window in milliseconds.
    pub delay_ms: int,
    /// Increment or decrement to apply to `blocks_per_delay`.
    pub step: int,
    /// Blocks to process before the next measurement.
    pub blocks_per_delay: int,
    /// Rate cap in bytes per second; `None` where there is none.
    pub max_process_rate: Option<int>,
    /// Blocks in all the windows measured so far.
    pub measured_blocks: int,
    /// Length in milliseconds of all the windows measured so far.
    pub measured_time_ms: int,
    /// Calibration state.
    pub state: State,
    /// Blocks processed in the window that is open.
    pub processed_blocks: int,
    /// Time in microseconds that the open window has taken before the
    /// current stretch of work.
    pub acc_delay_us: int,
    /// Lower end of the interval searched.
    pub bpd_low: int,
    /// Upper end of the interval searched.
    pub bpd_high: int,
    /// Rate of the last window in bytes per second, rounded down.
    pub last_inst_bps: int,
}

/// The larger of two integers.
pub open spec fn max_int(a: int, b: int) -> int {
    if a >= b {
        a
    } else {
        b
    }
}

/// `n / d` rounded to the nearest integer, halves away from zero.
pub open spec fn round_div(n: int, d: int) -> int
    recommends
        d > 0,
{
    if n >= 0 {
        (2 * n + d) / (2 * d)
    } else {
        -((2 * (-n) + d) / (2 * d))
    }
}

impl FlowModel {
    /// The controller before any work: one block per window, growing.
    pub open spec fn init(total_size: int, max_process_rate_kb: int, progress: bool) -> FlowModel {
        FlowModel {
            total_size,
            total_processed: 0,
            progress,
            block_size: BLOCK_SIZE as int,
            delay_ms: DELAY_MS as int,
            step: 1,
            blocks_per_delay: 1,
            max_process_rate: if max_process_rate_kb <= 0 {
                None
            } else {
                Some(max_process_rate_kb * 1024)
            },
            measured_blocks: 0,
            measured_time_ms: 0,
            state: State::Inc,
            processed_blocks: 0,
            acc_delay_us: 0,
            bpd_low: 0,
            bpd_high: 0,
            last_inst_bps: 0,
        }
    }

    /// What holds of the controller at all times.
    pub open spec fn inv(self) -> bool {
        &&& self.block_size == BLOCK_SIZE
        &&& self.delay_ms == DELAY_MS
        &&& 0 <= self.total_size
        &&& 1 <= self.step
        &&& 1 <= self.blocks_per_delay
        &&& 0 <= self.processed_blocks <= self.blocks_per_delay
        &&& 0 <= self.measured_blocks
        &&& 0 <= self.measured_time_ms
        &&& (self.measured_blocks + self.processed_blocks) * self.block_size
            == self.total_processed
        &&& 0 <= self.acc_delay_us
        &&& 0 <= self.last_inst_bps
        &&& self.max_process_rate matches Some(rate) ==> rate >= 1
        &&& self.state == State::Inc ==> self.step <= self.blocks_per_delay
        &&& self.state == State::Search ==> 1 <= self.bpd_low && 1 <= self.bpd_high
    }

    /// Whether the number of blocks per window is the middle of the
    /// interval searched.
    pub open spec fn centered(self) -> bool {
        &&& self.bpd_low <= self.bpd_high
        &&& self.blocks_per_delay == (self.bpd_low + self.bpd_high) / 2
    }

    /// Width of the interval searched.
    pub open spec fn width(self) -> int {
        self.bpd_high - self.bpd_low
    }

    /// Whether the open window holds all its blocks.
    pub open spec fn window_complete(self) -> bool {
        self.processed_blocks == self.blocks_per_delay
    }

    /// Bytes that the open window still lacks.
    pub open spec fn remaining_chunk_size(self) -> int {
        (self.blocks_per_delay - self.processed_blocks) * self.block_size
    }

    /// Bytes in a full window, times 1000: divided by a time in
    /// milliseconds this is a rate in bytes per second.
    pub open spec fn bytes_k(self) -> int {
        self.blocks_per_delay * self.block_size * 1000
    }

    /// Whether enough time has been measured for an average to mean anything.
    pub open spec fn has_enough_measurements(self) -> bool {
        self.measured_time_ms > self.delay_ms
    }

    /// Average rate in bytes per second over all the windows measured.
    pub open spec fn avg_speed(self) -> int
        recommends
            self.measured_time_ms > 0,
    {
        (self.measured_blocks * self.block_size * 1000) / self.measured_time_ms
    }

    /// Rate in bytes per second of the open window, had it taken
    /// `total_time_ms` so far; zero for no time at all.
    pub open spec fn avg_speed_given_time(self, total_time_ms: int) -> int {
        if total_time_ms > 0 {
            (self.processed_blocks * self.block_size * 1000) / total_time_ms
        } else {
            0
        }
    }

    /// Whether `bytes_k / 1000` bytes in `delay` milliseconds is a rate
    /// above the cap; never, where there is no cap.
    pub open spec fn exceeds_cap(self, delay: int, bytes_k: int) -> bool {
        match self.max_process_rate {
            Some(rate) => bytes_k > rate * delay,
            None => false,
        }
    }

    /// Whether `bytes_k / 1000` bytes in `delay` milliseconds is a rate
    /// below the cap; always, where there is no cap.
    pub open spec fn under_cap(self, delay: int, bytes_k: int) -> bool {
        match self.max_process_rate {
            Some(rate) => bytes_k < rate * delay,
            None => true,
        }
    }

    /// The window overshot: it took longer than the target, or its rate is
    /// above the cap.
    pub open spec fn is_rate_above(self, delay: int, bytes_k: int) -> bool {
        delay > self.delay_ms || self.exceeds_cap(delay, bytes_k)
    }

    /// There is room for more work per window: it stayed within the target,
    /// and its rate is below the cap.
    pub open spec fn is_rate_below(self, delay: int, bytes_k: int) -> bool {
        delay <= self.delay_ms && self.under_cap(delay, bytes_k)
    }

    /// One step up: the step is added and then doubled.
    pub open spec fn inc_step(self) -> FlowModel {
        FlowModel {
            blocks_per_delay: self.blocks_per_delay + self.step,
            step: self.step * 2,
            ..self
        }
    }

    /// One step down: the step is taken off and then doubled, as long as
    /// something is left; else the search starts from one block.
    pub open spec fn dec_step(self) -> FlowModel {
        if self.blocks_per_delay - self.step > 0 {
            FlowModel {
                blocks_per_delay: self.blocks_per_delay - self.step,
                step: self.step * 2,
                ..self
            }
        } else {
            FlowModel {
                bpd_high: max_int(self.blocks_per_delay, 1),
                bpd_low: max_int(self.blocks_per_delay - self.step / 2, 1),
                blocks_per_delay: 1,
                state: State::Search,
                ..self
            }
        }
    }

    /// Moves to the middle of `low` and `high`, and searches between them
    /// unless they are at most 3 apart.
    pub open spec fn move_to_search(self, low: int, high: int) -> FlowModel
        recommends
            low > 0,
            high >= low,
    {
        if high - low <= 3 {
            FlowModel { blocks_per_delay: (low + high) / 2, state: State::Steady, ..self }
        } else {
            FlowModel {
                blocks_per_delay: (low + high) / 2,
                bpd_low: low,
                bpd_high: high,
                state: State::Search,
                ..self
            }
        }
    }

    /// The calibration after a window of `bytes_k / 1000` bytes that took
    /// `delay` milliseconds.
    pub open spec fn adjust_state(self, bytes_k: int, delay: int) -> FlowModel {
        let above = self.is_rate_above(delay, bytes_k);
        let below = self.is_rate_below(delay, bytes_k);
        match self.state {
            State::Inc => {
                if above {
                    self.move_to_search(
                        self.blocks_per_delay - self.step / 2,
                        self.blocks_per_delay,
                    )
                } else if below {
                    self.inc_step()
                } else {
                    FlowModel { state: State::Steady, ..self }
                }
            },
            State::Dec => {
                if above {
                    self.dec_step()
                } else if below {
                    self.move_to_search(
                        self.blocks_per_delay,
                        self.blocks_per_delay + self.step / 2,
                    )
                } else {
                    FlowModel { state: State::Steady, ..self }
                }
            },
            State::Search => {
                if self.bpd_high - self.bpd_low <= 3 {
                    FlowModel { state: State::Steady, ..self }
                } else if above {
                    FlowModel {
                        bpd_high: self.blocks_per_delay,
                        blocks_per_delay: (self.bpd_low + self.blocks_per_delay) / 2,
                        ..self
                    }
                } else if below {
                    FlowModel {
                        bpd_low: self.blocks_per_delay,
                        blocks_per_delay: (self.blocks_per_delay + self.bpd_high) / 2,
                        ..self
                    }
                } else {
                    FlowModel { state: State::Steady, ..self }
                }
            },
            State::Steady => {
                let reset = FlowModel { step: 1, ..self };
                if delay <= self.delay_ms {
                    if self.under_cap(delay, bytes_k) {
                        (FlowModel { state: State::Inc, ..reset }).inc_step()
                    } else if self.blocks_per_delay > 1 {
                        (FlowModel { state: State::Dec, ..reset }).dec_step()
                    } else {
                        reset
                    }
                } else if self.blocks_per_delay > 1 {
                    (FlowModel { state: State::Dec, ..reset }).dec_step()
                } else {
                    reset
                }
            },
        }
    }

    /// Length in milliseconds of the window that completes after another
    /// `elapsed_us` microseconds: at least one.
    pub open spec fn window_delay(self, elapsed_us: int) -> int {
        max_int((elapsed_us + self.acc_delay_us) / 1000, 1)
    }

    /// Whether a full window that took `delay` milliseconds is slowed down:
    /// there is a cap, the window was shorter than the target, and faster
    /// than the cap.
    pub open spec fn throttled(self, delay: int) -> bool {
        delay < self.delay_ms && self.exceeds_cap(delay, self.bytes_k())
    }

    /// Milliseconds to sleep after a full window that took `delay`
    /// milliseconds, so that it does not exceed the cap.
    ///
    /// The time that brings the rate down to the cap is the excess of the
    /// window's bytes (times 1000) over what the cap allows in `delay`,
    /// divided by the cap and rounded. One more millisecond is added where
    /// the window then still ends before the target, so that the calibration
    /// keeps growing the window. A negative quotient would be replaced by
    /// the time that the window lacks to the target; `lemma_throttle_keeps_cap`
    /// shows that the quotient of a window that is slowed down is never
    /// negative.
    pub open spec fn throttle_wait(self, delay: int) -> int {
        match self.max_process_rate {
            Some(rate) if self.throttled(delay) => {
                let wait = round_div(self.bytes_k() - delay * rate, rate);
                if wait < 0 {
                    self.delay_ms - delay
                } else if delay + wait < self.delay_ms {
                    wait + 1
                } else {
                    wait
                }
            },
            _ => 0,
        }
    }

    /// Length in milliseconds, sleep included, that is measured for the
    /// window that completes after another `elapsed_us` microseconds.
    pub open spec fn window_time(self, elapsed_us: int) -> int {
        let delay = self.window_delay(elapsed_us);
        delay + self.throttle_wait(delay)
    }

    /// Whether `processed` more bytes can be taken into the open window: they
    /// are whole blocks, the window has room for them, and the bytes
    /// processed in all stay within 64 bits.
    pub open spec fn can_measure(self, processed: int) -> bool {
        &&& processed % self.block_size == 0
        &&& self.processed_blocks + processed / self.block_size <= self.blocks_per_delay
        &&& self.total_processed + processed <= u64::MAX
    }

    /// Whether the window that completes after another `elapsed_us`
    /// microseconds can be taken in: the time measured stays within 64 bits,
    /// and the number of blocks per window within `MAX_BLOCKS_PER_DELAY`.
    pub open spec fn window_fits(self, elapsed_us: int) -> bool {
        &&& self.measured_time_ms + self.window_time(elapsed_us) <= u64::MAX
        &&& self.complete_window(elapsed_us).blocks_per_delay <= MAX_BLOCKS_PER_DELAY
    }

    /// Whether a stretch of work can end after `elapsed_us` microseconds:
    /// the time carried over stays within 64 bits.
    pub open spec fn can_end_measurement(self, elapsed_us: int) -> bool {
        self.end_measurement(elapsed_us).acc_delay_us <= u64::MAX
    }

    /// The controller after `processed` more bytes in the open window.
    pub open spec fn measure(self, processed: int) -> FlowModel {
        FlowModel {
            processed_blocks: self.processed_blocks + processed / self.block_size,
            total_processed: self.total_processed + processed,
            ..self
        }
    }

    /// The controller after the full window, completed after another
    /// `elapsed_us` microseconds, has been measured: the totals take the
    /// window in, the calibration is adjusted to it, and a new window opens.
    pub open spec fn complete_window(self, elapsed_us: int) -> FlowModel {
        let time = self.window_time(elapsed_us);
        let measured = FlowModel {
            measured_blocks: self.measured_blocks + self.processed_blocks,
            measured_time_ms: self.measured_time_ms + time,
            last_inst_bps: self.bytes_k() / time,
            processed_blocks: 0,
            acc_delay_us: 0,
            ..self
        };
        measured.adjust_state(self.bytes_k(), time)
    }

    /// The controller after work stopped `elapsed_us` microseconds into a
    /// stretch: the time is carried over if the open window holds anything.
    pub open spec fn end_measurement(self, elapsed_us: int) -> FlowModel {
        if self.processed_blocks > 0 {
            FlowModel { acc_delay_us: self.acc_delay_us + elapsed_us, ..self }
        } else {
            self
        }
    }

    /// Whether a window that completes after another `elapsed_us`
    /// microseconds can be held to the cap: it is shorter than the target, so
    /// that a sleep may lengthen it, or no faster than the cap as it is. A
    /// window that takes the target time or longer and still is faster than
    /// the cap cannot; the calibration shrinks the windows after it.
    pub open spec fn can_hold_cap(self, elapsed_us: int) -> bool {
        let delay = self.window_delay(elapsed_us);
        delay < self.delay_ms || !self.exceeds_cap(delay, self.bytes_k())
    }

    /// What the window that completes after another `elapsed_us` microseconds
    /// adds to the slack of the run, in halves of a millisecond of the cap.
    /// A window that is not slowed down adds nothing. One that is slowed down
    /// takes one off where it is lengthened by the extra millisecond, and
    /// adds one where it is not, which is where it reaches the target.
    pub open spec fn cap_slack(self, elapsed_us: int) -> int {
        let delay = self.window_delay(elapsed_us);
        match self.max_process_rate {
            Some(rate) if self.throttled(delay) => {
                if delay + round_div(self.bytes_k() - delay * rate, rate) < self.delay_ms {
                    -1
                } else {
                    1
                }
            },
            _ => 0,
        }
    }

    /// Whether all that has been measured, in `windows` windows, is within
    /// the cap but for what the cap lets through in half a millisecond per
    /// window.
    pub open spec fn average_within_cap(self, windows: int) -> bool {
        self.max_process_rate matches Some(rate) ==> 2 * (self.measured_blocks * self.block_size
            * 1000) <= rate * (2 * self.measured_time_ms + windows)
    }

    /// The controller after a progress report: the total is raised to what
    /// has been processed, should that be more.
    pub open spec fn report_progress(self) -> FlowModel {
        FlowModel { total_size: max_int(self.total_size, self.total_processed), ..self }
    }
}

/// A new controller meets the invariant, and has measured nothing that
/// could exceed the cap.
pub proof fn lemma_init_inv(total_size: int, max_process_rate_kb: int, progress: bool)
    requires
        0 <= total_size,
    ensures
        FlowModel::init(total_size, max_process_rate_kb, progress).inv(),
        FlowModel::init(total_size, max_process_rate_kb, progress).average_within_cap(0),
{
}

/// Taking in whole blocks that the open window has room for keeps the
/// invariant: the blocks processed never exceed the blocks per window.
pub proof fn lemma_measure_inv(m: FlowModel, processed: int)
    requires
        m.inv(),
        0 <= processed,
        m.can_measure(processed),
    ensures
        m.measure(processed).inv(),
{
    assert(processed == 512 * (processed / 512));
}

/// Adjusting the calibration of a controller whose window is empty keeps
/// the invariant, whatever the window measured.
pub proof fn lemma_adjust_state_inv(m: FlowModel, bytes_k: int, delay: int)
    requires
        m.inv(),
        m.processed_blocks == 0,
    ensures
        m.adjust_state(bytes_k, delay).inv(),
        m.adjust_state(bytes_k, delay).processed_blocks == 0,
{
}

/// The sleep after a window that is slowed down is at least one
/// millisecond. It is the rounded time that brings the rate down to the cap,
/// and one millisecond more exactly where the window would else still end
/// before the target. It is long enough: over the window and the sleep
/// together the rate exceeds the cap by less than what the cap lets through
/// in half a millisecond. Where the window is lengthened by the extra
/// millisecond, the rate is below the cap by more than that.
pub proof fn lemma_throttle_keeps_cap(m: FlowModel, delay: int)
    requires
        m.inv(),
        1 <= delay,
        m.throttled(delay),
    ensures
        ({
            let rate = m.max_process_rate->0;
            let wait = m.throttle_wait(delay);
            let rounded = round_div(m.bytes_k() - delay * rate, rate);
            &&& wait >= 1
            &&& rounded >= 0
            &&& wait == if delay + rounded < m.delay_ms {
                rounded + 1
            } else {
                rounded
            }
            &&& 2 * m.bytes_k() <= rate * (2 * (delay + wait) + 1)
            &&& wait > rounded ==> 2 * m.bytes_k() + rate < 2 * rate * (delay + wait)
        }),
{
    let rate = m.max_process_rate->0;
    let excess = m.bytes_k() - delay * rate;
    let rounded = round_div(excess, rate);
    assert(excess >= 1) by (nonlinear_arith)
        requires
            m.bytes_k() > rate * delay,
            excess == m.bytes_k() - delay * rate,
    ;
    lemma_round_div_bounds(excess, rate);
    let wait = m.throttle_wait(delay);
    assert(rate * (2 * (delay + wait) + 1) >= 2 * m.bytes_k()) by (nonlinear_arith)
        requires
            wait >= rounded,
            rate >= 1,
            2 * rate * rounded + rate >= 2 * excess,
            excess == m.bytes_k() - delay * rate,
    ;
    if wait > rounded {
        assert(2 * m.bytes_k() + rate < 2 * rate * (delay + wait)) by (nonlinear_arith)
            requires
                wait == rounded + 1,
                rate >= 1,
                2 * excess < 2 * rate * rounded + rate,
                excess == m.bytes_k() - delay * rate,
        ;
    }
}

/// A quotient rounded to the nearest integer, multiplied back, is within
/// half of the divisor of the dividend.
pub proof fn lemma_round_div_bounds(n: int, d: int)
    requires
        n >= 0,
        d >= 1,
    ensures
        round_div(n, d) >= 0,
        2 * d * round_div(n, d) - d <= 2 * n < 2 * d * round_div(n, d) + d,
{
    let q = (2 * n + d) / (2 * d);
    vstd::arithmetic::div_mod::lemma_fundamental_div_mod(2 * n + d, 2 * d);
    vstd::arithmetic::div_mod::lemma_mod_bound(2 * n + d, 2 * d);
    vstd::arithmetic::div_mod::lemma_div_pos_is_pos(2 * n + d, 2 * d);
    assert(2 * d * q == (2 * d) * q) by (nonlinear_arith);
}

/// A full window that the controller can hold to the cap, because it was
/// shorter than the target or no faster than the cap to begin with, is
/// measured at a rate that exceeds the cap by less than what the cap lets
/// through in half a millisecond.
pub proof fn lemma_window_within_cap(m: FlowModel, elapsed_us: int)
    requires
        m.inv(),
        0 <= elapsed_us,
        m.max_process_rate is Some,
        m.can_hold_cap(elapsed_us),
    ensures
        2 * m.bytes_k() <= m.max_process_rate->0 * (2 * m.window_time(elapsed_us) + 1),
{
    let rate = m.max_process_rate->0;
    let delay = m.window_delay(elapsed_us);
    if m.throttled(delay) {
        lemma_throttle_keeps_cap(m, delay);
    } else {
        assert(2 * m.bytes_k() <= rate * (2 * delay + 1)) by (nonlinear_arith)
            requires
                m.bytes_k() <= rate * delay,
                rate >= 1,
        ;
    }
}

/// A window that can be held to the cap is within it but for its slack;
/// slack is left only by a window that lasts the target or longer.
pub proof fn lemma_window_cap_slack(m: FlowModel, elapsed_us: int)
    requires
        m.inv(),
        0 <= elapsed_us,
        m.max_process_rate is Some,
        m.can_hold_cap(elapsed_us),
    ensures
        2 * m.bytes_k() <= m.max_process_rate->0 * (2 * m.window_time(elapsed_us) + m.cap_slack(
            elapsed_us,
        )),
        m.cap_slack(elapsed_us) == 1 ==> m.window_time(elapsed_us) >= m.delay_ms,
{
    let rate = m.max_process_rate->0;
    let delay = m.window_delay(elapsed_us);
    if m.throttled(delay) {
        lemma_throttle_keeps_cap(m, delay);
        let wait = m.throttle_wait(delay);
        if m.cap_slack(elapsed_us) == -1 {
            assert(2 * m.bytes_k() <= rate * (2 * (delay + wait) + -1)) by (nonlinear_arith)
                requires
                    2 * m.bytes_k() + rate < 2 * rate * (delay + wait),
            ;
        }
    } else {
        assert(2 * m.bytes_k() <= rate * (2 * delay + 0)) by (nonlinear_arith)
            requires
                m.bytes_k() <= rate * delay,
        ;
    }
}

/// The rate cap over a run, window by window: as long as every window can
/// be held to the cap, all that has been measured stays within the cap but
/// for the slack that the windows have left, each window counted by
/// `cap_slack`.
pub proof fn lemma_run_cap_slack(m: FlowModel, elapsed_us: int, slack: int)
    requires
        m.inv(),
        m.window_complete(),
        0 <= elapsed_us,
        m.max_process_rate is Some,
        m.can_hold_cap(elapsed_us),
        m.average_within_cap(slack),
    ensures
        m.complete_window(elapsed_us).average_within_cap(slack + m.cap_slack(elapsed_us)),
{
    lemma_window_cap_slack(m, elapsed_us);
    lemma_complete_window_inv(m, elapsed_us);
    let rate = m.max_process_rate->0;
    let time = m.window_time(elapsed_us);
    let next = m.complete_window(elapsed_us);
    let added = m.cap_slack(elapsed_us);
    assert(next.measured_blocks * next.block_size * 1000 == m.measured_blocks * m.block_size
        * 1000 + m.bytes_k());
    assert(rate * (2 * (m.measured_time_ms + time) + (slack + added)) == rate * (2
        * m.measured_time_ms + slack) + rate * (2 * time + added)) by (nonlinear_arith);
}

/// The rate cap over a run: as long as every window can be held to the cap,
/// all that has been measured stays within the cap but for what the cap lets
/// through in half a millisecond per window.
pub proof fn lemma_average_within_cap(m: FlowModel, elapsed_us: int, windows: int)
    requires
        m.inv(),
        m.window_complete(),
        0 <= elapsed_us,
        m.max_process_rate is Some,
        m.can_hold_cap(elapsed_us),
        m.average_within_cap(windows),
    ensures
        m.complete_window(elapsed_us).average_within_cap(windows + 1),
        m.complete_window(elapsed_us).max_process_rate == m.max_process_rate,
{
    lemma_window_within_cap(m, elapsed_us);
    lemma_complete_window_inv(m, elapsed_us);
    let rate = m.max_process_rate->0;
    let time = m.window_time(elapsed_us);
    let next = m.complete_window(elapsed_us);
    assert(next.measured_blocks * next.block_size * 1000 == m.measured_blocks * m.block_size
        * 1000 + m.bytes_k());
    assert(rate * (2 * (m.measured_time_ms + time) + (windows + 1)) == rate * (2
        * m.measured_time_ms + windows) + rate * (2 * time + 1)) by (nonlinear_arith);
}

/// While the controller grows and a window leaves room, by staying within
/// the target and under the cap, the number of blocks per window strictly
/// increases: by the step, which doubles.
pub proof fn lemma_inc_grows(m: FlowModel, bytes_k: int, delay: int)
    requires
        m.inv(),
        m.state == State::Inc,
        m.is_rate_below(delay, bytes_k),
    ensures
        ({
            let next = m.adjust_state(bytes_k, delay);
            &&& next.state == State::Inc
            &&& next.blocks_per_delay == m.blocks_per_delay + m.step
            &&& next.blocks_per_delay > m.blocks_per_delay
            &&& next.step == 2 * m.step
        }),
{
}

/// The calibration after a full window is the one that `adjust_state` gives
/// for the bytes of the window and the time measured for it.
pub proof fn lemma_window_calibration(m: FlowModel, elapsed_us: int)
    ensures
        ({
            let next = m.complete_window(elapsed_us);
            let adjusted = m.adjust_state(m.bytes_k(), m.window_time(elapsed_us));
            &&& next.state == adjusted.state
            &&& next.blocks_per_delay == adjusted.blocks_per_delay
            &&& next.step == adjusted.step
            &&& next.bpd_low == adjusted.bpd_low
            &&& next.bpd_high == adjusted.bpd_high
        }),
{
}

/// Convergence from below: while a controller without a cap grows, every
/// full window that stays within the target strictly increases the number
/// of blocks per window, by the step, which doubles.
pub proof fn lemma_fast_window_grows(m: FlowModel, elapsed_us: int)
    requires
        m.inv(),
        m.state == State::Inc,
        m.max_process_rate is None,
        m.window_delay(elapsed_us) <= m.delay_ms,
    ensures
        ({
            let next = m.complete_window(elapsed_us);
            &&& next.state == State::Inc
            &&& next.blocks_per_delay == m.blocks_per_delay + m.step
            &&& next.blocks_per_delay > m.blocks_per_delay
            &&& next.step == 2 * m.step
        }),
{
    lemma_window_calibration(m, elapsed_us);
    lemma_uncapped_is_below(m, m.bytes_k(), m.window_time(elapsed_us));
    lemma_inc_grows(m, m.bytes_k(), m.window_time(elapsed_us));
}

/// Without a cap every window that stays within the target leaves room.
pub proof fn lemma_uncapped_is_below(m: FlowModel, bytes_k: int, delay: int)
    requires
        m.max_process_rate is None,
        delay <= m.delay_ms,
    ensures
        m.is_rate_below(delay, bytes_k),
        !m.is_rate_above(delay, bytes_k),
{
}

/// A search is entered only on an interval wider than 3, in its middle; on
/// a narrower one the controller is calibrated at once.
pub proof fn lemma_search_entry(m: FlowModel, low: int, high: int)
    requires
        0 < low <= high,
    ensures
        ({
            let next = m.move_to_search(low, high);
            &&& low <= next.blocks_per_delay <= high
            &&& high - low <= 3 ==> next.state == State::Steady
            &&& high - low > 3 ==> next.state == State::Search && next.centered() && next.width()
                == high - low
        }),
{
}

/// Overshooting while growing, and leaving room while shrinking, both lead
/// to a search between the last two numbers of blocks per window, or to a
/// calibrated controller.
pub proof fn lemma_overshoot_starts_search(m: FlowModel, bytes_k: int, delay: int)
    requires
        m.inv(),
        m.processed_blocks == 0,
        (m.state == State::Inc && m.is_rate_above(delay, bytes_k)) || (m.state == State::Dec
            && !m.is_rate_above(delay, bytes_k) && m.is_rate_below(delay, bytes_k)),
    ensures
        ({
            let next = m.adjust_state(bytes_k, delay);
            &&& next.state == State::Steady || (next.state == State::Search && next.centered()
                && next.width() > 3)
            &&& m.state == State::Inc ==> m.blocks_per_delay - m.step / 2 <= next.blocks_per_delay
                <= m.blocks_per_delay
            &&& m.state == State::Dec ==> m.blocks_per_delay <= next.blocks_per_delay
                <= m.blocks_per_delay + m.step / 2
        }),
{
    if m.state == State::Inc {
        lemma_search_entry(m, m.blocks_per_delay - m.step / 2, m.blocks_per_delay);
    } else {
        lemma_search_entry(m, m.blocks_per_delay, m.blocks_per_delay + m.step / 2);
    }
}

/// Each window of a search that stands in the middle of its interval either
/// ends the search or halves the interval, which so strictly narrows, and
/// moves to the middle of what is left. An interval no wider than 3 ends the
/// search.
pub proof fn lemma_search_narrows(m: FlowModel, bytes_k: int, delay: int)
    requires
        m.inv(),
        m.state == State::Search,
        m.centered(),
    ensures
        ({
            let next = m.adjust_state(bytes_k, delay);
            &&& next.state == State::Steady || next.state == State::Search
            &&& m.width() <= 3 ==> next.state == State::Steady
            &&& next.state == State::Steady ==> next.blocks_per_delay == m.blocks_per_delay
            &&& next.state == State::Search ==> {
                &&& next.centered()
                &&& next.bpd_low <= next.blocks_per_delay <= next.bpd_high
                &&& next.width() < m.width()
                &&& 2 * next.width() <= m.width() + 1
                &&& m.bpd_low <= next.bpd_low
                &&& next.bpd_high <= m.bpd_high
            }
        }),
{
}

/// A calibrated controller moves by single blocks: a window changes the
/// number of blocks per window by at most one, and never starts a search.
pub proof fn lemma_steady_moves_by_one(m: FlowModel, bytes_k: int, delay: int)
    requires
        m.inv(),
        m.state == State::Steady,
    ensures
        ({
            let next = m.adjust_state(bytes_k, delay);
            &&& next.state != State::Search
            &&& m.blocks_per_delay - 1 <= next.blocks_per_delay <= m.blocks_per_delay + 1
            &&& next.state == State::Inc <==> next.blocks_per_delay == m.blocks_per_delay + 1
            &&& next.state == State::Dec <==> next.blocks_per_delay == m.blocks_per_delay - 1
            &&& next.state != State::Steady ==> next.step == 2
        }),
{
}

/// Taking in a full window keeps the invariant and opens an empty window.
pub proof fn lemma_complete_window_inv(m: FlowModel, elapsed_us: int)
    requires
        m.inv(),
        m.window_complete(),
        0 <= elapsed_us,
    ensures
        m.complete_window(elapsed_us).inv(),
        m.complete_window(elapsed_us).processed_blocks == 0,
        m.complete_window(elapsed_us).total_processed == m.total_processed,
        m.complete_window(elapsed_us).measured_blocks == m.measured_blocks + m.blocks_per_delay,
        m.complete_window(elapsed_us).measured_time_ms == m.measured_time_ms + m.window_time(
            elapsed_us,
        ),
        m.window_time(elapsed_us) >= 1,
{
    let delay = m.window_delay(elapsed_us);
    if m.throttled(delay) {
        lemma_throttle_keeps_cap(m, delay);
    }
    let time = m.window_time(elapsed_us);
    assert(m.bytes_k() >= 0) by (nonlinear_arith)
        requires
            m.blocks_per_delay >= 1,
            m.block_size == 512,
            m.bytes_k() == m.blocks_per_delay * m.block_size * 1000,
    ;
    vstd::arithmetic::div_mod::lemma_div_pos_is_pos(m.bytes_k(), time);
    let measured = FlowModel {
        measured_blocks: m.measured_blocks + m.processed_blocks,
        measured_time_ms: m.measured_time_ms + time,
        last_inst_bps: m.bytes_k() / time,
        processed_blocks: 0,
        acc_delay_us: 0,
        ..m
    };
    lemma_adjust_state_inv(measured, m.bytes_k(), time);
}

} // verus!
