//! SM (stepper move) commands for the EiBotBoard: constant-velocity moves of a
//! fixed duration on the two CoreXY motor axes, their safety adjustment, and
//! the assembly of a time-sliced move into a sequence of commands.
//!
//! The EBB drives a CoreXY carriage: motor axis 1 moves `X + Y` steps and motor
//! axis 2 moves `X - Y` steps.
use vstd::prelude::*;
use crate::decimal::{int_str, push_decimal, push_signed};

verus! {

/// Length of one time slice of a sliced move (ms).
pub const TIME_SLICE_MS: u32 = 25;

/// Command buffer lead time (ms): the next command is sent this long before
/// the current move completes.
pub const BUFFER_LEAD_MS: u32 = 30;

/// Maximum step rate, in steps per ms (25 kHz). An axis that reaches this rate
/// has its command's duration lengthened.
pub const MAX_STEPS_PER_MS: u32 = 25;

/// Slowest allowed step rate, written as ms per step: an axis slower than one
/// step per 500 ms (0.002 steps/ms) resonates and is zeroed.
pub const MIN_RATE_MS_PER_STEP: u32 = 500;

/// An SM command: `SM,duration_ms,axis1_steps,axis2_steps`.
#[derive(Clone, Copy, Debug, PartialEq, Eq, Structural)]
pub struct SmCommand {
    /// Duration of this move segment (ms)
    pub duration_ms: u32,
    /// Steps for motor axis 1 (X+Y; the sign gives the direction)
    pub steps_axis1: i32,
    /// Steps for motor axis 2 (X-Y; the sign gives the direction)
    pub steps_axis2: i32,
}

pub open spec fn abs_int(v: int) -> int {
    if v < 0 { -v } else { v }
}

/// Integer halving that rounds toward zero, as `/ 2` does on Rust integers.
pub open spec fn half_toward_zero(v: int) -> int {
    if v >= 0 { v / 2 } else { -((-v) / 2) }
}

/// The command's motor-axis sums and differences fit the step type, so
/// that its X/Y steps can be recovered.
pub open spec fn sm_steps_in_range(c: SmCommand) -> bool {
    &&& c.steps_axis1 > i32::MIN
    &&& c.steps_axis2 > i32::MIN
    &&& i32::MIN <= c.steps_axis1 + c.steps_axis2 <= i32::MAX
    &&& i32::MIN <= c.steps_axis1 - c.steps_axis2 <= i32::MAX
}

/// X/Y steps recovered from the motor-axis steps.
pub open spec fn sm_xy(c: SmCommand) -> (int, int) {
    (half_toward_zero(c.steps_axis1 + c.steps_axis2), half_toward_zero(c.steps_axis1 - c.steps_axis2))
}

/// Whether an axis moving `steps` in `duration` ms reaches the maximum rate.
pub open spec fn overspeed(steps: int, duration: int) -> bool {
    steps != 0 && abs_int(steps) >= MAX_STEPS_PER_MS * duration
}

/// Whether an axis moving `steps` in `duration` ms is below the minimum rate.
pub open spec fn underspeed(steps: int, duration: int) -> bool {
    steps != 0 && MIN_RATE_MS_PER_STEP * abs_int(steps) < duration
}

/// The shortest duration at which `steps` stays below the maximum rate.
pub open spec fn min_safe_duration(steps: int) -> int {
    if steps == 0 { 0 } else { abs_int(steps) / (MAX_STEPS_PER_MS as int) + 1 }
}

pub open spec fn max_int(a: int, b: int) -> int {
    if a >= b { a } else { b }
}

/// The duration after lengthening: the least duration, not below the
/// command's own, at which neither motor axis reaches the maximum rate.
pub open spec fn adjusted_duration(c: SmCommand) -> int {
    max_int(c.duration_ms as int, max_int(min_safe_duration(c.steps_axis1 as int), min_safe_duration(c.steps_axis2 as int)))
}

pub open spec fn sm_is_empty(c: SmCommand) -> bool {
    c.steps_axis1 == 0 && c.steps_axis2 == 0
}

/// The command after `validate_and_adjust`: the duration is lengthened until
/// no motor axis reaches the maximum rate; then each Cartesian axis (X or Y)
/// that moves below the minimum rate is zeroed, and the motor axes are rebuilt
/// from the new X/Y steps when one was zeroed. A command without steps is left
/// as it is.
pub open spec fn sm_validated(c: SmCommand) -> SmCommand {
    if sm_is_empty(c) {
        c
    } else {
        let d = adjusted_duration(c);
        let x = sm_xy(c).0;
        let y = sm_xy(c).1;
        let nx = if underspeed(x, d) { 0 } else { x };
        let ny = if underspeed(y, d) { 0 } else { y };
        if nx != x || ny != y {
            SmCommand { duration_ms: d as u32, steps_axis1: (nx + ny) as i32, steps_axis2: (nx - ny) as i32 }
        } else {
            SmCommand { duration_ms: d as u32, steps_axis1: c.steps_axis1, steps_axis2: c.steps_axis2 }
        }
    }
}

/// A command that `validate_and_adjust` leaves in place: it moves, no motor
/// axis reaches the maximum rate, its motor axes come from whole X/Y steps, and
/// neither X nor Y moves below the minimum rate.
pub open spec fn sm_is_safe(c: SmCommand) -> bool {
    &&& !sm_is_empty(c)
    &&& !overspeed(c.steps_axis1 as int, c.duration_ms as int)
    &&& !overspeed(c.steps_axis2 as int, c.duration_ms as int)
    &&& (c.steps_axis1 + c.steps_axis2) % 2 == 0
    &&& !underspeed(sm_xy(c).0, c.duration_ms as int)
    &&& !underspeed(sm_xy(c).1, c.duration_ms as int)
}

/// The command text `SM,duration,axis1,axis2`.
pub open spec fn sm_command_text(c: SmCommand) -> Seq<char> {
    seq!['S', 'M', ','] + int_str(c.duration_ms as int) + seq![','] + int_str(c.steps_axis1 as int)
        + seq![','] + int_str(c.steps_axis2 as int)
}

/// The time to wait after sending the command: its duration less the buffer
/// lead, or nothing for a move that is not longer than the lead plus 20 ms.
pub open spec fn sm_sleep_ms(c: SmCommand) -> int {
    if c.duration_ms > BUFFER_LEAD_MS + 20 { c.duration_ms - BUFFER_LEAD_MS } else { 0 }
}

fn abs_i32(v: i32) -> (r: u64)
    requires
        v > i32::MIN,
    ensures
        r == abs_int(v as int),
        r <= 0x8000_0000,
{
    if v < 0 { (0i64 - v as i64) as u64 } else { v as u64 }
}

fn half_i32(v: i32) -> (r: i32)
    ensures
        r == half_toward_zero(v as int),
{
    if v >= 0 { v / 2 } else { 0i32 - ((0i64 - v as i64) / 2) as i32 }
}

impl SmCommand {
    /// Creates a command from motor-axis steps.
    pub fn new(duration_ms: u32, steps_axis1: i32, steps_axis2: i32) -> (c: SmCommand)
        ensures
            c == (SmCommand { duration_ms, steps_axis1, steps_axis2 }),
    {
        SmCommand { duration_ms, steps_axis1, steps_axis2 }
    }

    /// Creates a command from X/Y steps (applies the CoreXY transform).
    pub fn from_xy_steps(duration_ms: u32, steps_x: i32, steps_y: i32) -> (c: SmCommand)
        requires
            i32::MIN <= steps_x + steps_y <= i32::MAX,
            i32::MIN <= steps_x - steps_y <= i32::MAX,
        ensures
            c.duration_ms == duration_ms,
            c.steps_axis1 == steps_x + steps_y,
            c.steps_axis2 == steps_x - steps_y,
    {
        SmCommand { duration_ms, steps_axis1: steps_x + steps_y, steps_axis2: steps_x - steps_y }
    }

    /// Formats the command as EBB command text.
    pub fn to_command_string(&self) -> (s: String)
        ensures
            s@ == sm_command_text(*self),
    {
        let mut s = String::new();
        proof {
            reveal_strlit("SM,");
            reveal_strlit(",");
        }
        s.append("SM,");
        push_decimal(&mut s, self.duration_ms as u64);
        s.append(",");
        push_signed(&mut s, self.steps_axis1 as i64);
        s.append(",");
        push_signed(&mut s, self.steps_axis2 as i64);
        proof {
            assert(int_str(self.duration_ms as int) == crate::decimal::dec_digits(self.duration_ms as nat));
        }
        s
    }

    /// Whether the command moves neither motor axis.
    pub fn is_empty(&self) -> (b: bool)
        ensures
            b == sm_is_empty(*self),
    {
        self.steps_axis1 == 0 && self.steps_axis2 == 0
    }

    /// The X/Y steps this command executes (the CoreXY transform reversed).
    pub fn xy_steps(&self) -> (r: (i32, i32))
        requires
            i32::MIN <= self.steps_axis1 + self.steps_axis2 <= i32::MAX,
            i32::MIN <= self.steps_axis1 - self.steps_axis2 <= i32::MAX,
        ensures
            r.0 == sm_xy(*self).0,
            r.1 == sm_xy(*self).1,
    {
        (half_i32(self.steps_axis1 + self.steps_axis2), half_i32(self.steps_axis1 - self.steps_axis2))
    }

    /// Time to sleep before sending the next command.
    pub fn sleep_time_ms(&self) -> (t: u32)
        ensures
            t == sm_sleep_ms(*self),
    {
        if self.duration_ms > BUFFER_LEAD_MS + 20 {
            self.duration_ms - BUFFER_LEAD_MS
        } else {
            0
        }
    }

    /// Adjusts the command for motor safety: lengthens the duration while a
    /// motor axis reaches the maximum step rate, then zeroes each X/Y axis that
    /// moves below the minimum step rate. Returns whether the command still
    /// moves (a command that does not should be skipped).
    pub fn validate_and_adjust(&mut self) -> (valid: bool)
        requires
            sm_steps_in_range(*old(self)),
        ensures
            *final(self) == sm_validated(*old(self)),
            valid == !sm_is_empty(*final(self)),
    {
        if self.is_empty() {
            return false;
        }
        let ghost c0 = *self;
        let abs1 = abs_i32(self.steps_axis1);
        let abs2 = abs_i32(self.steps_axis2);
        while (abs1 != 0 && abs1 >= MAX_STEPS_PER_MS as u64 * self.duration_ms as u64)
            || (abs2 != 0 && abs2 >= MAX_STEPS_PER_MS as u64 * self.duration_ms as u64)
            invariant
                self.steps_axis1 == c0.steps_axis1,
                self.steps_axis2 == c0.steps_axis2,
                abs1 == abs_int(c0.steps_axis1 as int),
                abs2 == abs_int(c0.steps_axis2 as int),
                c0.duration_ms <= self.duration_ms <= adjusted_duration(c0),
            decreases adjusted_duration(c0) - self.duration_ms,
        {
            self.duration_ms = self.duration_ms + 1;
        }
        assert(self.duration_ms == adjusted_duration(c0));
        let steps_x = half_i32(self.steps_axis1 + self.steps_axis2);
        let steps_y = half_i32(self.steps_axis1 - self.steps_axis2);
        let ax = abs_i32(steps_x);
        let ay = abs_i32(steps_y);
        let d = self.duration_ms as u64;
        let mut new_x = steps_x;
        let mut new_y = steps_y;
        if ax != 0 && 500 * ax < d {
            new_x = 0;
        }
        if ay != 0 && 500 * ay < d {
            new_y = 0;
        }
        if new_x != steps_x || new_y != steps_y {
            self.steps_axis1 = new_x + new_y;
            self.steps_axis2 = new_x - new_y;
        }
        !self.is_empty()
    }
}

/// The CoreXY transform is undone exactly: a command built from X/Y steps
/// executes exactly those X/Y steps.
pub proof fn lemma_corexy_roundtrip(duration_ms: u32, steps_x: i32, steps_y: i32)
    requires
        i32::MIN <= steps_x + steps_y <= i32::MAX,
        i32::MIN <= steps_x - steps_y <= i32::MAX,
    ensures
        ({
            let c = SmCommand {
                duration_ms,
                steps_axis1: (steps_x + steps_y) as i32,
                steps_axis2: (steps_x - steps_y) as i32,
            };
            sm_xy(c) == (steps_x as int, steps_y as int)
        }),
{
}

/// After adjustment, a command built from whole X/Y steps either no longer
/// moves or is safe: no motor axis reaches the maximum step rate and neither
/// X nor Y moves below the minimum step rate.
pub proof fn lemma_validated_is_safe(c: SmCommand)
    requires
        sm_steps_in_range(c),
        (c.steps_axis1 + c.steps_axis2) % 2 == 0,
    ensures
        sm_is_empty(sm_validated(c)) || sm_is_safe(sm_validated(c)),
{
}

/// Adjustment keeps a command's motor axes within the step type, so that its
/// X/Y steps can still be recovered.
pub proof fn lemma_validated_in_range(c: SmCommand)
    requires
        sm_steps_in_range(c),
    ensures
        sm_steps_in_range(sm_validated(c)),
{
}

/// Adjusting a command that is already safe changes nothing.
pub proof fn lemma_validate_keeps_safe(c: SmCommand)
    requires
        sm_is_safe(c),
    ensures
        sm_validated(c) == c,
{
}

} // verus!
