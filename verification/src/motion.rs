//! Motion commands with per-motor-axis speed checking: the SM command here
//! zeroes a motor axis that moves below the minimum step rate, where
//! `sm_command::SmCommand` zeroes a slow Cartesian (X or Y) axis. LM
//! commands and planned moves are those of the other motion modules.
use vstd::prelude::*;
use crate::decimal::{int_str, push_decimal, push_signed};
use crate::sm_command::{
    abs_int, adjusted_duration, half_toward_zero, overspeed, sm_steps_in_range, underspeed, BUFFER_LEAD_MS,
};

pub use crate::lm_command::{LmCommand, PlannedMove};
pub use crate::sm_move::SmPlannedMove;

verus! {

/// An SM command: `SM,duration_ms,axis1_steps,axis2_steps`.
#[derive(Clone, Copy, Debug, PartialEq, Eq, Structural)]
pub struct SmCommand {
    /// Duration of this move segment (ms)
    pub duration_ms: u32,
    /// Steps for motor axis 1 (X+Y; the sign gives the direction)
    pub steps_axis1: i32,
    /// Steps for motor axis 2 (X-Y; the sign gives the direction)
    pub steps_axis2: i32,
}

/// The same command in the form of `sm_command::SmCommand`.
pub open spec fn as_sm(c: SmCommand) -> crate::sm_command::SmCommand {
    crate::sm_command::SmCommand {
        duration_ms: c.duration_ms,
        steps_axis1: c.steps_axis1,
        steps_axis2: c.steps_axis2,
    }
}

/// The command after `validate_and_adjust`: the duration is lengthened until
/// no motor axis reaches the maximum rate, then each motor axis moving below
/// the minimum rate is zeroed. A command without steps is left as it is.
pub open spec fn motor_axes_validated(c: SmCommand) -> SmCommand {
    if c.steps_axis1 == 0 && c.steps_axis2 == 0 {
        c
    } else {
        let d = adjusted_duration(as_sm(c));
        SmCommand {
            duration_ms: d as u32,
            steps_axis1: if underspeed(c.steps_axis1 as int, d) { 0 } else { c.steps_axis1 },
            steps_axis2: if underspeed(c.steps_axis2 as int, d) { 0 } else { c.steps_axis2 },
        }
    }
}

impl SmCommand {
    /// Creates a command from motor-axis steps.
    pub fn new(duration_ms: u32, steps_axis1: i32, steps_axis2: i32) -> (c: SmCommand)
        ensures
            c == (SmCommand { duration_ms, steps_axis1, steps_axis2 }),
    {
        SmCommand { duration_ms, steps_axis1, steps_axis2 }
    }

    /// Creates a command from X/Y steps (applies the CoreXY transform).
    pub fn from_xy_steps(duration_ms: u32, steps_x: i32, steps_y: i32) -> (c: SmCommand)
        requires
            i32::MIN <= steps_x + steps_y <= i32::MAX,
            i32::MIN <= steps_x - steps_y <= i32::MAX,
        ensures
            c.duration_ms == duration_ms,
            c.steps_axis1 == steps_x + steps_y,
            c.steps_axis2 == steps_x - steps_y,
    {
        SmCommand { duration_ms, steps_axis1: steps_x + steps_y, steps_axis2: steps_x - steps_y }
    }

    /// Formats the command as EBB command text.
    pub fn to_command_string(&self) -> (s: String)
        ensures
            s@ == crate::sm_command::sm_command_text(as_sm(*self)),
    {
        let mut s = String::new();
        proof {
            reveal_strlit("SM,");
            reveal_strlit(",");
        }
        s.append("SM,");
        push_decimal(&mut s, self.duration_ms as u64);
        s.append(",");
        push_signed(&mut s, self.steps_axis1 as i64);
        s.append(",");
        push_signed(&mut s, self.steps_axis2 as i64);
        proof {
            assert(int_str(self.duration_ms as int) == crate::decimal::dec_digits(self.duration_ms as nat));
        }
        s
    }

    /// Whether the command moves neither motor axis.
    pub fn is_empty(&self) -> (b: bool)
        ensures
            b == (self.steps_axis1 == 0 && self.steps_axis2 == 0),
    {
        self.steps_axis1 == 0 && self.steps_axis2 == 0
    }

    /// The X/Y steps this command executes (the CoreXY transform reversed).
    pub fn xy_steps(&self) -> (r: (i32, i32))
        requires
            i32::MIN <= self.steps_axis1 + self.steps_axis2 <= i32::MAX,
            i32::MIN <= self.steps_axis1 - self.steps_axis2 <= i32::MAX,
        ensures
            r.0 == half_toward_zero(self.steps_axis1 + self.steps_axis2),
            r.1 == half_toward_zero(self.steps_axis1 - self.steps_axis2),
    {
        let s = self.steps_axis1 + self.steps_axis2;
        let t = self.steps_axis1 - self.steps_axis2;
        let x = if s >= 0 { s / 2 } else { 0i32 - ((0i64 - s as i64) / 2) as i32 };
        let y = if t >= 0 { t / 2 } else { 0i32 - ((0i64 - t as i64) / 2) as i32 };
        (x, y)
    }

    /// Time to sleep before sending the next command.
    pub fn sleep_time_ms(&self) -> (t: u32)
        ensures
            t == crate::sm_command::sm_sleep_ms(as_sm(*self)),
    {
        if self.duration_ms > BUFFER_LEAD_MS + 20 {
            self.duration_ms - BUFFER_LEAD_MS
        } else {
            0
        }
    }

    /// Adjusts the command for motor safety: lengthens the duration while a
    /// motor axis reaches the maximum step rate, then zeroes each motor axis
    /// that moves below the minimum step rate. Returns whether the command
    /// still moves.
    pub fn validate_and_adjust(&mut self) -> (valid: bool)
        requires
            old(self).steps_axis1 > i32::MIN,
            old(self).steps_axis2 > i32::MIN,
        ensures
            *final(self) == motor_axes_validated(*old(self)),
            valid == !(final(self).steps_axis1 == 0 && final(self).steps_axis2 == 0),
    {
        if self.is_empty() {
            return false;
        }
        let ghost c0 = *self;
        let abs1: u64 = if self.steps_axis1 < 0 {
            (0i64 - self.steps_axis1 as i64) as u64
        } else {
            self.steps_axis1 as u64
        };
        let abs2: u64 = if self.steps_axis2 < 0 {
            (0i64 - self.steps_axis2 as i64) as u64
        } else {
            self.steps_axis2 as u64
        };
        assert(abs1 <= 0x8000_0000 && abs2 <= 0x8000_0000);
        while (abs1 != 0 && abs1 >= 25 * self.duration_ms as u64)
            || (abs2 != 0 && abs2 >= 25 * self.duration_ms as u64)
            invariant
                self.steps_axis1 == c0.steps_axis1,
                self.steps_axis2 == c0.steps_axis2,
                abs1 == abs_int(c0.steps_axis1 as int),
                abs2 == abs_int(c0.steps_axis2 as int),
                abs1 <= 0x8000_0000,
                abs2 <= 0x8000_0000,
                c0.duration_ms <= self.duration_ms <= adjusted_duration(as_sm(c0)),
            decreases adjusted_duration(as_sm(c0)) - self.duration_ms,
        {
            self.duration_ms = self.duration_ms + 1;
        }
        let d = self.duration_ms as u64;
        if abs1 != 0 && 500 * abs1 < d {
            self.steps_axis1 = 0;
        }
        if abs2 != 0 && 500 * abs2 < d {
            self.steps_axis2 = 0;
        }
        !self.is_empty()
    }
}


/// A moving command at which neither motor axis reaches the maximum step
/// rate nor moves below the minimum one.
pub open spec fn motor_axes_safe(c: SmCommand) -> bool {
    &&& !(c.steps_axis1 == 0 && c.steps_axis2 == 0)
    &&& !overspeed(c.steps_axis1 as int, c.duration_ms as int)
    &&& !overspeed(c.steps_axis2 as int, c.duration_ms as int)
    &&& !underspeed(c.steps_axis1 as int, c.duration_ms as int)
    &&& !underspeed(c.steps_axis2 as int, c.duration_ms as int)
}

/// After adjustment a command either no longer moves or is safe on both
/// motor axes; adjusting a safe command changes nothing.
pub proof fn lemma_motor_axes_validated_is_safe(c: SmCommand)
    requires
        c.steps_axis1 > i32::MIN,
        c.steps_axis2 > i32::MIN,
    ensures
        ({
            let v = motor_axes_validated(c);
            (v.steps_axis1 == 0 && v.steps_axis2 == 0) || motor_axes_safe(v)
        }),
        motor_axes_safe(c) ==> motor_axes_validated(c) == c,
{
}

} // verus!
