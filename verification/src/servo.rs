//! Pen servo timing and the EBB servo settings derived from it.
//!
//! Pen positions are on a 0..100 scale of the servo's travel; rates are
//! 1..100, 100 being the fastest.
use vstd::prelude::*;
use crate::decimal::{dec_digits, push_decimal};

verus! {

/// Minimum servo pulse width in EBB units (pen position 0).
pub const SERVO_MIN: u16 = 7500;

/// Maximum servo pulse width in EBB units (pen position 100).
pub const SERVO_MAX: u16 = 28000;

/// Distance between two pen positions.
pub open spec fn position_distance(from_pos: u8, to_pos: u8) -> int {
    if from_pos >= to_pos { from_pos - to_pos } else { to_pos - from_pos }
}

/// The servo rate clamped to 1..100.
pub open spec fn clamped_rate(rate: u8) -> int {
    if rate < 1 { 1 } else if rate > 100 { 100 } else { rate as int }
}

/// Servo move time in ms: `(2.69 * distance + 45) * (100 / rate)` rounded to
/// the nearest millisecond (halves up), which is `(269 * distance + 4500) /
/// rate`; no time for a move of no distance.
pub open spec fn servo_move_time(from_pos: u8, to_pos: u8, rate: u8) -> int {
    let d = position_distance(from_pos, to_pos);
    let r = clamped_rate(rate);
    if d == 0 { 0 } else { (2 * (269 * d + 4500) + r) / (2 * r) }
}

/// EBB servo rate (pulse-width change per 24 ms servo period) that covers the
/// move in `servo_move_time`: the distance in EBB units (205 per position
/// step) times 24 over the move time, rounded (halves up) and clamped to
/// 1..65535; 0 when there is nothing to move.
pub open spec fn servo_ebb_rate(from_pos: u8, to_pos: u8, rate: u8) -> int {
    let d = position_distance(from_pos, to_pos);
    let t = servo_move_time(from_pos, to_pos, rate);
    if d == 0 || t < 1 {
        0
    } else {
        let q = (2 * 4920 * d + t) / (2 * t);
        if q < 1 { 1 } else if q > 65535 { 65535 } else { q }
    }
}

/// Pulse width in EBB units of a pen position, the position clamped to 0..100.
pub open spec fn ebb_units(position: u8) -> int {
    let p = if position > 100 { 100 } else { position as int };
    SERVO_MIN + (20500 * p) / 100
}

fn clamp_rate(rate: u8) -> (r: u64)
    ensures
        r == clamped_rate(rate),
{
    if rate < 1 {
        1
    } else if rate > 100 {
        100
    } else {
        rate as u64
    }
}

fn distance(from_pos: u8, to_pos: u8) -> (d: u64)
    ensures
        d == position_distance(from_pos, to_pos),
        d <= 255,
{
    if from_pos >= to_pos { (from_pos - to_pos) as u64 } else { (to_pos - from_pos) as u64 }
}

/// Time for the servo to move the pen between two positions at a rate.
pub fn calculate_move_time(from_pos: u8, to_pos: u8, rate: u8) -> (t: u32)
    ensures
        t == servo_move_time(from_pos, to_pos, rate),
{
    let d = distance(from_pos, to_pos);
    if d == 0 {
        return 0;
    }
    let r = clamp_rate(rate);
    ((2 * (269 * d + 4500) + r) / (2 * r)) as u32
}

/// EBB servo rate value for a pen move, matching `calculate_move_time`.
pub fn calculate_ebb_rate(from_pos: u8, to_pos: u8, rate: u8) -> (r: u16)
    ensures
        r == servo_ebb_rate(from_pos, to_pos, rate),
{
    let d = distance(from_pos, to_pos);
    if d == 0 {
        return 0;
    }
    let t = calculate_move_time(from_pos, to_pos, rate) as u64;
    if t < 1 {
        return 0;
    }
    assert(d <= 255 && t <= 0xffff_ffff);
    let num: u64 = 9840 * d + t;
    let den: u64 = 2 * t;
    let q = num / den;
    if q < 1 {
        1
    } else if q > 65535 {
        65535
    } else {
        q as u16
    }
}

/// Converts a pen position (0..100) to EBB servo units.
pub fn position_to_ebb_units(position: u8) -> (u: u16)
    ensures
        u == ebb_units(position),
{
    let p: u32 = if position > 100 { 100 } else { position as u32 };
    SERVO_MIN + ((20500 * p) / 100) as u16
}

/// The pen settings of a plot: servo positions, servo rates and the extra
/// settle delays after each pen move.
#[derive(Clone, Copy, Debug, PartialEq, Eq, Structural)]
pub struct PenServoConfig {
    /// Pen down position (0..100)
    pub pen_down_pos: u8,
    /// Pen up position (0..100)
    pub pen_up_pos: u8,
    /// Rate of raising the pen (1..100)
    pub pen_rate_raise: u8,
    /// Rate of lowering the pen (1..100)
    pub pen_rate_lower: u8,
    /// Additional delay after pen down (ms)
    pub pen_down_delay: u32,
    /// Additional delay after pen up (ms)
    pub pen_up_delay: u32,
}

impl PenServoConfig {
    /// The default pen settings: down at 30, up at 60, both rates 50, a 50 ms
    /// settle delay after lowering and none after raising.
    pub fn default_settings() -> (c: PenServoConfig)
        ensures
            c == (PenServoConfig {
                pen_down_pos: 30,
                pen_up_pos: 60,
                pen_rate_raise: 50,
                pen_rate_lower: 50,
                pen_down_delay: 50,
                pen_up_delay: 0,
            }),
    {
        PenServoConfig {
            pen_down_pos: 30,
            pen_up_pos: 60,
            pen_rate_raise: 50,
            pen_rate_lower: 50,
            pen_down_delay: 50,
            pen_up_delay: 0,
        }
    }

    /// Servo move time for raising the pen (down to up position).
    pub fn pen_up_move_time(&self) -> (t: u32)
        ensures
            t == servo_move_time(self.pen_down_pos, self.pen_up_pos, self.pen_rate_raise),
    {
        calculate_move_time(self.pen_down_pos, self.pen_up_pos, self.pen_rate_raise)
    }

    /// Servo move time for lowering the pen (up to down position).
    pub fn pen_down_move_time(&self) -> (t: u32)
        ensures
            t == servo_move_time(self.pen_up_pos, self.pen_down_pos, self.pen_rate_lower),
    {
        calculate_move_time(self.pen_up_pos, self.pen_down_pos, self.pen_rate_lower)
    }

    /// Total wait after raising the pen: servo move plus the extra delay.
    pub fn pen_up_total_time(&self) -> (t: u32)
        requires
            servo_move_time(self.pen_down_pos, self.pen_up_pos, self.pen_rate_raise) + self.pen_up_delay
                <= u32::MAX,
        ensures
            t == servo_move_time(self.pen_down_pos, self.pen_up_pos, self.pen_rate_raise) + self.pen_up_delay,
    {
        self.pen_up_move_time() + self.pen_up_delay
    }

    /// Total wait after lowering the pen: servo move plus the extra delay.
    pub fn pen_down_total_time(&self) -> (t: u32)
        requires
            servo_move_time(self.pen_up_pos, self.pen_down_pos, self.pen_rate_lower) + self.pen_down_delay
                <= u32::MAX,
        ensures
            t == servo_move_time(self.pen_up_pos, self.pen_down_pos, self.pen_rate_lower) + self.pen_down_delay,
    {
        self.pen_down_move_time() + self.pen_down_delay
    }
}


/// A pen move takes as long, and is set up with the same EBB rate, in
/// either direction between two positions.
pub proof fn lemma_servo_timing_symmetric(from_pos: u8, to_pos: u8, rate: u8)
    ensures
        servo_move_time(from_pos, to_pos, rate) == servo_move_time(to_pos, from_pos, rate),
        servo_ebb_rate(from_pos, to_pos, rate) == servo_ebb_rate(to_pos, from_pos, rate),
{
}

/// At the full rate of 100 a move of `d` positions takes `2.69 * d + 45` ms,
/// rounded to the nearest millisecond (halves up).
pub proof fn lemma_full_rate_move_time(from_pos: u8, to_pos: u8)
    requires
        from_pos != to_pos,
    ensures
        servo_move_time(from_pos, to_pos, 100) == (269 * position_distance(from_pos, to_pos) + 4500 + 50) / 100,
{
    let x = 269 * position_distance(from_pos, to_pos) + 4500;
    assert((2 * x + 100) / 200int == (x + 50) / 100int) by (nonlinear_arith)
        requires
            x >= 0,
    ;
}

/// A lower rate never makes a move faster: the move time does not increase
/// with the (clamped) rate.
pub proof fn lemma_slower_rate_takes_longer(from_pos: u8, to_pos: u8, slow: u8, fast: u8)
    requires
        clamped_rate(slow) <= clamped_rate(fast),
    ensures
        servo_move_time(from_pos, to_pos, slow) >= servo_move_time(from_pos, to_pos, fast),
{
    let d = position_distance(from_pos, to_pos);
    if d != 0 {
        let x = 269 * d + 4500;
        let r1 = clamped_rate(slow);
        let r2 = clamped_rate(fast);
        let q2 = (2 * x + r2) / (2 * r2);
        assert(1 <= r1 <= r2 <= 100);
        assert(x >= 4769);
        assert(q2 * (2 * r2) <= 2 * x + r2) by (nonlinear_arith)
            requires
                r2 >= 1,
                q2 == (2 * x + r2) / (2 * r2),
        ;
        assert(q2 >= 1) by (nonlinear_arith)
            requires
                r2 >= 1,
                r2 <= 100,
                x >= 4769,
                q2 == (2 * x + r2) / (2 * r2),
        ;
        assert(q2 * (2 * r1) <= 2 * x + r1) by (nonlinear_arith)
            requires
                1 <= r1 <= r2,
                q2 >= 1,
                q2 * (2 * r2) <= 2 * x + r2,
        ;
        assert((2 * x + r1) / (2 * r1) >= q2) by (nonlinear_arith)
            requires
                r1 >= 1,
                q2 * (2 * r1) <= 2 * x + r1,
        ;
    }
}

} // verus!
