//! LM (low-level move) commands for the EiBotBoard: moves given by a step
//! rate, a step count and a rate change per 40 us interrupt on each motor
//! axis.
use vstd::prelude::*;
use crate::decimal::{dec_digits, int_str, push_decimal, push_signed};

verus! {

/// An LM command: `LM,Rate1,Steps1,Accel1,Rate2,Steps2,Accel2[,Clear]`.
#[derive(Clone, Copy, Debug, PartialEq, Eq, Structural)]
pub struct LmCommand {
    /// Rate for axis 1 (always positive)
    pub rate1: u32,
    /// Steps for axis 1 (sign indicates direction)
    pub steps1: i32,
    /// Acceleration for axis 1 (negative for deceleration)
    pub accel1: i32,
    /// Rate for axis 2 (always positive)
    pub rate2: u32,
    /// Steps for axis 2 (sign indicates direction)
    pub steps2: i32,
    /// Acceleration for axis 2 (negative for deceleration)
    pub accel2: i32,
    /// Duration to wait after sending the command (ms)
    pub duration_ms: u32,
    /// Accumulators to clear before the move (0 none, 1 axis 1, 2 axis 2, 3 both)
    pub clear: u8,
}

/// The largest LM rate: the maximum step rate of 25 kHz, at a rate of
/// 2^31 / 25000 per step/s.
pub const LM_MAX_RATE: u32 = 2147483648u32;

/// The EBB accepts the command: every axis with steps has a rate or an
/// acceleration, at least one axis has steps, and no rate exceeds the
/// maximum step rate.
pub open spec fn lm_is_valid(c: LmCommand) -> bool {
    &&& c.rate1 <= LM_MAX_RATE
    &&& c.rate2 <= LM_MAX_RATE
    &&& !(c.steps1 != 0 && c.rate1 == 0 && c.accel1 == 0)
    &&& !(c.steps2 != 0 && c.rate2 == 0 && c.accel2 == 0)
    &&& !(c.steps1 == 0 && c.steps2 == 0)
}

/// The command text; the clear field is written only when it is non-zero.
pub open spec fn lm_command_text(c: LmCommand) -> Seq<char> {
    let base = seq!['L', 'M', ','] + int_str(c.rate1 as int) + seq![','] + int_str(c.steps1 as int)
        + seq![','] + int_str(c.accel1 as int) + seq![','] + int_str(c.rate2 as int) + seq![',']
        + int_str(c.steps2 as int) + seq![','] + int_str(c.accel2 as int);
    if c.clear > 0 {
        base + seq![','] + int_str(c.clear as int)
    } else {
        base
    }
}

impl LmCommand {
    /// Creates a command that clears no accumulator.
    pub fn new(
        rate1: u32,
        steps1: i32,
        accel1: i32,
        rate2: u32,
        steps2: i32,
        accel2: i32,
        duration_ms: u32,
    ) -> (c: LmCommand)
        ensures
            c == (LmCommand { rate1, steps1, accel1, rate2, steps2, accel2, duration_ms, clear: 0 }),
    {
        LmCommand { rate1, steps1, accel1, rate2, steps2, accel2, duration_ms, clear: 0 }
    }

    /// The same command with the given accumulator clear.
    pub fn with_clear(self, clear: u8) -> (c: LmCommand)
        ensures
            c == (LmCommand { clear, ..self }),
    {
        LmCommand { clear, ..self }
    }

    /// Whether the EBB accepts this command.
    pub fn is_valid(&self) -> (b: bool)
        ensures
            b == lm_is_valid(*self),
    {
        if self.rate1 > LM_MAX_RATE || self.rate2 > LM_MAX_RATE {
            return false;
        }
        if self.steps1 != 0 && self.rate1 == 0 && self.accel1 == 0 {
            return false;
        }
        if self.steps2 != 0 && self.rate2 == 0 && self.accel2 == 0 {
            return false;
        }
        if self.steps1 == 0 && self.steps2 == 0 {
            return false;
        }
        true
    }

    /// Whether the command moves no axis (and can be skipped).
    pub fn is_empty(&self) -> (b: bool)
        ensures
            b == (self.steps1 == 0 && self.steps2 == 0),
    {
        self.steps1 == 0 && self.steps2 == 0
    }

    /// Formats the command as EBB command text.
    pub fn to_command_string(&self) -> (s: String)
        ensures
            s@ == lm_command_text(*self),
    {
        let mut s = String::new();
        proof {
            reveal_strlit("LM,");
            reveal_strlit(",");
        }
        s.append("LM,");
        push_decimal(&mut s, self.rate1 as u64);
        s.append(",");
        push_signed(&mut s, self.steps1 as i64);
        s.append(",");
        push_signed(&mut s, self.accel1 as i64);
        s.append(",");
        push_decimal(&mut s, self.rate2 as u64);
        s.append(",");
        push_signed(&mut s, self.steps2 as i64);
        s.append(",");
        push_signed(&mut s, self.accel2 as i64);
        if self.clear > 0 {
            s.append(",");
            push_decimal(&mut s, self.clear as u64);
        }
        proof {
            assert(int_str(self.rate1 as int) == dec_digits(self.rate1 as nat));
            assert(int_str(self.rate2 as int) == dec_digits(self.rate2 as nat));
            assert(int_str(self.clear as int) == dec_digits(self.clear as nat));
        }
        s
    }
}

/// A sequence of LM commands representing a motion-planned move. `P` is the
/// caller's point type.
#[derive(Clone, Debug)]
pub struct PlannedMove<P> {
    /// The LM commands to execute in sequence
    pub commands: Vec<LmCommand>,
    /// Total duration of the move (ms)
    pub total_duration_ms: u32,
    /// Start point
    pub start: P,
    /// End point
    pub end: P,
}

/// Sum of the durations of a sequence of commands.
pub open spec fn lm_total_duration(cmds: Seq<LmCommand>) -> int
    decreases cmds.len(),
{
    if cmds.len() == 0 {
        0
    } else {
        lm_total_duration(cmds.drop_last()) + cmds.last().duration_ms
    }
}

impl<P> PlannedMove<P> {
    /// A planned move without commands.
    pub fn empty(start: P, end: P) -> (m: PlannedMove<P>)
        ensures
            m.commands@ == Seq::<LmCommand>::empty(),
            m.total_duration_ms == 0,
            m.start == start,
            m.end == end,
    {
        PlannedMove { commands: Vec::new(), total_duration_ms: 0, start, end }
    }

    /// A planned move made of the given phase commands (acceleration, cruise,
    /// deceleration, each present when it moves). When the move starts from
    /// rest, the first command clears both step accumulators.
    pub fn from_phases(start: P, end: P, phases: Vec<LmCommand>, from_rest: bool) -> (m: PlannedMove<P>)
        requires
            lm_total_duration(phases@) <= u32::MAX,
        ensures
            m.total_duration_ms == lm_total_duration(phases@),
            m.commands@ == if from_rest && phases@.len() > 0 {
                phases@.update(0, LmCommand { clear: 3, ..phases@[0] })
            } else {
                phases@
            },
            m.start == start,
            m.end == end,
    {
        let mut commands = phases;
        let mut total: u32 = 0;
        let mut i: usize = 0;
        while i < commands.len()
            invariant
                commands@ == phases@,
                i <= commands@.len(),
                total == lm_total_duration(commands@.take(i as int)),
                lm_total_duration(phases@) <= u32::MAX,
            decreases commands@.len() - i,
        {
            proof {
                assert(commands@.take(i as int + 1).drop_last() == commands@.take(i as int));
                lemma_total_duration_prefix(commands@, i as int + 1);
            }
            total = total + commands[i].duration_ms;
            i = i + 1;
        }
        assert(commands@.take(i as int) == commands@);
        if from_rest && commands.len() > 0 {
            let first = commands[0].with_clear(3);
            commands.set(0, first);
        }
        PlannedMove { commands, total_duration_ms: total, start, end }
    }
}

/// Durations only grow along a sequence of commands.
proof fn lemma_total_duration_prefix(cmds: Seq<LmCommand>, k: int)
    requires
        0 <= k <= cmds.len(),
    ensures
        lm_total_duration(cmds.take(k)) <= lm_total_duration(cmds),
    decreases cmds.len() - k,
{
    if k < cmds.len() {
        lemma_total_duration_prefix(cmds, k + 1);
        assert(cmds.take(k + 1).drop_last() == cmds.take(k));
    } else {
        assert(cmds.take(k) == cmds);
    }
}

} // verus!
