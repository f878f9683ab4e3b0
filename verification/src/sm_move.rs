//! A motion-planned move as a sequence of SM commands: the time slices of a
//! move, the assembly of the commands from per-slice step targets, and the
//! correction that lands the move on its exact integer-step endpoint.
//!
//! The velocity profile that gives each slice its step target is computed in
//! floating point by the caller; everything here works on whole steps and
//! milliseconds.
use vstd::prelude::*;
use crate::sm_command::{
    abs_int, adjusted_duration, lemma_validated_in_range, lemma_validated_is_safe, max_int, sm_is_empty, sm_is_safe, sm_validated, sm_xy,
    underspeed, SmCommand, TIME_SLICE_MS,
};

verus! {

/// A sequence of SM commands representing a motion-planned move. `P` is the
/// caller's point type for the requested start and end.
#[derive(Clone, Debug)]
pub struct SmPlannedMove<P> {
    /// The SM commands to execute in sequence
    pub commands: Vec<SmCommand>,
    /// Total duration of the move (ms)
    pub total_duration_ms: u32,
    /// Start point
    pub start: P,
    /// End point (the requested endpoint)
    pub end: P,
    /// X steps actually sent (sum over the commands after adjustment)
    pub actual_steps_x: i32,
    /// Y steps actually sent (sum over the commands after adjustment)
    pub actual_steps_y: i32,
}

impl<P> SmPlannedMove<P> {
    /// A planned move without commands.
    pub fn empty(start: P, end: P) -> (m: SmPlannedMove<P>)
        ensures
            m.commands@ == Seq::<SmCommand>::empty(),
            m.total_duration_ms == 0,
            m.start == start,
            m.end == end,
            m.actual_steps_x == 0,
            m.actual_steps_y == 0,
    {
        SmPlannedMove {
            commands: Vec::new(),
            total_duration_ms: 0,
            start,
            end,
            actual_steps_x: 0,
            actual_steps_y: 0,
        }
    }

    /// Whether the planned move has no commands.
    pub fn is_empty(&self) -> (b: bool)
        ensures
            b == (self.commands@.len() == 0),
    {
        self.commands.len() == 0
    }
}

/// Number of time slices of a move lasting `total_ms` (at least one).
pub open spec fn slice_count(total_ms: int) -> int {
    max_int(total_ms / (TIME_SLICE_MS as int), 1)
}

/// Duration of slice `i`: a full slice, except the last, which takes what
/// remains of the move (at least 1 ms).
pub open spec fn slice_duration(total_ms: int, i: int) -> int {
    if i == slice_count(total_ms) - 1 {
        max_int(total_ms - i * (TIME_SLICE_MS as int), 1)
    } else {
        TIME_SLICE_MS as int
    }
}

/// The durations of the time slices of a move lasting `total_time_ms`.
pub fn sm_slice_durations(total_time_ms: u32) -> (v: Vec<u32>)
    ensures
        v@.len() == slice_count(total_time_ms as int),
        forall|i: int| 0 <= i < v@.len() ==> v@[i] == slice_duration(total_time_ms as int, i),
{
    let n: u32 = if total_time_ms / TIME_SLICE_MS > 1 { total_time_ms / TIME_SLICE_MS } else { 1 };
    let mut v: Vec<u32> = Vec::new();
    let mut i: u32 = 0;
    while i < n
        invariant
            n == slice_count(total_time_ms as int),
            i <= n,
            v@.len() == i,
            forall|k: int| 0 <= k < i ==> v@[k] == slice_duration(total_time_ms as int, k),
        decreases n - i,
    {
        if i == n - 1 {
            let remaining: u32 = if total_time_ms >= i * TIME_SLICE_MS {
                total_time_ms - i * TIME_SLICE_MS
            } else {
                0
            };
            v.push(if remaining > 1 { remaining } else { 1 });
        } else {
            v.push(TIME_SLICE_MS);
        }
        i = i + 1;
    }
    v
}

/// The cumulative step target at the end of slice `i`: the given target for
/// every slice but the last, which ends exactly on the move's total.
pub open spec fn slice_goal(targets: Seq<(i32, i32)>, i: int, total_x: i32, total_y: i32) -> (int, int) {
    if 0 <= i < targets.len() {
        (targets[i].0 as int, targets[i].1 as int)
    } else {
        (total_x as int, total_y as int)
    }
}

/// The X/Y steps that slice `i` is asked to move.
pub open spec fn slice_steps(targets: Seq<(i32, i32)>, i: int, total_x: i32, total_y: i32) -> (int, int) {
    let g = slice_goal(targets, i, total_x, total_y);
    let p = if i == 0 { (0int, 0int) } else { slice_goal(targets, i - 1, total_x, total_y) };
    (g.0 - p.0, g.1 - p.1)
}

/// The command of slice `i` before adjustment.
pub open spec fn slice_command(
    durations: Seq<u32>,
    targets: Seq<(i32, i32)>,
    i: int,
    total_x: i32,
    total_y: i32,
) -> SmCommand {
    let s = slice_steps(targets, i, total_x, total_y);
    SmCommand {
        duration_ms: durations[i],
        steps_axis1: (s.0 + s.1) as i32,
        steps_axis2: (s.0 - s.1) as i32,
    }
}

/// The commands kept, the total duration and the X/Y steps actually sent
/// after the first `n` slices: each slice's command is adjusted, and kept
/// when it still moves.
pub open spec fn sliced_state(
    durations: Seq<u32>,
    targets: Seq<(i32, i32)>,
    total_x: i32,
    total_y: i32,
    n: nat,
) -> (Seq<SmCommand>, int, int, int)
    decreases n,
{
    if n == 0 {
        (Seq::empty(), 0, 0, 0)
    } else {
        let prev = sliced_state(durations, targets, total_x, total_y, (n - 1) as nat);
        let c = sm_validated(slice_command(durations, targets, n - 1, total_x, total_y));
        if sm_is_empty(c) {
            prev
        } else {
            (prev.0.push(c), prev.1 + c.duration_ms, prev.2 + sm_xy(c).0, prev.3 + sm_xy(c).1)
        }
    }
}

/// X/Y steps that a command can carry: both CoreXY motor axes fit the step
/// type above its minimum (whose magnitude the type cannot hold), and so do
/// the doubled X and Y through which the X/Y steps are recovered.
pub open spec fn xy_fits(x: int, y: int) -> bool {
    &&& i32::MIN < x + y <= i32::MAX
    &&& i32::MIN < x - y <= i32::MAX
    &&& i32::MIN <= 2 * x <= i32::MAX
    &&& i32::MIN <= 2 * y <= i32::MAX
}

/// Slice `i` and the sums after it stay within the integer types.
pub open spec fn slice_fits(
    durations: Seq<u32>,
    targets: Seq<(i32, i32)>,
    total_x: i32,
    total_y: i32,
    i: int,
) -> bool {
    let s = slice_steps(targets, i, total_x, total_y);
    let after = sliced_state(durations, targets, total_x, total_y, (i + 1) as nat);
    &&& xy_fits(s.0, s.1)
    &&& after.1 <= u32::MAX
    &&& i32::MIN <= after.2 <= i32::MAX
    &&& i32::MIN <= after.3 <= i32::MAX
}

/// Duration of the correction command for the missing steps: about half the
/// maximum step rate on the larger axis, at least 1 ms.
pub open spec fn correction_duration(missing_x: int, missing_y: int) -> int {
    max_int((2 * max_int(abs_int(missing_x), abs_int(missing_y)) + 24) / 25, 1)
}

/// The correction command for the missing steps, before adjustment.
pub open spec fn correction_command(missing_x: int, missing_y: int) -> SmCommand {
    SmCommand {
        duration_ms: correction_duration(missing_x, missing_y) as u32,
        steps_axis1: (missing_x + missing_y) as i32,
        steps_axis2: (missing_x - missing_y) as i32,
    }
}

/// The whole sliced move: the slices, then, when the steps sent fall short
/// of the total, a correction command carrying the missing steps.
pub open spec fn sliced_plan(
    durations: Seq<u32>,
    targets: Seq<(i32, i32)>,
    total_x: i32,
    total_y: i32,
) -> (Seq<SmCommand>, int, int, int) {
    let st = sliced_state(durations, targets, total_x, total_y, durations.len());
    let mx = total_x - st.2;
    let my = total_y - st.3;
    if mx == 0 && my == 0 {
        st
    } else {
        let c = sm_validated(correction_command(mx, my));
        if sm_is_empty(c) {
            st
        } else {
            (st.0.push(c), st.1 + c.duration_ms, st.2 + sm_xy(c).0, st.3 + sm_xy(c).1)
        }
    }
}

/// The sliced move stays within the integer types throughout.
pub open spec fn sliced_plan_fits(
    durations: Seq<u32>,
    targets: Seq<(i32, i32)>,
    total_x: i32,
    total_y: i32,
) -> bool {
    let st = sliced_state(durations, targets, total_x, total_y, durations.len());
    let mx = total_x - st.2;
    let my = total_y - st.3;
    let plan = sliced_plan(durations, targets, total_x, total_y);
    &&& forall|i: int| 0 <= i < durations.len() ==> #[trigger] slice_fits(durations, targets, total_x, total_y, i)
    &&& xy_fits(mx, my)
    &&& plan.1 <= u32::MAX
}

/// The planned move of a short move sent as one command of `duration_ms`
/// moving `(steps_x, steps_y)`: the adjusted command when it still moves,
/// with its (possibly lengthened) duration as the total and the steps it
/// actually sends; otherwise no command at all.
pub open spec fn single_move_plan(duration_ms: u32, steps_x: i32, steps_y: i32) -> (Seq<SmCommand>, int, int, int) {
    let c = sm_validated(SmCommand {
        duration_ms,
        steps_axis1: (steps_x + steps_y) as i32,
        steps_axis2: (steps_x - steps_y) as i32,
    });
    if sm_is_empty(c) {
        (Seq::empty(), 0, 0, 0)
    } else {
        (seq![c], c.duration_ms as int, sm_xy(c).0, sm_xy(c).1)
    }
}

/// Plans a short move as a single SM command (see `single_move_plan`).
pub fn single_sm_move<P>(start: P, end: P, duration_ms: u32, steps_x: i32, steps_y: i32) -> (m: SmPlannedMove<P>)
    requires
        xy_fits(steps_x as int, steps_y as int),
    ensures
        m.commands@ == single_move_plan(duration_ms, steps_x, steps_y).0,
        m.total_duration_ms == single_move_plan(duration_ms, steps_x, steps_y).1,
        m.actual_steps_x == single_move_plan(duration_ms, steps_x, steps_y).2,
        m.actual_steps_y == single_move_plan(duration_ms, steps_x, steps_y).3,
        m.start == start,
        m.end == end,
        forall|k: int| 0 <= k < m.commands@.len() ==> sm_is_safe(#[trigger] m.commands@[k]),
{
    let mut cmd = SmCommand::from_xy_steps(duration_ms, steps_x, steps_y);
    proof {
        lemma_validated_is_safe(cmd);
        lemma_validated_in_range(cmd);
    }
    if cmd.validate_and_adjust() {
        let (x, y) = cmd.xy_steps();
        let total = cmd.duration_ms;
        let mut commands: Vec<SmCommand> = Vec::new();
        commands.push(cmd);
        assert(commands@ == seq![cmd]);
        SmPlannedMove { commands, total_duration_ms: total, start, end, actual_steps_x: x, actual_steps_y: y }
    } else {
        SmPlannedMove::empty(start, end)
    }
}

/// A sliced move lands exactly on its integer-step total whenever the
/// correction has at most 6250 steps to carry on each axis (78 mm at 80
/// steps/mm): the correction then moves both axes in full.
pub proof fn lemma_sliced_move_lands_on_total(
    durations: Seq<u32>,
    targets: Seq<(i32, i32)>,
    total_x: i32,
    total_y: i32,
)
    requires
        sliced_plan_fits(durations, targets, total_x, total_y),
        abs_int(total_x - sliced_state(durations, targets, total_x, total_y, durations.len()).2) <= 6250,
        abs_int(total_y - sliced_state(durations, targets, total_x, total_y, durations.len()).3) <= 6250,
    ensures
        sliced_plan(durations, targets, total_x, total_y).2 == total_x,
        sliced_plan(durations, targets, total_x, total_y).3 == total_y,
{
}

/// Whether the correction for the missing steps keeps both of its axes:
/// neither moves below the minimum step rate at the correction's adjusted
/// duration.
pub open spec fn correction_keeps_axes(missing_x: int, missing_y: int) -> bool {
    let d = adjusted_duration(correction_command(missing_x, missing_y));
    !underspeed(missing_x, d) && !underspeed(missing_y, d)
}

/// A sliced move lands exactly on its integer-step total if and only if the
/// correction for the steps the slices fell short keeps both axes (which it
/// does, in particular, when nothing is missing).
pub proof fn lemma_sliced_move_lands_iff(
    durations: Seq<u32>,
    targets: Seq<(i32, i32)>,
    total_x: i32,
    total_y: i32,
)
    requires
        sliced_plan_fits(durations, targets, total_x, total_y),
    ensures
        ({
            let st = sliced_state(durations, targets, total_x, total_y, durations.len());
            let plan = sliced_plan(durations, targets, total_x, total_y);
            (plan.2 == total_x && plan.3 == total_y) <==> correction_keeps_axes(total_x - st.2, total_y - st.3)
        }),
{
}

/// Assembles a time-sliced move from the durations of its slices and the
/// cumulative X/Y step targets at the end of every slice but the last; the
/// last slice ends exactly on `(total_x, total_y)`. Each slice moves from the
/// previous target to its own, adjusted for motor safety and dropped when it
/// no longer moves; if the steps actually sent then fall short of the total,
/// a correction command carries the missing steps.
#[verifier::rlimit(40)]
pub fn sm_move_from_slices<P>(
    start: P,
    end: P,
    durations: &Vec<u32>,
    targets: &Vec<(i32, i32)>,
    total_x: i32,
    total_y: i32,
) -> (m: SmPlannedMove<P>)
    requires
        durations@.len() >= 1,
        targets@.len() + 1 == durations@.len(),
        sliced_plan_fits(durations@, targets@, total_x, total_y),
    ensures
        m.commands@ == sliced_plan(durations@, targets@, total_x, total_y).0,
        m.total_duration_ms == sliced_plan(durations@, targets@, total_x, total_y).1,
        m.actual_steps_x == sliced_plan(durations@, targets@, total_x, total_y).2,
        m.actual_steps_y == sliced_plan(durations@, targets@, total_x, total_y).3,
        m.start == start,
        m.end == end,
        forall|k: int| 0 <= k < m.commands@.len() ==> sm_is_safe(#[trigger] m.commands@[k]),
{
    let n = durations.len();
    let mut commands: Vec<SmCommand> = Vec::new();
    let mut total_duration_ms: u32 = 0;
    let mut actual_x: i32 = 0;
    let mut actual_y: i32 = 0;
    let mut cum_x: i32 = 0;
    let mut cum_y: i32 = 0;
    let mut i: usize = 0;
    while i < n
        invariant
            n == durations@.len(),
            targets@.len() + 1 == n,
            i <= n,
            sliced_plan_fits(durations@, targets@, total_x, total_y),
            (commands@, total_duration_ms as int, actual_x as int, actual_y as int)
                == sliced_state(durations@, targets@, total_x, total_y, i as nat),
            i == 0 ==> cum_x == 0 && cum_y == 0,
            i > 0 ==> (cum_x as int, cum_y as int) == slice_goal(targets@, i - 1, total_x, total_y),
            forall|k: int| 0 <= k < commands@.len() ==> sm_is_safe(#[trigger] commands@[k]),
        decreases n - i,
    {
        proof {
            assert(slice_fits(durations@, targets@, total_x, total_y, i as int));
        }
        let (gx, gy) = if i < targets.len() { targets[i] } else { (total_x, total_y) };
        let ghost s = slice_steps(targets@, i as int, total_x, total_y);
        assert(gx - cum_x == s.0 && gy - cum_y == s.1);
        let sx = gx - cum_x;
        let sy = gy - cum_y;
        let mut cmd = SmCommand::from_xy_steps(durations[i], sx, sy);
        assert(cmd == slice_command(durations@, targets@, i as int, total_x, total_y));
        proof {
            lemma_validated_is_safe(cmd);
        }
        if cmd.validate_and_adjust() {
            let (x, y) = cmd.xy_steps();
            actual_x = actual_x + x;
            actual_y = actual_y + y;
            total_duration_ms = total_duration_ms + cmd.duration_ms;
            commands.push(cmd);
        }
        cum_x = gx;
        cum_y = gy;
        i = i + 1;
    }
    let missing_x = total_x - actual_x;
    let missing_y = total_y - actual_y;
    if missing_x != 0 || missing_y != 0 {
        let ax: u32 = if missing_x < 0 { (0 - missing_x) as u32 } else { missing_x as u32 };
        let ay: u32 = if missing_y < 0 { (0 - missing_y) as u32 } else { missing_y as u32 };
        let max_steps: u32 = if ax >= ay { ax } else { ay };
        let d: u32 = (2 * max_steps + 24) / 25;
        let duration_ms: u32 = if d > 1 { d } else { 1 };
        let mut cmd = SmCommand::from_xy_steps(duration_ms, missing_x, missing_y);
        assert(cmd == correction_command(missing_x as int, missing_y as int));
        proof {
            lemma_validated_is_safe(cmd);
        }
        if cmd.validate_and_adjust() {
            let (x, y) = cmd.xy_steps();
            actual_x = actual_x + x;
            actual_y = actual_y + y;
            total_duration_ms = total_duration_ms + cmd.duration_ms;
            commands.push(cmd);
        }
    }
    SmPlannedMove { commands, total_duration_ms, start, end, actual_steps_x: actual_x, actual_steps_y: actual_y }
}


/// Whether X/Y steps, given within twice the step type's range, fit a
/// command (`xy_fits`).
fn xy_fits_i64(x: i64, y: i64) -> (b: bool)
    requires
        -0x1_0000_0000 <= x <= 0x1_0000_0000,
        -0x1_0000_0000 <= y <= 0x1_0000_0000,
    ensures
        b == xy_fits(x as int, y as int),
{
    -0x7fff_ffff <= x + y && x + y <= 0x7fff_ffff && -0x7fff_ffff <= x - y && x - y <= 0x7fff_ffff
        && -0x8000_0000 <= 2 * x && 2 * x <= 0x7fff_ffff && -0x8000_0000 <= 2 * y && 2 * y <= 0x7fff_ffff
}

/// Slice `i` of a sliced move whose first `i` slices fit: `None` when the
/// slice does not fit, otherwise the total duration and the X/Y steps sent
/// after it.
#[verifier::rlimit(40)]
fn next_slice_state(
    durations: &Vec<u32>,
    targets: &Vec<(i32, i32)>,
    total_x: i32,
    total_y: i32,
    i: usize,
    cum_x: i32,
    cum_y: i32,
    dur: u64,
    ax: i64,
    ay: i64,
) -> (r: Option<(u64, i64, i64)>)
    requires
        targets@.len() + 1 == durations@.len(),
        i < durations@.len(),
        (dur as int, ax as int, ay as int) == ({
            let st = sliced_state(durations@, targets@, total_x, total_y, i as nat);
            (st.1, st.2, st.3)
        }),
        dur <= u32::MAX,
        i32::MIN <= ax <= i32::MAX,
        i32::MIN <= ay <= i32::MAX,
        i == 0 ==> cum_x == 0 && cum_y == 0,
        i > 0 ==> (cum_x as int, cum_y as int) == slice_goal(targets@, i - 1, total_x, total_y),
    ensures
        r is Some <==> slice_fits(durations@, targets@, total_x, total_y, i as int),
        match r {
            Some((d, x, y)) => (d as int, x as int, y as int) == ({
                let st = sliced_state(durations@, targets@, total_x, total_y, (i + 1) as nat);
                (st.1, st.2, st.3)
            }) && d <= u32::MAX && i32::MIN <= x <= i32::MAX && i32::MIN <= y <= i32::MAX,
            None => true,
        },
{
    let (gx, gy) = if i < targets.len() { targets[i] } else { (total_x, total_y) };
    let ghost s = slice_steps(targets@, i as int, total_x, total_y);
    let sx: i64 = gx as i64 - cum_x as i64;
    let sy: i64 = gy as i64 - cum_y as i64;
    assert(sx == s.0 && sy == s.1);
    if !xy_fits_i64(sx, sy) {
        return None;
    }
    let mut cmd = SmCommand::from_xy_steps(durations[i], sx as i32, sy as i32);
    assert(cmd == slice_command(durations@, targets@, i as int, total_x, total_y));
    let mut d = dur;
    let mut x = ax;
    let mut y = ay;
    if cmd.validate_and_adjust() {
        let (cx, cy) = cmd.xy_steps();
        d = d + cmd.duration_ms as u64;
        x = x + cx as i64;
        y = y + cy as i64;
    }
    if !(d <= 0xffff_ffff && -0x8000_0000 <= x && x <= 0x7fff_ffff && -0x8000_0000 <= y && y <= 0x7fff_ffff) {
        return None;
    }
    Some((d, x, y))
}

/// Whether a sliced move stays within the integer types throughout (see
/// `sliced_plan_fits`), which assembling it requires.
pub fn sliced_move_fits(durations: &Vec<u32>, targets: &Vec<(i32, i32)>, total_x: i32, total_y: i32) -> (b: bool)
    requires
        targets@.len() + 1 == durations@.len(),
    ensures
        b == sliced_plan_fits(durations@, targets@, total_x, total_y),
{
    let n = durations.len();
    let mut dur: u64 = 0;
    let mut ax: i64 = 0;
    let mut ay: i64 = 0;
    let mut cum_x: i32 = 0;
    let mut cum_y: i32 = 0;
    let mut i: usize = 0;
    while i < n
        invariant
            n == durations@.len(),
            targets@.len() + 1 == n,
            i <= n,
            forall|k: int| 0 <= k < i ==> #[trigger] slice_fits(durations@, targets@, total_x, total_y, k),
            (dur as int, ax as int, ay as int) == ({
                let st = sliced_state(durations@, targets@, total_x, total_y, i as nat);
                (st.1, st.2, st.3)
            }),
            dur <= u32::MAX,
            i32::MIN <= ax <= i32::MAX,
            i32::MIN <= ay <= i32::MAX,
            i == 0 ==> cum_x == 0 && cum_y == 0,
            i > 0 ==> (cum_x as int, cum_y as int) == slice_goal(targets@, i - 1, total_x, total_y),
        decreases n - i,
    {
        match next_slice_state(durations, targets, total_x, total_y, i, cum_x, cum_y, dur, ax, ay) {
            None => {
                return false;
            },
            Some((d, x, y)) => {
                dur = d;
                ax = x;
                ay = y;
            },
        }
        let (gx, gy) = if i < targets.len() { targets[i] } else { (total_x, total_y) };
        cum_x = gx;
        cum_y = gy;
        i = i + 1;
    }
    let mx: i64 = total_x as i64 - ax;
    let my: i64 = total_y as i64 - ay;
    if !xy_fits_i64(mx, my) {
        return false;
    }
    if mx == 0 && my == 0 {
        return true;
    }
    let amx: u32 = if mx < 0 { (0 - mx) as u32 } else { mx as u32 };
    let amy: u32 = if my < 0 { (0 - my) as u32 } else { my as u32 };
    let max_steps: u32 = if amx >= amy { amx } else { amy };
    let d: u32 = (2 * max_steps + 24) / 25;
    let duration_ms: u32 = if d > 1 { d } else { 1 };
    let mut cmd = SmCommand::from_xy_steps(duration_ms, mx as i32, my as i32);
    assert(cmd == correction_command(mx as int, my as int));
    if cmd.validate_and_adjust() {
        dur + cmd.duration_ms as u64 <= 0xffff_ffff
    } else {
        true
    }
}

/// Plans a time-sliced move (see `sm_move_from_slices`) when it stays within
/// the integer types; `None` when it would not.
pub fn plan_sliced_move<P>(
    start: P,
    end: P,
    durations: &Vec<u32>,
    targets: &Vec<(i32, i32)>,
    total_x: i32,
    total_y: i32,
) -> (r: Option<SmPlannedMove<P>>)
    requires
        durations@.len() >= 1,
        targets@.len() + 1 == durations@.len(),
    ensures
        r is Some <==> sliced_plan_fits(durations@, targets@, total_x, total_y),
        match r {
            Some(m) => m.commands@ == sliced_plan(durations@, targets@, total_x, total_y).0
                && m.total_duration_ms == sliced_plan(durations@, targets@, total_x, total_y).1
                && m.actual_steps_x == sliced_plan(durations@, targets@, total_x, total_y).2
                && m.actual_steps_y == sliced_plan(durations@, targets@, total_x, total_y).3
                && m.start == start && m.end == end
                && forall|k: int| 0 <= k < m.commands@.len() ==> sm_is_safe(#[trigger] m.commands@[k]),
            None => true,
        },
{
    if sliced_move_fits(durations, targets, total_x, total_y) {
        Some(sm_move_from_slices(start, end, durations, targets, total_x, total_y))
    } else {
        None
    }
}

} // verus!
