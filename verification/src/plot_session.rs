//! The course of a plot: which plotter actions are taken, and which progress
//! events are reported, for a sequence of strokes.
//!
//! The plotter itself (serial I/O, sleeping while the pen or the carriage
//! moves, waiting while paused) is driven by the caller, which performs the
//! returned steps in order. `P` is the caller's point type.
use vstd::prelude::*;

verus! {

/// Events reported while plotting.
#[derive(Clone, Debug)]
pub enum PlotEvent<P> {
    /// Plotting started
    Started { total_strokes: usize },
    /// Starting a new stroke
    StrokeStart { index: usize, total: usize },
    /// Stroke completed
    StrokeComplete { index: usize, total: usize },
    /// Moving to a position
    MoveTo { position: P, pen_down: bool },
    /// Plotting paused
    Paused,
    /// Plotting resumed
    Resumed,
    /// Plotting cancelled; the pen is up and the carriage home
    Cancelled,
    /// Plotting completed successfully
    Completed,
    /// Error occurred
    Error(String),
}

/// One step of a plot, performed by the caller in order.
#[derive(Clone, Debug)]
pub enum PlotStep<P> {
    /// Report an event
    Emit(PlotEvent<P>),
    /// Raise the pen (unless it is known to be up)
    PenUp,
    /// Lower the pen (unless it is known to be down)
    PenDown,
    /// Enable the motors
    EnableMotors,
    /// Disable the motors
    DisableMotors,
    /// Move at constant velocity to a point
    MoveTo(P),
    /// Draw the current stroke's points with motion planning
    DrawPlanned,
    /// Wait while the plot is paused
    WaitWhilePaused,
}

/// The opening steps: report the start, raise the pen, enable the motors.
pub open spec fn start_steps<P>(total: usize) -> Seq<PlotStep<P>> {
    seq![
        PlotStep::Emit(PlotEvent::Started { total_strokes: total }),
        PlotStep::PenUp,
        PlotStep::EnableMotors,
    ]
}

/// The closing steps: report and make the move home, disable the motors,
/// report completion.
pub open spec fn finish_steps<P>(home: P) -> Seq<PlotStep<P>> {
    seq![
        PlotStep::Emit(PlotEvent::MoveTo { position: home, pen_down: false }),
        PlotStep::MoveTo(home),
        PlotStep::DisableMotors,
        PlotStep::Emit(PlotEvent::Completed),
    ]
}

/// The steps of a cancelled plot: raise the pen, go home, disable the
/// motors, report the cancellation.
pub open spec fn cancel_steps<P>(home: P) -> Seq<PlotStep<P>> {
    seq![
        PlotStep::PenUp,
        PlotStep::MoveTo(home),
        PlotStep::DisableMotors,
        PlotStep::Emit(PlotEvent::Cancelled),
    ]
}

/// Pen-down moves to each point, each reported before it is made.
pub open spec fn line_steps<P>(points: Seq<P>) -> Seq<PlotStep<P>>
    decreases points.len(),
{
    if points.len() == 0 {
        Seq::empty()
    } else {
        line_steps(points.drop_last()) + seq![
            PlotStep::Emit(PlotEvent::MoveTo { position: points.last(), pen_down: true }),
            PlotStep::MoveTo(points.last()),
        ]
    }
}

/// Reports of pen-down moves to each point.
pub open spec fn move_reports<P>(points: Seq<P>) -> Seq<PlotStep<P>> {
    points.map_values(|p: P| PlotStep::Emit(PlotEvent::MoveTo { position: p, pen_down: true }))
}

/// The steps of stroke `index` of `total`, drawn through `points` in order:
/// nothing for a stroke without points; otherwise report the stroke, travel
/// pen-up to its first point, lower the pen, draw to the other points (with
/// motion planning when it is enabled and there are at least two points,
/// every point reported first; otherwise point by point), return to the
/// first point when the stroke is closed and has more than two points, raise
/// the pen and report the stroke complete.
pub open spec fn stroke_steps<P>(
    index: usize,
    total: usize,
    points: Seq<P>,
    closed: bool,
    motion_planning: bool,
) -> Seq<PlotStep<P>> {
    if points.len() == 0 {
        Seq::empty()
    } else {
        let p0 = points[0];
        let rest = points.skip(1);
        let body = if motion_planning && points.len() >= 2 {
            move_reports(rest).push(PlotStep::DrawPlanned)
        } else {
            line_steps(rest)
        };
        let closing = if closed && points.len() > 2 {
            seq![PlotStep::Emit(PlotEvent::MoveTo { position: p0, pen_down: true }), PlotStep::MoveTo(p0)]
        } else {
            Seq::empty()
        };
        seq![
            PlotStep::Emit(PlotEvent::StrokeStart { index, total }),
            PlotStep::Emit(PlotEvent::MoveTo { position: p0, pen_down: false }),
            PlotStep::MoveTo(p0),
            PlotStep::PenDown,
        ] + body + closing + seq![
            PlotStep::PenUp,
            PlotStep::Emit(PlotEvent::StrokeComplete { index, total }),
        ]
    }
}

/// What happens before a stroke when the plot can be paused or cancelled.
#[derive(Clone, Copy, Debug, PartialEq, Eq, Structural)]
pub enum StrokeGate {
    /// Draw the stroke
    Proceed,
    /// Stop the plot (see `cancel_steps`)
    Cancel,
    /// Report the pause and wait; then decide with `after_pause`
    Pause,
}

/// Before each stroke: a cancelled plot stops, a paused plot pauses, any
/// other plot proceeds.
pub fn stroke_gate(cancelled: bool, paused: bool) -> (g: StrokeGate)
    ensures
        g == (if cancelled { StrokeGate::Cancel } else if paused { StrokeGate::Pause } else { StrokeGate::Proceed }),
{
    if cancelled {
        StrokeGate::Cancel
    } else if paused {
        StrokeGate::Pause
    } else {
        StrokeGate::Proceed
    }
}

/// After a pause: a plot cancelled meanwhile stops, any other resumes.
pub fn after_pause(cancelled: bool) -> (g: StrokeGate)
    ensures
        g == (if cancelled { StrokeGate::Cancel } else { StrokeGate::Proceed }),
{
    if cancelled {
        StrokeGate::Cancel
    } else {
        StrokeGate::Proceed
    }
}

/// The opening steps of a plot of `total` strokes.
pub fn plot_start_steps<P>(total: usize) -> (v: Vec<PlotStep<P>>)
    ensures
        v@ == start_steps::<P>(total),
{
    let mut v: Vec<PlotStep<P>> = Vec::new();
    v.push(PlotStep::Emit(PlotEvent::Started { total_strokes: total }));
    v.push(PlotStep::PenUp);
    v.push(PlotStep::EnableMotors);
    v
}

/// The closing steps of a completed plot.
pub fn plot_finish_steps<P: Copy>(home: P) -> (v: Vec<PlotStep<P>>)
    ensures
        v@ == finish_steps(home),
{
    let mut v: Vec<PlotStep<P>> = Vec::new();
    v.push(PlotStep::Emit(PlotEvent::MoveTo { position: home, pen_down: false }));
    v.push(PlotStep::MoveTo(home));
    v.push(PlotStep::DisableMotors);
    v.push(PlotStep::Emit(PlotEvent::Completed));
    v
}

/// The steps of a cancelled plot.
pub fn plot_cancel_steps<P>(home: P) -> (v: Vec<PlotStep<P>>)
    ensures
        v@ == cancel_steps(home),
{
    let mut v: Vec<PlotStep<P>> = Vec::new();
    v.push(PlotStep::PenUp);
    v.push(PlotStep::MoveTo(home));
    v.push(PlotStep::DisableMotors);
    v.push(PlotStep::Emit(PlotEvent::Cancelled));
    v
}

/// The steps that start a pause: report it, then wait while paused.
pub fn pause_steps<P>() -> (v: Vec<PlotStep<P>>)
    ensures
        v@ == seq![PlotStep::<P>::Emit(PlotEvent::Paused), PlotStep::<P>::WaitWhilePaused],
{
    let mut v: Vec<PlotStep<P>> = Vec::new();
    v.push(PlotStep::Emit(PlotEvent::Paused));
    v.push(PlotStep::WaitWhilePaused);
    v
}

/// The steps of one stroke (see `stroke_steps`).
pub fn plot_stroke_steps<P: Copy>(
    index: usize,
    total: usize,
    points: &Vec<P>,
    closed: bool,
    motion_planning: bool,
) -> (v: Vec<PlotStep<P>>)
    ensures
        v@ == stroke_steps(index, total, points@, closed, motion_planning),
{
    let mut v: Vec<PlotStep<P>> = Vec::new();
    let n = points.len();
    if n == 0 {
        return v;
    }
    let p0 = points[0];
    v.push(PlotStep::Emit(PlotEvent::StrokeStart { index, total }));
    v.push(PlotStep::Emit(PlotEvent::MoveTo { position: p0, pen_down: false }));
    v.push(PlotStep::MoveTo(p0));
    v.push(PlotStep::PenDown);
    let ghost head = v@;
    let ghost rest = points@.skip(1);
    let planned = motion_planning && n >= 2;
    let mut i: usize = 1;
    while i < n
        invariant
            1 <= i <= n,
            n == points@.len(),
            rest == points@.skip(1),
            planned ==> v@ == head + move_reports(rest.take(i - 1)),
            !planned ==> v@ == head + line_steps(rest.take(i - 1)),
        decreases n - i,
    {
        let p = points[i];
        proof {
            assert(rest.take(i as int).drop_last() == rest.take(i - 1));
            assert(rest.take(i as int).last() == p);
        }
        if planned {
            v.push(PlotStep::Emit(PlotEvent::MoveTo { position: p, pen_down: true }));
            assert(move_reports(rest.take(i as int)) == move_reports(rest.take(i - 1)).push(
                PlotStep::Emit(PlotEvent::MoveTo { position: p, pen_down: true }),
            ));
        } else {
            v.push(PlotStep::Emit(PlotEvent::MoveTo { position: p, pen_down: true }));
            v.push(PlotStep::MoveTo(p));
        }
        i = i + 1;
    }
    assert(rest.take(n - 1) == rest);
    if planned {
        v.push(PlotStep::DrawPlanned);
    }
    let ghost middle = v@;
    if closed && n > 2 {
        v.push(PlotStep::Emit(PlotEvent::MoveTo { position: p0, pen_down: true }));
        v.push(PlotStep::MoveTo(p0));
    }
    v.push(PlotStep::PenUp);
    v.push(PlotStep::Emit(PlotEvent::StrokeComplete { index, total }));
    v
}


/// Whether a step raises or lowers the pen.
pub open spec fn is_pen_step<P>(s: PlotStep<P>) -> bool {
    s is PenUp || s is PenDown
}

proof fn lemma_line_steps_no_pen<P>(points: Seq<P>)
    ensures
        forall|k: int| 0 <= k < line_steps(points).len() ==> !is_pen_step(#[trigger] line_steps(points)[k]),
    decreases points.len(),
{
    if points.len() > 0 {
        lemma_line_steps_no_pen(points.drop_last());
        let a = line_steps(points.drop_last());
        let b = seq![
            PlotStep::Emit(PlotEvent::MoveTo { position: points.last(), pen_down: true }),
            PlotStep::MoveTo(points.last()),
        ];
        assert forall|k: int| 0 <= k < line_steps(points).len() implies !is_pen_step(#[trigger] line_steps(points)[k]) by {
            if k < a.len() {
                assert(line_steps(points)[k] == a[k]);
            } else {
                assert(line_steps(points)[k] == b[k - a.len()]);
            }
        }
    }
}

/// A closed stroke of more than two points is drawn all the way round:
/// whether or not motion planning is enabled, the pen goes back down to the
/// first point (reported, then made) before it is raised and the stroke is
/// reported complete.
pub proof fn lemma_closed_stroke_returns_to_start<P>(
    index: usize,
    total: usize,
    points: Seq<P>,
    motion_planning: bool,
)
    requires
        points.len() > 2,
    ensures
        ({
            let s = stroke_steps(index, total, points, true, motion_planning);
            &&& s.len() >= 4
            &&& s[s.len() - 4] == PlotStep::<P>::Emit(PlotEvent::MoveTo { position: points[0], pen_down: true })
            &&& s[s.len() - 3] == PlotStep::<P>::MoveTo(points[0])
            &&& s[s.len() - 2] == PlotStep::<P>::PenUp
            &&& s[s.len() - 1] == PlotStep::<P>::Emit(PlotEvent::StrokeComplete { index, total })
        }),
{
    let s = stroke_steps(index, total, points, true, motion_planning);
    let p0 = points[0];
    let rest = points.skip(1);
    let body = if motion_planning && points.len() >= 2 {
        move_reports(rest).push(PlotStep::DrawPlanned)
    } else {
        line_steps(rest)
    };
    let head = seq![
        PlotStep::Emit(PlotEvent::StrokeStart { index, total }),
        PlotStep::Emit(PlotEvent::MoveTo { position: p0, pen_down: false }),
        PlotStep::MoveTo(p0),
        PlotStep::PenDown,
    ];
    let end = seq![
        PlotStep::Emit(PlotEvent::MoveTo { position: p0, pen_down: true }),
        PlotStep::MoveTo(p0),
        PlotStep::PenUp,
        PlotStep::Emit(PlotEvent::StrokeComplete { index, total }),
    ];
    assert(s =~= head + body + end);
}

/// An open stroke (or one of at most two points) is not drawn back to its
/// start: the pen is raised where drawing ends, after a move to the last
/// point or, with motion planning, after the planned move through the
/// reported points.
pub proof fn lemma_open_stroke_ends_at_last_point<P>(
    index: usize,
    total: usize,
    points: Seq<P>,
    closed: bool,
    motion_planning: bool,
)
    requires
        points.len() >= 2,
        !closed || points.len() == 2,
    ensures
        ({
            let s = stroke_steps(index, total, points, closed, motion_planning);
            &&& s.len() >= 5
            &&& s[s.len() - 2] == PlotStep::<P>::PenUp
            &&& s[s.len() - 1] == PlotStep::<P>::Emit(PlotEvent::StrokeComplete { index, total })
            &&& motion_planning ==> s[s.len() - 3] == PlotStep::<P>::DrawPlanned
                && s[s.len() - 4] == PlotStep::<P>::Emit(PlotEvent::MoveTo { position: points.last(), pen_down: true })
            &&& !motion_planning ==> s[s.len() - 3] == PlotStep::<P>::MoveTo(points.last())
                && s[s.len() - 4] == PlotStep::<P>::Emit(PlotEvent::MoveTo { position: points.last(), pen_down: true })
        }),
{
    let s = stroke_steps(index, total, points, closed, motion_planning);
    let p0 = points[0];
    let rest = points.skip(1);
    let head = seq![
        PlotStep::Emit(PlotEvent::StrokeStart { index, total }),
        PlotStep::Emit(PlotEvent::MoveTo { position: p0, pen_down: false }),
        PlotStep::MoveTo(p0),
        PlotStep::PenDown,
    ];
    let tail = seq![PlotStep::PenUp, PlotStep::Emit(PlotEvent::StrokeComplete { index, total })];
    assert(rest.last() == points.last());
    if motion_planning {
        let body = move_reports(rest).push(PlotStep::DrawPlanned);
        assert(s =~= head + body + tail);
        assert(move_reports(rest).last() == PlotStep::<P>::Emit(PlotEvent::MoveTo { position: rest.last(), pen_down: true }));
    } else {
        let body = line_steps(rest);
        assert(s =~= head + body + tail);
        assert(body =~= line_steps(rest.drop_last()) + seq![
            PlotStep::Emit(PlotEvent::MoveTo { position: rest.last(), pen_down: true }),
            PlotStep::MoveTo(rest.last()),
        ]);
    }
}

/// Each stroke is drawn with the pen down and left with the pen up: its
/// steps travel to the first point, lower the pen there, raise it again just
/// before the stroke is reported complete, and touch the pen nowhere in
/// between.
pub proof fn lemma_stroke_pen_discipline<P>(
    index: usize,
    total: usize,
    points: Seq<P>,
    closed: bool,
    motion_planning: bool,
)
    requires
        points.len() > 0,
    ensures
        ({
            let s = stroke_steps(index, total, points, closed, motion_planning);
            &&& s.len() >= 6
            &&& s[2] == PlotStep::MoveTo(points[0])
            &&& s[3] is PenDown
            &&& s[s.len() - 2] is PenUp
            &&& s.last() == PlotStep::<P>::Emit(PlotEvent::StrokeComplete { index, total })
            &&& forall|k: int| 3 < k < s.len() - 2 ==> !is_pen_step(#[trigger] s[k])
        }),
{
    let s = stroke_steps(index, total, points, closed, motion_planning);
    let p0 = points[0];
    let rest = points.skip(1);
    let body = if motion_planning && points.len() >= 2 {
        move_reports(rest).push(PlotStep::DrawPlanned)
    } else {
        line_steps(rest)
    };
    let closing = if closed && points.len() > 2 {
        seq![PlotStep::Emit(PlotEvent::MoveTo { position: p0, pen_down: true }), PlotStep::MoveTo(p0)]
    } else {
        Seq::empty()
    };
    let head = seq![
        PlotStep::Emit(PlotEvent::StrokeStart { index, total }),
        PlotStep::Emit(PlotEvent::MoveTo { position: p0, pen_down: false }),
        PlotStep::MoveTo(p0),
        PlotStep::PenDown,
    ];
    let tail = seq![PlotStep::PenUp, PlotStep::Emit(PlotEvent::StrokeComplete { index, total })];
    assert(s == head + body + closing + tail);
    lemma_line_steps_no_pen(rest);
    assert forall|k: int| 0 <= k < body.len() implies !is_pen_step(#[trigger] body[k]) by {
        if motion_planning && points.len() >= 2 {
            if k < move_reports(rest).len() {
                assert(body[k] == move_reports(rest)[k]);
            }
        } else {
            assert(body[k] == line_steps(rest)[k]);
        }
    }
    assert forall|k: int| 3 < k < s.len() - 2 implies !is_pen_step(#[trigger] s[k]) by {
        if k < 4 + body.len() {
            assert(s[k] == body[k - 4]);
        } else {
            assert(s[k] == closing[k - 4 - body.len()]);
        }
    }
}


/// The points of a stroke in the order they are drawn: a reversed stroke is
/// drawn from its last point to its first.
pub open spec fn drawn_order<P>(points: Seq<P>, reversed: bool) -> Seq<P> {
    if reversed { points.reverse() } else { points }
}

/// The points of a stroke in drawing order (see `drawn_order`).
pub fn drawing_order<P: Copy>(points: &Vec<P>, reversed: bool) -> (v: Vec<P>)
    ensures
        v@ == drawn_order(points@, reversed),
{
    let n = points.len();
    let mut v: Vec<P> = Vec::new();
    let mut i: usize = 0;
    while i < n
        invariant
            n == points@.len(),
            i <= n,
            v@.len() == i,
            forall|k: int| 0 <= k < i ==> v@[k] == (if reversed { points@[n - 1 - k] } else { points@[k] }),
        decreases n - i,
    {
        let idx = if reversed { n - 1 - i } else { i };
        v.push(points[idx]);
        i = i + 1;
    }
    assert(v@ =~= drawn_order(points@, reversed));
    v
}

/// Where drawing a stroke starts: its first point in drawing order, or
/// `origin` for a stroke without points.
pub fn stroke_start<P: Copy>(points: &Vec<P>, reversed: bool, origin: P) -> (p: P)
    ensures
        p == (if points@.len() == 0 { origin } else if reversed { points@.last() } else { points@[0] }),
{
    if points.len() == 0 {
        origin
    } else if reversed {
        points[points.len() - 1]
    } else {
        points[0]
    }
}

/// Where drawing a stroke ends: its last point in drawing order, or
/// `origin` for a stroke without points.
pub fn stroke_end<P: Copy>(points: &Vec<P>, reversed: bool, origin: P) -> (p: P)
    ensures
        p == (if points@.len() == 0 { origin } else if reversed { points@[0] } else { points@.last() }),
{
    if points.len() == 0 {
        origin
    } else if reversed {
        points[0]
    } else {
        points[points.len() - 1]
    }
}

/// A stroke is drawn from its start to its end: the first point in drawing
/// order is `stroke_start`'s point and the last is `stroke_end`'s, and
/// reversing a stroke twice draws it as it is.
pub proof fn lemma_drawing_order_ends<P>(points: Seq<P>, reversed: bool)
    requires
        points.len() > 0,
    ensures
        drawn_order(points, reversed)[0] == (if reversed { points.last() } else { points[0] }),
        drawn_order(points, reversed).last() == (if reversed { points[0] } else { points.last() }),
        drawn_order(drawn_order(points, reversed), reversed) == points,
        drawn_order(points, reversed).len() == points.len(),
{
    if reversed {
        assert(points.reverse().reverse() =~= points);
    }
}


/// The pen moves of a sequence of steps, in order: `true` for lowering,
/// `false` for raising.
pub open spec fn pen_trace<P>(s: Seq<PlotStep<P>>) -> Seq<bool>
    decreases s.len(),
{
    if s.len() == 0 {
        Seq::empty()
    } else {
        pen_trace(s.drop_last()) + match s.last() {
            PlotStep::PenUp => seq![false],
            PlotStep::PenDown => seq![true],
            _ => Seq::empty(),
        }
    }
}

proof fn lemma_pen_trace_append<P>(a: Seq<PlotStep<P>>, b: Seq<PlotStep<P>>)
    ensures
        pen_trace(a + b) == pen_trace(a) + pen_trace(b),
    decreases b.len(),
{
    if b.len() == 0 {
        assert(a + b == a);
        assert(pen_trace(b) == Seq::<bool>::empty());
        assert(pen_trace(a) + pen_trace(b) == pen_trace(a));
    } else {
        lemma_pen_trace_append(a, b.drop_last());
        assert((a + b).drop_last() == a + b.drop_last());
        assert((a + b).last() == b.last());
        assert(pen_trace(a) + pen_trace(b) == pen_trace(a) + pen_trace(b.drop_last()) + match b.last() {
            PlotStep::PenUp => seq![false],
            PlotStep::PenDown => seq![true],
            _ => Seq::<bool>::empty(),
        });
    }
}

proof fn lemma_pen_trace_single<P>(x: PlotStep<P>)
    ensures
        pen_trace(seq![x]) == match x {
            PlotStep::PenUp => seq![false],
            PlotStep::PenDown => seq![true],
            _ => Seq::<bool>::empty(),
        },
{
    let s = seq![x];
    assert(s.drop_last() == Seq::<PlotStep<P>>::empty());
    assert(pen_trace(s.drop_last()) == Seq::<bool>::empty());
    assert(s.last() == x);
    assert(Seq::<bool>::empty() + seq![false] == seq![false]);
    assert(Seq::<bool>::empty() + seq![true] == seq![true]);
    assert(Seq::<bool>::empty() + Seq::<bool>::empty() == Seq::<bool>::empty());
}

proof fn lemma_pen_trace_no_pen<P>(s: Seq<PlotStep<P>>)
    requires
        forall|k: int| 0 <= k < s.len() ==> !is_pen_step(#[trigger] s[k]),
    ensures
        pen_trace(s) == Seq::<bool>::empty(),
    decreases s.len(),
{
    if s.len() > 0 {
        assert(!is_pen_step(s[s.len() - 1]));
        assert forall|k: int| 0 <= k < s.drop_last().len() implies !is_pen_step(#[trigger] s.drop_last()[k]) by {
            assert(s.drop_last()[k] == s[k]);
        }
        lemma_pen_trace_no_pen(s.drop_last());
    }
}

/// A stroke's steps lower the pen once and then raise it once (a stroke
/// without points moves no pen).
pub proof fn lemma_stroke_pen_trace<P>(
    index: usize,
    total: usize,
    points: Seq<P>,
    closed: bool,
    motion_planning: bool,
)
    ensures
        pen_trace(stroke_steps(index, total, points, closed, motion_planning))
            == if points.len() == 0 { Seq::<bool>::empty() } else { seq![true, false] },
{
    let s = stroke_steps(index, total, points, closed, motion_planning);
    if points.len() > 0 {
        lemma_stroke_pen_discipline(index, total, points, closed, motion_planning);
        let head = s.take(3);
        let pen_down = s.subrange(3, 4);
        let middle = s.subrange(4, s.len() - 2);
        let pen_up = s.subrange(s.len() - 2, s.len() - 1);
        let last = s.subrange(s.len() - 1, s.len() as int);
        assert(s == head + pen_down + middle + pen_up + last);
        assert forall|k: int| 0 <= k < head.len() implies !is_pen_step(#[trigger] head[k]) by {
            assert(head[k] == s[k]);
        }
        assert forall|k: int| 0 <= k < middle.len() implies !is_pen_step(#[trigger] middle[k]) by {
            assert(middle[k] == s[k + 4]);
        }
        assert forall|k: int| 0 <= k < last.len() implies !is_pen_step(#[trigger] last[k]) by {
            assert(last[k] == s[s.len() - 1]);
        }
        lemma_pen_trace_no_pen(head);
        lemma_pen_trace_no_pen(middle);
        lemma_pen_trace_no_pen(last);
        assert(pen_down == seq![s[3]]);
        assert(pen_up == seq![s[s.len() - 2]]);
        lemma_pen_trace_single(s[3]);
        lemma_pen_trace_single(s[s.len() - 2]);
        lemma_pen_trace_append(head, pen_down);
        lemma_pen_trace_append(head + pen_down, middle);
        lemma_pen_trace_append(head + pen_down + middle, pen_up);
        lemma_pen_trace_append(head + pen_down + middle + pen_up, last);
        assert(pen_trace(s) =~= seq![true, false]);
    } else {
        assert(s == Seq::<PlotStep<P>>::empty());
    }
}

/// The steps of the strokes of a plot of `total` strokes, in order; each
/// stroke is its points in drawing order and whether it is closed.
pub open spec fn strokes_steps<P>(strokes: Seq<(Seq<P>, bool)>, total: usize, motion_planning: bool) -> Seq<PlotStep<P>>
    decreases strokes.len(),
{
    if strokes.len() == 0 {
        Seq::empty()
    } else {
        strokes_steps(strokes.drop_last(), total, motion_planning) + stroke_steps(
            (strokes.len() - 1) as usize,
            total,
            strokes.last().0,
            strokes.last().1,
            motion_planning,
        )
    }
}

/// The steps of a whole plot that is neither paused nor cancelled: the
/// opening steps, every stroke, and the closing steps.
pub open spec fn plot_steps_spec<P>(strokes: Seq<(Seq<P>, bool)>, motion_planning: bool, home: P) -> Seq<PlotStep<P>> {
    start_steps(strokes.len() as usize) + strokes_steps(strokes, strokes.len() as usize, motion_planning) + finish_steps(home)
}

/// The number of strokes with points.
pub open spec fn drawn_strokes<P>(strokes: Seq<(Seq<P>, bool)>) -> nat
    decreases strokes.len(),
{
    if strokes.len() == 0 {
        0
    } else {
        drawn_strokes(strokes.drop_last()) + if strokes.last().0.len() > 0 { 1nat } else { 0nat }
    }
}

/// Pen moves that raise the pen and then lower and raise it `n` times.
pub open spec fn up_then_strokes(n: nat) -> Seq<bool>
    decreases n,
{
    if n == 0 {
        seq![false]
    } else {
        up_then_strokes((n - 1) as nat) + seq![true, false]
    }
}

proof fn lemma_strokes_pen_trace<P>(strokes: Seq<(Seq<P>, bool)>, total: usize, motion_planning: bool)
    ensures
        seq![false] + pen_trace(strokes_steps(strokes, total, motion_planning)) == up_then_strokes(drawn_strokes(strokes)),
    decreases strokes.len(),
{
    if strokes.len() == 0 {
        assert(pen_trace(Seq::<PlotStep<P>>::empty()) == Seq::<bool>::empty());
        assert(seq![false] + Seq::<bool>::empty() == seq![false]);
    } else {
        let prev = strokes_steps(strokes.drop_last(), total, motion_planning);
        let last = stroke_steps((strokes.len() - 1) as usize, total, strokes.last().0, strokes.last().1, motion_planning);
        lemma_strokes_pen_trace(strokes.drop_last(), total, motion_planning);
        lemma_pen_trace_append(prev, last);
        lemma_stroke_pen_trace((strokes.len() - 1) as usize, total, strokes.last().0, strokes.last().1, motion_planning);
        if strokes.last().0.len() > 0 {
            assert(seq![false] + (pen_trace(prev) + seq![true, false]) == (seq![false] + pen_trace(prev)) + seq![true, false]);
        } else {
            assert(pen_trace(prev) + Seq::<bool>::empty() == pen_trace(prev));
        }
    }
}

/// The pen of a plot that runs to completion starts up, is lowered once for
/// each stroke with points and raised again after it, and ends up: its pen
/// moves are one raise followed by a lower and a raise per drawn stroke.
pub proof fn lemma_plot_pen_alternates<P>(strokes: Seq<(Seq<P>, bool)>, motion_planning: bool, home: P)
    ensures
        pen_trace(plot_steps_spec(strokes, motion_planning, home)) == up_then_strokes(drawn_strokes(strokes)),
{
    let a = start_steps::<P>(strokes.len() as usize);
    let b = strokes_steps(strokes, strokes.len() as usize, motion_planning);
    let c = finish_steps(home);
    lemma_strokes_pen_trace(strokes, strokes.len() as usize, motion_planning);
    lemma_pen_trace_append(a, b);
    lemma_pen_trace_append(a + b, c);
    assert(a == seq![PlotStep::Emit(PlotEvent::Started { total_strokes: strokes.len() as usize })]
        + seq![PlotStep::<P>::PenUp] + seq![PlotStep::<P>::EnableMotors]);
    lemma_pen_trace_append(
        seq![PlotStep::Emit(PlotEvent::Started { total_strokes: strokes.len() as usize })] + seq![PlotStep::<P>::PenUp],
        seq![PlotStep::<P>::EnableMotors],
    );
    lemma_pen_trace_append(
        seq![PlotStep::Emit(PlotEvent::Started { total_strokes: strokes.len() as usize })],
        seq![PlotStep::<P>::PenUp],
    );
    reveal_with_fuel(pen_trace, 2);
    assert(pen_trace(a) == seq![false]);
    assert forall|k: int| 0 <= k < c.len() implies !is_pen_step(#[trigger] c[k]) by {}
    lemma_pen_trace_no_pen(c);
    assert(pen_trace(a + b + c) == seq![false] + pen_trace(b) + Seq::<bool>::empty());
    assert(seq![false] + pen_trace(b) + Seq::<bool>::empty() == seq![false] + pen_trace(b));
}


/// The strokes of a plot as points and closedness.
pub open spec fn strokes_view<P>(strokes: Seq<(Vec<P>, bool)>) -> Seq<(Seq<P>, bool)> {
    strokes.map_values(|e: (Vec<P>, bool)| (e.0@, e.1))
}

/// The steps of a whole plot that is neither paused nor cancelled (see
/// `plot_steps_spec`); each stroke is given as its points in drawing order
/// and whether it is closed.
pub fn plot_steps<P: Copy>(strokes: &Vec<(Vec<P>, bool)>, motion_planning: bool, home: P) -> (v: Vec<PlotStep<P>>)
    ensures
        v@ == plot_steps_spec(strokes_view(strokes@), motion_planning, home),
{
    let n = strokes.len();
    let mut v = plot_start_steps(n);
    let ghost head = v@;
    let mut i: usize = 0;
    while i < n
        invariant
            n == strokes@.len(),
            i <= n,
            head == start_steps::<P>(n),
            v@ == head + strokes_steps(strokes_view(strokes@).take(i as int), n, motion_planning),
        decreases n - i,
    {
        let ghost done = v@;
        let mut more = plot_stroke_steps(i, n, &strokes[i].0, strokes[i].1, motion_planning);
        v.append(&mut more);
        proof {
            let sv = strokes_view(strokes@);
            assert(sv.take(i + 1).drop_last() == sv.take(i as int));
            assert(sv.take(i + 1).last() == (strokes@[i as int].0@, strokes@[i as int].1));
            assert(v@ == head + strokes_steps(sv.take(i as int), n, motion_planning) + stroke_steps(
                i,
                n,
                strokes@[i as int].0@,
                strokes@[i as int].1,
                motion_planning,
            ));
        }
        i = i + 1;
    }
    let mut tail = plot_finish_steps(home);
    v.append(&mut tail);
    proof {
        assert(strokes_view(strokes@).take(n as int) == strokes_view(strokes@));
        assert(strokes_view(strokes@).len() == n);
    }
    v
}

} // verus!
