use plotta::plot_session::{
    after_pause, drawing_order, pause_steps, plot_cancel_steps, plot_finish_steps, plot_start_steps,
    plot_steps, plot_stroke_steps, stroke_end, stroke_gate, stroke_start, PlotEvent, PlotStep, StrokeGate,
};
use plotta::stats::format_time;
use plotta::svg::{FillBehavior, ImportWarning, SvgError};

type Pt = (i32, i32);

fn describe(steps: &[PlotStep<Pt>]) -> Vec<String> {
    steps
        .iter()
        .map(|s| match s {
            PlotStep::Emit(PlotEvent::Started { total_strokes }) => format!("started {}", total_strokes),
            PlotStep::Emit(PlotEvent::StrokeStart { index, total }) => format!("start {}/{}", index, total),
            PlotStep::Emit(PlotEvent::StrokeComplete { index, total }) => format!("done {}/{}", index, total),
            PlotStep::Emit(PlotEvent::MoveTo { position, pen_down }) => {
                format!("report {:?} {}", position, if *pen_down { "down" } else { "up" })
            }
            PlotStep::Emit(PlotEvent::Paused) => "paused".to_string(),
            PlotStep::Emit(PlotEvent::Resumed) => "resumed".to_string(),
            PlotStep::Emit(PlotEvent::Cancelled) => "cancelled".to_string(),
            PlotStep::Emit(PlotEvent::Completed) => "completed".to_string(),
            PlotStep::Emit(PlotEvent::Error(m)) => format!("error {}", m),
            PlotStep::PenUp => "pen up".to_string(),
            PlotStep::PenDown => "pen down".to_string(),
            PlotStep::EnableMotors => "motors on".to_string(),
            PlotStep::DisableMotors => "motors off".to_string(),
            PlotStep::MoveTo(p) => format!("move {:?}", p),
            PlotStep::DrawPlanned => "draw planned".to_string(),
            PlotStep::WaitWhilePaused => "wait".to_string(),
        })
        .collect()
}

#[test]
fn test_format_time_seconds() {
    assert_eq!(format_time(45), "~45s");
}

#[test]
fn test_format_time_minutes() {
    assert_eq!(format_time(185), "~3m 5s");
}

#[test]
fn test_format_time_hours() {
    assert_eq!(format_time(3720), "~1h 2m");
}

#[test]
fn format_time_boundaries() {
    assert_eq!(format_time(0), "~0s");
    assert_eq!(format_time(59), "~59s");
    assert_eq!(format_time(60), "~1m 0s");
    assert_eq!(format_time(3599), "~59m 59s");
    assert_eq!(format_time(3600), "~1h 0m");
    assert_eq!(format_time(90061), "~25h 1m");
}

#[test]
fn plot_opens_and_closes() {
    assert_eq!(describe(&plot_start_steps::<Pt>(3)), vec!["started 3", "pen up", "motors on"]);
    assert_eq!(
        describe(&plot_finish_steps((0, 0))),
        vec!["report (0, 0) up", "move (0, 0)", "motors off", "completed"]
    );
    assert_eq!(
        describe(&plot_cancel_steps((0, 0))),
        vec!["pen up", "move (0, 0)", "motors off", "cancelled"]
    );
    assert_eq!(describe(&pause_steps::<Pt>()), vec!["paused", "wait"]);
}

#[test]
fn stroke_point_by_point() {
    let pts = vec![(1, 1), (2, 2), (3, 1)];
    assert_eq!(
        describe(&plot_stroke_steps(0, 2, &pts, true, false)),
        vec![
            "start 0/2",
            "report (1, 1) up",
            "move (1, 1)",
            "pen down",
            "report (2, 2) down",
            "move (2, 2)",
            "report (3, 1) down",
            "move (3, 1)",
            "report (1, 1) down",
            "move (1, 1)",
            "pen up",
            "done 0/2",
        ]
    );
}

#[test]
fn stroke_with_motion_planning() {
    let pts = vec![(1, 1), (2, 2)];
    assert_eq!(
        describe(&plot_stroke_steps(1, 2, &pts, true, true)),
        vec![
            "start 1/2",
            "report (1, 1) up",
            "move (1, 1)",
            "pen down",
            "report (2, 2) down",
            "draw planned",
            "pen up",
            "done 1/2",
        ]
    );
}

#[test]
fn single_point_and_empty_strokes() {
    let one = vec![(5, 5)];
    assert_eq!(
        describe(&plot_stroke_steps(0, 1, &one, true, true)),
        vec!["start 0/1", "report (5, 5) up", "move (5, 5)", "pen down", "pen up", "done 0/1"]
    );
    let none: Vec<Pt> = Vec::new();
    assert!(plot_stroke_steps(0, 1, &none, false, false).is_empty());
}

#[test]
fn pause_and_cancel_gates() {
    assert_eq!(stroke_gate(false, false), StrokeGate::Proceed);
    assert_eq!(stroke_gate(false, true), StrokeGate::Pause);
    assert_eq!(stroke_gate(true, true), StrokeGate::Cancel);
    assert_eq!(stroke_gate(true, false), StrokeGate::Cancel);
    assert_eq!(after_pause(false), StrokeGate::Proceed);
    assert_eq!(after_pause(true), StrokeGate::Cancel);
}

#[test]
fn svg_types() {
    assert_eq!(FillBehavior::default(), FillBehavior::ConvertToOutline);
    assert_eq!(SvgError::Parse("bad path".to_string()).message(), "Parse error: bad path");
    let io = std::io::Error::new(std::io::ErrorKind::Other, "disk full");
    assert_eq!(SvgError::Io(io).message(), "IO error: disk full");
    let w = ImportWarning::GradientIgnored { id: "g1".to_string() };
    match w.clone() {
        ImportWarning::GradientIgnored { id } => assert_eq!(id, "g1"),
        _ => panic!("wrong variant"),
    }
}

#[test]
fn reversed_strokes_are_drawn_back_to_front() {
    let pts = vec![(1, 1), (2, 2), (3, 3)];
    assert_eq!(drawing_order(&pts, false), pts);
    assert_eq!(drawing_order(&pts, true), vec![(3, 3), (2, 2), (1, 1)]);
    assert_eq!(stroke_start(&pts, false, (0, 0)), (1, 1));
    assert_eq!(stroke_start(&pts, true, (0, 0)), (3, 3));
    assert_eq!(stroke_end(&pts, false, (0, 0)), (3, 3));
    assert_eq!(stroke_end(&pts, true, (0, 0)), (1, 1));
    let none: Vec<Pt> = Vec::new();
    assert_eq!(stroke_start(&none, true, (9, 9)), (9, 9));
    assert_eq!(stroke_end(&none, false, (9, 9)), (9, 9));
    assert!(drawing_order(&none, true).is_empty());
}

#[test]
fn whole_plot_raises_and_lowers_the_pen_per_drawn_stroke() {
    let strokes: Vec<(Vec<Pt>, bool)> = vec![(vec![(1, 1), (2, 2)], false), (Vec::new(), true), (vec![(4, 4)], false)];
    let steps = describe(&plot_steps(&strokes, false, (0, 0)));
    assert_eq!(
        steps,
        vec![
            "started 3",
            "pen up",
            "motors on",
            "start 0/3",
            "report (1, 1) up",
            "move (1, 1)",
            "pen down",
            "report (2, 2) down",
            "move (2, 2)",
            "pen up",
            "done 0/3",
            "start 2/3",
            "report (4, 4) up",
            "move (4, 4)",
            "pen down",
            "pen up",
            "done 2/3",
            "report (0, 0) up",
            "move (0, 0)",
            "motors off",
            "completed",
        ]
    );
    let pen: Vec<&str> = steps.iter().map(|s| s.as_str()).filter(|s| *s == "pen up" || *s == "pen down").collect();
    assert_eq!(pen, vec!["pen up", "pen down", "pen up", "pen down", "pen up"]);
}
