use plotta::lm_command::{LmCommand, PlannedMove};
use plotta::motion;
use plotta::sm_command::SmCommand;
use plotta::sm_move::{
    plan_sliced_move, single_sm_move, sliced_move_fits, sm_move_from_slices, sm_slice_durations, SmPlannedMove,
};

const MAX_STEP_RATE: f64 = 25.0;

// ---------------------------------------------------------------------------
// LM commands (module form)
// ---------------------------------------------------------------------------

#[test]
fn lm_command_test_lm_command_to_string() {
    let cmd = LmCommand::new(1000, 100, 50, 2000, -100, -50, 500);
    assert_eq!(cmd.to_command_string(), "LM,1000,100,50,2000,-100,-50");
}

#[test]
fn lm_command_test_lm_command_is_valid() {
    let valid1 = LmCommand::new(1000, 100, 0, 0, 0, 0, 100);
    assert!(valid1.is_valid());
    let valid2 = LmCommand::new(0, 100, 50, 0, 0, 0, 100);
    assert!(valid2.is_valid());
    let valid3 = LmCommand::new(1000, 100, 0, 2000, -100, 0, 100);
    assert!(valid3.is_valid());
    let invalid1 = LmCommand::new(0, 100, 0, 0, 0, 0, 100);
    assert!(!invalid1.is_valid());
    let invalid2 = LmCommand::new(1000, 0, 50, 2000, 0, 50, 100);
    assert!(!invalid2.is_valid());
    let invalid3 = LmCommand::new(1000, 100, 0, 0, 50, 0, 100);
    assert!(!invalid3.is_valid());
}

#[test]
fn lm_rates_above_the_maximum_step_rate_are_invalid() {
    assert!(!LmCommand::new(3_000_000_000, 100, 0, 0, 0, 0, 100).is_valid());
    assert!(!LmCommand::new(1000, 100, 0, 2_147_483_649, -100, 0, 100).is_valid());
    assert!(LmCommand::new(2_147_483_648, 100, 0, 0, 0, 0, 100).is_valid());
}

#[test]
fn lm_command_test_lm_command_is_empty() {
    let empty = LmCommand::new(1000, 0, 50, 2000, 0, 50, 100);
    assert!(empty.is_empty());
    let not_empty = LmCommand::new(1000, 100, 0, 2000, 0, 0, 100);
    assert!(!not_empty.is_empty());
}

// ---------------------------------------------------------------------------
// LM commands (single-module form)
// ---------------------------------------------------------------------------

#[test]
fn motion_test_lm_command_to_string() {
    let cmd = motion::LmCommand::new(1000, 100, 50, 2000, -100, -50, 500);
    assert_eq!(cmd.to_command_string(), "LM,1000,100,50,2000,-100,-50");
}

#[test]
fn motion_test_lm_command_is_valid() {
    let valid1 = motion::LmCommand::new(1000, 100, 0, 0, 0, 0, 100);
    assert!(valid1.is_valid());
    let valid2 = motion::LmCommand::new(0, 100, 50, 0, 0, 0, 100);
    assert!(valid2.is_valid());
    let valid3 = motion::LmCommand::new(1000, 100, 0, 2000, -100, 0, 100);
    assert!(valid3.is_valid());
    let invalid1 = motion::LmCommand::new(0, 100, 0, 0, 0, 0, 100);
    assert!(!invalid1.is_valid());
    let invalid2 = motion::LmCommand::new(1000, 0, 50, 2000, 0, 50, 100);
    assert!(!invalid2.is_valid());
    let invalid3 = motion::LmCommand::new(1000, 100, 0, 0, 50, 0, 100);
    assert!(!invalid3.is_valid());
}

#[test]
fn motion_test_lm_command_is_empty() {
    let empty = motion::LmCommand::new(1000, 0, 50, 2000, 0, 50, 100);
    assert!(empty.is_empty());
    let not_empty = motion::LmCommand::new(1000, 100, 0, 2000, 0, 0, 100);
    assert!(!not_empty.is_empty());
}

#[test]
fn lm_command_with_clear_writes_clear_field() {
    let cmd = LmCommand::new(1000, 100, 50, 2000, -100, -50, 500).with_clear(3);
    assert_eq!(cmd.clear, 3);
    assert_eq!(cmd.to_command_string(), "LM,1000,100,50,2000,-100,-50,3");
    let negative = LmCommand::new(0, -2147483647, -7, 4294967295, 0, 0, 1);
    assert_eq!(negative.to_command_string(), "LM,0,-2147483647,-7,4294967295,0,0");
}

#[test]
fn planned_move_from_phases_sums_and_clears() {
    let a = LmCommand::new(0, 100, 50, 0, 100, 50, 120);
    let b = LmCommand::new(5000, 400, 0, 5000, 400, 0, 300);
    let c = LmCommand::new(5000, 100, -50, 5000, 100, -50, 120);
    let m = PlannedMove::from_phases((0.0, 0.0), (7.5, 0.0), vec![a, b, c], true);
    assert_eq!(m.total_duration_ms, 540);
    assert_eq!(m.commands.len(), 3);
    assert_eq!(m.commands[0].clear, 3);
    assert_eq!(m.commands[1].clear, 0);
    assert_eq!(m.start, (0.0, 0.0));
    assert_eq!(m.end, (7.5, 0.0));

    let moving = PlannedMove::from_phases(0u8, 1u8, vec![b], false);
    assert_eq!(moving.commands[0].clear, 0);
    assert_eq!(moving.total_duration_ms, 300);

    let empty: PlannedMove<u8> = PlannedMove::from_phases(0, 1, Vec::new(), true);
    assert!(empty.commands.is_empty());
    assert_eq!(empty.total_duration_ms, 0);
}

// ---------------------------------------------------------------------------
// SM commands (module form)
// ---------------------------------------------------------------------------

#[test]
fn sm_command_test_sm_command_creation() {
    let cmd = SmCommand::new(25, 100, -50);
    assert_eq!(cmd.duration_ms, 25);
    assert_eq!(cmd.steps_axis1, 100);
    assert_eq!(cmd.steps_axis2, -50);
}

#[test]
fn sm_command_test_sm_command_from_xy_steps() {
    let cmd = SmCommand::from_xy_steps(25, 100, 50);
    assert_eq!(cmd.duration_ms, 25);
    assert_eq!(cmd.steps_axis1, 150);
    assert_eq!(cmd.steps_axis2, 50);
}

#[test]
fn sm_command_test_sm_command_to_string() {
    let cmd = SmCommand::new(25, 100, -50);
    assert_eq!(cmd.to_command_string(), "SM,25,100,-50");
}

#[test]
fn sm_command_test_sm_command_is_empty() {
    let empty = SmCommand::new(25, 0, 0);
    assert!(empty.is_empty());
    let not_empty = SmCommand::new(25, 100, 0);
    assert!(!not_empty.is_empty());
}

#[test]
fn sm_command_test_sm_command_sleep_time() {
    let long_cmd = SmCommand::new(100, 100, 50);
    assert_eq!(long_cmd.sleep_time_ms(), 70);
    let short_cmd = SmCommand::new(40, 100, 50);
    assert_eq!(short_cmd.sleep_time_ms(), 0);
}

#[test]
fn sm_command_test_sm_command_validate_overspeed() {
    let mut cmd = SmCommand::new(2, 100, 50);
    let valid = cmd.validate_and_adjust();
    assert!(valid);
    assert!(cmd.duration_ms > 2);
    let rate = cmd.steps_axis1.abs() as f64 / cmd.duration_ms as f64;
    assert!(rate < MAX_STEP_RATE, "Rate {} should be < {}", rate, MAX_STEP_RATE);
}

#[test]
fn test_sm_command_validate_underspeed_xy_space() {
    let mut cmd = SmCommand::from_xy_steps(1000, 100, 0);
    let valid = cmd.validate_and_adjust();
    assert!(valid);
    let (x, y) = cmd.xy_steps();
    assert_eq!(x, 100);
    assert_eq!(y, 0);
}

#[test]
fn test_sm_command_validate_y_underspeed_zeroed() {
    let mut cmd = SmCommand::from_xy_steps(1000, 100, 1);
    let valid = cmd.validate_and_adjust();
    assert!(valid);
    let (x, y) = cmd.xy_steps();
    assert_eq!(x, 100);
    assert_eq!(y, 0);
    assert_eq!(cmd.steps_axis1, 100);
    assert_eq!(cmd.steps_axis2, 100);
}

#[test]
fn sm_command_test_sm_command_validate_both_underspeed() {
    let mut cmd = SmCommand::from_xy_steps(1000, 1, 1);
    let valid = cmd.validate_and_adjust();
    assert!(!valid);
}

#[test]
fn sm_command_test_sm_planned_move_empty() {
    let start = (0.0f64, 0.0f64);
    let end = (0.0f64, 0.0f64);
    let planned = SmPlannedMove::empty(start, end);
    assert!(planned.commands.is_empty());
    assert_eq!(planned.total_duration_ms, 0);
}

#[test]
fn sm_command_overspeed_duration_is_exact() {
    // 100 steps on axis 1 need a duration above 100 / 25 = 4 ms: 5 ms.
    let mut cmd = SmCommand::new(2, 100, 50);
    assert!(cmd.validate_and_adjust());
    assert_eq!(cmd.duration_ms, 5);
    assert_eq!(cmd.steps_axis1, 100);
    assert_eq!(cmd.steps_axis2, 50);
    // Validating again changes nothing.
    let again = cmd;
    let mut twice = cmd;
    assert!(twice.validate_and_adjust());
    assert_eq!(twice, again);
}

#[test]
fn sm_command_corexy_roundtrip_values() {
    for &(x, y) in &[(0, 0), (800, 400), (-12, 7), (1, -1), (-1000, -2000)] {
        let cmd = SmCommand::from_xy_steps(25, x, y);
        assert_eq!(cmd.xy_steps(), (x, y));
    }
    // An odd motor-axis sum halves toward zero.
    assert_eq!(SmCommand::new(10, -3, 0).xy_steps(), (-1, -1));
}

#[test]
fn sm_command_empty_is_not_valid() {
    let mut cmd = SmCommand::new(0, 0, 0);
    assert!(!cmd.validate_and_adjust());
    assert_eq!(cmd, SmCommand::new(0, 0, 0));
}

// ---------------------------------------------------------------------------
// SM commands (single-module form)
// ---------------------------------------------------------------------------

#[test]
fn motion_test_sm_command_creation() {
    let cmd = motion::SmCommand::new(25, 100, -50);
    assert_eq!(cmd.duration_ms, 25);
    assert_eq!(cmd.steps_axis1, 100);
    assert_eq!(cmd.steps_axis2, -50);
}

#[test]
fn motion_test_sm_command_from_xy_steps() {
    let cmd = motion::SmCommand::from_xy_steps(25, 100, 50);
    assert_eq!(cmd.duration_ms, 25);
    assert_eq!(cmd.steps_axis1, 150);
    assert_eq!(cmd.steps_axis2, 50);
}

#[test]
fn motion_test_sm_command_to_string() {
    let cmd = motion::SmCommand::new(25, 100, -50);
    assert_eq!(cmd.to_command_string(), "SM,25,100,-50");
}

#[test]
fn motion_test_sm_command_is_empty() {
    let empty = motion::SmCommand::new(25, 0, 0);
    assert!(empty.is_empty());
    let not_empty = motion::SmCommand::new(25, 100, 0);
    assert!(!not_empty.is_empty());
}

#[test]
fn motion_test_sm_command_sleep_time() {
    let long_cmd = motion::SmCommand::new(100, 100, 50);
    assert_eq!(long_cmd.sleep_time_ms(), 70);
    let short_cmd = motion::SmCommand::new(40, 100, 50);
    assert_eq!(short_cmd.sleep_time_ms(), 0);
}

#[test]
fn motion_test_sm_command_validate_overspeed() {
    let mut cmd = motion::SmCommand::new(2, 100, 50);
    let valid = cmd.validate_and_adjust();
    assert!(valid);
    assert!(cmd.duration_ms > 2);
    let rate = cmd.steps_axis1.abs() as f64 / cmd.duration_ms as f64;
    assert!(rate < MAX_STEP_RATE, "Rate {} should be < {}", rate, MAX_STEP_RATE);
}

#[test]
fn test_sm_command_validate_underspeed() {
    let mut cmd = motion::SmCommand::new(1000, 1, 100);
    let valid = cmd.validate_and_adjust();
    assert!(valid);
    assert_eq!(cmd.steps_axis1, 0);
    assert_eq!(cmd.steps_axis2, 100);
}

#[test]
fn motion_test_sm_command_validate_both_underspeed() {
    let mut cmd = motion::SmCommand::new(1000, 1, 1);
    let valid = cmd.validate_and_adjust();
    assert!(!valid);
}

#[test]
fn motion_test_sm_planned_move_empty() {
    let start = (0.0f64, 0.0f64);
    let end = (0.0f64, 0.0f64);
    let planned = motion::SmPlannedMove::empty(start, end);
    assert!(planned.commands.is_empty());
    assert_eq!(planned.total_duration_ms, 0);
}

// ---------------------------------------------------------------------------
// Time slicing and assembly of SM moves
// ---------------------------------------------------------------------------

#[test]
fn slice_durations_cover_the_move() {
    assert_eq!(sm_slice_durations(0), vec![1]);
    assert_eq!(sm_slice_durations(40), vec![40]);
    assert_eq!(sm_slice_durations(50), vec![25, 25]);
    assert_eq!(sm_slice_durations(137), vec![25, 25, 25, 25, 37]);
}

#[test]
fn sliced_move_lands_on_total() {
    // Four slices moving 10, 20, 20 and the rest of 60 X steps.
    let durations = vec![25, 25, 25, 25];
    let targets = vec![(10, 0), (30, 0), (50, 0)];
    let m = sm_move_from_slices((0.0, 0.0), (0.75, 0.0), &durations, &targets, 60, 0);
    assert_eq!(m.commands.len(), 4);
    assert_eq!(m.commands[0], SmCommand::new(25, 10, 10));
    assert_eq!(m.commands[3], SmCommand::new(25, 10, 10));
    assert_eq!(m.total_duration_ms, 100);
    assert_eq!((m.actual_steps_x, m.actual_steps_y), (60, 0));
    assert_eq!(m.end, (0.75, 0.0));
}

#[test]
fn sliced_move_corrects_dropped_steps() {
    // The first slice asks 25000 X steps and 1 Y step: it is slowed to
    // 1001 ms, at which the single Y step is below the minimum rate.
    let durations = vec![25, 25];
    let targets = vec![(25000, 1)];
    let m = sm_move_from_slices(0u8, 1u8, &durations, &targets, 25000, 1);
    assert_eq!(m.commands[0].duration_ms, 1001);
    assert_eq!(m.commands[0].xy_steps(), (25000, 0));
    // The second slice moves nothing; the correction carries the Y step.
    assert_eq!(m.commands.len(), 2);
    assert_eq!(m.commands[1], SmCommand::new(1, 1, -1));
    assert_eq!((m.actual_steps_x, m.actual_steps_y), (25000, 1));
    assert_eq!(m.total_duration_ms, 1002);
}

#[test]
fn single_sm_move_reports_the_sent_duration() {
    let m = single_sm_move((0.0, 0.0), (0.5, 0.0), 44, 40, 0);
    assert_eq!(m.commands.len(), 1);
    assert_eq!(m.commands[0].steps_axis1, 40);
    assert_eq!(m.commands[0].steps_axis2, 40);
    assert_eq!(m.total_duration_ms, 44);
    assert_eq!((m.actual_steps_x, m.actual_steps_y), (40, 0));

    // 400 X steps asked in 6 ms are slowed to 17 ms, and the move lasts that.
    let slowed = single_sm_move(0u8, 1u8, 6, 400, 0);
    assert_eq!(slowed.commands[0].duration_ms, 17);
    assert_eq!(slowed.total_duration_ms, 17);

    let dropped = single_sm_move(0u8, 0u8, 2000, 1, 0);
    assert!(dropped.is_empty());
    assert_eq!(dropped.total_duration_ms, 0);
}

#[test]
fn sliced_moves_are_checked_before_assembly() {
    let durations = vec![25, 25, 25, 25];
    let targets = vec![(10, 0), (30, 0), (50, 0)];
    assert!(sliced_move_fits(&durations, &targets, 60, 0));
    let m = plan_sliced_move(0u8, 1u8, &durations, &targets, 60, 0).unwrap();
    assert_eq!(m.total_duration_ms, 100);
    assert_eq!((m.actual_steps_x, m.actual_steps_y), (60, 0));
    // A slice of over 2^30 steps on a motor axis cannot be sent.
    let huge = vec![(0x4000_0000, 0)];
    assert!(!sliced_move_fits(&vec![25, 25], &huge, 0x4000_0000, 0));
    assert!(plan_sliced_move(0u8, 1u8, &vec![25, 25], &huge, 0x4000_0000, 0).is_none());
    // Anything whose motor axes and doubled X and Y fit can be sent.
    let big = 0x3fff_ffff;
    assert!(sliced_move_fits(&vec![25], &Vec::new(), big, big));
    let m = plan_sliced_move(0u8, 1u8, &vec![25], &Vec::new(), big, big).unwrap();
    assert_eq!((m.actual_steps_x, m.actual_steps_y), (big, big));
    assert_eq!(m.total_duration_ms, m.commands[0].duration_ms);
    let single = single_sm_move(0u8, 1u8, 25, big, big);
    assert_eq!(single.commands[0].steps_axis1, 2 * big);
}

#[test]
fn correction_can_drop_a_slow_axis() {
    // One very slow slice drops both axes; the correction for (7000, 1)
    // takes 560 ms, at which the single Y step is below the minimum rate.
    let m = sm_move_from_slices(0u8, 1u8, &vec![4_000_000], &vec![], 7000, 1);
    assert_eq!(m.commands, vec![SmCommand::new(560, 7000, 7000)]);
    assert_eq!((m.actual_steps_x, m.actual_steps_y), (7000, 0));
    assert_eq!(m.total_duration_ms, 560);
}

#[test]
fn test_corexy_transform() {
    // X = 10 mm, Y = 5 mm at 80 steps per mm
    let steps_per_mm: f64 = 80.0;
    let x_mm = 10.0;
    let y_mm = 5.0;
    let steps_x = (x_mm * steps_per_mm) as i32;
    let steps_y = (y_mm * steps_per_mm) as i32;
    let cmd = SmCommand::from_xy_steps(100, steps_x, steps_y);
    assert_eq!(cmd.steps_axis1, 1200);
    assert_eq!(cmd.steps_axis2, 400);
    let (recovered_steps_x, recovered_steps_y) = cmd.xy_steps();
    assert_eq!(recovered_steps_x, steps_x);
    assert_eq!(recovered_steps_y, steps_y);
    let recovered_x = recovered_steps_x as f64 / steps_per_mm;
    let recovered_y = recovered_steps_y as f64 / steps_per_mm;
    assert!((recovered_x - x_mm).abs() < 0.001);
    assert!((recovered_y - y_mm).abs() < 0.001);
}
