use plotta::color::{color_to_hex, Color};
use plotta::ebb::{
    check_response, expect_ok, is_axidraw_device, parse_pen_down, parse_step_position,
    pen_command, pen_down_command, pen_move, pen_up_command, servo_config_commands, servo_setting_command,
    unexpected_step_response,
    PlotterError, PortInfo, AXIDRAW_PID, AXIDRAW_VID,
};
use plotta::servo::{self, PenServoConfig};

// ---------------------------------------------------------------------------
// Colours
// ---------------------------------------------------------------------------

#[test]
fn test_color_to_hex_rgb() {
    let color = Color::rgb(255, 128, 0);
    assert_eq!(color_to_hex(color), "#ff8000");
}

#[test]
fn test_color_to_hex_black() {
    assert_eq!(color_to_hex(Color::black()), "#000000");
}

#[test]
fn test_color_to_hex_white() {
    assert_eq!(color_to_hex(Color::white()), "#ffffff");
}

#[test]
fn test_color_to_hex_with_alpha() {
    let color = Color::rgba(255, 0, 0, 128);
    let result = color_to_hex(color);
    assert!(result.starts_with("rgba("));
    assert!(result.contains("255,0,0,"));
    assert!(result.contains("0.5"));
}

#[test]
fn test_color_to_hex_transparent() {
    let color = Color::rgba(100, 150, 200, 0);
    let result = color_to_hex(color);
    assert!(result.starts_with("rgba("));
    assert!(result.contains(",0.000)"));
}

#[test]
fn test_color_to_hex_full_alpha_uses_hex() {
    let color = Color::rgba(128, 64, 32, 255);
    let result = color_to_hex(color);
    assert!(result.starts_with("#"));
    assert_eq!(result, "#804020");
}

#[test]
fn color_to_hex_alpha_matches_float_formatting() {
    for a in 0u8..255 {
        let expected = format!("rgba(1,2,3,{:.3})", a as f64 / 255.0);
        assert_eq!(color_to_hex(Color::rgba(1, 2, 3, a)), expected);
    }
    assert_eq!(color_to_hex(Color::rgba(255, 0, 0, 128)), "rgba(255,0,0,0.502)");
}

// ---------------------------------------------------------------------------
// Servo timing
// ---------------------------------------------------------------------------

#[test]
fn test_servo_timing_calculation_at_100_percent_rate() {
    let time = servo::calculate_move_time(30, 60, 100);
    assert_eq!(time, 126);
    let time_reverse = servo::calculate_move_time(60, 30, 100);
    assert_eq!(time_reverse, 126);
    let zero_time = servo::calculate_move_time(50, 50, 100);
    assert_eq!(zero_time, 0);
    let full_time = servo::calculate_move_time(0, 100, 100);
    assert_eq!(full_time, 314);
}

#[test]
fn test_servo_timing_with_rate_scaling() {
    let time_50 = servo::calculate_move_time(30, 60, 50);
    assert_eq!(time_50, 251);
    let time_75 = servo::calculate_move_time(30, 60, 75);
    assert_eq!(time_75, 168);
    let time_25 = servo::calculate_move_time(30, 60, 25);
    assert_eq!(time_25, 503);
    let time_min = servo::calculate_move_time(30, 60, 0);
    assert_eq!(time_min, 12570);
}

#[test]
fn test_calculate_ebb_rate() {
    let rate = servo::calculate_ebb_rate(30, 60, 100);
    assert!((1170..=1172).contains(&rate), "Expected ~1171, got {}", rate);
    let rate_50 = servo::calculate_ebb_rate(30, 60, 50);
    assert!((587..=589).contains(&rate_50), "Expected ~588, got {}", rate_50);
    let rate_zero = servo::calculate_ebb_rate(50, 50, 50);
    assert_eq!(rate_zero, 0);
}

#[test]
fn test_default_config_timing() {
    let config = PenServoConfig::default_settings();
    assert_eq!(config.pen_up_move_time(), 251);
    assert_eq!(config.pen_down_move_time(), 251);
    assert_eq!(config.pen_up_total_time(), 251);
    assert_eq!(config.pen_down_total_time(), 301);
}

#[test]
fn test_config_with_additional_delay() {
    let config = PenServoConfig {
        pen_down_delay: 50,
        pen_up_delay: 100,
        ..PenServoConfig::default_settings()
    };
    assert_eq!(config.pen_up_move_time(), 251);
    assert_eq!(config.pen_down_move_time(), 251);
    assert_eq!(config.pen_up_total_time(), 351);
    assert_eq!(config.pen_down_total_time(), 301);
}

#[test]
fn servo_exact_values() {
    assert_eq!(servo::calculate_ebb_rate(30, 60, 100), 1171);
    assert_eq!(servo::calculate_ebb_rate(30, 60, 50), 588);
    assert_eq!(servo::calculate_move_time(30, 60, 200), 126); // rate clamped to 100
    assert_eq!(servo::position_to_ebb_units(0), 7500);
    assert_eq!(servo::position_to_ebb_units(30), 13650);
    assert_eq!(servo::position_to_ebb_units(100), 28000);
    assert_eq!(servo::position_to_ebb_units(250), 28000);
}

// ---------------------------------------------------------------------------
// Errors and devices
// ---------------------------------------------------------------------------

#[test]
fn test_plotter_error_display() {
    let err = PlotterError::Connection("port not found".to_string());
    assert!(err.message().contains("Connection error"));
    let err = PlotterError::Communication("write failed".to_string());
    assert!(err.message().contains("Communication error"));
    let err = PlotterError::Timeout;
    assert!(err.message().contains("Timeout"));
    let err = PlotterError::InvalidResponse("unexpected".to_string());
    assert!(err.message().contains("Invalid response"));
    let err = PlotterError::Device("motor stuck".to_string());
    assert!(err.message().contains("Plotter error"));
}

#[test]
fn plotter_error_io_message() {
    let err = PlotterError::Io(std::io::Error::new(std::io::ErrorKind::Other, "gone"));
    assert_eq!(err.message(), "IO error: gone");
}

#[test]
fn lib_test_axidraw_vid_pid() {
    assert_eq!(AXIDRAW_VID, 0x04D8);
    assert_eq!(AXIDRAW_PID, 0xFD92);
}

#[test]
fn axidraw_test_axidraw_vid_pid() {
    assert_eq!(AXIDRAW_VID, 0x04D8);
    assert_eq!(AXIDRAW_PID, 0xFD92);
    assert!(is_axidraw_device(0x04D8, 0xFD92));
    assert!(!is_axidraw_device(0x04D8, 0x0001));
}

#[test]
fn test_port_info_creation() {
    let info = PortInfo {
        name: "/dev/ttyUSB0".to_string(),
        is_axidraw: true,
        product: Some("EiBotBoard".to_string()),
        manufacturer: Some("Microchip".to_string()),
    };
    assert_eq!(info.name, "/dev/ttyUSB0");
    assert!(info.is_axidraw);
    assert_eq!(info.product, Some("EiBotBoard".to_string()));
}

#[test]
fn test_port_info_clone() {
    let info = PortInfo {
        name: "/dev/ttyACM0".to_string(),
        is_axidraw: false,
        product: None,
        manufacturer: None,
    };
    let cloned = info.clone();
    assert_eq!(info.name, cloned.name);
    assert_eq!(info.is_axidraw, cloned.is_axidraw);
}

// ---------------------------------------------------------------------------
// Commands and responses
// ---------------------------------------------------------------------------

#[test]
fn servo_commands_for_default_settings() {
    let cfg = PenServoConfig::default_settings();
    let cmds = servo_config_commands(&cfg);
    assert_eq!(cmds, vec!["SC,4,19800", "SC,5,13650", "SC,11,588", "SC,12,588"]);
    assert_eq!(pen_up_command(&cfg), "SP,1,251");
    assert_eq!(pen_down_command(&cfg), "SP,0,251");
    assert_eq!(pen_command(true, 0), "SP,1,0");
    assert_eq!(servo_setting_command(11, 65535), "SC,11,65535");
}

#[test]
fn responses_are_checked() {
    assert_eq!(check_response("OK\r\n".to_string()).unwrap(), "OK\r\n");
    match check_response("!8 Err: Unknown command\r\n".to_string()) {
        Err(PlotterError::Device(m)) => assert_eq!(m, "!8 Err: Unknown command"),
        other => panic!("unexpected {:?}", other),
    }
    assert!(expect_ok("OK\r\n".to_string()).is_ok());
    assert!(expect_ok("  ok ".to_string()).is_ok());
    match expect_ok("NOPE\r\n".to_string()) {
        Err(PlotterError::InvalidResponse(m)) => assert_eq!(m, "NOPE\r\n"),
        other => panic!("unexpected {:?}", other),
    }
    assert!(parse_pen_down("0\n\r"));
    assert!(!parse_pen_down("1\n\r"));
    assert!(!parse_pen_down("00"));
}

#[test]
fn step_positions_are_read() {
    assert_eq!(parse_step_position("1200,400\n\r").unwrap(), (800, 400));
    assert_eq!(parse_step_position(" -3 , 0 ,9").unwrap(), (-1, -1));
    match parse_step_position("garbage") {
        Err(PlotterError::InvalidResponse(m)) => {
            assert_eq!(m, "Expected 'axis1,axis2', got: \"garbage\"")
        }
        other => panic!("unexpected {:?}", other),
    }
    match parse_step_position("x1,2") {
        Err(PlotterError::InvalidResponse(m)) => assert_eq!(m, "Invalid axis1 value: x1"),
        other => panic!("unexpected {:?}", other),
    }
    match parse_step_position("1, 2z") {
        Err(PlotterError::InvalidResponse(m)) => assert_eq!(m, "Invalid axis2 value:  2z"),
        other => panic!("unexpected {:?}", other),
    }
    match parse_step_position("2147483647,1") {
        Err(PlotterError::InvalidResponse(m)) => {
            assert_eq!(m, "axis overflow in CoreXY transform")
        }
        other => panic!("unexpected {:?}", other),
    }
    match parse_step_position("99999999999,1") {
        Err(PlotterError::InvalidResponse(m)) => assert_eq!(m, "Invalid axis1 value: 99999999999"),
        other => panic!("unexpected {:?}", other),
    }
}

#[test]
fn pen_moves_only_when_needed() {
    let cfg = PenServoConfig::default_settings();
    // Raising a pen that is up does nothing unless forced.
    assert!(pen_move(&cfg, false, true, false).is_none());
    let (cmd, wait) = pen_move(&cfg, false, true, true).unwrap();
    assert_eq!(cmd, "SP,1,251");
    assert_eq!(wait, 251);
    // Lowering a raised pen waits for the servo and the settle delay.
    let (cmd, wait) = pen_move(&cfg, false, false, false).unwrap();
    assert_eq!(cmd, "SP,0,251");
    assert_eq!(wait, 301);
    assert!(pen_move(&cfg, true, false, false).is_none());
    assert!(pen_move(&cfg, true, true, false).is_some());
}

#[test]
fn responses_without_comma_are_quoted() {
    assert_eq!(
        unexpected_step_response("\"x\"".to_string()),
        "Expected 'axis1,axis2', got: \"x\""
    );
    match parse_step_position("a\"b\n") {
        Err(PlotterError::InvalidResponse(m)) => {
            assert_eq!(m, "Expected 'axis1,axis2', got: \"a\\\"b\\n\"")
        }
        other => panic!("unexpected {:?}", other),
    }
}
