//! The EiBotBoard serial protocol of the AxiDraw: device identifiers, plotter
//! errors, the command texts the plotter is sent and the reading of its
//! responses.
//!
//! Sending and receiving over the serial port is left to the caller; the
//! functions here build what is sent and decide what a response means.
use vstd::prelude::*;
use crate::decimal::{int_str, lemma_parse_int_str, push_decimal};
use crate::sm_command::half_toward_zero;
use crate::servo::{
    calculate_ebb_rate, ebb_units, position_to_ebb_units, servo_ebb_rate, servo_move_time,
    PenServoConfig,
};
use crate::text::{
    chars_of, find_char, find_char_in, lemma_trim_no_edge_space, parse_i32, parse_i32_in, trim,
    trim_bounds,
};

verus! {

/// AxiDraw USB vendor ID (Microchip).
pub const AXIDRAW_VID: u16 = 0x04D8;

/// AxiDraw USB product ID (EiBotBoard).
pub const AXIDRAW_PID: u16 = 0xFD92;

/// Information about a serial port.
#[derive(Clone, Debug)]
pub struct PortInfo {
    /// Port name (e.g. "/dev/ttyUSB0" or "COM3")
    pub name: String,
    /// Whether this port is an AxiDraw device
    pub is_axidraw: bool,
    /// Product name if available
    pub product: Option<String>,
    /// Manufacturer name if available
    pub manufacturer: Option<String>,
}

/// Whether a USB device with these identifiers is an AxiDraw.
pub fn is_axidraw_device(vid: u16, pid: u16) -> (b: bool)
    ensures
        b == (vid == AXIDRAW_VID && pid == AXIDRAW_PID),
{
    vid == AXIDRAW_VID && pid == AXIDRAW_PID
}

#[verifier::external_type_specification]
#[verifier::external_body]
pub struct ExIoError(std::io::Error);

/// Errors of plotter operations.
#[derive(Debug)]
pub enum PlotterError {
    Connection(String),
    Communication(String),
    Timeout,
    InvalidResponse(String),
    Device(String),
    Io(std::io::Error),
}

/// Text of `std::io::Error`'s `Display`.
#[verifier::external_body]
pub(crate) fn io_error_text(e: &std::io::Error) -> String {
    e.to_string()
}

/// What `format!("{:?}", s)` writes for a string: `s` quoted and escaped.
pub uninterp spec fn debug_text(s: Seq<char>) -> Seq<char>;

/// `s` quoted and escaped as Rust's `Debug` for strings writes it.
#[verifier::external_body]
fn debug_quoted(s: &str) -> (r: String)
    ensures
        r@ == debug_text(s@),
{
    format!("{:?}", s)
}

impl PlotterError {
    /// The error's message text.
    pub fn message(&self) -> (s: String)
        ensures
            match self {
                PlotterError::Connection(m) => s@ == "Connection error: "@ + m@,
                PlotterError::Communication(m) => s@ == "Communication error: "@ + m@,
                PlotterError::Timeout => s@ == "Timeout waiting for response"@,
                PlotterError::InvalidResponse(m) => s@ == "Invalid response: "@ + m@,
                PlotterError::Device(m) => s@ == "Plotter error: "@ + m@,
                PlotterError::Io(_) => s@.take(10) == "IO error: "@,
            },
    {
        match self {
            PlotterError::Connection(m) => {
                let mut s = String::new();
                s.append("Connection error: ");
                s.append(m.as_str());
                s
            },
            PlotterError::Communication(m) => {
                let mut s = String::new();
                s.append("Communication error: ");
                s.append(m.as_str());
                s
            },
            PlotterError::Timeout => {
                let mut s = String::new();
                s.append("Timeout waiting for response");
                s
            },
            PlotterError::InvalidResponse(m) => {
                let mut s = String::new();
                s.append("Invalid response: ");
                s.append(m.as_str());
                s
            },
            PlotterError::Device(m) => {
                let mut s = String::new();
                s.append("Plotter error: ");
                s.append(m.as_str());
                s
            },
            PlotterError::Io(e) => {
                let mut s = String::new();
                s.append("IO error: ");
                proof {
                    reveal_strlit("IO error: ");
                }
                let t = io_error_text(e);
                s.append(t.as_str());
                assert(s@.take(10) == "IO error: "@);
                s
            },
        }
    }
}

/// The text `SC,param,value` that sets an EBB servo configuration value.
pub open spec fn sc_text(param: int, value: int) -> Seq<char> {
    seq!['S', 'C', ','] + int_str(param) + seq![','] + int_str(value)
}

/// The text `SP,state,duration` that moves the pen: state 0 lowers it,
/// state 1 raises it, over `duration` ms.
pub open spec fn sp_text(state: int, duration: int) -> Seq<char> {
    seq!['S', 'P', ','] + int_str(state) + seq![','] + int_str(duration)
}

/// Builds the command `SC,param,value`.
pub fn servo_setting_command(param: u8, value: u16) -> (s: String)
    ensures
        s@ == sc_text(param as int, value as int),
{
    let mut s = String::new();
    proof {
        reveal_strlit("SC,");
        reveal_strlit(",");
    }
    s.append("SC,");
    push_decimal(&mut s, param as u64);
    s.append(",");
    push_decimal(&mut s, value as u64);
    s
}

/// The four commands that configure the EBB servo for the pen settings:
/// `SC,4` the pulse width of the pen-up position, `SC,5` that of the
/// pen-down position, `SC,11` the rate for raising and `SC,12` the rate for
/// lowering, each rate matching the servo move time of that move.
pub fn servo_config_commands(cfg: &PenServoConfig) -> (v: Vec<String>)
    ensures
        v@.len() == 4,
        v@[0]@ == sc_text(4, ebb_units(cfg.pen_up_pos)),
        v@[1]@ == sc_text(5, ebb_units(cfg.pen_down_pos)),
        v@[2]@ == sc_text(11, servo_ebb_rate(cfg.pen_down_pos, cfg.pen_up_pos, cfg.pen_rate_raise)),
        v@[3]@ == sc_text(12, servo_ebb_rate(cfg.pen_up_pos, cfg.pen_down_pos, cfg.pen_rate_lower)),
{
    let servo_min = position_to_ebb_units(cfg.pen_up_pos);
    let servo_max = position_to_ebb_units(cfg.pen_down_pos);
    let rate_up = calculate_ebb_rate(cfg.pen_down_pos, cfg.pen_up_pos, cfg.pen_rate_raise);
    let rate_down = calculate_ebb_rate(cfg.pen_up_pos, cfg.pen_down_pos, cfg.pen_rate_lower);
    let mut v: Vec<String> = Vec::new();
    v.push(servo_setting_command(4, servo_min));
    v.push(servo_setting_command(5, servo_max));
    v.push(servo_setting_command(11, rate_up));
    v.push(servo_setting_command(12, rate_down));
    v
}

/// Builds the pen command `SP,state,duration` (state 0 lowers, 1 raises).
pub fn pen_command(raise: bool, duration_ms: u32) -> (s: String)
    ensures
        s@ == sp_text(if raise { 1 } else { 0 }, duration_ms as int),
{
    let mut s = String::new();
    proof {
        reveal_strlit("SP,");
        reveal_strlit(",");
    }
    s.append("SP,");
    push_decimal(&mut s, if raise { 1 } else { 0 });
    s.append(",");
    push_decimal(&mut s, duration_ms as u64);
    s
}

/// The command that raises the pen over its servo move time.
pub fn pen_up_command(cfg: &PenServoConfig) -> (s: String)
    ensures
        s@ == sp_text(1, servo_move_time(cfg.pen_down_pos, cfg.pen_up_pos, cfg.pen_rate_raise)),
{
    pen_command(true, cfg.pen_up_move_time())
}

/// The command that lowers the pen over its servo move time.
pub fn pen_down_command(cfg: &PenServoConfig) -> (s: String)
    ensures
        s@ == sp_text(0, servo_move_time(cfg.pen_up_pos, cfg.pen_down_pos, cfg.pen_rate_lower)),
{
    pen_command(false, cfg.pen_down_move_time())
}

/// Whether a response line reports a device error (it starts with '!').
pub open spec fn is_device_error(r: Seq<char>) -> bool {
    r.len() > 0 && r[0] == '!'
}

/// Reads a command's response line: one starting with '!' is a device error
/// carrying the trimmed line; any other line is the response.
pub fn check_response(response: String) -> (r: Result<String, PlotterError>)
    ensures
        match r {
            Ok(s) => !is_device_error(response@) && s@ == response@,
            Err(PlotterError::Device(m)) => is_device_error(response@) && m@ == trim(response@),
            Err(_) => false,
        },
{
    let v = chars_of(response.as_str());
    if v.len() > 0 && v[0] == '!' {
        let (i, j) = trim_bounds(&v, 0, v.len());
        assert(v@.subrange(0, v@.len() as int) == v@);
        let m = response.as_str().substring_char(i, j).to_owned();
        Err(PlotterError::Device(m))
    } else {
        Ok(response)
    }
}

/// Whether a trimmed response is `OK`, ignoring ASCII case.
pub open spec fn is_ok_text(r: Seq<char>) -> bool {
    let t = trim(r);
    t.len() == 2 && (t[0] == 'O' || t[0] == 'o') && (t[1] == 'K' || t[1] == 'k')
}

/// Checks that a command was acknowledged with `OK` (any ASCII case, any
/// surrounding whitespace); any other response is an invalid response.
pub fn expect_ok(response: String) -> (r: Result<(), PlotterError>)
    ensures
        match r {
            Ok(()) => is_ok_text(response@),
            Err(PlotterError::InvalidResponse(m)) => !is_ok_text(response@) && m@ == response@,
            Err(_) => false,
        },
{
    let v = chars_of(response.as_str());
    let (i, j) = trim_bounds(&v, 0, v.len());
    assert(v@.subrange(0, v@.len() as int) == v@);
    if j - i == 2 && (v[i] == 'O' || v[i] == 'o') && (v[i + 1] == 'K' || v[i + 1] == 'k') {
        Ok(())
    } else {
        Err(PlotterError::InvalidResponse(response))
    }
}

/// The pen state of a `QP` response: the pen is down when the trimmed
/// response is `0` (the board answers `1` for up).
pub fn parse_pen_down(response: &str) -> (down: bool)
    ensures
        down == (trim(response@) == seq!['0']),
{
    let v = chars_of(response);
    let (i, j) = trim_bounds(&v, 0, v.len());
    assert(v@.subrange(0, v@.len() as int) == v@);
    let down = j - i == 1 && v[i] == '0';
    proof {
        let t = v@.subrange(i as int, j as int);
        assert(t.len() == j - i);
        if down {
            assert(t == seq!['0']);
        } else if t.len() == 1 {
            assert(t[0] == v@[i as int]);
            assert(t[0] != seq!['0'][0]);
        }
    }
    down
}

/// The first two comma-separated fields of a trimmed `QS` response, if it
/// holds a comma.
pub open spec fn step_fields(r: Seq<char>) -> Option<(Seq<char>, Seq<char>)> {
    let t = trim(r);
    match find_char(t, ',') {
        None => None,
        Some(i) => {
            let rest = t.skip(i + 1int);
            let j = match find_char(rest, ',') {
                Some(j) => j as int,
                None => rest.len() as int,
            };
            Some((t.take(i as int), rest.take(j)))
        },
    }
}

/// The X/Y step position of a `QS` response `axis1,axis2`: the motor-axis
/// counts undo the CoreXY transform, `X = (axis1 + axis2) / 2` and
/// `Y = (axis1 - axis2) / 2` (halving toward zero), when both counts parse
/// and their sum and difference fit.
pub open spec fn step_position(r: Seq<char>) -> Option<(int, int)> {
    match step_fields(r) {
        None => None,
        Some((f1, f2)) => match (parse_i32(trim(f1)), parse_i32(trim(f2))) {
            (Some(a1), Some(a2)) => {
                let s = a1 + a2;
                let d = a1 - a2;
                if i32::MIN <= s <= i32::MAX && i32::MIN <= d <= i32::MAX {
                    Some((half_toward_zero(s), half_toward_zero(d)))
                } else {
                    None
                }
            },
            _ => None,
        },
    }
}

/// The message of a `QS` response that does not give a step position.
pub open spec fn step_position_error(r: Seq<char>) -> Seq<char> {
    match step_fields(r) {
        None => "Expected 'axis1,axis2', got: "@ + debug_text(r),
        Some((f1, f2)) => {
            if parse_i32(trim(f1)) is None {
                "Invalid axis1 value: "@ + f1
            } else if parse_i32(trim(f2)) is None {
                "Invalid axis2 value: "@ + f2
            } else {
                "axis overflow in CoreXY transform"@
            }
        },
    }
}

/// The message for a `QS` response without a comma, given the response as
/// `Debug` quotes it.
pub fn unexpected_step_response(quoted: String) -> (m: String)
    ensures
        m@ == "Expected 'axis1,axis2', got: "@ + quoted@,
{
    let mut m = String::new();
    m.append("Expected 'axis1,axis2', got: ");
    m.append(quoted.as_str());
    m
}

/// Reads the step position from a `QS` response (see `step_position`); a
/// response that does not give one is an invalid response with the message
/// of `step_position_error`.
pub fn parse_step_position(response: &str) -> (r: Result<(i32, i32), PlotterError>)
    ensures
        match r {
            Ok((x, y)) => step_position(response@) == Some((x as int, y as int)),
            Err(PlotterError::InvalidResponse(m)) => step_position(response@) is None
                && m@ == step_position_error(response@),
            Err(_) => false,
        },
{
    let v = chars_of(response);
    let (lo, hi) = trim_bounds(&v, 0, v.len());
    assert(v@.subrange(0, v@.len() as int) == v@);
    let ghost t = v@.subrange(lo as int, hi as int);
    let comma = find_char_in(&v, lo, hi, ',');
    match comma {
        None => {
            let q = debug_quoted(response);
            Err(PlotterError::InvalidResponse(unexpected_step_response(q)))
        },
        Some(c) => {
            let second = find_char_in(&v, c + 1, hi, ',');
            let end2 = match second {
                Some(k) => k,
                None => hi,
            };
            proof {
                assert(t.skip(c - lo + 1) == v@.subrange(c + 1, hi as int));
                assert(t.take(c - lo) == v@.subrange(lo as int, c as int));
                let rest = t.skip(c - lo + 1);
                let j: int = end2 - (c + 1);
                assert(rest.take(j) == v@.subrange(c + 1, end2 as int));
            }
            let (a, b) = trim_bounds(&v, lo, c);
            let p1 = parse_i32_in(&v, a, b);
            let (d, e) = trim_bounds(&v, c + 1, end2);
            let p2 = parse_i32_in(&v, d, e);
            match (p1, p2) {
                (None, _) => {
                    let mut m = String::new();
                    m.append("Invalid axis1 value: ");
                    m.append(response.substring_char(lo, c));
                    Err(PlotterError::InvalidResponse(m))
                },
                (Some(_), None) => {
                    let mut m = String::new();
                    m.append("Invalid axis2 value: ");
                    m.append(response.substring_char(c + 1, end2));
                    Err(PlotterError::InvalidResponse(m))
                },
                (Some(a1), Some(a2)) => {
                    let s = a1.checked_add(a2);
                    let d = a1.checked_sub(a2);
                    match (s, d) {
                        (Some(s), Some(d)) => {
                            let x = if s >= 0 { s / 2 } else { 0i32 - ((0i64 - s as i64) / 2) as i32 };
                            let y = if d >= 0 { d / 2 } else { 0i32 - ((0i64 - d as i64) / 2) as i32 };
                            Ok((x, y))
                        },
                        _ => {
                            let mut m = String::new();
                            m.append("axis overflow in CoreXY transform");
                            Err(PlotterError::InvalidResponse(m))
                        },
                    }
                },
            }
        },
    }
}


/// The comma, when `a` has none, is found right after `a`.
proof fn lemma_find_comma_after(a: Seq<char>, b: Seq<char>)
    requires
        !a.contains(','),
    ensures
        find_char(a + seq![','] + b, ',') == Some(a.len()),
    decreases a.len(),
{
    let s = a + seq![','] + b;
    if a.len() == 0 {
        assert(s[0] == ',');
    } else {
        assert(s[0] == a[0]);
        assert(s.drop_first() == a.drop_first() + seq![','] + b);
        assert(!a.drop_first().contains(',')) by {
            if a.drop_first().contains(',') {
                let k = choose|k: int| 0 <= k < a.drop_first().len() && a.drop_first()[k] == ',';
                assert(a[k + 1] == ',');
            }
        }
        lemma_find_comma_after(a.drop_first(), b);
    }
}

proof fn lemma_find_comma_none(a: Seq<char>)
    requires
        !a.contains(','),
    ensures
        find_char(a, ',') is None,
    decreases a.len(),
{
    if a.len() > 0 {
        assert(a[0] != ',');
        assert(!a.drop_first().contains(',')) by {
            if a.drop_first().contains(',') {
                let k = choose|k: int| 0 <= k < a.drop_first().len() && a.drop_first()[k] == ',';
                assert(a[k + 1] == ',');
            }
        }
        lemma_find_comma_none(a.drop_first());
    }
}

/// A step-position query reads back what the board reports: the response
/// `axis1,axis2` of two motor counts gives the X/Y position of those counts
/// (`sm_xy`), and for counts `x + y, x - y` that is `(x, y)`.
pub proof fn lemma_step_position_roundtrip(axis1: i32, axis2: i32)
    requires
        i32::MIN <= axis1 + axis2 <= i32::MAX,
        i32::MIN <= axis1 - axis2 <= i32::MAX,
    ensures
        step_position(int_str(axis1 as int) + seq![','] + int_str(axis2 as int))
            == Some((half_toward_zero(axis1 + axis2), half_toward_zero(axis1 - axis2))),
        forall|x: int, y: int| axis1 == x + y && axis2 == x - y ==>
            step_position(int_str(axis1 as int) + seq![','] + int_str(axis2 as int)) == Some((x, y)),
{
    let a = int_str(axis1 as int);
    let b = int_str(axis2 as int);
    let r = a + seq![','] + b;
    lemma_parse_int_str(axis1);
    lemma_parse_int_str(axis2);
    assert(r[0] == a[0]);
    assert(r.last() == b.last());
    lemma_trim_no_edge_space(r);
    lemma_find_comma_after(a, b);
    let rest = r.skip(a.len() + 1int);
    assert(rest == b);
    lemma_find_comma_none(b);
    assert(r.take(a.len() as int) == a);
    assert(rest.take(b.len() as int) == b);
}


/// Whether a pen request has to move the servo: a forced request always
/// does; otherwise raising does only when the pen is down and lowering only
/// when it is up.
pub open spec fn pen_move_needed(pen_is_down: bool, raise: bool, force: bool) -> bool {
    force || (raise == pen_is_down)
}

/// What a request to raise (or lower) the pen does: nothing when the pen is
/// already known to be there and the request is not forced; otherwise the
/// `SP` command to send and the wait afterwards, the servo move time plus
/// the settle delay. After it the pen is up when raised, down when lowered.
pub fn pen_move(cfg: &PenServoConfig, pen_is_down: bool, raise: bool, force: bool) -> (r: Option<(String, u32)>)
    requires
        raise ==> servo_move_time(cfg.pen_down_pos, cfg.pen_up_pos, cfg.pen_rate_raise) + cfg.pen_up_delay
            <= u32::MAX,
        !raise ==> servo_move_time(cfg.pen_up_pos, cfg.pen_down_pos, cfg.pen_rate_lower) + cfg.pen_down_delay
            <= u32::MAX,
    ensures
        r is None <==> !pen_move_needed(pen_is_down, raise, force),
        match r {
            Some((cmd, wait)) => if raise {
                cmd@ == sp_text(1, servo_move_time(cfg.pen_down_pos, cfg.pen_up_pos, cfg.pen_rate_raise))
                    && wait == servo_move_time(cfg.pen_down_pos, cfg.pen_up_pos, cfg.pen_rate_raise)
                    + cfg.pen_up_delay
            } else {
                cmd@ == sp_text(0, servo_move_time(cfg.pen_up_pos, cfg.pen_down_pos, cfg.pen_rate_lower))
                    && wait == servo_move_time(cfg.pen_up_pos, cfg.pen_down_pos, cfg.pen_rate_lower)
                    + cfg.pen_down_delay
            },
            None => true,
        },
{
    if !force && raise != pen_is_down {
        return None;
    }
    if raise {
        Some((pen_up_command(cfg), cfg.pen_up_total_time()))
    } else {
        Some((pen_down_command(cfg), cfg.pen_down_total_time()))
    }
}


/// Repeating an unforced pen request does nothing: after a request has
/// moved the pen, asking again for the same position moves nothing.
pub proof fn lemma_pen_request_settles(pen_is_down: bool, raise: bool, force: bool)
    requires
        pen_move_needed(pen_is_down, raise, force),
    ensures
        !pen_move_needed(!raise, raise, false),
{
}

} // verus!
