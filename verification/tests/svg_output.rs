use plotta::color::Color;
use plotta::svg_export::{points_to_svg_path_data, travel_line_svg};

fn pt(x: f64, y: f64) -> (String, String) {
    (format!("{:.3}", x), format!("{:.3}", y))
}

#[test]
fn path_data_of_a_simple_line() {
    let d = points_to_svg_path_data(&vec![pt(0.0, 0.0), pt(100.0, 50.0)], false);
    assert_eq!(d, "M0.000,0.000 L100.000,50.000");
}

#[test]
fn path_data_of_a_closed_triangle() {
    let d = points_to_svg_path_data(&vec![pt(0.0, 0.0), pt(100.0, 0.0), pt(50.0, 100.0)], true);
    assert_eq!(d, "M0.000,0.000 L100.000,0.000 L50.000,100.000 Z");
}

#[test]
fn path_data_with_negative_coordinates() {
    let d = points_to_svg_path_data(&vec![pt(-10.0, -20.0), pt(10.0, 20.0)], false);
    assert!(d.contains("M-10.000,-20.000"));
    assert!(d.contains("L10.000,20.000"));
    assert!(!d.contains(" Z"));
}

#[test]
fn path_data_edge_cases() {
    assert_eq!(points_to_svg_path_data(&Vec::new(), true), "");
    assert_eq!(points_to_svg_path_data(&vec![pt(1.5, 2.25)], false), "M1.500,2.250");
    assert_eq!(points_to_svg_path_data(&vec![pt(1.5, 2.25)], true), "M1.500,2.250 Z");
}

#[test]
fn travel_line_is_dashed_and_coloured() {
    let line = travel_line_svg(&pt(0.0, 0.0), &pt(10.0, 10.0), Color::rgb(200, 200, 200));
    assert_eq!(
        line,
        "    <line x1=\"0.000\" y1=\"0.000\" x2=\"10.000\" y2=\"10.000\" stroke=\"#c8c8c8\" stroke-width=\"0.1\" stroke-dasharray=\"1,1\"/>\n"
    );
    let translucent = travel_line_svg(&pt(1.0, 2.0), &pt(3.0, 4.0), Color::rgba(255, 0, 0, 128));
    assert!(translucent.contains("stroke=\"rgba(255,0,0,0.502)\""));
}
