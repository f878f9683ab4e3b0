use plotta::font::FontError;
use plotta::hershey::{
    decode_coord, lookup_glyph_char, parse_glyph_line, roman_simplex_map, Hershey,
    HersheyFont,
};

#[test]
fn test_hershey_enum_asref() {
    let name: &str = Hershey::Simplex.as_ref();
    assert_eq!(name, "Hershey Simplex");
}

#[test]
fn test_hershey_enum_all() {
    let all = Hershey::all();
    assert_eq!(all.len(), 8);
}

#[test]
fn hershey_names() {
    let names: Vec<&str> = Hershey::all().iter().map(|h| h.name()).collect();
    assert_eq!(
        names,
        vec![
            "Hershey Simplex",
            "Hershey Duplex",
            "Hershey Triplex",
            "Hershey Script Simplex",
            "Hershey Script Complex",
            "Hershey Gothic German Bold",
            "Hershey Gothic German",
            "Hershey Gothic Italian",
        ]
    );
}

#[test]
fn test_decode_coord() {
    assert_eq!(decode_coord(b'R'), 0);
    assert_eq!(decode_coord(b'S'), 1);
    assert_eq!(decode_coord(b'Q'), -1);
    assert_eq!(decode_coord(b'L'), -6);
    assert_eq!(decode_coord(b'Z'), 8);
}

#[test]
fn test_parse_simple_glyph() {
    let line = "  501  9I[RFJ[ RRFZ[ RMTWT";
    let result = parse_glyph_line(line).unwrap();
    assert!(result.is_some());
    let (glyph_num, glyph) = result.unwrap();
    assert_eq!(glyph_num, 501);
    assert!(!glyph.contours.is_empty());
}

#[test]
fn parse_glyph_line_exact_points() {
    // 'A': left margin I (-9), right margin [ (9); three strokes.
    let (num, glyph) = parse_glyph_line("  501  9I[RFJ[ RRFZ[ RMTWT").unwrap().unwrap();
    assert_eq!(num, 501);
    assert_eq!(glyph.advance_width, 18);
    assert_eq!(
        glyph.contours,
        vec![vec![(9, 21), (1, 0)], vec![(9, 21), (17, 0)], vec![(4, 7), (14, 7)]]
    );
}

#[test]
fn parse_glyph_line_edge_cases() {
    // Too short: no glyph.
    assert!(parse_glyph_line("  699  1J").unwrap().is_none());
    // A space: only margins.
    let (num, glyph) = parse_glyph_line("  699  1JZ").unwrap().unwrap();
    assert_eq!(num, 699);
    assert_eq!(glyph.advance_width, 16);
    assert!(glyph.contours.is_empty());
    // The count limits the pairs read.
    let (_, glyph) = parse_glyph_line("    1  2RRRRSSTT").unwrap().unwrap();
    assert_eq!(glyph.contours, vec![vec![(0, 9)]]);
    // Errors.
    match parse_glyph_line("  5x1  9I[RFJ[") {
        Err(FontError::ParseError(m)) => assert_eq!(m, "Invalid glyph number in:   5x1  9I[RFJ["),
        other => panic!("unexpected {:?}", other.map(|o| o.map(|(n, _)| n))),
    }
    match parse_glyph_line("  501  ?I[RFJ[") {
        Err(FontError::ParseError(m)) => assert_eq!(m, "Invalid count in:   501  ?I[RFJ["),
        other => panic!("unexpected {:?}", other.map(|o| o.map(|(n, _)| n))),
    }
}

#[test]
fn test_hershey_font_creation() {
    let font = HersheyFont::new("Test Font");
    assert_eq!(font.name(), "Test Font");
    assert!(font.glyph('A').is_none());
}

#[test]
fn from_jhf_maps_glyph_numbers() {
    let data = "  501  9I[RFJ[ RRFZ[ RMTWT\n  699  1JZ   \r\n\n 9999  1JZ\n";
    let font = HersheyFont::from_jhf("Mini", data).unwrap();
    assert_eq!(font.name(), "Mini");
    let a = font.glyph('A').unwrap();
    assert_eq!(a.advance_width, 18);
    assert_eq!(a.contours.len(), 3);
    let space = font.glyph(' ').unwrap();
    assert!(space.contours.is_empty());
    assert!(font.glyph('B').is_none());
}

#[test]
fn from_jhf_with_offset_shifts_numbers() {
    let data = " 2501  9I[RFJ[ RRFZ[ RMTWT";
    let font = HersheyFont::from_jhf_with_offset("Duplex", data, 2000).unwrap();
    assert!(font.glyph('A').is_some());
}

#[test]
fn from_jhf_stops_at_first_bad_line() {
    let data = "  501  9I[RFJ[\n  50x  1JZ\n  502  1JZ";
    match HersheyFont::from_jhf("Bad", data) {
        Err(FontError::ParseError(m)) => assert_eq!(m, "Invalid glyph number in:   50x  1JZ"),
        _ => panic!("expected a parse error"),
    }
}

#[test]
fn mapping_lookup_prefers_later_entries() {
    let m = vec![(1, 'a'), (2, 'b'), (1, 'c')];
    assert_eq!(lookup_glyph_char(&m, 1), Some('c'));
    assert_eq!(lookup_glyph_char(&m, 3), None);
    let roman = roman_simplex_map();
    assert_eq!(roman.len(), 95);
    assert_eq!(lookup_glyph_char(&roman, 501), Some('A'));
    assert_eq!(lookup_glyph_char(&roman, 699), Some(' '));
}

#[test]
fn add_glyph_replaces() {
    let mut font = HersheyFont::new("F");
    let (_, g1) = parse_glyph_line("  699  1JZ").unwrap().unwrap();
    let (_, g2) = parse_glyph_line("  501  9I[RFJ[ RRFZ[ RMTWT").unwrap().unwrap();
    font.add_glyph('x', g1);
    font.add_glyph('x', g2);
    assert_eq!(font.glyph('x').unwrap().contours.len(), 3);
}
