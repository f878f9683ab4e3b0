use plotta::font::{
    check_file_format, first_char, font_file_extension, kerning_pair, parse_unicode, point_kind_name_of,
    vsf_glyph_char, vsf_point_kind, ContourPointKind, FontError, FontFormat, VsfMetadata,
};
use plotta::font_registry::FontRegistry;
use plotta::hershey::{
    gothic_italian_map, gothic_map, jhf_data_is_sliceable, jhf_line_is_sliceable, lookup_glyph_char,
    script_complex_map, script_simplex_map, Hershey, HersheyFont,
};
use plotta::layout::{text_layout_plan, LayoutItem, TextAlign};

const GLYPH_A: &str = "  501  9I[RFJ[ RRFZ[ RMTWT";

#[test]
fn test_parse_unicode() {
    assert_eq!(parse_unicode("A").unwrap(), 'A');
    assert_eq!(parse_unicode("&#65;").unwrap(), 'A');
    assert_eq!(parse_unicode("&#x41;").unwrap(), 'A');
}

#[test]
fn parse_unicode_edge_cases() {
    assert_eq!(parse_unicode("&#X41;").unwrap(), 'A');
    assert_eq!(parse_unicode("&#+65;").unwrap(), 'A');
    // A surrogate is no character: the first character is taken instead.
    assert_eq!(parse_unicode("&#xD800;").unwrap(), '&');
    // Not a reference: the first character.
    assert_eq!(parse_unicode("ab").unwrap(), 'a');
    assert_eq!(parse_unicode("&#;").unwrap(), '&');
    assert_eq!(parse_unicode("&#x;").unwrap(), '&');
    assert_eq!(parse_unicode("&#1114112;").unwrap(), '&');
    assert_eq!(parse_unicode("&#x1F600;").unwrap(), '\u{1F600}');
    match parse_unicode("") {
        Err(FontError::ParseError(m)) => assert_eq!(m, "Invalid unicode: "),
        _ => panic!("expected a parse error"),
    }
}

#[test]
fn font_file_extensions() {
    assert_eq!(font_file_extension(FontFormat::Hershey).unwrap(), "jhf");
    assert_eq!(font_file_extension(FontFormat::Vsf).unwrap(), "vsf");
    assert_eq!(font_file_extension(FontFormat::SvgFont).unwrap(), "svg");
    match font_file_extension(FontFormat::Ufo) {
        Err(FontError::UnsupportedFormat(m)) => assert_eq!(m, "UFO format not yet implemented"),
        _ => panic!("expected an unsupported format"),
    }
}

#[test]
fn single_file_formats() {
    assert!(check_file_format(FontFormat::Vsf).is_ok());
    assert!(check_file_format(FontFormat::SvgFont).is_ok());
    match check_file_format(FontFormat::Hershey) {
        Err(FontError::UnsupportedFormat(m)) => assert_eq!(m, "Use load_hershey() for Hershey fonts"),
        _ => panic!("expected an unsupported format"),
    }
    match check_file_format(FontFormat::Ufo) {
        Err(FontError::UnsupportedFormat(m)) => assert_eq!(m, "UFO format not yet implemented"),
        _ => panic!("expected an unsupported format"),
    }
}

#[test]
fn font_error_messages() {
    assert_eq!(FontError::ParseError("bad".to_string()).message(), "Failed to parse font: bad");
    assert_eq!(FontError::InvalidFormat("x".to_string()).message(), "Invalid font format: x");
    assert_eq!(FontError::GlyphNotFound('Q').message(), "Glyph not found for character: Q");
    assert_eq!(
        FontError::IoError(std::path::PathBuf::from("fonts/a.vsf"), "denied".to_string()).message(),
        "I/O error reading fonts/a.vsf: denied"
    );
    assert_eq!(
        FontError::InvalidPath(std::path::PathBuf::from("nowhere")).message(),
        "Invalid path: nowhere"
    );
    assert_eq!(
        FontError::UnsupportedFormat("UFO".to_string()).message(),
        "Unsupported format: UFO"
    );
    let json = serde_json::from_str::<u32>("x").unwrap_err();
    assert!(FontError::JsonError(json).message().starts_with("JSON error: "));
}

#[test]
fn vsf_metadata_defaults_to_nothing() {
    let m = VsfMetadata::default();
    assert!(m.author.is_none() && m.license.is_none() && m.description.is_none());
}

#[test]
fn text_align_defaults_to_left() {
    assert_eq!(TextAlign::default(), TextAlign::Left);
}

#[test]
fn glyph_tables_have_every_printable_character() {
    for (name, m) in [
        ("script simplex", script_simplex_map()),
        ("script complex", script_complex_map()),
        ("gothic", gothic_map()),
        ("gothic italian", gothic_italian_map()),
    ] {
        assert_eq!(m.len(), 95, "{}", name);
    }
    assert_eq!(lookup_glyph_char(&script_simplex_map(), 551), Some('A'));
    assert_eq!(lookup_glyph_char(&gothic_map(), 3699), Some(' '));
    assert_eq!(lookup_glyph_char(&gothic_italian_map(), 3699), Some(' '));
}

#[test]
fn variants_load_with_their_numbering() {
    let simplex = Hershey::Simplex.load_from_jhf(GLYPH_A).unwrap();
    assert_eq!(simplex.name(), "Hershey Simplex");
    assert!(simplex.glyph('A').is_some());
    // Duplex shifts the Roman numbering by 2000: glyph 501 is no character there.
    let duplex = Hershey::Duplex.load_from_jhf(GLYPH_A).unwrap();
    assert_eq!(duplex.name(), "Hershey Duplex");
    assert!(duplex.glyph('A').is_none());
    let duplex = Hershey::Duplex.load_from_jhf(" 2501  9I[RFJ[ RRFZ[ RMTWT").unwrap();
    assert!(duplex.glyph('A').is_some());
    let bold = Hershey::GothicGermanBold.load_from_jhf(" 3501  9I[RFJ[").unwrap();
    assert!(bold.glyph('A').is_some());
    let script = Hershey::ScriptSimplex.load_from_jhf("  551  9I[RFJ[").unwrap();
    assert_eq!(script.name(), "Hershey Script Simplex");
    assert!(script.glyph('A').is_some());
}

#[test]
fn available_chars_are_sorted() {
    let data = "  526  1JZ\n  501  1JZ\n  699  1JZ\n  601  1JZ\n  501  1JZ";
    let font = HersheyFont::from_jhf("F", data).unwrap();
    assert_eq!(font.available_chars(), vec![' ', 'A', 'Z', 'a']);
    assert!(HersheyFont::new("empty").available_chars().is_empty());
}

#[test]
fn jhf_sliceability() {
    assert!(jhf_line_is_sliceable(GLYPH_A));
    assert!(jhf_line_is_sliceable("short"));
    assert!(!jhf_line_is_sliceable("  50é  9I[RFJ["));
    assert!(jhf_data_is_sliceable("  501  1JZ\n\n  699  1JZ"));
    assert!(!jhf_data_is_sliceable("  501  1JZ\n  50é  9I[RFJ["));
    // Reading stops at the first bad line, so what follows it does not matter.
    assert!(jhf_data_is_sliceable("  5x1  1JZ\n  50é  9I[RFJ["));
}

#[test]
fn test_new_registry_is_empty() {
    let registry: FontRegistry<u32> = FontRegistry::new();
    assert!(registry.is_empty());
    assert_eq!(registry.len(), 0);
}

#[test]
fn test_register_and_get() {
    let mut registry = FontRegistry::new();
    registry.register("Test Font", 7u32);
    assert!(registry.has("Test Font"));
    assert!(!registry.has("Other Font"));
    assert_eq!(registry.get("Test Font"), Some(&7));
}

#[test]
fn test_list_is_sorted() {
    let mut registry = FontRegistry::new();
    registry.register("Zebra", 1u32);
    registry.register("Alpha", 2);
    registry.register("Middle", 3);
    assert_eq!(registry.list(), vec!["Alpha", "Middle", "Zebra"]);
}

#[test]
fn list_orders_by_code_point() {
    let mut registry = FontRegistry::new();
    for name in ["b", "B", "ab", "a", "Ä", ""] {
        registry.register(name, 0u8);
    }
    assert_eq!(registry.list(), vec!["", "B", "a", "ab", "b", "Ä"]);
}

#[test]
fn test_remove() {
    let mut registry = FontRegistry::new();
    registry.register("Test Font", 1u32);
    assert!(registry.has("Test Font"));
    assert_eq!(registry.remove("Test Font"), Some(1));
    assert!(!registry.has("Test Font"));
    assert!(registry.remove("Test Font").is_none());
}

#[test]
fn test_clear() {
    let mut registry = FontRegistry::new();
    registry.register("Font 1", 1u32);
    registry.register("Font 2", 2);
    assert_eq!(registry.len(), 2);
    registry.clear();
    assert!(registry.is_empty());
    assert_eq!(registry.len(), 0);
}

#[test]
fn test_register_replaces_existing() {
    let mut registry = FontRegistry::new();
    registry.register("Same Name", 1u32);
    registry.register("Same Name", 2);
    assert_eq!(registry.len(), 1);
    assert_eq!(registry.get("Same Name"), Some(&2));
}

#[test]
fn registry_keeps_other_names() {
    let mut registry: FontRegistry<u32> = FontRegistry::default();
    registry.register("a", 1);
    registry.register("b", 2);
    registry.register("a", 3);
    assert_eq!(registry.remove("b"), Some(2));
    assert_eq!(registry.get("a"), Some(&3));
    assert_eq!(registry.list(), vec!["a"]);
}

#[test]
fn vsf_entry_characters() {
    assert_eq!(vsf_glyph_char("A", 66), 'A');
    assert_eq!(vsf_glyph_char("", 66), 'B');
    assert_eq!(vsf_glyph_char("", 0xD800), '?');
    assert_eq!(kerning_pair("AV"), Some(('A', 'V')));
    assert_eq!(kerning_pair("AVX"), Some(('A', 'V')));
    assert_eq!(kerning_pair("A"), None);
    assert_eq!(first_char("xyz"), Some('x'));
    assert_eq!(first_char(""), None);
}

#[test]
fn vsf_point_kinds() {
    assert_eq!(vsf_point_kind("move", None).unwrap(), ContourPointKind::Move);
    assert_eq!(vsf_point_kind("line", Some(7)).unwrap(), ContourPointKind::Line);
    assert_eq!(vsf_point_kind("quad", Some(2)).unwrap(), ContourPointKind::Quad);
    assert_eq!(vsf_point_kind("cubic", Some(4)).unwrap(), ContourPointKind::Cubic);
    let msg = |r: Result<ContourPointKind, FontError>| match r {
        Err(FontError::InvalidFormat(m)) => m,
        _ => panic!("expected an invalid format"),
    };
    assert_eq!(msg(vsf_point_kind("quad", None)), "Quad point missing control point");
    assert_eq!(msg(vsf_point_kind("quad", Some(1))), "Quad point needs 2 control values");
    assert_eq!(msg(vsf_point_kind("cubic", None)), "Cubic point missing control points");
    assert_eq!(msg(vsf_point_kind("cubic", Some(3))), "Cubic point needs 4 control values");
    assert_eq!(msg(vsf_point_kind("arc", None)), "Unknown point type: arc");
    for k in [ContourPointKind::Move, ContourPointKind::Line, ContourPointKind::Quad, ContourPointKind::Cubic] {
        let ctrl = match k {
            ContourPointKind::Quad => Some(2),
            ContourPointKind::Cubic => Some(4),
            _ => None,
        };
        assert_eq!(vsf_point_kind(point_kind_name_of(k), ctrl).unwrap(), k);
    }
}

#[test]
fn layout_plan_follows_lines_and_kerning() {
    let text = "AV b\ncQ";
    let has = vec![true, true, true, true, false, true, false];
    let (items, lines) = text_layout_plan(text, &has);
    assert_eq!(lines, 2);
    assert_eq!(
        items,
        vec![
            LayoutItem::Glyph { c: 'A', line: 0, after: None },
            LayoutItem::Glyph { c: 'V', line: 0, after: Some('A') },
            LayoutItem::Space { line: 0 },
            LayoutItem::Glyph { c: 'b', line: 0, after: Some(' ') },
            LayoutItem::NewLine,
            LayoutItem::Glyph { c: 'c', line: 1, after: None },
            LayoutItem::Skip,
        ]
    );
    // A character without a glyph is passed over for kerning.
    let (items, lines) = text_layout_plan("a?b", &vec![true, false, true]);
    assert_eq!(lines, 1);
    assert_eq!(items[2], LayoutItem::Glyph { c: 'b', line: 0, after: Some('a') });
    let (items, lines) = text_layout_plan("", &vec![]);
    assert!(items.is_empty());
    assert_eq!(lines, 1);
}

#[test]
fn test_get_with_asref_str() {
    let mut registry = FontRegistry::new();
    registry.register("Test Font", 1u32);
    assert!(registry.get("Test Font").is_some());
    assert!(registry.get(&String::from("Test Font")).is_some());
    let name = String::from("Test Font");
    assert!(registry.get(&name).is_some());
}

#[test]
fn list_has_one_name_per_font() {
    let mut registry = FontRegistry::new();
    registry.register("Zebra", 1u32);
    registry.register("Alpha", 2);
    registry.register("Zebra", 3);
    assert_eq!(registry.len(), 2);
    assert_eq!(registry.list().len(), registry.len());
    assert_eq!(registry.list(), vec!["Alpha", "Zebra"]);
}
