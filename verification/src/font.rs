//! Font formats, font errors, and the parts of font loading that decide on
//! text: which files a format is read from and how a glyph's `unicode`
//! attribute names its character.
use vstd::prelude::*;
use crate::text::{
    all_digits, chars_of, digits_value, is_digit, parse_u32, parse_u32_in,
};

verus! {

/// Supported font formats.
#[derive(Clone, Copy, Debug, PartialEq, Eq, Structural)]
pub enum FontFormat {
    /// Hershey font format (.jhf or inline)
    Hershey,
    /// UFO 3 format (directory)
    Ufo,
    /// VSF JSON format
    Vsf,
    /// SVG font
    SvgFont,
}

/// Descriptive metadata of a VSF font; each entry may be absent.
#[derive(Clone, Debug)]
pub struct VsfMetadata {
    pub author: Option<String>,
    pub license: Option<String>,
    pub description: Option<String>,
}

impl Default for VsfMetadata {
    fn default() -> (r: Self)
        ensures
            r.author is None,
            r.license is None,
            r.description is None,
    {
        VsfMetadata { author: None, license: None, description: None }
    }
}

#[verifier::external_type_specification]
#[verifier::external_body]
pub struct ExPathBuf(std::path::PathBuf);

#[verifier::external_type_specification]
#[verifier::external_body]
pub struct ExJsonError(serde_json::Error);

/// Errors of font operations.
#[derive(Debug)]
pub enum FontError {
    ParseError(String),
    InvalidFormat(String),
    GlyphNotFound(char),
    IoError(std::path::PathBuf, String),
    JsonError(serde_json::Error),
    InvalidPath(std::path::PathBuf),
    UnsupportedFormat(String),
}

/// Text of `std::path::Path::display` for a path.
#[verifier::external_body]
fn path_text(p: &std::path::PathBuf) -> String {
    p.display().to_string()
}

/// Text of `serde_json::Error`'s `Display`.
#[verifier::external_body]
fn json_error_text(e: &serde_json::Error) -> String {
    e.to_string()
}

/// `char::to_string`: a string holding just the character, as `Display`
/// for `char` writes it.
#[verifier::external_body]
fn char_text(c: char) -> (s: String)
    ensures
        s@ == seq![c],
{
    c.to_string()
}

impl FontError {
    /// The error's message text. Paths and JSON errors are written as their
    /// `Display` writes them, which is not stated here.
    pub fn message(&self) -> (s: String)
        ensures
            match self {
                FontError::ParseError(m) => s@ == "Failed to parse font: "@ + m@,
                FontError::InvalidFormat(m) => s@ == "Invalid font format: "@ + m@,
                FontError::GlyphNotFound(c) => s@ == "Glyph not found for character: "@ + seq![*c],
                FontError::IoError(_, m) => s@.take(18) == "I/O error reading "@
                    && s@.len() >= 18 + 2 + m@.len()
                    && s@.skip(s@.len() - (m@.len() + 2)) == ": "@ + m@,
                FontError::JsonError(_) => s@.take(12) == "JSON error: "@,
                FontError::InvalidPath(_) => s@.take(14) == "Invalid path: "@,
                FontError::UnsupportedFormat(m) => s@ == "Unsupported format: "@ + m@,
            },
    {
        let mut s = String::new();
        proof {
            reveal_strlit("I/O error reading ");
            reveal_strlit(": ");
            reveal_strlit("JSON error: ");
            reveal_strlit("Invalid path: ");
        }
        match self {
            FontError::ParseError(m) => {
                s.append("Failed to parse font: ");
                s.append(m.as_str());
            },
            FontError::InvalidFormat(m) => {
                s.append("Invalid font format: ");
                s.append(m.as_str());
            },
            FontError::GlyphNotFound(c) => {
                s.append("Glyph not found for character: ");
                let t = char_text(*c);
                s.append(t.as_str());
            },
            FontError::IoError(p, m) => {
                s.append("I/O error reading ");
                let t = path_text(p);
                s.append(t.as_str());
                s.append(": ");
                s.append(m.as_str());
                assert(s@.take(18) == "I/O error reading "@);
                assert(s@.skip(s@.len() - (m@.len() + 2)) == ": "@ + m@);
            },
            FontError::JsonError(e) => {
                s.append("JSON error: ");
                let t = json_error_text(e);
                s.append(t.as_str());
                assert(s@.take(12) == "JSON error: "@);
            },
            FontError::InvalidPath(p) => {
                s.append("Invalid path: ");
                let t = path_text(p);
                s.append(t.as_str());
                assert(s@.take(14) == "Invalid path: "@);
            },
            FontError::UnsupportedFormat(m) => {
                s.append("Unsupported format: ");
                s.append(m.as_str());
            },
        }
        s
    }
}

/// The file extension that fonts of a format are loaded from when loading a
/// directory: `jhf`, `vsf` and `svg`; the UFO format is not supported.
pub fn font_file_extension(format: FontFormat) -> (r: Result<&'static str, FontError>)
    ensures
        match r {
            Ok(ext) => match format {
                FontFormat::Hershey => ext@ == "jhf"@,
                FontFormat::Vsf => ext@ == "vsf"@,
                FontFormat::SvgFont => ext@ == "svg"@,
                FontFormat::Ufo => false,
            },
            Err(FontError::UnsupportedFormat(m)) => format == FontFormat::Ufo
                && m@ == "UFO format not yet implemented"@,
            Err(_) => false,
        },
{
    match format {
        FontFormat::Hershey => Ok("jhf"),
        FontFormat::Vsf => Ok("vsf"),
        FontFormat::SvgFont => Ok("svg"),
        FontFormat::Ufo => {
            let mut m = String::new();
            m.append("UFO format not yet implemented");
            Err(FontError::UnsupportedFormat(m))
        },
    }
}

/// Whether a single font file of this format can be loaded: VSF and SVG
/// fonts can; Hershey fonts are loaded by variant instead, and UFO is not
/// supported.
pub fn check_file_format(format: FontFormat) -> (r: Result<(), FontError>)
    ensures
        match r {
            Ok(()) => format == FontFormat::Vsf || format == FontFormat::SvgFont,
            Err(FontError::UnsupportedFormat(m)) => (format == FontFormat::Hershey
                && m@ == "Use load_hershey() for Hershey fonts"@) || (format == FontFormat::Ufo
                && m@ == "UFO format not yet implemented"@),
            Err(_) => false,
        },
{
    match format {
        FontFormat::Hershey => {
            let mut m = String::new();
            m.append("Use load_hershey() for Hershey fonts");
            Err(FontError::UnsupportedFormat(m))
        },
        FontFormat::Ufo => {
            let mut m = String::new();
            m.append("UFO format not yet implemented");
            Err(FontError::UnsupportedFormat(m))
        },
        _ => Ok(()),
    }
}

/// Value of a hexadecimal digit, if `c` is one.
pub open spec fn hex_digit_value(c: char) -> Option<int> {
    if '0' <= c && c <= '9' {
        Some((c as u32) - ('0' as u32))
    } else if 'a' <= c && c <= 'f' {
        Some((c as u32) - ('a' as u32) + 10)
    } else if 'A' <= c && c <= 'F' {
        Some((c as u32) - ('A' as u32) + 10)
    } else {
        None
    }
}

pub open spec fn all_hex_digits(s: Seq<char>) -> bool {
    forall|i: int| 0 <= i < s.len() ==> (#[trigger] hex_digit_value(s[i])) is Some
}

/// Value of a string of hexadecimal digits.
pub open spec fn hex_value(s: Seq<char>) -> int
    decreases s.len(),
{
    if s.len() == 0 {
        0
    } else {
        16 * hex_value(s.drop_last()) + match hex_digit_value(s.last()) {
            Some(d) => d,
            None => 0,
        }
    }
}

/// The value `u32::from_str_radix(s, 16)` gives: an optional '+', then at
/// least one hexadecimal digit and nothing else, within the range of `u32`.
pub open spec fn parse_hex_u32(s: Seq<char>) -> Option<u32> {
    let digits = if s.len() > 0 && s[0] == '+' { s.drop_first() } else { s };
    let v = hex_value(digits);
    if digits.len() == 0 || !all_hex_digits(digits) || v > u32::MAX {
        None
    } else {
        Some(v as u32)
    }
}

fn hex_digit(c: char) -> (r: Option<u32>)
    ensures
        match r {
            Some(d) => hex_digit_value(c) == Some(d as int) && d < 16,
            None => hex_digit_value(c) is None,
        },
{
    if '0' <= c && c <= '9' {
        Some(c as u32 - '0' as u32)
    } else if 'a' <= c && c <= 'f' {
        Some(c as u32 - 'a' as u32 + 10)
    } else if 'A' <= c && c <= 'F' {
        Some(c as u32 - 'A' as u32 + 10)
    } else {
        None
    }
}

/// A character with an ASCII small letter raised to its capital.
pub open spec fn ascii_upper(c: char) -> char {
    if 'a' <= c && c <= 'z' {
        ((c as u32) - 32) as char
    } else {
        c
    }
}

/// Hexadecimal digits are read without regard to case: `0`-`9` are worth 0
/// to 9, and both `a`-`f` and `A`-`F` are worth 10 to 15; raising a letter
/// to its capital never changes what it is worth.
pub proof fn lemma_hex_digits_ignore_case(c: char, i: u32)
    ensures
        hex_digit_value(c) == hex_digit_value(ascii_upper(c)),
        i < 10 ==> hex_digit_value((('0' as u32) + i) as char) == Some(i as int),
        i < 6 ==> hex_digit_value((('a' as u32) + i) as char) == Some(10 + i),
        i < 6 ==> hex_digit_value((('A' as u32) + i) as char) == Some(10 + i),
{
    vstd::utf8::char_u32_cast(c, c as u32);
    if 'a' <= c && c <= 'z' {
        let u = ((c as u32) - 32) as char;
        vstd::utf8::char_u32_cast(u, ((c as u32) - 32) as u32);
    }
}

/// Hexadecimal numbers are read without regard to case: raising every
/// letter of a text to its capital never changes the number it gives.
pub proof fn lemma_hex_numbers_ignore_case(s: Seq<char>)
    ensures
        parse_hex_u32(s) == parse_hex_u32(s.map_values(|c: char| ascii_upper(c))),
{
    let u = s.map_values(|c: char| ascii_upper(c));
    let ds = if s.len() > 0 && s[0] == '+' { s.drop_first() } else { s };
    let du = if u.len() > 0 && u[0] == '+' { u.drop_first() } else { u };
    if s.len() > 0 {
        lemma_hex_digits_ignore_case(s[0], 0);
    }
    assert(du =~= ds.map_values(|c: char| ascii_upper(c)));
    lemma_hex_value_ignores_case(ds);
    assert forall|i: int| 0 <= i < ds.len() implies (#[trigger] hex_digit_value(ds[i]))
        == hex_digit_value(du[i]) by {
        lemma_hex_digits_ignore_case(ds[i], 0);
    }
    assert(all_hex_digits(ds) == all_hex_digits(du)) by {
        if all_hex_digits(ds) {
            assert forall|i: int| 0 <= i < du.len() implies (#[trigger] hex_digit_value(du[i])) is Some by {
                assert(hex_digit_value(ds[i]) is Some);
            }
        }
        if all_hex_digits(du) {
            assert forall|i: int| 0 <= i < ds.len() implies (#[trigger] hex_digit_value(ds[i])) is Some by {
                assert(hex_digit_value(du[i]) is Some);
            }
        }
    }
}

proof fn lemma_hex_value_ignores_case(s: Seq<char>)
    ensures
        hex_value(s) == hex_value(s.map_values(|c: char| ascii_upper(c))),
    decreases s.len(),
{
    if s.len() > 0 {
        let u = s.map_values(|c: char| ascii_upper(c));
        assert(u.drop_last() =~= s.drop_last().map_values(|c: char| ascii_upper(c)));
        lemma_hex_value_ignores_case(s.drop_last());
        lemma_hex_digits_ignore_case(s.last(), 0);
    }
}

/// A hexadecimal character reference `&#xHH;` or `&#XHH;` names the number
/// its digits give, read as `u32::from_str_radix(_, 16)` reads them.
pub proof fn lemma_hex_reference(s: Seq<char>, x: char)
    requires
        x == 'x' || x == 'X',
    ensures
        char_reference(seq!['&', '#', x] + s + seq![';']) == parse_hex_u32(s),
{
    let r = seq!['&', '#', x] + s + seq![';'];
    assert(r.subrange(2, r.len() - 1).drop_first() =~= s);
    assert(r.subrange(2, r.len() - 1)[0] == x);
}

/// Parses `v[lo..hi]` as `u32::from_str_radix(_, 16)` does.
pub fn parse_hex_u32_in(v: &Vec<char>, lo: usize, hi: usize) -> (r: Option<u32>)
    requires
        lo <= hi <= v@.len(),
    ensures
        r == parse_hex_u32(v@.subrange(lo as int, hi as int)),
{
    let ghost s = v@.subrange(lo as int, hi as int);
    let mut start = lo;
    if lo < hi && v[lo] == '+' {
        start = lo + 1;
    }
    let ghost digits = v@.subrange(start as int, hi as int);
    assert(digits == if s.len() > 0 && s[0] == '+' { s.drop_first() } else { s });
    if start == hi {
        return None;
    }
    let mut acc: u64 = 0;
    let mut overflow = false;
    let mut i = start;
    while i < hi
        invariant
            start <= i <= hi <= v@.len(),
            digits == v@.subrange(start as int, hi as int),
            s == v@.subrange(lo as int, hi as int),
            digits == if s.len() > 0 && s[0] == '+' { s.drop_first() } else { s },
            forall|j: int| 0 <= j < i - start ==> (#[trigger] hex_digit_value(digits[j])) is Some,
            !overflow ==> acc == hex_value(digits.take(i - start)) && acc <= 0xffff_ffff,
            overflow ==> hex_value(digits.take(i - start)) > 0xffff_ffff,
        decreases hi - i,
    {
        let c = v[i];
        let d = hex_digit(c);
        proof {
            assert(digits[i - start] == c);
        }
        let d = match d {
            Some(d) => d,
            None => {
                assert(!all_hex_digits(digits));
                return None;
            },
        };
        proof {
            let k = i - start;
            assert(digits.take(k + 1).drop_last() == digits.take(k));
            assert(digits.take(k + 1).last() == c);
        }
        if !overflow {
            acc = acc * 16 + d as u64;
            if acc > 0xffff_ffff {
                overflow = true;
            }
        }
        i = i + 1;
    }
    assert(digits.take(i - start) == digits);
    assert(all_hex_digits(digits));
    if overflow {
        return None;
    }
    Some(acc as u32)
}

/// Whether `v` is a Unicode scalar value (a valid `char`).
pub open spec fn is_scalar_value(v: u32) -> bool {
    v <= 0x10FFFF && !(0xD800 <= v <= 0xDFFF)
}

/// `char::from_u32`: the character of a scalar value, or `None`.
#[verifier::external_body]
pub(crate) fn char_from_u32(v: u32) -> (r: Option<char>)
    ensures
        match r {
            Some(c) => is_scalar_value(v) && c as u32 == v,
            None => !is_scalar_value(v),
        },
{
    char::from_u32(v)
}

/// The code point of an HTML character reference `&#NN;` or `&#xHH;`
/// (`x` or `X`), if its number parses.
pub open spec fn char_reference(s: Seq<char>) -> Option<u32> {
    if s.len() >= 3 && s[0] == '&' && s[1] == '#' && s.last() == ';' {
        let inner = s.subrange(2, s.len() - 1);
        if inner.len() > 0 && (inner[0] == 'x' || inner[0] == 'X') {
            parse_hex_u32(inner.drop_first())
        } else {
            parse_u32(inner)
        }
    } else {
        None
    }
}

/// The character a glyph's `unicode` attribute names: the attribute itself
/// when it is one character; otherwise the character of an HTML character
/// reference that gives a valid scalar value; otherwise the attribute's first
/// character. An empty attribute names none.
pub open spec fn unicode_attribute_char(s: Seq<char>) -> Option<char> {
    if s.len() == 1 {
        Some(s[0])
    } else {
        match char_reference(s) {
            Some(v) if is_scalar_value(v) => Some(v as char),
            _ => if s.len() > 0 { Some(s[0]) } else { None },
        }
    }
}

/// Reads the character of an SVG font glyph's `unicode` attribute (see
/// `unicode_attribute_char`); an empty attribute is a parse error.
pub fn parse_unicode(s: &str) -> (r: Result<char, FontError>)
    ensures
        match r {
            Ok(c) => unicode_attribute_char(s@) == Some(c),
            Err(FontError::ParseError(m)) => unicode_attribute_char(s@) is None
                && m@ == "Invalid unicode: "@ + s@,
            Err(_) => false,
        },
{
    let v = chars_of(s);
    let n = v.len();
    if n == 1 {
        return Ok(v[0]);
    }
    if n >= 3 && v[0] == '&' && v[1] == '#' && v[n - 1] == ';' {
        let ghost inner = v@.subrange(2, n - 1);
        let code = if v[2] == 'x' || v[2] == 'X' {
            proof {
                assert(inner.drop_first() == v@.subrange(3, n - 1));
            }
            if n - 1 >= 3 {
                parse_hex_u32_in(&v, 3, n - 1)
            } else {
                None
            }
        } else {
            parse_u32_in(&v, 2, n - 1)
        };
        if let Some(code) = code {
            if let Some(c) = char_from_u32(code) {
                proof {
                    vstd::utf8::char_u32_cast(c, code);
                    assert(v@ == s@);
                    assert(char_reference(s@) == Some(code));
                }
                return Ok(c);
            }
        }
    }
    if n > 0 {
        Ok(v[0])
    } else {
        let mut m = String::new();
        m.append("Invalid unicode: ");
        m.append(s);
        Err(FontError::ParseError(m))
    }
}


/// The character a VSF glyph entry is stored under: the first character of
/// its key; for an empty key the character of its `unicode` number, or '?'
/// when that number is no character.
pub open spec fn vsf_glyph_char_spec(key: Seq<char>, unicode: u32) -> char {
    if key.len() > 0 {
        key[0]
    } else if is_scalar_value(unicode) {
        unicode as char
    } else {
        '?'
    }
}

/// Picks the character of a VSF glyph entry (see `vsf_glyph_char_spec`).
pub fn vsf_glyph_char(key: &str, unicode: u32) -> (c: char)
    ensures
        c == vsf_glyph_char_spec(key@, unicode),
{
    let v = chars_of(key);
    if v.len() > 0 {
        v[0]
    } else {
        match char_from_u32(unicode) {
            Some(c) => {
                proof {
                    vstd::utf8::char_u32_cast(c, unicode);
                }
                c
            },
            None => '?',
        }
    }
}

/// The first character of a string, if it has one.
pub fn first_char(s: &str) -> (r: Option<char>)
    ensures
        r == (if s@.len() > 0 { Some(s@[0]) } else { None::<char> }),
{
    let v = chars_of(s);
    if v.len() > 0 {
        Some(v[0])
    } else {
        None
    }
}

/// The character pair a VSF kerning key names: its first two characters,
/// when it has two.
pub fn kerning_pair(key: &str) -> (r: Option<(char, char)>)
    ensures
        r == (if key@.len() >= 2 { Some((key@[0], key@[1])) } else { None::<(char, char)> }),
{
    let v = chars_of(key);
    if v.len() >= 2 {
        Some((v[0], v[1]))
    } else {
        None
    }
}

/// The kinds of point in a VSF contour.
#[derive(Clone, Copy, Debug, PartialEq, Eq, Structural)]
pub enum ContourPointKind {
    /// Start a new subpath at the point
    Move,
    /// Straight line to the point
    Line,
    /// Quadratic curve to the point with one control point (2 values)
    Quad,
    /// Cubic curve to the point with two control points (4 values)
    Cubic,
}

/// The `type` name of a point kind in VSF files.
pub open spec fn point_kind_name(k: ContourPointKind) -> Seq<char> {
    match k {
        ContourPointKind::Move => "move"@,
        ContourPointKind::Line => "line"@,
        ContourPointKind::Quad => "quad"@,
        ContourPointKind::Cubic => "cubic"@,
    }
}

/// The kind of a VSF point with the given `type` and number of control
/// values (`None` when it has no control list): `move` and `line` need no
/// control values, `quad` needs at least 2 and `cubic` at least 4; anything
/// else is an invalid format.
pub open spec fn vsf_point_kind_spec(point_type: Seq<char>, ctrl_len: Option<usize>) -> Result<ContourPointKind, Seq<char>> {
    if point_type == "move"@ {
        Ok(ContourPointKind::Move)
    } else if point_type == "line"@ {
        Ok(ContourPointKind::Line)
    } else if point_type == "quad"@ {
        match ctrl_len {
            None => Err("Quad point missing control point"@),
            Some(n) => if n < 2 { Err("Quad point needs 2 control values"@) } else { Ok(ContourPointKind::Quad) },
        }
    } else if point_type == "cubic"@ {
        match ctrl_len {
            None => Err("Cubic point missing control points"@),
            Some(n) => if n < 4 { Err("Cubic point needs 4 control values"@) } else { Ok(ContourPointKind::Cubic) },
        }
    } else {
        Err("Unknown point type: "@ + point_type)
    }
}

/// Whether a string is the given literal text.
fn str_is(s: &str, lit: &str) -> (b: bool)
    ensures
        b == (s@ == lit@),
{
    let a = s.to_owned();
    let b = lit.to_owned();
    a == b
}

/// Classifies a VSF point (see `vsf_point_kind_spec`).
pub fn vsf_point_kind(point_type: &str, ctrl_len: Option<usize>) -> (r: Result<ContourPointKind, FontError>)
    ensures
        match r {
            Ok(k) => vsf_point_kind_spec(point_type@, ctrl_len) == Ok::<ContourPointKind, Seq<char>>(k),
            Err(FontError::InvalidFormat(m)) => vsf_point_kind_spec(point_type@, ctrl_len)
                == Err::<ContourPointKind, Seq<char>>(m@),
            Err(_) => false,
        },
{
    if str_is(point_type, "move") {
        Ok(ContourPointKind::Move)
    } else if str_is(point_type, "line") {
        Ok(ContourPointKind::Line)
    } else if str_is(point_type, "quad") {
        match ctrl_len {
            None => Err(FontError::InvalidFormat("Quad point missing control point".to_owned())),
            Some(n) => if n < 2 {
                Err(FontError::InvalidFormat("Quad point needs 2 control values".to_owned()))
            } else {
                Ok(ContourPointKind::Quad)
            },
        }
    } else if str_is(point_type, "cubic") {
        match ctrl_len {
            None => Err(FontError::InvalidFormat("Cubic point missing control points".to_owned())),
            Some(n) => if n < 4 {
                Err(FontError::InvalidFormat("Cubic point needs 4 control values".to_owned()))
            } else {
                Ok(ContourPointKind::Cubic)
            },
        }
    } else {
        let mut m = String::new();
        m.append("Unknown point type: ");
        m.append(point_type);
        Err(FontError::InvalidFormat(m))
    }
}

/// The VSF `type` name of a point kind, as fonts are written.
pub fn point_kind_name_of(k: ContourPointKind) -> (s: &'static str)
    ensures
        s@ == point_kind_name(k),
{
    match k {
        ContourPointKind::Move => "move",
        ContourPointKind::Line => "line",
        ContourPointKind::Quad => "quad",
        ContourPointKind::Cubic => "cubic",
    }
}

/// The number of control values a written point of this kind carries
/// (`None` for no control list).
pub open spec fn point_kind_ctrl_len(k: ContourPointKind) -> Option<usize> {
    match k {
        ContourPointKind::Move => None,
        ContourPointKind::Line => None,
        ContourPointKind::Quad => Some(2),
        ContourPointKind::Cubic => Some(4),
    }
}

/// A point written to a VSF file reads back as the same kind: its `type`
/// name with the control values written for it classifies as that kind.
pub proof fn lemma_point_kind_roundtrip(k: ContourPointKind)
    ensures
        vsf_point_kind_spec(point_kind_name(k), point_kind_ctrl_len(k)) == Ok::<ContourPointKind, Seq<char>>(k),
{
    reveal_strlit("move");
    reveal_strlit("line");
    reveal_strlit("quad");
    reveal_strlit("cubic");
    assert("line"@[0] != "move"@[0]);
    assert("quad"@[0] != "move"@[0] && "quad"@[0] != "line"@[0]);
    assert("cubic"@.len() != "move"@.len() && "cubic"@.len() != "line"@.len() && "cubic"@.len() != "quad"@.len());
}

} // verus!
