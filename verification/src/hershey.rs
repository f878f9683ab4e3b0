//! Hershey stroke fonts: the built-in font variants and the JHF format.
//!
//! JHF holds one glyph per line: `NNNNN CC L R <coordinate pairs...>`
//! - bytes 0..5: glyph number (whitespace padded)
//! - bytes 5..8: count of coordinate pairs, the margin pair included
//! - bytes 8, 9: left and right margin
//! - then coordinate pairs; a coordinate is its byte's offset from 'R'
//!   (ASCII 82), and the pair " R" lifts the pen.
//!
//! Coordinates are returned with Y pointing up and the baseline at 0:
//! a raw point `(x, y)` becomes `(x - left, 9 - y)`.
use vstd::prelude::*;
use vstd::std_specs::iter::IteratorSpec;
use std::collections::HashMap;
use vstd::string::StringSliceAdditionalSpecFns;
use vstd::utf8::{decode_utf8, encode_utf8, is_continuation_byte};
use crate::font::{char_from_u32, is_scalar_value, FontError};
use crate::text::{
    chars_of, find_char, find_char_in, parse_u32, parse_u32_in, trim, trim_bounds, trim_end,
    trim_end_in,
};

verus! {

broadcast use vstd::utf8::group_utf8_lib;

/// Hershey font variants.
#[derive(Clone, Copy, Debug, PartialEq, Eq, Hash, Structural)]
pub enum Hershey {
    /// Roman Simplex - single-stroke, clean and readable
    Simplex,
    /// Roman Duplex - double-stroke, bolder
    Duplex,
    /// Roman Triplex - triple-stroke, most ornate
    Triplex,
    /// Script Simplex - cursive, single-stroke
    ScriptSimplex,
    /// Script Complex - cursive, double-stroke
    ScriptComplex,
    /// Gothic German Bold - Fraktur-style, bold
    GothicGermanBold,
    /// Gothic German - Fraktur-style
    GothicGerman,
    /// Gothic Italian - Fraktur-style, Italian variant
    GothicItalian,
}

/// The registry name of a variant.
pub open spec fn hershey_name(h: Hershey) -> Seq<char> {
    match h {
        Hershey::Simplex => "Hershey Simplex"@,
        Hershey::Duplex => "Hershey Duplex"@,
        Hershey::Triplex => "Hershey Triplex"@,
        Hershey::ScriptSimplex => "Hershey Script Simplex"@,
        Hershey::ScriptComplex => "Hershey Script Complex"@,
        Hershey::GothicGermanBold => "Hershey Gothic German Bold"@,
        Hershey::GothicGerman => "Hershey Gothic German"@,
        Hershey::GothicItalian => "Hershey Gothic Italian"@,
    }
}

impl Hershey {
    /// The font name of the variant.
    pub fn name(&self) -> (s: &'static str)
        ensures
            s@ == hershey_name(*self),
    {
        match self {
            Hershey::Simplex => "Hershey Simplex",
            Hershey::Duplex => "Hershey Duplex",
            Hershey::Triplex => "Hershey Triplex",
            Hershey::ScriptSimplex => "Hershey Script Simplex",
            Hershey::ScriptComplex => "Hershey Script Complex",
            Hershey::GothicGermanBold => "Hershey Gothic German Bold",
            Hershey::GothicGerman => "Hershey Gothic German",
            Hershey::GothicItalian => "Hershey Gothic Italian",
        }
    }

    /// All variants, in declaration order.
    pub fn all() -> (v: [Hershey; 8])
        ensures
            v@ == seq![
                Hershey::Simplex,
                Hershey::Duplex,
                Hershey::Triplex,
                Hershey::ScriptSimplex,
                Hershey::ScriptComplex,
                Hershey::GothicGermanBold,
                Hershey::GothicGerman,
                Hershey::GothicItalian,
            ],
    {
        [
            Hershey::Simplex,
            Hershey::Duplex,
            Hershey::Triplex,
            Hershey::ScriptSimplex,
            Hershey::ScriptComplex,
            Hershey::GothicGermanBold,
            Hershey::GothicGerman,
            Hershey::GothicItalian,
        ]
    }
}

impl AsRef<str> for Hershey {
    /// The font name of the variant, as `name` gives it.
    fn as_ref(&self) -> (s: &str)
        ensures
            s@ == hershey_name(*self),
    {
        self.name()
    }
}

/// A glyph read from a JHF line: its advance width and its contours, each
/// contour a pen-down sequence of points (the first is moved to, the others
/// are drawn to).
#[derive(Clone, Debug)]
pub struct JhfGlyph {
    pub advance_width: i32,
    pub contours: Vec<Vec<(i32, i32)>>,
}

/// Contours as sequences of points.
pub open spec fn contours_view(c: Seq<Vec<(i32, i32)>>) -> Seq<Seq<(i32, i32)>> {
    c.map_values(|v: Vec<(i32, i32)>| v@)
}

/// A glyph as its advance width and contours.
pub open spec fn glyph_view(g: JhfGlyph) -> (int, Seq<Seq<(i32, i32)>>) {
    (g.advance_width as int, contours_view(g.contours@))
}

/// A coordinate: the byte's offset from 'R'.
pub open spec fn coord(b: u8) -> int {
    b - 82
}

/// Number of coordinate pairs read: the whole pairs after the margins, at
/// most `count - 1`.
pub open spec fn pair_count(b: Seq<u8>, count: int) -> int {
    let whole = (b.len() - 10) / 2;
    if whole <= count - 1 { whole } else { count - 1 }
}

/// The finished contours and the contour in progress after `k` pairs.
pub open spec fn jhf_pairs(b: Seq<u8>, left: int, k: nat) -> (Seq<Seq<(i32, i32)>>, Seq<(i32, i32)>)
    decreases k,
{
    if k == 0 {
        (Seq::empty(), Seq::empty())
    } else {
        let prev = jhf_pairs(b, left, (k - 1) as nat);
        let xb = b[10 + 2 * (k - 1)];
        let yb = b[11 + 2 * (k - 1)];
        if xb == 32 && yb == 82 {
            if prev.1.len() > 0 {
                (prev.0.push(prev.1), Seq::empty())
            } else {
                prev
            }
        } else {
            (prev.0, prev.1.push(((coord(xb) - left) as i32, (9 - coord(yb)) as i32)))
        }
    }
}

/// The contours of a line with `n` pairs read.
pub open spec fn jhf_contours(b: Seq<u8>, left: int, n: nat) -> Seq<Seq<(i32, i32)>> {
    let st = jhf_pairs(b, left, n);
    if st.1.len() > 0 { st.0.push(st.1) } else { st.0 }
}

/// The characters of the bytes `lo..hi` of a line.
pub open spec fn field(b: Seq<u8>, lo: int, hi: int) -> Seq<char> {
    decode_utf8(b.subrange(lo, hi))
}

/// A line the parser can slice: its number and count fields end on
/// character boundaries (slicing a `str` elsewhere would panic).
pub open spec fn jhf_line_sliceable(line: Seq<char>) -> bool {
    let b = encode_utf8(line);
    b.len() >= 10 ==> !is_continuation_byte(b[5]) && !is_continuation_byte(b[8])
}

/// The result of parsing a JHF line: no glyph for a line under 10 bytes;
/// an error when the number or the count field does not parse as an
/// unsigned integer once trimmed; otherwise the glyph number, the advance
/// width `right - left` and the contours (none when the count is at most 1).
pub open spec fn jhf_line(line: Seq<char>) -> Result<Option<(u32, (int, Seq<Seq<(i32, i32)>>))>, Seq<char>> {
    let b = encode_utf8(line);
    if b.len() < 10 {
        Ok(None)
    } else {
        match parse_u32(trim(field(b, 0, 5))) {
            None => Err("Invalid glyph number in: "@ + line),
            Some(num) => match parse_u32(trim(field(b, 5, 8))) {
                None => Err("Invalid count in: "@ + line),
                Some(count) => {
                    let left = coord(b[8]);
                    let adv = coord(b[9]) - left;
                    if count <= 1 {
                        Ok(Some((num, (adv, Seq::empty()))))
                    } else {
                        Ok(Some((num, (adv, jhf_contours(b, left, pair_count(b, count as int) as nat)))))
                    }
                },
            },
        }
    }
}

/// Decodes a JHF coordinate byte: its offset from 'R'.
pub fn decode_coord(b: u8) -> (v: i32)
    ensures
        v == coord(b),
{
    b as i32 - 82
}

/// Parses one line of a JHF font (see `jhf_line`).
pub fn parse_glyph_line(line: &str) -> (r: Result<Option<(u32, JhfGlyph)>, FontError>)
    requires
        jhf_line_sliceable(line@),
    ensures
        match r {
            Ok(None) => jhf_line(line@) == Ok::<Option<(u32, (int, Seq<Seq<(i32, i32)>>))>, Seq<char>>(None),
            Ok(Some((num, g))) => jhf_line(line@) == Ok::<Option<(u32, (int, Seq<Seq<(i32, i32)>>))>, Seq<char>>(
                Some((num, glyph_view(g))),
            ),
            Err(FontError::ParseError(m)) => jhf_line(line@) == Err::<Option<(u32, (int, Seq<Seq<(i32, i32)>>))>, Seq<char>>(m@),
            Err(_) => false,
        },
{
    let b = line.as_bytes();
    let ghost bs = encode_utf8(line@);
    assert(b@ == bs);
    if b.len() < 10 {
        return Ok(None);
    }
    proof {
        assert(vstd::utf8::valid_utf8(bs));
        assert(vstd::utf8::is_char_boundary(bs, 5));
    }
    let (f1, rest) = line.split_at(5);
    proof {
        let rb = rest.spec_bytes();
        assert(rb == bs.subrange(5, bs.len() as int));
        assert(rb == encode_utf8(rest@));
        assert(vstd::utf8::valid_utf8(rb));
        assert(rb[3] == bs[8]);
        assert(vstd::utf8::is_char_boundary(rb, 3));
    }
    let (f2, _) = rest.split_at(3);
    proof {
        assert(f1.spec_bytes() == bs.subrange(0, 5));
        assert(decode_utf8(encode_utf8(f1@)) == f1@);
        assert(f1@ == field(bs, 0, 5));
        assert(f2.spec_bytes() == bs.subrange(5, 8));
        assert(decode_utf8(encode_utf8(f2@)) == f2@);
        assert(f2@ == field(bs, 5, 8));
    }
    let c1 = chars_of(f1);
    let (a1, e1) = trim_bounds(&c1, 0, c1.len());
    assert(c1@.subrange(0, c1@.len() as int) == c1@);
    let num = parse_u32_in(&c1, a1, e1);
    let num = match num {
        Some(n) => n,
        None => {
            let mut m = String::new();
            m.append("Invalid glyph number in: ");
            m.append(line);
            return Err(FontError::ParseError(m));
        },
    };
    let c2 = chars_of(f2);
    let (a2, e2) = trim_bounds(&c2, 0, c2.len());
    assert(c2@.subrange(0, c2@.len() as int) == c2@);
    let count = parse_u32_in(&c2, a2, e2);
    let count = match count {
        Some(n) => n,
        None => {
            let mut m = String::new();
            m.append("Invalid count in: ");
            m.append(line);
            return Err(FontError::ParseError(m));
        },
    };
    let left = decode_coord(b[8]);
    let right = decode_coord(b[9]);
    let advance_width = right - left;
    if count <= 1 {
        let g = JhfGlyph { advance_width, contours: Vec::new() };
        assert(contours_view(g.contours@) == Seq::<Seq<(i32, i32)>>::empty());
        return Ok(Some((num, g)));
    }
    let n = b.len();
    let max_pairs = (count - 1) as usize;
    let ghost npairs = pair_count(bs, count as int);
    let mut contours: Vec<Vec<(i32, i32)>> = Vec::new();
    let mut current: Vec<(i32, i32)> = Vec::new();
    let mut k: usize = 0;
    while 10 + 2 * k + 1 < n && k < max_pairs
        invariant
            b@ == bs,
            n == bs.len(),
            n >= 10,
            max_pairs == count - 1,
            count > 1,
            left == coord(bs[8]),
            npairs == pair_count(bs, count as int),
            k <= npairs,
            contours_view(contours@) == jhf_pairs(bs, left as int, k as nat).0,
            current@ == jhf_pairs(bs, left as int, k as nat).1,
        decreases n - k,
    {
        let xb = b[10 + 2 * k];
        let yb = b[11 + 2 * k];
        let ghost cv = contours_view(contours@);
        if xb == 32 && yb == 82 {
            if current.len() > 0 {
                let done = current;
                contours.push(done);
                current = Vec::new();
                assert(contours_view(contours@) == cv.push(done@));
            }
        } else {
            let x = decode_coord(xb) - left;
            let y = 9 - decode_coord(yb);
            current.push((x, y));
        }
        k = k + 1;
    }
    assert(k == npairs);
    if current.len() > 0 {
        let ghost cv = contours_view(contours@);
        let done = current;
        contours.push(done);
        assert(contours_view(contours@) == cv.push(done@));
    }
    let g = JhfGlyph { advance_width, contours };
    Ok(Some((num, g)))
}


/// Glyph numbers of the Roman Simplex font and the characters they draw.
pub open spec fn roman_simplex_table() -> Seq<(u32, char)> {
    seq![
        (699u32, ' '), (714u32, '!'), (717u32, '"'), (733u32, '#'), (719u32, '$'),
        (2271u32, '%'), (734u32, '&'), (731u32, '\''), (721u32, '('), (722u32, ')'),
        (2219u32, '*'), (725u32, '+'), (711u32, ','), (724u32, '-'), (710u32, '.'),
        (720u32, '/'), (700u32, '0'), (701u32, '1'), (702u32, '2'), (703u32, '3'),
        (704u32, '4'), (705u32, '5'), (706u32, '6'), (707u32, '7'), (708u32, '8'),
        (709u32, '9'), (712u32, ':'), (713u32, ';'), (2241u32, '<'), (726u32, '='),
        (2242u32, '>'), (715u32, '?'), (2273u32, '@'), (501u32, 'A'), (502u32, 'B'),
        (503u32, 'C'), (504u32, 'D'), (505u32, 'E'), (506u32, 'F'), (507u32, 'G'),
        (508u32, 'H'), (509u32, 'I'), (510u32, 'J'), (511u32, 'K'), (512u32, 'L'),
        (513u32, 'M'), (514u32, 'N'), (515u32, 'O'), (516u32, 'P'), (517u32, 'Q'),
        (518u32, 'R'), (519u32, 'S'), (520u32, 'T'), (521u32, 'U'), (522u32, 'V'),
        (523u32, 'W'), (524u32, 'X'), (525u32, 'Y'), (526u32, 'Z'), (2223u32, '['),
        (804u32, '\\'), (2224u32, ']'), (2262u32, '^'), (999u32, '_'), (730u32, '`'),
        (601u32, 'a'), (602u32, 'b'), (603u32, 'c'), (604u32, 'd'), (605u32, 'e'),
        (606u32, 'f'), (607u32, 'g'), (608u32, 'h'), (609u32, 'i'), (610u32, 'j'),
        (611u32, 'k'), (612u32, 'l'), (613u32, 'm'), (614u32, 'n'), (615u32, 'o'),
        (616u32, 'p'), (617u32, 'q'), (618u32, 'r'), (619u32, 's'), (620u32, 't'),
        (621u32, 'u'), (622u32, 'v'), (623u32, 'w'), (624u32, 'x'), (625u32, 'y'),
        (626u32, 'z'), (2225u32, '{'), (723u32, '|'), (2226u32, '}'), (2246u32, '~'),
    ]
}

/// The Roman Simplex glyph-number mapping.
pub fn roman_simplex_map() -> (v: Vec<(u32, char)>)
    ensures
        v@ == roman_simplex_table(),
{
    let v: Vec<(u32, char)> = vec![
        (699u32, ' '), (714u32, '!'), (717u32, '"'), (733u32, '#'), (719u32, '$'),
        (2271u32, '%'), (734u32, '&'), (731u32, '\''), (721u32, '('), (722u32, ')'),
        (2219u32, '*'), (725u32, '+'), (711u32, ','), (724u32, '-'), (710u32, '.'),
        (720u32, '/'), (700u32, '0'), (701u32, '1'), (702u32, '2'), (703u32, '3'),
        (704u32, '4'), (705u32, '5'), (706u32, '6'), (707u32, '7'), (708u32, '8'),
        (709u32, '9'), (712u32, ':'), (713u32, ';'), (2241u32, '<'), (726u32, '='),
        (2242u32, '>'), (715u32, '?'), (2273u32, '@'), (501u32, 'A'), (502u32, 'B'),
        (503u32, 'C'), (504u32, 'D'), (505u32, 'E'), (506u32, 'F'), (507u32, 'G'),
        (508u32, 'H'), (509u32, 'I'), (510u32, 'J'), (511u32, 'K'), (512u32, 'L'),
        (513u32, 'M'), (514u32, 'N'), (515u32, 'O'), (516u32, 'P'), (517u32, 'Q'),
        (518u32, 'R'), (519u32, 'S'), (520u32, 'T'), (521u32, 'U'), (522u32, 'V'),
        (523u32, 'W'), (524u32, 'X'), (525u32, 'Y'), (526u32, 'Z'), (2223u32, '['),
        (804u32, '\\'), (2224u32, ']'), (2262u32, '^'), (999u32, '_'), (730u32, '`'),
        (601u32, 'a'), (602u32, 'b'), (603u32, 'c'), (604u32, 'd'), (605u32, 'e'),
        (606u32, 'f'), (607u32, 'g'), (608u32, 'h'), (609u32, 'i'), (610u32, 'j'),
        (611u32, 'k'), (612u32, 'l'), (613u32, 'm'), (614u32, 'n'), (615u32, 'o'),
        (616u32, 'p'), (617u32, 'q'), (618u32, 'r'), (619u32, 's'), (620u32, 't'),
        (621u32, 'u'), (622u32, 'v'), (623u32, 'w'), (624u32, 'x'), (625u32, 'y'),
        (626u32, 'z'), (2225u32, '{'), (723u32, '|'), (2226u32, '}'), (2246u32, '~'),
    ];
    assert(v@ == roman_simplex_table());
    v
}

/// Glyph numbers of the Hershey Script Simplex font and the characters they draw.
pub open spec fn script_simplex_table() -> Seq<(u32, char)> {
    seq![
        (699u32, ' '), (2764u32, '!'), (2778u32, '"'), (733u32, '#'), (2769u32, '$'),
        (2271u32, '%'), (2768u32, '&'), (2767u32, '\''), (2771u32, '('), (2772u32, ')'),
        (2773u32, '*'), (725u32, '+'), (2761u32, ','), (724u32, '-'), (710u32, '.'),
        (2770u32, '/'), (2750u32, '0'), (2751u32, '1'), (2752u32, '2'), (2753u32, '3'),
        (2754u32, '4'), (2755u32, '5'), (2756u32, '6'), (2757u32, '7'), (2758u32, '8'),
        (2759u32, '9'), (2762u32, ':'), (2763u32, ';'), (2241u32, '<'), (726u32, '='),
        (2242u32, '>'), (2765u32, '?'), (2273u32, '@'), (551u32, 'A'), (552u32, 'B'),
        (553u32, 'C'), (554u32, 'D'), (555u32, 'E'), (556u32, 'F'), (557u32, 'G'),
        (558u32, 'H'), (559u32, 'I'), (560u32, 'J'), (561u32, 'K'), (562u32, 'L'),
        (563u32, 'M'), (564u32, 'N'), (565u32, 'O'), (566u32, 'P'), (567u32, 'Q'),
        (568u32, 'R'), (569u32, 'S'), (570u32, 'T'), (571u32, 'U'), (572u32, 'V'),
        (573u32, 'W'), (574u32, 'X'), (575u32, 'Y'), (576u32, 'Z'), (2223u32, '['),
        (804u32, '\\'), (2224u32, ']'), (2262u32, '^'), (999u32, '_'), (730u32, '`'),
        (651u32, 'a'), (652u32, 'b'), (653u32, 'c'), (654u32, 'd'), (655u32, 'e'),
        (656u32, 'f'), (657u32, 'g'), (658u32, 'h'), (659u32, 'i'), (660u32, 'j'),
        (661u32, 'k'), (662u32, 'l'), (663u32, 'm'), (664u32, 'n'), (665u32, 'o'),
        (666u32, 'p'), (667u32, 'q'), (668u32, 'r'), (669u32, 's'), (670u32, 't'),
        (671u32, 'u'), (672u32, 'v'), (673u32, 'w'), (674u32, 'x'), (675u32, 'y'),
        (676u32, 'z'), (2225u32, '{'), (723u32, '|'), (2226u32, '}'), (2246u32, '~'),
    ]
}

/// The Hershey Script Simplex glyph-number mapping.
pub fn script_simplex_map() -> (v: Vec<(u32, char)>)
    ensures
        v@ == script_simplex_table(),
{
    let v: Vec<(u32, char)> = vec![
        (699u32, ' '), (2764u32, '!'), (2778u32, '"'), (733u32, '#'), (2769u32, '$'),
        (2271u32, '%'), (2768u32, '&'), (2767u32, '\''), (2771u32, '('), (2772u32, ')'),
        (2773u32, '*'), (725u32, '+'), (2761u32, ','), (724u32, '-'), (710u32, '.'),
        (2770u32, '/'), (2750u32, '0'), (2751u32, '1'), (2752u32, '2'), (2753u32, '3'),
        (2754u32, '4'), (2755u32, '5'), (2756u32, '6'), (2757u32, '7'), (2758u32, '8'),
        (2759u32, '9'), (2762u32, ':'), (2763u32, ';'), (2241u32, '<'), (726u32, '='),
        (2242u32, '>'), (2765u32, '?'), (2273u32, '@'), (551u32, 'A'), (552u32, 'B'),
        (553u32, 'C'), (554u32, 'D'), (555u32, 'E'), (556u32, 'F'), (557u32, 'G'),
        (558u32, 'H'), (559u32, 'I'), (560u32, 'J'), (561u32, 'K'), (562u32, 'L'),
        (563u32, 'M'), (564u32, 'N'), (565u32, 'O'), (566u32, 'P'), (567u32, 'Q'),
        (568u32, 'R'), (569u32, 'S'), (570u32, 'T'), (571u32, 'U'), (572u32, 'V'),
        (573u32, 'W'), (574u32, 'X'), (575u32, 'Y'), (576u32, 'Z'), (2223u32, '['),
        (804u32, '\\'), (2224u32, ']'), (2262u32, '^'), (999u32, '_'), (730u32, '`'),
        (651u32, 'a'), (652u32, 'b'), (653u32, 'c'), (654u32, 'd'), (655u32, 'e'),
        (656u32, 'f'), (657u32, 'g'), (658u32, 'h'), (659u32, 'i'), (660u32, 'j'),
        (661u32, 'k'), (662u32, 'l'), (663u32, 'm'), (664u32, 'n'), (665u32, 'o'),
        (666u32, 'p'), (667u32, 'q'), (668u32, 'r'), (669u32, 's'), (670u32, 't'),
        (671u32, 'u'), (672u32, 'v'), (673u32, 'w'), (674u32, 'x'), (675u32, 'y'),
        (676u32, 'z'), (2225u32, '{'), (723u32, '|'), (2226u32, '}'), (2246u32, '~'),
    ];
    assert(v@ == script_simplex_table());
    v
}

/// Glyph numbers of the Hershey Script Complex font and the characters they draw.
pub open spec fn script_complex_table() -> Seq<(u32, char)> {
    seq![
        (699u32, ' '), (2764u32, '!'), (2778u32, '"'), (733u32, '#'), (2769u32, '$'),
        (2271u32, '%'), (2768u32, '&'), (2767u32, '\''), (2771u32, '('), (2772u32, ')'),
        (2773u32, '*'), (725u32, '+'), (2761u32, ','), (724u32, '-'), (710u32, '.'),
        (2770u32, '/'), (2750u32, '0'), (2751u32, '1'), (2752u32, '2'), (2753u32, '3'),
        (2754u32, '4'), (2755u32, '5'), (2756u32, '6'), (2757u32, '7'), (2758u32, '8'),
        (2759u32, '9'), (2762u32, ':'), (2763u32, ';'), (2241u32, '<'), (726u32, '='),
        (2242u32, '>'), (2765u32, '?'), (2273u32, '@'), (2551u32, 'A'), (2552u32, 'B'),
        (2553u32, 'C'), (2554u32, 'D'), (2555u32, 'E'), (2556u32, 'F'), (2557u32, 'G'),
        (2558u32, 'H'), (2559u32, 'I'), (2560u32, 'J'), (2561u32, 'K'), (2562u32, 'L'),
        (2563u32, 'M'), (2564u32, 'N'), (2565u32, 'O'), (2566u32, 'P'), (2567u32, 'Q'),
        (2568u32, 'R'), (2569u32, 'S'), (2570u32, 'T'), (2571u32, 'U'), (2572u32, 'V'),
        (2573u32, 'W'), (2574u32, 'X'), (2575u32, 'Y'), (2576u32, 'Z'), (2223u32, '['),
        (804u32, '\\'), (2224u32, ']'), (2262u32, '^'), (999u32, '_'), (730u32, '`'),
        (2651u32, 'a'), (2652u32, 'b'), (2653u32, 'c'), (2654u32, 'd'), (2655u32, 'e'),
        (2656u32, 'f'), (2657u32, 'g'), (2658u32, 'h'), (2659u32, 'i'), (2660u32, 'j'),
        (2661u32, 'k'), (2662u32, 'l'), (2663u32, 'm'), (2664u32, 'n'), (2665u32, 'o'),
        (2666u32, 'p'), (2667u32, 'q'), (2668u32, 'r'), (2669u32, 's'), (2670u32, 't'),
        (2671u32, 'u'), (2672u32, 'v'), (2673u32, 'w'), (2674u32, 'x'), (2675u32, 'y'),
        (2676u32, 'z'), (2225u32, '{'), (723u32, '|'), (2226u32, '}'), (2246u32, '~'),
    ]
}

/// The Hershey Script Complex glyph-number mapping.
pub fn script_complex_map() -> (v: Vec<(u32, char)>)
    ensures
        v@ == script_complex_table(),
{
    let v: Vec<(u32, char)> = vec![
        (699u32, ' '), (2764u32, '!'), (2778u32, '"'), (733u32, '#'), (2769u32, '$'),
        (2271u32, '%'), (2768u32, '&'), (2767u32, '\''), (2771u32, '('), (2772u32, ')'),
        (2773u32, '*'), (725u32, '+'), (2761u32, ','), (724u32, '-'), (710u32, '.'),
        (2770u32, '/'), (2750u32, '0'), (2751u32, '1'), (2752u32, '2'), (2753u32, '3'),
        (2754u32, '4'), (2755u32, '5'), (2756u32, '6'), (2757u32, '7'), (2758u32, '8'),
        (2759u32, '9'), (2762u32, ':'), (2763u32, ';'), (2241u32, '<'), (726u32, '='),
        (2242u32, '>'), (2765u32, '?'), (2273u32, '@'), (2551u32, 'A'), (2552u32, 'B'),
        (2553u32, 'C'), (2554u32, 'D'), (2555u32, 'E'), (2556u32, 'F'), (2557u32, 'G'),
        (2558u32, 'H'), (2559u32, 'I'), (2560u32, 'J'), (2561u32, 'K'), (2562u32, 'L'),
        (2563u32, 'M'), (2564u32, 'N'), (2565u32, 'O'), (2566u32, 'P'), (2567u32, 'Q'),
        (2568u32, 'R'), (2569u32, 'S'), (2570u32, 'T'), (2571u32, 'U'), (2572u32, 'V'),
        (2573u32, 'W'), (2574u32, 'X'), (2575u32, 'Y'), (2576u32, 'Z'), (2223u32, '['),
        (804u32, '\\'), (2224u32, ']'), (2262u32, '^'), (999u32, '_'), (730u32, '`'),
        (2651u32, 'a'), (2652u32, 'b'), (2653u32, 'c'), (2654u32, 'd'), (2655u32, 'e'),
        (2656u32, 'f'), (2657u32, 'g'), (2658u32, 'h'), (2659u32, 'i'), (2660u32, 'j'),
        (2661u32, 'k'), (2662u32, 'l'), (2663u32, 'm'), (2664u32, 'n'), (2665u32, 'o'),
        (2666u32, 'p'), (2667u32, 'q'), (2668u32, 'r'), (2669u32, 's'), (2670u32, 't'),
        (2671u32, 'u'), (2672u32, 'v'), (2673u32, 'w'), (2674u32, 'x'), (2675u32, 'y'),
        (2676u32, 'z'), (2225u32, '{'), (723u32, '|'), (2226u32, '}'), (2246u32, '~'),
    ];
    assert(v@ == script_complex_table());
    v
}

/// Glyph numbers of the Hershey Gothic German font and the characters they draw.
pub open spec fn gothic_table() -> Seq<(u32, char)> {
    seq![
        (3699u32, ' '), (3714u32, '!'), (3728u32, '"'), (2275u32, '#'), (3719u32, '$'),
        (2271u32, '%'), (3718u32, '&'), (3717u32, '\''), (3721u32, '('), (3722u32, ')'),
        (3723u32, '*'), (3725u32, '+'), (3711u32, ','), (3724u32, '-'), (3710u32, '.'),
        (3720u32, '/'), (3700u32, '0'), (3701u32, '1'), (3702u32, '2'), (3703u32, '3'),
        (3704u32, '4'), (3705u32, '5'), (3706u32, '6'), (3707u32, '7'), (3708u32, '8'),
        (3709u32, '9'), (3712u32, ':'), (3713u32, ';'), (2241u32, '<'), (3726u32, '='),
        (2242u32, '>'), (3715u32, '?'), (2273u32, '@'), (3301u32, 'A'), (3302u32, 'B'),
        (3303u32, 'C'), (3304u32, 'D'), (3305u32, 'E'), (3306u32, 'F'), (3307u32, 'G'),
        (3308u32, 'H'), (3309u32, 'I'), (3310u32, 'J'), (3311u32, 'K'), (3312u32, 'L'),
        (3313u32, 'M'), (3314u32, 'N'), (3315u32, 'O'), (3316u32, 'P'), (3317u32, 'Q'),
        (3318u32, 'R'), (3319u32, 'S'), (3320u32, 'T'), (3321u32, 'U'), (3322u32, 'V'),
        (3323u32, 'W'), (3324u32, 'X'), (3325u32, 'Y'), (3326u32, 'Z'), (2223u32, '['),
        (804u32, '\\'), (2224u32, ']'), (2262u32, '^'), (999u32, '_'), (3729u32, '`'),
        (3401u32, 'a'), (3402u32, 'b'), (3403u32, 'c'), (3404u32, 'd'), (3405u32, 'e'),
        (3406u32, 'f'), (3407u32, 'g'), (3408u32, 'h'), (3409u32, 'i'), (3410u32, 'j'),
        (3411u32, 'k'), (3412u32, 'l'), (3413u32, 'm'), (3414u32, 'n'), (3415u32, 'o'),
        (3416u32, 'p'), (3417u32, 'q'), (3418u32, 'r'), (3419u32, 's'), (3420u32, 't'),
        (3421u32, 'u'), (3422u32, 'v'), (3423u32, 'w'), (3424u32, 'x'), (3425u32, 'y'),
        (3426u32, 'z'), (2225u32, '{'), (3716u32, '|'), (2226u32, '}'), (2246u32, '~'),
    ]
}

/// The Hershey Gothic German glyph-number mapping.
pub fn gothic_map() -> (v: Vec<(u32, char)>)
    ensures
        v@ == gothic_table(),
{
    let v: Vec<(u32, char)> = vec![
        (3699u32, ' '), (3714u32, '!'), (3728u32, '"'), (2275u32, '#'), (3719u32, '$'),
        (2271u32, '%'), (3718u32, '&'), (3717u32, '\''), (3721u32, '('), (3722u32, ')'),
        (3723u32, '*'), (3725u32, '+'), (3711u32, ','), (3724u32, '-'), (3710u32, '.'),
        (3720u32, '/'), (3700u32, '0'), (3701u32, '1'), (3702u32, '2'), (3703u32, '3'),
        (3704u32, '4'), (3705u32, '5'), (3706u32, '6'), (3707u32, '7'), (3708u32, '8'),
        (3709u32, '9'), (3712u32, ':'), (3713u32, ';'), (2241u32, '<'), (3726u32, '='),
        (2242u32, '>'), (3715u32, '?'), (2273u32, '@'), (3301u32, 'A'), (3302u32, 'B'),
        (3303u32, 'C'), (3304u32, 'D'), (3305u32, 'E'), (3306u32, 'F'), (3307u32, 'G'),
        (3308u32, 'H'), (3309u32, 'I'), (3310u32, 'J'), (3311u32, 'K'), (3312u32, 'L'),
        (3313u32, 'M'), (3314u32, 'N'), (3315u32, 'O'), (3316u32, 'P'), (3317u32, 'Q'),
        (3318u32, 'R'), (3319u32, 'S'), (3320u32, 'T'), (3321u32, 'U'), (3322u32, 'V'),
        (3323u32, 'W'), (3324u32, 'X'), (3325u32, 'Y'), (3326u32, 'Z'), (2223u32, '['),
        (804u32, '\\'), (2224u32, ']'), (2262u32, '^'), (999u32, '_'), (3729u32, '`'),
        (3401u32, 'a'), (3402u32, 'b'), (3403u32, 'c'), (3404u32, 'd'), (3405u32, 'e'),
        (3406u32, 'f'), (3407u32, 'g'), (3408u32, 'h'), (3409u32, 'i'), (3410u32, 'j'),
        (3411u32, 'k'), (3412u32, 'l'), (3413u32, 'm'), (3414u32, 'n'), (3415u32, 'o'),
        (3416u32, 'p'), (3417u32, 'q'), (3418u32, 'r'), (3419u32, 's'), (3420u32, 't'),
        (3421u32, 'u'), (3422u32, 'v'), (3423u32, 'w'), (3424u32, 'x'), (3425u32, 'y'),
        (3426u32, 'z'), (2225u32, '{'), (3716u32, '|'), (2226u32, '}'), (2246u32, '~'),
    ];
    assert(v@ == gothic_table());
    v
}

/// Glyph numbers of the Hershey Gothic Italian font and the characters they draw.
pub open spec fn gothic_italian_table() -> Seq<(u32, char)> {
    seq![
        (3699u32, ' '), (3714u32, '!'), (3728u32, '"'), (2275u32, '#'), (3719u32, '$'),
        (2271u32, '%'), (3718u32, '&'), (3717u32, '\''), (3721u32, '('), (3722u32, ')'),
        (3723u32, '*'), (3725u32, '+'), (3711u32, ','), (3724u32, '-'), (3710u32, '.'),
        (3720u32, '/'), (3700u32, '0'), (3701u32, '1'), (3702u32, '2'), (3703u32, '3'),
        (3704u32, '4'), (3705u32, '5'), (3706u32, '6'), (3707u32, '7'), (3708u32, '8'),
        (3709u32, '9'), (3712u32, ':'), (3713u32, ';'), (2241u32, '<'), (3726u32, '='),
        (2242u32, '>'), (3715u32, '?'), (2273u32, '@'), (3801u32, 'A'), (3802u32, 'B'),
        (3803u32, 'C'), (3804u32, 'D'), (3805u32, 'E'), (3806u32, 'F'), (3807u32, 'G'),
        (3808u32, 'H'), (3809u32, 'I'), (3810u32, 'J'), (3811u32, 'K'), (3812u32, 'L'),
        (3813u32, 'M'), (3814u32, 'N'), (3815u32, 'O'), (3816u32, 'P'), (3817u32, 'Q'),
        (3818u32, 'R'), (3819u32, 'S'), (3820u32, 'T'), (3821u32, 'U'), (3822u32, 'V'),
        (3823u32, 'W'), (3824u32, 'X'), (3825u32, 'Y'), (3826u32, 'Z'), (2223u32, '['),
        (804u32, '\\'), (2224u32, ']'), (2262u32, '^'), (999u32, '_'), (3729u32, '`'),
        (3901u32, 'a'), (3902u32, 'b'), (3903u32, 'c'), (3904u32, 'd'), (3905u32, 'e'),
        (3906u32, 'f'), (3907u32, 'g'), (3908u32, 'h'), (3909u32, 'i'), (3910u32, 'j'),
        (3911u32, 'k'), (3912u32, 'l'), (3913u32, 'm'), (3914u32, 'n'), (3915u32, 'o'),
        (3916u32, 'p'), (3917u32, 'q'), (3918u32, 'r'), (3919u32, 's'), (3920u32, 't'),
        (3921u32, 'u'), (3922u32, 'v'), (3923u32, 'w'), (3924u32, 'x'), (3925u32, 'y'),
        (3926u32, 'z'), (2225u32, '{'), (3716u32, '|'), (2226u32, '}'), (2246u32, '~'),
    ]
}

/// The Hershey Gothic Italian glyph-number mapping.
pub fn gothic_italian_map() -> (v: Vec<(u32, char)>)
    ensures
        v@ == gothic_italian_table(),
{
    let v: Vec<(u32, char)> = vec![
        (3699u32, ' '), (3714u32, '!'), (3728u32, '"'), (2275u32, '#'), (3719u32, '$'),
        (2271u32, '%'), (3718u32, '&'), (3717u32, '\''), (3721u32, '('), (3722u32, ')'),
        (3723u32, '*'), (3725u32, '+'), (3711u32, ','), (3724u32, '-'), (3710u32, '.'),
        (3720u32, '/'), (3700u32, '0'), (3701u32, '1'), (3702u32, '2'), (3703u32, '3'),
        (3704u32, '4'), (3705u32, '5'), (3706u32, '6'), (3707u32, '7'), (3708u32, '8'),
        (3709u32, '9'), (3712u32, ':'), (3713u32, ';'), (2241u32, '<'), (3726u32, '='),
        (2242u32, '>'), (3715u32, '?'), (2273u32, '@'), (3801u32, 'A'), (3802u32, 'B'),
        (3803u32, 'C'), (3804u32, 'D'), (3805u32, 'E'), (3806u32, 'F'), (3807u32, 'G'),
        (3808u32, 'H'), (3809u32, 'I'), (3810u32, 'J'), (3811u32, 'K'), (3812u32, 'L'),
        (3813u32, 'M'), (3814u32, 'N'), (3815u32, 'O'), (3816u32, 'P'), (3817u32, 'Q'),
        (3818u32, 'R'), (3819u32, 'S'), (3820u32, 'T'), (3821u32, 'U'), (3822u32, 'V'),
        (3823u32, 'W'), (3824u32, 'X'), (3825u32, 'Y'), (3826u32, 'Z'), (2223u32, '['),
        (804u32, '\\'), (2224u32, ']'), (2262u32, '^'), (999u32, '_'), (3729u32, '`'),
        (3901u32, 'a'), (3902u32, 'b'), (3903u32, 'c'), (3904u32, 'd'), (3905u32, 'e'),
        (3906u32, 'f'), (3907u32, 'g'), (3908u32, 'h'), (3909u32, 'i'), (3910u32, 'j'),
        (3911u32, 'k'), (3912u32, 'l'), (3913u32, 'm'), (3914u32, 'n'), (3915u32, 'o'),
        (3916u32, 'p'), (3917u32, 'q'), (3918u32, 'r'), (3919u32, 's'), (3920u32, 't'),
        (3921u32, 'u'), (3922u32, 'v'), (3923u32, 'w'), (3924u32, 'x'), (3925u32, 'y'),
        (3926u32, 'z'), (2225u32, '{'), (3716u32, '|'), (2226u32, '}'), (2246u32, '~'),
    ];
    assert(v@ == gothic_italian_table());
    v
}

/// The character a mapping gives a glyph number; a later entry for the same
/// number takes precedence over an earlier one.
pub open spec fn mapping_lookup(m: Seq<(u32, char)>, num: u32) -> Option<char>
    decreases m.len(),
{
    if m.len() == 0 {
        None
    } else if m.last().0 == num {
        Some(m.last().1)
    } else {
        mapping_lookup(m.drop_last(), num)
    }
}

/// Looks up the character of a glyph number in a mapping.
pub fn lookup_glyph_char(m: &Vec<(u32, char)>, num: u32) -> (r: Option<char>)
    ensures
        r == mapping_lookup(m@, num),
{
    let mut i = m.len();
    assert(m@.take(i as int) == m@);
    while i > 0
        invariant
            i <= m@.len(),
            mapping_lookup(m@, num) == mapping_lookup(m@.take(i as int), num),
        decreases i,
    {
        proof {
            assert(m@.take(i as int).drop_last() == m@.take(i - 1));
        }
        if m[i - 1].0 == num {
            return Some(m[i - 1].1);
        }
        i = i - 1;
    }
    None
}

/// The mapping with every glyph number shifted by `offset`.
pub open spec fn shifted_mapping(m: Seq<(u32, char)>, offset: u32) -> Seq<(u32, char)> {
    m.map_values(|e: (u32, char)| ((e.0 + offset) as u32, e.1))
}

/// A glyph as advance width and contours.
pub type GlyphView = (int, Seq<Seq<(i32, i32)>>);

/// A character's code point is a Unicode scalar value.
proof fn lemma_char_code_scalar(c: char)
    ensures
        is_scalar_value(c as u32),
{
}

/// Different characters have different code points.
proof fn lemma_char_code_injective(c: char, d: char)
    ensures
        (c as u32) == (d as u32) ==> c == d,
{
    vstd::utf8::char_u32_cast(c, c as u32);
    vstd::utf8::char_u32_cast(d, d as u32);
}

/// A Hershey font: its name and its glyphs, keyed by the code point of
/// their character.
pub struct HersheyFont {
    name: String,
    glyphs: HashMap<u32, JhfGlyph>,
}

impl HersheyFont {
    /// The font's name.
    pub closed spec fn spec_name(self) -> Seq<char> {
        self.name@
    }

    /// The font's glyphs by character.
    pub closed spec fn spec_glyphs(self) -> Map<char, GlyphView> {
        Map::new(
            |c: char| self.glyphs@.dom().contains(c as u32),
            |c: char| glyph_view(self.glyphs@[c as u32]),
        )
    }

    /// A font without glyphs.
    pub fn new(name: &str) -> (f: HersheyFont)
        ensures
            f.spec_name() == name@,
            f.spec_glyphs() == Map::<char, GlyphView>::empty(),
    {
        let f = HersheyFont { name: name.to_owned(), glyphs: HashMap::new() };
        assert(f.spec_glyphs() =~= Map::<char, GlyphView>::empty());
        f
    }

    /// The font's name.
    pub fn name(&self) -> (s: &str)
        ensures
            s@ == self.spec_name(),
    {
        self.name.as_str()
    }

    /// Adds a glyph, replacing any glyph the character had.
    pub fn add_glyph(&mut self, c: char, glyph: JhfGlyph)
        ensures
            final(self).spec_name() == old(self).spec_name(),
            final(self).spec_glyphs() == old(self).spec_glyphs().insert(c, glyph_view(glyph)),
    {
        let ghost g = glyph;
        self.glyphs.insert(c as u32, glyph);
        proof {
            assert(self.glyphs@ == old(self).glyphs@.insert(c as u32, g));
            assert forall|d: char| #[trigger] self.spec_glyphs().dom().contains(d)
                <==> old(self).spec_glyphs().insert(c, glyph_view(g)).dom().contains(d) by {
                lemma_char_code_injective(c, d);
            }
            assert forall|d: char| #[trigger] self.spec_glyphs().dom().contains(d)
                implies self.spec_glyphs()[d] == old(self).spec_glyphs().insert(c, glyph_view(g))[d] by {
                lemma_char_code_injective(c, d);
            }
            assert(self.spec_glyphs() =~= old(self).spec_glyphs().insert(c, glyph_view(g)));
        }
    }

    /// The glyph of a character, if the font has one.
    pub fn glyph(&self, c: char) -> (r: Option<&JhfGlyph>)
        ensures
            match r {
                Some(g) => self.spec_glyphs().dom().contains(c) && self.spec_glyphs()[c] == glyph_view(*g),
                None => !self.spec_glyphs().dom().contains(c),
            },
    {
        let key: u32 = c as u32;
        self.glyphs.get(&key)
    }
}

/// A found character is where `find_char` says.
pub proof fn lemma_find_char_bound(s: Seq<char>, c: char)
    ensures
        find_char(s, c) matches Some(i) ==> i < s.len() && s[i as int] == c,
    decreases s.len(),
{
    if s.len() > 0 && s[0] != c {
        lemma_find_char_bound(s.drop_first(), c);
    }
}

/// The glyph table after one line of JHF data: a line that is empty once
/// its trailing whitespace is removed is skipped; otherwise the trimmed line
/// is parsed, a parse error ends the font with that error, and a glyph whose
/// number the mapping knows is stored under its character.
pub open spec fn jhf_line_step(
    line: Seq<char>,
    m: Seq<(u32, char)>,
    acc: Map<char, GlyphView>,
) -> Result<Map<char, GlyphView>, Seq<char>> {
    let t = trim_end(line);
    if t.len() == 0 {
        Ok(acc)
    } else {
        match jhf_line(t) {
            Err(e) => Err(e),
            Ok(None) => Ok(acc),
            Ok(Some((num, g))) => match mapping_lookup(m, num) {
                Some(c) => Ok(acc.insert(c, g)),
                None => Ok(acc),
            },
        }
    }
}

/// The glyph table after the lines of `s` (split at '\n') following `acc`.
pub open spec fn jhf_scan(s: Seq<char>, m: Seq<(u32, char)>, acc: Map<char, GlyphView>) -> Result<
    Map<char, GlyphView>,
    Seq<char>,
>
    decreases s.len(),
{
    match find_char(s, '\n') {
        Some(i) => {
            proof {
                lemma_find_char_bound(s, '\n');
            }
            match jhf_line_step(s.take(i as int), m, acc) {
                Err(e) => Err(e),
                Ok(a) => jhf_scan(s.skip(i + 1int), m, a),
            }
        },
        None => jhf_line_step(s, m, acc),
    }
}

/// Every line of `s` that the parser reaches can be sliced.
pub open spec fn jhf_data_sliceable(s: Seq<char>) -> bool
    decreases s.len(),
{
    match find_char(s, '\n') {
        Some(i) => {
            proof {
                lemma_find_char_bound(s, '\n');
            }
            let t = trim_end(s.take(i as int));
            if t.len() == 0 {
                jhf_data_sliceable(s.skip(i + 1int))
            } else {
                jhf_line_sliceable(t) && (jhf_line(t) is Err || jhf_data_sliceable(s.skip(i + 1int)))
            }
        },
        None => {
            let t = trim_end(s);
            t.len() == 0 || jhf_line_sliceable(t)
        },
    }
}

impl HersheyFont {
    /// Parses a font from JHF data, mapping glyph numbers to characters with
    /// `mapping` (a later entry for a number wins). The glyphs are those of
    /// `jhf_scan` from an empty table; the first line that fails to parse
    /// makes the whole font fail with its error.
    pub fn from_jhf_with_mapping(name: &str, data: &str, mapping: &Vec<(u32, char)>) -> (r: Result<
        HersheyFont,
        FontError,
    >)
        requires
            jhf_data_sliceable(data@),
        ensures
            match r {
                Ok(f) => f.spec_name() == name@ && jhf_scan(data@, mapping@, Map::empty()) == Ok::<
                    Map<char, GlyphView>,
                    Seq<char>,
                >(f.spec_glyphs()),
                Err(FontError::ParseError(e)) => jhf_scan(data@, mapping@, Map::empty()) == Err::<
                    Map<char, GlyphView>,
                    Seq<char>,
                >(e@),
                Err(_) => false,
            },
    {
        let mut font = HersheyFont::new(name);
        let v = chars_of(data);
        let n = v.len();
        let mut pos: usize = 0;
        assert(v@.skip(0) == v@);
        loop
            invariant
                v@ == data@,
                n == v@.len(),
                pos <= n,
                font.spec_name() == name@,
                jhf_scan(data@, mapping@, Map::empty()) == jhf_scan(v@.skip(pos as int), mapping@, font.spec_glyphs()),
                jhf_data_sliceable(v@.skip(pos as int)),
            decreases n - pos,
        {
            let ghost rest = v@.skip(pos as int);
            assert(rest == v@.subrange(pos as int, n as int));
            let nl = find_char_in(&v, pos, n, '\n');
            let end = match nl {
                Some(k) => k,
                None => n,
            };
            proof {
                if let Some(k) = nl {
                    assert(rest.take(k - pos) == v@.subrange(pos as int, k as int));
                    assert(rest.skip(k - pos + 1) == v@.skip(k + 1));
                } else {
                    assert(rest == v@.subrange(pos as int, end as int));
                }
            }
            let e = trim_end_in(&v, pos, end);
            let ghost acc = font.spec_glyphs();
            if e > pos {
                let line = data.substring_char(pos, e);
                assert(line@ == v@.subrange(pos as int, e as int));
                match parse_glyph_line(line) {
                    Err(err) => {
                        return Err(err);
                    },
                    Ok(None) => {},
                    Ok(Some((num, glyph))) => {
                        match lookup_glyph_char(mapping, num) {
                            Some(c) => {
                                font.add_glyph(c, glyph);
                            },
                            None => {},
                        }
                    },
                }
            }
            match nl {
                Some(k) => {
                    pos = k + 1;
                },
                None => {
                    return Ok(font);
                },
            }
        }
    }

    /// Parses a font from JHF data with the Roman Simplex mapping shifted by
    /// `offset` (the layout several Hershey fonts share).
    pub fn from_jhf_with_offset(name: &str, data: &str, offset: u32) -> (r: Result<HersheyFont, FontError>)
        requires
            jhf_data_sliceable(data@),
            offset <= u32::MAX - 2273,
        ensures
            match r {
                Ok(f) => f.spec_name() == name@ && jhf_scan(data@, shifted_mapping(roman_simplex_table(), offset), Map::empty())
                    == Ok::<Map<char, GlyphView>, Seq<char>>(f.spec_glyphs()),
                Err(FontError::ParseError(e)) => jhf_scan(data@, shifted_mapping(roman_simplex_table(), offset), Map::empty())
                    == Err::<Map<char, GlyphView>, Seq<char>>(e@),
                Err(_) => false,
            },
    {
        let base = roman_simplex_map();
        let mut m: Vec<(u32, char)> = Vec::new();
        let mut i: usize = 0;
        while i < base.len()
            invariant
                base@ == roman_simplex_table(),
                i <= base@.len(),
                offset <= u32::MAX - 2273,
                m@ == shifted_mapping(base@.take(i as int), offset),
            decreases base@.len() - i,
        {
            let (num, c) = base[i];
            assert(num <= 2273);
            m.push((num + offset, c));
            i = i + 1;
            assert(base@.take(i as int).drop_last() == base@.take(i - 1));
            assert(m@ =~= shifted_mapping(base@.take(i as int), offset));
        }
        assert(base@.take(i as int) == base@);
        Self::from_jhf_with_mapping(name, data, &m)
    }

    /// Parses a Roman Simplex font from JHF data.
    pub fn from_jhf(name: &str, data: &str) -> (r: Result<HersheyFont, FontError>)
        requires
            jhf_data_sliceable(data@),
        ensures
            match r {
                Ok(f) => f.spec_name() == name@ && jhf_scan(data@, roman_simplex_table(), Map::empty())
                    == Ok::<Map<char, GlyphView>, Seq<char>>(f.spec_glyphs()),
                Err(FontError::ParseError(e)) => jhf_scan(data@, roman_simplex_table(), Map::empty())
                    == Err::<Map<char, GlyphView>, Seq<char>>(e@),
                Err(_) => false,
            },
    {
        let m = roman_simplex_map();
        Self::from_jhf_with_mapping(name, data, &m)
    }
}


/// The glyph-number mapping each variant is read with: Duplex, Triplex and
/// Gothic German Bold use the Roman Simplex mapping shifted by 2000, 2500
/// and 3000; the others have tables of their own.
pub open spec fn hershey_mapping(h: Hershey) -> Seq<(u32, char)> {
    match h {
        Hershey::Simplex => roman_simplex_table(),
        Hershey::Duplex => shifted_mapping(roman_simplex_table(), 2000),
        Hershey::Triplex => shifted_mapping(roman_simplex_table(), 2500),
        Hershey::ScriptSimplex => script_simplex_table(),
        Hershey::ScriptComplex => script_complex_table(),
        Hershey::GothicGermanBold => shifted_mapping(roman_simplex_table(), 3000),
        Hershey::GothicGerman => gothic_table(),
        Hershey::GothicItalian => gothic_italian_table(),
    }
}

/// `n` consecutive glyph numbers from `base` drawing consecutive characters
/// from `first`.
spec fn glyph_run(base: u32, first: char, n: nat) -> Seq<(u32, char)> {
    Seq::new(n, |i: int| ((base + i) as u32, ((first as u32) + i) as char))
}

/// A lookup finds the last entry for the number.
proof fn lemma_lookup_last_match(m: Seq<(u32, char)>, j: int, num: u32)
    requires
        0 <= j < m.len(),
        m[j].0 == num,
        forall|i: int| j < i < m.len() ==> #[trigger] m[i].0 != num,
    ensures
        mapping_lookup(m, num) == Some(m[j].1),
    decreases m.len(),
{
    if j < m.len() - 1 {
        assert(m.last() == m[m.len() - 1]);
        assert forall|i: int| j < i < m.drop_last().len() implies #[trigger] m.drop_last()[i].0 != num by {
            assert(m.drop_last()[i] == m[i]);
        }
        lemma_lookup_last_match(m.drop_last(), j, num);
        assert(m.drop_last()[j] == m[j]);
    }
}

/// A lookup inside a run of consecutive numbers that no later entry reuses
/// finds the run's character for it.
proof fn lemma_lookup_in_run(m: Seq<(u32, char)>, start: int, base: u32, first: char, n: int, k: int)
    requires
        0 <= start,
        start + n <= m.len(),
        0 <= k < n,
        base + n <= u32::MAX,
        m.subrange(start, start + n) =~= glyph_run(base, first, n as nat),
        forall|i: int| start + n <= i < m.len() ==> (#[trigger] m[i].0 < base || m[i].0 >= base + n),
    ensures
        mapping_lookup(m, (base + k) as u32) == Some(((first as u32) + k) as char),
{
    let num = (base + k) as u32;
    assert(m.subrange(start, start + n)[k] == m[start + k]);
    assert forall|i: int| start + k < i < m.len() implies #[trigger] m[i].0 != num by {
        if i < start + n {
            assert(m.subrange(start, start + n)[i - start] == m[i]);
        }
    }
    lemma_lookup_last_match(m, start + k, num);
}

/// Every Hershey mapping numbers the digits, the capitals and the small
/// letters in runs: in each font, `k` steps into a run names the `k`-th
/// character after the run's first (`'0'`, `'A'`, `'a'`). The runs start at
/// 700, 501 and 601 in Roman Simplex; 2750, 551 and 651 in Script Simplex;
/// 2750, 2551 and 2651 in Script Complex; 3700, 3301 and 3401 in Gothic
/// German; and 3700, 3801 and 3901 in Gothic Italian.
pub proof fn lemma_hershey_letters_in_order(k: u32)
    ensures
        k < 10 ==> mapping_lookup(roman_simplex_table(), (700 + k) as u32) == Some((('0' as u32) + k) as char),
        k < 26 ==> mapping_lookup(roman_simplex_table(), (501 + k) as u32) == Some((('A' as u32) + k) as char),
        k < 26 ==> mapping_lookup(roman_simplex_table(), (601 + k) as u32) == Some((('a' as u32) + k) as char),
        k < 10 ==> mapping_lookup(script_simplex_table(), (2750 + k) as u32) == Some((('0' as u32) + k) as char),
        k < 26 ==> mapping_lookup(script_simplex_table(), (551 + k) as u32) == Some((('A' as u32) + k) as char),
        k < 26 ==> mapping_lookup(script_simplex_table(), (651 + k) as u32) == Some((('a' as u32) + k) as char),
        k < 10 ==> mapping_lookup(script_complex_table(), (2750 + k) as u32) == Some((('0' as u32) + k) as char),
        k < 26 ==> mapping_lookup(script_complex_table(), (2551 + k) as u32) == Some((('A' as u32) + k) as char),
        k < 26 ==> mapping_lookup(script_complex_table(), (2651 + k) as u32) == Some((('a' as u32) + k) as char),
        k < 10 ==> mapping_lookup(gothic_table(), (3700 + k) as u32) == Some((('0' as u32) + k) as char),
        k < 26 ==> mapping_lookup(gothic_table(), (3301 + k) as u32) == Some((('A' as u32) + k) as char),
        k < 26 ==> mapping_lookup(gothic_table(), (3401 + k) as u32) == Some((('a' as u32) + k) as char),
        k < 10 ==> mapping_lookup(gothic_italian_table(), (3700 + k) as u32) == Some((('0' as u32) + k) as char),
        k < 26 ==> mapping_lookup(gothic_italian_table(), (3801 + k) as u32) == Some((('A' as u32) + k) as char),
        k < 26 ==> mapping_lookup(gothic_italian_table(), (3901 + k) as u32) == Some((('a' as u32) + k) as char),
{
    lemma_table_runs(roman_simplex_table(), 700, 501, 601, k);
    lemma_table_runs(script_simplex_table(), 2750, 551, 651, k);
    lemma_table_runs(script_complex_table(), 2750, 2551, 2651, k);
    lemma_table_runs(gothic_table(), 3700, 3301, 3401, k);
    lemma_table_runs(gothic_italian_table(), 3700, 3801, 3901, k);
}

/// The runs of a mapping laid out as the Hershey tables are: 16 entries,
/// the digits, 7 entries, the capitals, 6 entries, the small letters and 4
/// entries, no entry after a run reusing one of its numbers.
proof fn lemma_table_runs(m: Seq<(u32, char)>, digits: u32, capitals: u32, small: u32, k: u32)
    requires
        m.len() == 95,
        digits + 10 <= u32::MAX,
        capitals + 26 <= u32::MAX,
        small + 26 <= u32::MAX,
        m.subrange(16, 26) =~= glyph_run(digits, '0', 10),
        m.subrange(33, 59) =~= glyph_run(capitals, 'A', 26),
        m.subrange(65, 91) =~= glyph_run(small, 'a', 26),
        forall|i: int| 26 <= i < 95 ==> (#[trigger] m[i].0 < digits || m[i].0 >= digits + 10),
        forall|i: int| 59 <= i < 95 ==> (#[trigger] m[i].0 < capitals || m[i].0 >= capitals + 26),
        forall|i: int| 91 <= i < 95 ==> (#[trigger] m[i].0 < small || m[i].0 >= small + 26),
    ensures
        k < 10 ==> mapping_lookup(m, (digits + k) as u32) == Some((('0' as u32) + k) as char),
        k < 26 ==> mapping_lookup(m, (capitals + k) as u32) == Some((('A' as u32) + k) as char),
        k < 26 ==> mapping_lookup(m, (small + k) as u32) == Some((('a' as u32) + k) as char),
{
    if k < 10 {
        lemma_lookup_in_run(m, 16, digits, '0', 10, k as int);
    }
    if k < 26 {
        lemma_lookup_in_run(m, 33, capitals, 'A', 26, k as int);
        lemma_lookup_in_run(m, 65, small, 'a', 26, k as int);
    }
}

/// Two glyph numbers shifted by the same offset (the shift wrapping in
/// `u32`) agree exactly when the numbers do, for a number whose shift does
/// not wrap.
proof fn lemma_shift_injective(a: u32, n: u32, offset: u32)
    by (bit_vector)
    requires
        n + offset <= u32::MAX,
    ensures
        ((a + offset) as u32 == (n + offset) as u32) <==> a == n,
{
}

/// Shifting a mapping's glyph numbers moves each lookup with them: in the
/// shifted mapping, number `n + offset` draws what `n` draws in the original.
pub proof fn lemma_shifted_mapping_lookup(m: Seq<(u32, char)>, offset: u32, n: u32)
    requires
        n + offset <= u32::MAX,
    ensures
        mapping_lookup(shifted_mapping(m, offset), (n + offset) as u32) == mapping_lookup(m, n),
    decreases m.len(),
{
    if m.len() > 0 {
        assert(shifted_mapping(m, offset).drop_last() =~= shifted_mapping(m.drop_last(), offset));
        lemma_shift_injective(m.last().0, n, offset);
        lemma_shifted_mapping_lookup(m.drop_last(), offset, n);
    }
}

/// The Roman variants number their glyphs as Roman Simplex does, offset by
/// a fixed amount: Duplex by 2000, Triplex by 2500 and Gothic German Bold by
/// 3000; glyph `n + offset` of the variant draws the character that glyph
/// `n` draws in Roman Simplex, which the plain Simplex uses unshifted.
pub proof fn lemma_roman_variant_numbering(n: u32)
    requires
        n <= 1_000_000,
    ensures
        mapping_lookup(hershey_mapping(Hershey::Simplex), n) == mapping_lookup(roman_simplex_table(), n),
        mapping_lookup(hershey_mapping(Hershey::Duplex), (n + 2000) as u32) == mapping_lookup(roman_simplex_table(), n),
        mapping_lookup(hershey_mapping(Hershey::Triplex), (n + 2500) as u32) == mapping_lookup(roman_simplex_table(), n),
        mapping_lookup(hershey_mapping(Hershey::GothicGermanBold), (n + 3000) as u32)
            == mapping_lookup(roman_simplex_table(), n),
{
    lemma_shifted_mapping_lookup(roman_simplex_table(), 2000, n);
    lemma_shifted_mapping_lookup(roman_simplex_table(), 2500, n);
    lemma_shifted_mapping_lookup(roman_simplex_table(), 3000, n);
}

impl Hershey {
    /// Reads this variant's font from its JHF data: named by the variant and
    /// mapped with the variant's glyph numbering.
    pub fn load_from_jhf(&self, data: &str) -> (r: Result<HersheyFont, FontError>)
        requires
            jhf_data_sliceable(data@),
        ensures
            match r {
                Ok(f) => f.spec_name() == hershey_name(*self) && jhf_scan(data@, hershey_mapping(*self), Map::empty())
                    == Ok::<Map<char, GlyphView>, Seq<char>>(f.spec_glyphs()),
                Err(FontError::ParseError(e)) => jhf_scan(data@, hershey_mapping(*self), Map::empty())
                    == Err::<Map<char, GlyphView>, Seq<char>>(e@),
                Err(_) => false,
            },
    {
        let name = self.name();
        match self {
            Hershey::Simplex => HersheyFont::from_jhf(name, data),
            Hershey::Duplex => HersheyFont::from_jhf_with_offset(name, data, 2000),
            Hershey::Triplex => HersheyFont::from_jhf_with_offset(name, data, 2500),
            Hershey::ScriptSimplex => {
                let m = script_simplex_map();
                HersheyFont::from_jhf_with_mapping(name, data, &m)
            },
            Hershey::ScriptComplex => {
                let m = script_complex_map();
                HersheyFont::from_jhf_with_mapping(name, data, &m)
            },
            Hershey::GothicGermanBold => HersheyFont::from_jhf_with_offset(name, data, 3000),
            Hershey::GothicGerman => {
                let m = gothic_map();
                HersheyFont::from_jhf_with_mapping(name, data, &m)
            },
            Hershey::GothicItalian => {
                let m = gothic_italian_map();
                HersheyFont::from_jhf_with_mapping(name, data, &m)
            },
        }
    }
}

/// Whether the number and count fields of a JHF line end on character
/// boundaries (see `jhf_line_sliceable`).
pub fn jhf_line_is_sliceable(line: &str) -> (b: bool)
    ensures
        b == jhf_line_sliceable(line@),
{
    let bytes = line.as_bytes();
    proof {
        assert(bytes@ == encode_utf8(line@));
    }
    if bytes.len() < 10 {
        true
    } else {
        !(0x80 <= bytes[5] && bytes[5] <= 0xbf) && !(0x80 <= bytes[8] && bytes[8] <= 0xbf)
    }
}

/// Whether JHF data can be read without slicing a line inside a character
/// (see `jhf_data_sliceable`), which reading it requires.
pub fn jhf_data_is_sliceable(data: &str) -> (b: bool)
    ensures
        b == jhf_data_sliceable(data@),
{
    let v = chars_of(data);
    let n = v.len();
    let mut pos: usize = 0;
    assert(v@.skip(0) == v@);
    loop
        invariant
            v@ == data@,
            n == v@.len(),
            pos <= n,
            jhf_data_sliceable(data@) == jhf_data_sliceable(v@.skip(pos as int)),
        decreases n - pos,
    {
        let ghost rest = v@.skip(pos as int);
        assert(rest == v@.subrange(pos as int, n as int));
        let nl = find_char_in(&v, pos, n, '\n');
        let end = match nl {
            Some(k) => k,
            None => n,
        };
        proof {
            if let Some(k) = nl {
                assert(rest.take(k - pos) == v@.subrange(pos as int, k as int));
                assert(rest.skip(k - pos + 1) == v@.skip(k + 1));
            } else {
                assert(rest == v@.subrange(pos as int, end as int));
            }
        }
        let e = trim_end_in(&v, pos, end);
        if e > pos {
            let line = data.substring_char(pos, e);
            assert(line@ == v@.subrange(pos as int, e as int));
            if !jhf_line_is_sliceable(line) {
                return false;
            }
            if parse_glyph_line(line).is_err() {
                return true;
            }
        }
        match nl {
            Some(k) => {
                pos = k + 1;
            },
            None => {
                return true;
            },
        }
    }
}


/// Characters in strictly increasing order of code point.
pub open spec fn chars_ascending(v: Seq<char>) -> bool {
    forall|i: int, j: int| 0 <= i < j < v.len() ==> (v[i] as u32) < (v[j] as u32)
}

/// Inserts a character that `v` lacks at its place in ascending order.
fn insert_ascending(v: &mut Vec<char>, c: char)
    requires
        chars_ascending(old(v)@),
        !old(v)@.contains(c),
    ensures
        chars_ascending(final(v)@),
        forall|x: char| final(v)@.contains(x) <==> (old(v)@.contains(x) || x == c),
{
    let mut pos: usize = 0;
    while pos < v.len() && (v[pos] as u32) < (c as u32)
        invariant
            pos <= v@.len(),
            forall|k: int| 0 <= k < pos ==> (v@[k] as u32) < (c as u32),
        decreases v@.len() - pos,
    {
        pos = pos + 1;
    }
    let ghost before = v@;
    proof {
        if pos < before.len() {
            assert(before[pos as int] != c);
            vstd::utf8::char_u32_cast(before[pos as int], before[pos as int] as u32);
            vstd::utf8::char_u32_cast(c, c as u32);
        }
    }
    v.insert(pos, c);
    proof {
        let w = v@;
        assert(w == before.insert(pos as int, c));
        assert forall|i: int, j: int| 0 <= i < j < w.len() implies (w[i] as u32) < (w[j] as u32) by {
            if pos < before.len() {
                assert((c as u32) < (before[pos as int] as u32));
            }
        }
        assert forall|x: char| w.contains(x) <==> (before.contains(x) || x == c) by {
            if w.contains(x) {
                let k = choose|k: int| 0 <= k < w.len() && w[k] == x;
                if k < pos {
                    assert(before[k] == x);
                } else if k > pos {
                    assert(before[k - 1] == x);
                }
            }
            if before.contains(x) {
                let k = choose|k: int| 0 <= k < before.len() && before[k] == x;
                if k < pos {
                    assert(w[k] == x);
                } else {
                    assert(w[k + 1] == x);
                }
            }
            if x == c {
                assert(w[pos as int] == c);
            }
        }
    }
}

impl HersheyFont {
    /// The characters the font has glyphs for, in ascending order.
    pub fn available_chars(&self) -> (v: Vec<char>)
        ensures
            chars_ascending(v@),
            forall|c: char| v@.contains(c) <==> self.spec_glyphs().dom().contains(c),
    {
        let mut v: Vec<char> = Vec::new();
        let ghost keys: Seq<u32> = vstd::std_specs::hash::spec_keys_iter(&self.glyphs).remaining().unref();
        for k in it: self.glyphs.keys()
            invariant
                it.seq().unref() == keys,
                keys.to_set() == self.glyphs@.dom(),
                keys.no_duplicates(),
                chars_ascending(v@),
                forall|x: char| v@.contains(x) <==> exists|j: int| 0 <= j < it.index() && keys[j] == x as u32,
        {
            let ghost i = it.index();
            assert(keys[i] == *k);
            match char_from_u32(*k) {
                Some(c) => {
                    proof {
                        if v@.contains(c) {
                            let j = choose|j: int| 0 <= j < i && keys[j] == c as u32;
                            assert(keys[j] == keys[i]);
                        }
                    }
                    insert_ascending(&mut v, c);
                    proof {
                        assert forall|x: char| v@.contains(x) <==> exists|j: int| 0 <= j < i + 1 && keys[j] == x as u32 by {
                            lemma_char_code_injective(c, x);
                            if exists|j: int| 0 <= j < i + 1 && keys[j] == x as u32 {
                                let j = choose|j: int| 0 <= j < i + 1 && keys[j] == x as u32;
                                if j < i {
                                    assert(exists|j2: int| 0 <= j2 < i && keys[j2] == x as u32);
                                }
                            }
                            if x == c {
                                assert(keys[i] == x as u32);
                            }
                        }
                    }
                },
                None => {
                    proof {
                        assert forall|x: char| v@.contains(x) <==> exists|j: int| 0 <= j < i + 1 && keys[j] == x as u32 by {
                            if exists|j: int| 0 <= j < i + 1 && keys[j] == x as u32 {
                                let j = choose|j: int| 0 <= j < i + 1 && keys[j] == x as u32;
                                if j == i {
                                    lemma_char_code_scalar(x);
                                }
                            }
                        }
                    }
                },
            }
        }
        proof {
            assert forall|c: char| v@.contains(c) <==> self.spec_glyphs().dom().contains(c) by {
                if self.glyphs@.dom().contains(c as u32) {
                    assert(keys.to_set().contains(c as u32));
                    let j = choose|j: int| 0 <= j < keys.len() && keys[j] == c as u32;
                }
            }
        }
        v
    }
}

} // verus!
