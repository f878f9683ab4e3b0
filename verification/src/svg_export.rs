//! SVG text of strokes: path data and travel lines. Coordinates come in
//! already written as decimal text (the caller formats its numbers), so the
//! document structure is all that is built here.
use vstd::prelude::*;
use crate::color::{color_hex_text, color_to_hex, Color};

verus! {

/// The coordinates of a point, as text.
pub open spec fn coord_text(p: (String, String)) -> (Seq<char>, Seq<char>) {
    (p.0@, p.1@)
}

/// The coordinate texts of a list of points.
pub open spec fn coords_view(points: Seq<(String, String)>) -> Seq<(Seq<char>, Seq<char>)> {
    points.map_values(|p: (String, String)| coord_text(p))
}

/// A point written `x,y`.
pub open spec fn point_text(p: (Seq<char>, Seq<char>)) -> Seq<char> {
    p.0 + seq![','] + p.1
}

/// One ` Lx,y` command per point.
pub open spec fn line_commands(points: Seq<(Seq<char>, Seq<char>)>) -> Seq<char>
    decreases points.len(),
{
    if points.len() == 0 {
        Seq::empty()
    } else {
        line_commands(points.drop_last()) + seq![' ', 'L'] + point_text(points.last())
    }
}

/// SVG path data of a polyline: nothing for no points; otherwise a move to
/// the first point, a line to each further point, and ` Z` when closed.
pub open spec fn path_data_text(points: Seq<(Seq<char>, Seq<char>)>, closed: bool) -> Seq<char> {
    if points.len() == 0 {
        Seq::empty()
    } else {
        seq!['M'] + point_text(points[0]) + line_commands(points.drop_first()) + if closed {
            seq![' ', 'Z']
        } else {
            Seq::empty()
        }
    }
}

/// SVG path data (`M`/`L` commands, `Z` when closed) of points whose
/// coordinates are given as text.
pub fn points_to_svg_path_data(points: &Vec<(String, String)>, closed: bool) -> (d: String)
    ensures
        d@ == path_data_text(coords_view(points@), closed),
{
    let n = points.len();
    let mut d = String::new();
    if n == 0 {
        return d;
    }
    let ghost v = coords_view(points@);
    proof {
        reveal_strlit("M");
        reveal_strlit(",");
        reveal_strlit(" L");
        reveal_strlit(" Z");
    }
    d.append("M");
    d.append(points[0].0.as_str());
    d.append(",");
    d.append(points[0].1.as_str());
    assert(v.drop_first().subrange(0, 0) =~= Seq::<(Seq<char>, Seq<char>)>::empty());
    let mut i: usize = 1;
    while i < n
        invariant
            n == points@.len(),
            1 <= i <= n,
            v == coords_view(points@),
            d@ == seq!['M'] + point_text(v[0]) + line_commands(v.drop_first().subrange(0, i - 1)),
        decreases n - i,
    {
        let ghost before = d@;
        proof {
            reveal_strlit(" L");
            reveal_strlit(",");
        }
        d.append(" L");
        d.append(points[i].0.as_str());
        d.append(",");
        d.append(points[i].1.as_str());
        proof {
            let done = v.drop_first().subrange(0, i as int);
            assert(done.drop_last() =~= v.drop_first().subrange(0, i - 1));
            assert(done.last() == v[i as int]);
            assert(v[i as int] == (points@[i as int].0@, points@[i as int].1@));
            assert(d@ =~= before + seq![' ', 'L'] + point_text(v[i as int]));
        }
        i = i + 1;
    }
    assert(v.drop_first().subrange(0, n - 1) =~= v.drop_first());
    if closed {
        d.append(" Z");
    } else {
        assert(d@ + Seq::<char>::empty() =~= d@);
    }
    d
}

/// The SVG line, dashed and thin, of a pen-up travel from one point to
/// another, in the given colour.
pub open spec fn travel_line_text(from: (Seq<char>, Seq<char>), to: (Seq<char>, Seq<char>), color: Color) -> Seq<char> {
    "    <line x1=\""@ + from.0 + "\" y1=\""@ + from.1 + "\" x2=\""@ + to.0 + "\" y2=\""@ + to.1
        + "\" stroke=\""@ + color_hex_text(color) + "\" stroke-width=\"0.1\" stroke-dasharray=\"1,1\"/>\n"@
}

/// The SVG line of a pen-up travel between two points whose coordinates are
/// given as text.
pub fn travel_line_svg(from: &(String, String), to: &(String, String), color: Color) -> (s: String)
    ensures
        s@ == travel_line_text(coord_text(*from), coord_text(*to), color),
{
    let mut s = String::new();
    s.append("    <line x1=\"");
    s.append(from.0.as_str());
    s.append("\" y1=\"");
    s.append(from.1.as_str());
    s.append("\" x2=\"");
    s.append(to.0.as_str());
    s.append("\" y2=\"");
    s.append(to.1.as_str());
    s.append("\" stroke=\"");
    let paint = color_to_hex(color);
    s.append(paint.as_str());
    s.append("\" stroke-width=\"0.1\" stroke-dasharray=\"1,1\"/>\n");
    s
}

} // verus!
