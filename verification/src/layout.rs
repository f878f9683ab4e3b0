//! Text alignment and the character-level plan of a text layout: which
//! characters break lines, advance as spaces, or are drawn as glyphs, on
//! which line, and after which character (for kerning and letter spacing).
//! Widths and positions are measured by the caller in font units.
use vstd::prelude::*;

verus! {

/// Text alignment options; left alignment is the default.
#[derive(Clone, Copy, Debug, PartialEq, Eq, Structural)]
pub enum TextAlign {
    Left,
    Center,
    Right,
}

impl Default for TextAlign {
    fn default() -> (r: Self)
        ensures
            r == TextAlign::Left,
    {
        TextAlign::Left
    }
}

/// What one character of a text does in its layout.
#[derive(Clone, Copy, Debug, PartialEq, Eq, Structural)]
pub enum LayoutItem {
    /// A line break: the following characters go on the next line
    NewLine,
    /// A space on the given line: advances by the space width and word spacing
    Space { line: usize },
    /// A glyph of the font on the given line; when it follows a character on
    /// its line, that character is kerned against it and letter spacing
    /// comes before it
    Glyph { c: char, line: usize, after: Option<char> },
    /// A character the font has no glyph for: nothing is drawn or advanced
    Skip,
}

/// The number of line breaks in a text.
pub open spec fn count_newlines(chars: Seq<char>) -> nat
    decreases chars.len(),
{
    if chars.len() == 0 {
        0
    } else {
        count_newlines(chars.drop_last()) + if chars.last() == '\n' { 1nat } else { 0nat }
    }
}

/// The line character `k` of a text is on: the line breaks before it.
pub open spec fn line_at(chars: Seq<char>, k: int) -> nat {
    count_newlines(chars.take(k))
}

/// The position of the character that character `k` follows on its line
/// for kerning: the nearest earlier space or character with a glyph, unless
/// a line break comes first; characters without glyphs are passed over.
pub open spec fn previous_drawn(chars: Seq<char>, has_glyph: Seq<bool>, k: int) -> Option<int>
    decreases k,
{
    if k <= 0 {
        None
    } else {
        let j = k - 1;
        if chars[j] == '\n' {
            None
        } else if chars[j] == ' ' || has_glyph[j] {
            Some(j)
        } else {
            previous_drawn(chars, has_glyph, j)
        }
    }
}

/// What character `k` of a text does in its layout: a line break; a space
/// on its line; a glyph on its line after the character `previous_drawn`
/// finds; or nothing, when the font has no glyph for it.
pub open spec fn layout_item(chars: Seq<char>, has_glyph: Seq<bool>, k: int) -> LayoutItem {
    let c = chars[k];
    if c == '\n' {
        LayoutItem::NewLine
    } else if c == ' ' {
        LayoutItem::Space { line: line_at(chars, k) as usize }
    } else if has_glyph[k] {
        LayoutItem::Glyph {
            c,
            line: line_at(chars, k) as usize,
            after: match previous_drawn(chars, has_glyph, k) {
                Some(j) => Some(chars[j]),
                None => None,
            },
        }
    } else {
        LayoutItem::Skip
    }
}

proof fn lemma_count_newlines_prefix(chars: Seq<char>, k: int)
    requires
        0 <= k <= chars.len(),
    ensures
        count_newlines(chars.take(k)) <= count_newlines(chars),
        count_newlines(chars) <= chars.len(),
    decreases chars.len() - k,
{
    if k < chars.len() {
        lemma_count_newlines_prefix(chars, k + 1);
        assert(chars.take(k + 1).drop_last() == chars.take(k));
    } else {
        assert(chars.take(k) == chars);
        lemma_count_newlines_bound(chars);
    }
}

proof fn lemma_count_newlines_bound(chars: Seq<char>)
    ensures
        count_newlines(chars) <= chars.len(),
    decreases chars.len(),
{
    if chars.len() > 0 {
        lemma_count_newlines_bound(chars.drop_last());
    }
}

/// The layout plan of a text: one item per character (see `layout_item`),
/// and the number of lines, one more than the line breaks.
pub fn text_layout_plan(text: &str, has_glyph: &Vec<bool>) -> (r: (Vec<LayoutItem>, usize))
    requires
        has_glyph@.len() == text@.len(),
        text@.len() < usize::MAX,
    ensures
        r.0@.len() == text@.len(),
        forall|k: int| 0 <= k < text@.len() ==> r.0@[k] == #[trigger] layout_item(text@, has_glyph@, k),
        r.1 == count_newlines(text@) + 1,
{
    let chars = crate::text::chars_of(text);
    let n = chars.len();
    let mut items: Vec<LayoutItem> = Vec::new();
    let mut prev: Option<char> = None;
    let mut line: usize = 0;
    let mut i: usize = 0;
    while i < n
        invariant
            n == chars@.len(),
            chars@ == text@,
            has_glyph@.len() == n,
            n < usize::MAX,
            i <= n,
            items@.len() == i,
            forall|k: int| 0 <= k < i ==> items@[k] == #[trigger] layout_item(chars@, has_glyph@, k),
            line == line_at(chars@, i as int),
            line <= i,
            prev == (match previous_drawn(chars@, has_glyph@, i as int) {
                Some(j) => Some(chars@[j]),
                None => None::<char>,
            }),
        decreases n - i,
    {
        let c = chars[i];
        let item = if c == '\n' {
            LayoutItem::NewLine
        } else if c == ' ' {
            LayoutItem::Space { line }
        } else if has_glyph[i] {
            LayoutItem::Glyph { c, line, after: prev }
        } else {
            LayoutItem::Skip
        };
        assert(item == layout_item(chars@, has_glyph@, i as int));
        items.push(item);
        proof {
            assert(chars@.take(i + 1).drop_last() == chars@.take(i as int));
        }
        if c == '\n' {
            line = line + 1;
            prev = None;
        } else if c == ' ' {
            prev = Some(' ');
        } else if has_glyph[i] {
            prev = Some(c);
        }
        i = i + 1;
    }
    assert(chars@.take(n as int) == chars@);
    (items, line + 1)
}

/// Every item of a layout is on one of its lines: a character's line is
/// never more than the number of line breaks in the whole text.
pub proof fn lemma_layout_lines_bounded(chars: Seq<char>, has_glyph: Seq<bool>, k: int)
    requires
        0 <= k < chars.len(),
        has_glyph.len() == chars.len(),
    ensures
        line_at(chars, k) <= count_newlines(chars),
        count_newlines(chars) + 1 <= chars.len() + 1,
{
    lemma_count_newlines_prefix(chars, k);
}

/// The line a space or glyph item is on.
pub open spec fn item_line(item: LayoutItem) -> Option<int> {
    match item {
        LayoutItem::Space { line } => Some(line as int),
        LayoutItem::Glyph { line, .. } => Some(line as int),
        _ => None,
    }
}

/// Every character of a layout is placed by what it is: a line break breaks
/// the line; a space advances on the line it is on, and a character with a
/// glyph is drawn as itself on the line it is on, the line being the number
/// of line breaks before it; any other character is skipped (for a text
/// whose length fits `usize`, as every laid-out text does).
pub proof fn lemma_layout_items_carry_their_line(chars: Seq<char>, has_glyph: Seq<bool>, k: int)
    requires
        0 <= k < chars.len(),
        chars.len() < usize::MAX,
        has_glyph.len() == chars.len(),
    ensures
        chars[k] == '\n' ==> layout_item(chars, has_glyph, k) is NewLine,
        chars[k] == ' ' ==> layout_item(chars, has_glyph, k) is Space
            && item_line(layout_item(chars, has_glyph, k)) == Some(count_newlines(chars.take(k)) as int),
        chars[k] != '\n' && chars[k] != ' ' && has_glyph[k] ==> (layout_item(chars, has_glyph, k) matches LayoutItem::Glyph { c, .. }
            && c == chars[k]
            && item_line(layout_item(chars, has_glyph, k)) == Some(count_newlines(chars.take(k)) as int)),
        chars[k] != '\n' && chars[k] != ' ' && !has_glyph[k] ==> layout_item(chars, has_glyph, k) is Skip,
{
    lemma_count_newlines_prefix(chars, k);
}

/// Characters with no line break between them share their line: the line
/// count before `j` is the one before `i`.
proof fn lemma_no_break_same_count(chars: Seq<char>, i: int, j: int)
    requires
        0 <= i <= j <= chars.len(),
        forall|m: int| i <= m < j ==> #[trigger] chars[m] != '\n',
    ensures
        count_newlines(chars.take(j)) == count_newlines(chars.take(i)),
    decreases j - i,
{
    if j > i {
        lemma_no_break_same_count(chars, i, j - 1);
        assert(chars.take(j).drop_last() =~= chars.take(j - 1));
        assert(chars.take(j).last() == chars[j - 1]);
    }
}

/// One line break between two characters puts the later one on the next line.
proof fn lemma_break_next_count(chars: Seq<char>, i: int)
    requires
        0 <= i < chars.len(),
        chars[i] == '\n',
    ensures
        count_newlines(chars.take(i + 1)) == count_newlines(chars.take(i)) + 1,
{
    assert(chars.take(i + 1).drop_last() =~= chars.take(i));
    assert(chars.take(i + 1).last() == chars[i]);
}

/// Spaces and glyphs between the same two line breaks are on the same line,
/// and those just after a line break are on the line after those just before
/// it.
pub proof fn lemma_layout_lines_follow_breaks(chars: Seq<char>, has_glyph: Seq<bool>, i: int, j: int)
    requires
        0 <= i < j < chars.len(),
        chars.len() < usize::MAX,
        has_glyph.len() == chars.len(),
        item_line(layout_item(chars, has_glyph, i)) is Some,
        item_line(layout_item(chars, has_glyph, j)) is Some,
    ensures
        (forall|m: int| i < m < j ==> #[trigger] chars[m] != '\n') ==> item_line(layout_item(chars, has_glyph, i))
            == item_line(layout_item(chars, has_glyph, j)),
        (exists|b: int| i < b < j && chars[b] == '\n' && (forall|m: int| i < m < j && m != b ==> #[trigger] chars[m] != '\n'))
            ==> item_line(layout_item(chars, has_glyph, j)).unwrap() == item_line(layout_item(chars, has_glyph, i)).unwrap() + 1,
{
    lemma_layout_items_carry_their_line(chars, has_glyph, i);
    lemma_layout_items_carry_their_line(chars, has_glyph, j);
    if forall|m: int| i < m < j ==> #[trigger] chars[m] != '\n' {
        assert(chars[i] != '\n');
        lemma_no_break_same_count(chars, i, j);
    }
    if exists|b: int| i < b < j && chars[b] == '\n' && (forall|m: int| i < m < j && m != b ==> #[trigger] chars[m] != '\n') {
        let b = choose|b: int| i < b < j && chars[b] == '\n' && (forall|m: int| i < m < j && m != b ==> #[trigger] chars[m] != '\n');
        assert(chars[i] != '\n');
        lemma_no_break_same_count(chars, i, b);
        lemma_break_next_count(chars, b);
        lemma_no_break_same_count(chars, b + 1, j);
    }
}

} // verus!
