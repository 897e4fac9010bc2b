//! Styled text.

use crate::text;
use vstd::prelude::*;

verus! {

/// A color of the terminal.
#[derive(Debug, Clone, Copy, PartialEq, Eq, Structural)]
pub enum Color {
    /// None in particular.
    Unset,
    Black,
    Red,
    Green,
    Yellow,
    Magenta,
    Cyan,
    White,
    DarkGray,
    Rgb(u8, u8, u8),
}

/// How a text is shown.
#[derive(Debug, Clone, Copy, PartialEq, Eq, Structural)]
pub struct Style {
    pub fg: Color,
    pub bg: Color,
    pub bold: bool,
}

impl Style {
    /// Nothing in particular.
    #[verifier::allow_in_spec]
    pub fn plain() -> Style
        returns
            (Style { fg: Color::Unset, bg: Color::Unset, bold: false }),
    {
        Style { fg: Color::Unset, bg: Color::Unset, bold: false }
    }

    /// A color.
    #[verifier::allow_in_spec]
    pub fn color(fg: Color) -> Style
        returns
            (Style { fg, bg: Color::Unset, bold: false }),
    {
        Style { fg, bg: Color::Unset, bold: false }
    }

    /// A color, in bold.
    #[verifier::allow_in_spec]
    pub fn bold(fg: Color) -> Style
        returns
            (Style { fg, bg: Color::Unset, bold: true }),
    {
        Style { fg, bg: Color::Unset, bold: true }
    }

    /// A color on another.
    #[verifier::allow_in_spec]
    pub fn on(fg: Color, bg: Color) -> Style
        returns
            (Style { fg, bg, bold: false }),
    {
        Style { fg, bg, bold: false }
    }

    /// A color on another, in bold.
    #[verifier::allow_in_spec]
    pub fn bold_on(fg: Color, bg: Color) -> Style
        returns
            (Style { fg, bg, bold: true }),
    {
        Style { fg, bg, bold: true }
    }
}

/// A text in one style.
#[derive(Debug)]
pub struct Span {
    pub text: String,
    pub style: Style,
}

/// A text in one style, over texts.
#[verifier::ext_equal]
pub struct SpanView {
    pub text: Seq<char>,
    pub style: Style,
}

impl View for Span {
    type V = SpanView;

    open spec fn view(&self) -> SpanView {
        SpanView { text: self.text@, style: self.style }
    }
}

/// A line.
pub type Line = Vec<Span>;

/// A line, over texts.
pub type LineOfSpans = Seq<SpanView>;

/// The spans of a line.
pub open spec fn spans_view(v: Seq<Span>) -> LineOfSpans {
    Seq::new(v.len(), |i: int| v[i]@)
}

/// The spans of lines.
pub open spec fn lines_view(v: Seq<Line>) -> Seq<LineOfSpans> {
    Seq::new(v.len(), |i: int| spans_view(v[i]@))
}

/// A text in a style.
pub open spec fn spanned(text: Seq<char>, style: Style) -> SpanView {
    SpanView { text, style }
}

/// The text of spans, one behind the other.
pub open spec fn text_of(spans: LineOfSpans) -> Seq<char>
    decreases spans.len(),
{
    if spans.len() == 0 {
        Seq::empty()
    } else {
        text_of(spans.drop_last()) + spans.last().text
    }
}

/// Adds a text to a line.
pub fn push(line: &mut Line, text: String, style: Style)
    ensures
        spans_view(final(line)@) == spans_view(old(line)@).push(spanned(text@, style)),
{
    let ghost before = spans_view(line@);
    let ghost t = text@;
    line.push(Span { text, style });
    assert(spans_view(line@) =~= before.push(spanned(t, style)));
}

/// Adds a text to a line.
pub fn push_str(line: &mut Line, text: &str, style: Style)
    ensures
        spans_view(final(line)@) == spans_view(old(line)@).push(spanned(text@, style)),
{
    push(line, text.to_owned(), style);
}

/// Adds a line.
pub fn push_line(lines: &mut Vec<Line>, line: Line)
    ensures
        lines_view(final(lines)@) == lines_view(old(lines)@).push(spans_view(line@)),
{
    let ghost before = lines_view(lines@);
    let ghost l = spans_view(line@);
    lines.push(line);
    assert(lines_view(lines@) =~= before.push(l));
}

/// A line without anything on it.
pub fn blank() -> (r: Line)
    ensures
        spans_view(r@) == Seq::<SpanView>::empty(),
{
    let r: Line = Vec::new();
    assert(spans_view(r@) =~= Seq::empty());
    r
}

/// Three texts as one.
pub fn joined(a: &str, b: &str, c: &str) -> (r: String)
    ensures
        r@ == a@ + b@ + c@,
{
    let mut out = a.to_owned();
    out.append(b);
    out.append(c);
    out
}

} // verus!
