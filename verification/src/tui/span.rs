//! Styled text.
use vstd::prelude::*;

verus! {

/// A colour of the terminal.
#[derive(Debug, Clone, Copy, PartialEq, Eq, Structural)]
pub enum Color {
    Black,
    Red,
    Green,
    Yellow,
    Blue,
    Magenta,
    Cyan,
    Gray,
    DarkGray,
    White,
}

/// How a text looks.
#[derive(Debug, Clone, Copy, PartialEq, Eq, Structural)]
pub struct Style {
    pub fg: Option<Color>,
    pub bg: Option<Color>,
    pub bold: bool,
    pub dim: bool,
    pub italic: bool,
    pub underlined: bool,
}

/// As the terminal has it.
pub open spec fn plain() -> Style {
    Style { fg: None, bg: None, bold: false, dim: false, italic: false, underlined: false }
}

/// In a colour.
pub open spec fn colored(c: Color) -> Style {
    Style { fg: Some(c), ..plain() }
}

/// In a colour, bold.
pub open spec fn bold(c: Color) -> Style {
    Style { bold: true, ..colored(c) }
}

/// In a colour, dim.
pub open spec fn dim(c: Color) -> Style {
    Style { dim: true, ..colored(c) }
}

/// As the terminal has it.
pub fn no_style() -> (r: Style)
    ensures
        r == plain(),
{
    Style { fg: None, bg: None, bold: false, dim: false, italic: false, underlined: false }
}

/// In a colour.
pub fn in_color(c: Color) -> (r: Style)
    ensures
        r == colored(c),
{
    Style {
        fg: Some(c),
        bg: None,
        bold: false,
        dim: false,
        italic: false,
        underlined: false,
    }
}

/// In a colour, bold.
pub fn in_bold(c: Color) -> (r: Style)
    ensures
        r == bold(c),
{
    Style { bold: true, ..in_color(c) }
}

/// In a colour, dim.
pub fn in_dim(c: Color) -> (r: Style)
    ensures
        r == dim(c),
{
    Style { dim: true, ..in_color(c) }
}

/// A text and how it looks.
#[derive(Debug)]
pub struct Span {
    pub text: String,
    pub style: Style,
}

/// A styled text as it is seen in contracts.
#[verifier::ext_equal]
pub struct SpanView {
    pub text: Seq<char>,
    pub style: Style,
}

impl View for Span {
    type V = SpanView;

    open spec fn view(&self) -> SpanView {
        SpanView { text: self.text@, style: self.style }
    }
}

/// A styled text.
pub open spec fn styled(text: Seq<char>, style: Style) -> SpanView {
    SpanView { text, style }
}

/// A styled text.
pub fn span(text: &str, style: Style) -> (r: Span)
    ensures
        r@ == styled(text@, style),
{
    Span { text: text.to_owned(), style }
}

/// The styled texts of a line.
pub open spec fn spans(v: Seq<Span>) -> Seq<SpanView> {
    v.map_values(|s: Span| s@)
}

/// The lines that a vector holds.
pub open spec fn lines(v: Seq<Vec<Span>>) -> Seq<Seq<SpanView>> {
    v.map_values(|l: Vec<Span>| spans(l@))
}

/// Appending a styled text.
pub broadcast proof fn lemma_spans_push(v: Seq<Span>, s: Span)
    ensures
        #[trigger] spans(v.push(s)) == spans(v).push(s@),
{
    assert(spans(v.push(s)) =~= spans(v).push(s@));
}

/// No styled texts.
pub broadcast proof fn lemma_spans_empty()
    ensures
        #[trigger] spans(Seq::<Span>::empty()) == Seq::<SpanView>::empty(),
{
    assert(spans(Seq::<Span>::empty()) =~= Seq::<SpanView>::empty());
}

/// Appending a line.
pub broadcast proof fn lemma_lines_push(v: Seq<Vec<Span>>, l: Vec<Span>)
    ensures
        #[trigger] lines(v.push(l)) == lines(v).push(spans(l@)),
{
    assert(lines(v.push(l)) =~= lines(v).push(spans(l@)));
}

/// No lines.
pub broadcast proof fn lemma_lines_empty()
    ensures
        #[trigger] lines(Seq::<Vec<Span>>::empty()) == Seq::<Seq<SpanView>>::empty(),
{
    assert(lines(Seq::<Vec<Span>>::empty()) =~= Seq::<Seq<SpanView>>::empty());
}

/// What is known of growing lines.
pub broadcast group group_spans {
    lemma_spans_push,
    lemma_spans_empty,
    lemma_lines_push,
    lemma_lines_empty,
}

} // verus!
