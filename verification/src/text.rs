//! Styled terminal text.
//!
//! The listings are built as lines of spans, each span a piece of text with the
//! style in which the terminal shows it. Whether a style is actually rendered
//! (colours, bold, italics) is decided when the lines are printed.
use vstd::prelude::*;

verus! {

/// How a piece of text is shown.
#[derive(Clone, Copy, Debug, PartialEq, Eq)]
pub enum Style {
    Plain,
    Yellow,
    Dimmed,
    Italic,
    Bold,
}

/// A piece of text in one style.
#[derive(Clone, Debug, PartialEq, Eq)]
pub struct Span {
    pub text: String,
    pub style: Style,
}

/// One printed line: its spans, shown one after the other.
#[derive(Clone, Debug, PartialEq, Eq)]
pub struct Line {
    pub spans: Vec<Span>,
}

impl View for Span {
    type V = (Seq<char>, Style);

    open spec fn view(&self) -> (Seq<char>, Style) {
        (self.text@, self.style)
    }
}

impl View for Line {
    type V = Seq<(Seq<char>, Style)>;

    open spec fn view(&self) -> Seq<(Seq<char>, Style)> {
        self.spans@.map_values(|s: Span| s@)
    }
}

/// The model of a sequence of lines.
pub open spec fn lines_view(lines: Seq<Line>) -> Seq<Seq<(Seq<char>, Style)>> {
    lines.map_values(|l: Line| l@)
}

/// A line made of one span.
pub open spec fn single(text: Seq<char>, style: Style) -> Seq<(Seq<char>, Style)> {
    seq![(text, style)]
}

/// The text a line shows, its spans' texts one after the other.
pub open spec fn line_text(spans: Seq<(Seq<char>, Style)>) -> Seq<char>
    decreases spans.len(),
{
    if spans.len() == 0 {
        Seq::empty()
    } else {
        line_text(spans.drop_last()) + spans.last().0
    }
}

/// The rule that frames the listings.
pub open spec fn rule_text() -> Seq<char> {
    "--------------------------------------------------------------------------------"@
}

/// The model of a line that holds only the rule.
pub open spec fn rule_line() -> Seq<(Seq<char>, Style)> {
    single(rule_text(), Style::Plain)
}

/// A span holding `text` in `style`.
pub fn span(text: String, style: Style) -> (s: Span)
    ensures
        s@ == (text@, style),
{
    Span { text, style }
}

/// A line of one span.
pub fn single_line(text: String, style: Style) -> (l: Line)
    ensures
        l@ == single(text@, style),
{
    let mut spans: Vec<Span> = Vec::new();
    spans.push(Span { text, style });
    let l = Line { spans };
    assert(l@ =~= single(text@, style));
    l
}

/// A line of the given spans.
pub fn line_of(spans: Vec<Span>) -> (l: Line)
    ensures
        l@ == spans@.map_values(|s: Span| s@),
{
    Line { spans }
}

/// A line with nothing on it.
pub fn empty_line() -> (l: Line)
    ensures
        l@ == Seq::<(Seq<char>, Style)>::empty(),
{
    let l = Line { spans: Vec::new() };
    assert(l@ =~= Seq::<(Seq<char>, Style)>::empty());
    l
}

/// The line that holds the rule.
pub fn rule() -> (l: Line)
    ensures
        l@ == rule_line(),
{
    single_line(
        String::from_str("--------------------------------------------------------------------------------"),
        Style::Plain,
    )
}

/// Appends a line to a listing.
pub fn push_line(lines: &mut Vec<Line>, l: Line)
    ensures
        lines_view(final(lines)@) == lines_view(old(lines)@).push(l@),
{
    lines.push(l);
    assert(lines_view(lines@) =~= lines_view(old(lines)@).push(l@));
}

impl Line {
    /// The text the line shows, without its styles.
    pub fn text(&self) -> (t: String)
        ensures
            t@ == line_text(self@),
    {
        let mut t = String::new();
        let n = self.spans.len();
        let mut i: usize = 0;
        while i < n
            invariant
                n == self.spans@.len(),
                i <= n,
                t@ == line_text(self@.take(i as int)),
            decreases n - i,
        {
            assert(self@.take(i + 1).drop_last() =~= self@.take(i as int));
            t.append(self.spans[i].text.as_str());
            i = i + 1;
        }
        assert(self@.take(n as int) =~= self@);
        t
    }
}

} // verus!
