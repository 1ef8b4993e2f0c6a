//! Lines for the terminal: pieces of text, each with the style it is shown in.

use colored::Colorize;
use vstd::prelude::*;
use vstd::string::*;

verus! {

/// How a piece of text is shown.
#[derive(Debug, Clone, Copy, PartialEq, Eq, Structural)]
pub enum Style {
    Plain,
    Red,
    Green,
    Yellow,
    Blue,
    White,
    BoldWhite,
}

/// A piece of a line.
#[derive(Debug)]
pub struct Segment {
    pub style: Style,
    pub text: String,
}

impl View for Segment {
    type V = (Style, Seq<char>);

    open spec fn view(&self) -> (Style, Seq<char>) {
        (self.style, self.text@)
    }
}

/// A line for the terminal, without its end.
#[derive(Debug)]
pub struct Line {
    pub segments: Vec<Segment>,
}

impl View for Line {
    type V = Seq<(Style, Seq<char>)>;

    open spec fn view(&self) -> Seq<(Style, Seq<char>)> {
        self.segments@.map_values(|s: Segment| s@)
    }
}

/// The lines, each by its segments.
pub open spec fn lines_view(lines: Seq<Line>) -> Seq<Seq<(Style, Seq<char>)>> {
    lines.map_values(|line: Line| line@)
}

/// The text of a line, without its styles.
pub open spec fn plain_text(line: Seq<(Style, Seq<char>)>) -> Seq<char> {
    crate::text::joined(line.map_values(|segment: (Style, Seq<char>)| segment.1))
}

/// The sequence that ends every style.
pub open spec fn reset() -> Seq<char> {
    seq!['\u{1b}', '[', '0', 'm']
}

/// The sequence that starts a style.
pub open spec fn start(style: Style) -> Seq<char> {
    match style {
        Style::Plain => Seq::empty(),
        Style::Red => seq!['\u{1b}', '[', '3', '1', 'm'],
        Style::Green => seq!['\u{1b}', '[', '3', '2', 'm'],
        Style::Yellow => seq!['\u{1b}', '[', '3', '3', 'm'],
        Style::Blue => seq!['\u{1b}', '[', '3', '4', 'm'],
        Style::White => seq!['\u{1b}', '[', '3', '7', 'm'],
        Style::BoldWhite => seq!['\u{1b}', '[', '1', ';', '3', '7', 'm'],
    }
}

/// `text` with `begin` put in after every reset in it, so that a style goes on after
/// a piece of the text that ends its own.
pub open spec fn resumed(text: Seq<char>, begin: Seq<char>) -> Seq<char>
    decreases text.len(),
{
    if text.len() == 0 {
        Seq::empty()
    } else if crate::text::occurs_at(text, reset(), 0) {
        reset() + begin + resumed(text.skip(4), begin)
    } else {
        seq![text[0]] + resumed(text.skip(1), begin)
    }
}

/// What `text` can be shown as in a style: as it is, where colours are off, or
/// between the start of the style and a reset. Whether colours are on is asked more
/// than once for one text, so a switch in between can leave out the start, or the
/// starts inside.
pub open spec fn painted(style: Style, text: Seq<char>, out: Seq<char>) -> bool {
    let begin = start(style);
    ||| out == text
    ||| out == begin + resumed(text, begin) + reset()
    ||| out == begin + text + reset()
    ||| out == resumed(text, begin) + reset()
    ||| out == text + reset()
}

/// `Colorize::red`, displayed. Whether the text is coloured depends on the terminal,
/// the environment and `colored::control`.
#[verifier::external_body]
fn red(text: &str) -> (out: String)
    ensures
        painted(Style::Red, text@, out@),
{
    text.red().to_string()
}

/// `Colorize::green`, displayed. Whether the text is coloured depends on the terminal,
/// the environment and `colored::control`.
#[verifier::external_body]
fn green(text: &str) -> (out: String)
    ensures
        painted(Style::Green, text@, out@),
{
    text.green().to_string()
}

/// `Colorize::yellow`, displayed. Whether the text is coloured depends on the terminal,
/// the environment and `colored::control`.
#[verifier::external_body]
fn yellow(text: &str) -> (out: String)
    ensures
        painted(Style::Yellow, text@, out@),
{
    text.yellow().to_string()
}

/// `Colorize::blue`, displayed. Whether the text is coloured depends on the terminal,
/// the environment and `colored::control`.
#[verifier::external_body]
fn blue(text: &str) -> (out: String)
    ensures
        painted(Style::Blue, text@, out@),
{
    text.blue().to_string()
}

/// `Colorize::white`, displayed. Whether the text is coloured depends on the terminal,
/// the environment and `colored::control`.
#[verifier::external_body]
fn white(text: &str) -> (out: String)
    ensures
        painted(Style::White, text@, out@),
{
    text.white().to_string()
}

/// `Colorize::white` and then `Colorize::bold`, displayed. Whether the text is coloured
/// depends on the terminal, the environment and `colored::control`.
#[verifier::external_body]
fn bold_white(text: &str) -> (out: String)
    ensures
        painted(Style::BoldWhite, text@, out@),
{
    text.white().bold().to_string()
}

/// `text` as it is shown in a style.
pub fn paint(style: Style, text: &str) -> (out: String)
    ensures
        style == Style::Plain ==> out@ == text@,
        painted(style, text@, out@),
{
    match style {
        Style::Plain => text.to_owned(),
        Style::Red => red(text),
        Style::Green => green(text),
        Style::Yellow => yellow(text),
        Style::Blue => blue(text),
        Style::White => white(text),
        Style::BoldWhite => bold_white(text),
    }
}

/// What one segment can be shown as.
pub open spec fn segment_shown(segment: (Style, Seq<char>), out: Seq<char>) -> bool {
    &&& segment.0 == Style::Plain ==> out == segment.1
    &&& painted(segment.0, segment.1, out)
}

/// Whether the pieces are what the segments of a line can be shown as.
pub open spec fn pieces_of(line: Seq<(Style, Seq<char>)>, pieces: Seq<Seq<char>>) -> bool {
    &&& pieces.len() == line.len()
    &&& forall|i: int| 0 <= i < line.len() ==> segment_shown(#[trigger] line[i], pieces[i])
}

/// What a line can be shown as: its segments one after the other, each as it can be
/// shown.
pub open spec fn shown(line: Seq<(Style, Seq<char>)>, out: Seq<char>) -> bool {
    exists|pieces: Seq<Seq<char>>| #[trigger] pieces_of(line, pieces) && out == crate::text::joined(pieces)
}

impl Line {
    /// A line of one segment.
    pub fn of(style: Style, text: &str) -> (line: Line)
        ensures
            line@ == seq![(style, text@)],
    {
        let line = Line { segments: vec![Segment { style, text: text.to_owned() }] };
        assert(line@ =~= seq![(style, text@)]);
        line
    }

    /// The line with one more segment at its end.
    pub fn then_text(self, style: Style, text: &str) -> (line: Line)
        ensures
            line@ == self@.push((style, text@)),
    {
        let mut segments = self.segments;
        segments.push(Segment { style, text: text.to_owned() });
        let line = Line { segments };
        assert(line@ =~= self@.push((style, text@)));
        line
    }

    /// The line as it is shown.
    pub fn render(&self) -> (out: String)
        ensures
            shown(self@, out@),
    {
        let mut out = String::new();
        let mut i: usize = 0;
        let ghost mut pieces: Seq<Seq<char>> = Seq::empty();
        while i < self.segments.len()
            invariant
                i <= self.segments.len(),
                self@.len() == self.segments.len(),
                pieces_of(self@.take(i as int), pieces),
                out@ == crate::text::joined(pieces),
            decreases self.segments.len() - i,
        {
            let piece = paint(self.segments[i].style, self.segments[i].text.as_str());
            out.append(piece.as_str());
            proof {
                let before = pieces;
                pieces = before.push(piece@);
                assert(pieces.drop_last() =~= before);
                assert forall|j: int| 0 <= j < i + 1 implies segment_shown(
                    #[trigger] self@.take(i + 1)[j],
                    pieces[j],
                ) by {
                    if j < i {
                        assert(self@.take(i + 1)[j] == self@.take(i as int)[j]);
                    } else {
                        assert(self@[j] == self.segments[j]@);
                    }
                }
            }
            i += 1;
        }
        assert(self@.take(i as int) =~= self@);
        assert(pieces_of(self@, pieces));
        out
    }
}

/// A line without styles is shown as its text, whatever the terminal.
pub proof fn plain_lines_are_shown_as_they_are(line: Seq<(Style, Seq<char>)>, out: Seq<char>)
    requires
        shown(line, out),
        forall|i: int| 0 <= i < line.len() ==> (#[trigger] line[i]).0 == Style::Plain,
    ensures
        out == plain_text(line),
{
    let pieces = choose|pieces: Seq<Seq<char>>|
        #[trigger] pieces_of(line, pieces) && out == crate::text::joined(pieces);
    assert(pieces =~= line.map_values(|segment: (Style, Seq<char>)| segment.1));
}

/// Every line can be shown as its text alone: with colours off it is.
pub proof fn every_line_can_be_shown_plain(line: Seq<(Style, Seq<char>)>)
    ensures
        shown(line, plain_text(line)),
{
    let pieces = line.map_values(|segment: (Style, Seq<char>)| segment.1);
    assert forall|i: int| 0 <= i < line.len() implies segment_shown(#[trigger] line[i], pieces[i]) by {
        assert(pieces[i] == line[i].1);
    }
    assert(pieces_of(line, pieces));
}

} // verus!
