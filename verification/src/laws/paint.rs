//! Lines for the terminal: what they are made of, and what they are shown as.

use vstd::prelude::*;

use crate::paint::{Line, Style};

verus! {

/// Whether a line is made of these pieces, each with its style.
pub open spec fn reads(line: Line, pieces: Seq<(Style, Seq<char>)>) -> bool {
    &&& line.segments@.len() == pieces.len()
    &&& forall|i: int|
        0 <= i < pieces.len() ==> (#[trigger] line.segments@[i]).style == pieces[i].0
            && line.segments@[i].text@ == pieces[i].1
}

/// Two lines with one view are made of the same pieces, and the other way round.
pub proof fn a_line_is_its_pieces(line: Line, pieces: Seq<(Style, Seq<char>)>)
    ensures
        line@ == pieces <==> reads(line, pieces),
{
    if line@ == pieces {
        assert forall|i: int| 0 <= i < pieces.len() implies (#[trigger] line.segments@[i]).style
            == pieces[i].0 && line.segments@[i].text@ == pieces[i].1 by {
            assert(line@[i] == line.segments@[i]@);
        }
    }
    if reads(line, pieces) {
        assert forall|i: int| 0 <= i < pieces.len() implies line@[i] == pieces[i] by {
            assert(line@[i] == line.segments@[i]@);
            assert(line.segments@[i].style == pieces[i].0);
        }
        assert(line@ =~= pieces);
    }
}

/// The lines of a list are viewed one by one.
pub proof fn lines_are_viewed_one_by_one(lines: Seq<Line>)
    ensures
        crate::paint::lines_view(lines).len() == lines.len(),
        forall|i: int|
            0 <= i < lines.len() ==> reads(
                #[trigger] lines[i],
                crate::paint::lines_view(lines)[i],
            ),
{
    assert forall|i: int| 0 <= i < lines.len() implies reads(
        #[trigger] lines[i],
        crate::paint::lines_view(lines)[i],
    ) by {
        a_line_is_its_pieces(lines[i], crate::paint::lines_view(lines)[i]);
    }
}

/// A line of one piece is that piece.
pub proof fn a_line_starts_with_one_piece(style: Style, text: &str, line: Line)
    requires
        call_ensures(Line::of, (style, text), line),
    ensures
        reads(line, seq![(style, text@)]),
{
    a_line_is_its_pieces(line, seq![(style, text@)]);
}

/// A piece that is added comes last, and what was there stays.
pub proof fn an_added_piece_comes_last(start: Line, style: Style, text: &str, line: Line)
    requires
        call_ensures(Line::then_text, (start, style, text), line),
    ensures
        line.segments@.len() == start.segments@.len() + 1,
        line.segments@.last().style == style,
        line.segments@.last().text@ == text@,
        forall|i: int|
            0 <= i < start.segments@.len() ==> (#[trigger] line.segments@[i]).style
                == start.segments@[i].style && line.segments@[i].text@
                == start.segments@[i].text@,
{
    a_line_is_its_pieces(start, start@);
    a_line_is_its_pieces(line, line@);
    assert(start@.len() == start.segments@.len());
    assert(line.segments@[start.segments@.len() as int].style == style);
    assert forall|i: int| 0 <= i < start.segments@.len() implies (
    #[trigger] line.segments@[i]).style == start.segments@[i].style && line.segments@[i].text@
        == start.segments@[i].text@ by {
        assert(line@[i] == start@[i]);
    }
}

/// The sequence that turns a style on in a terminal.
pub open spec fn code(style: Style) -> Seq<char> {
    match style {
        Style::Plain => ""@,
        Style::Red => "\u{1b}[31m"@,
        Style::Green => "\u{1b}[32m"@,
        Style::Yellow => "\u{1b}[33m"@,
        Style::Blue => "\u{1b}[34m"@,
        Style::White => "\u{1b}[37m"@,
        Style::BoldWhite => "\u{1b}[1;37m"@,
    }
}

/// A text in which nothing turns styles off is shown as it is, or between the sequence of
/// its style and the one that turns it off, or with the latter alone; a plain one is shown
/// as it is.
pub proof fn a_painted_text_is_still_there(style: Style, text: &str, out: String)
    requires
        call_ensures(crate::paint::paint, (style, text), out),
        !crate::text::occurs(text@, "\u{1b}[0m"@),
    ensures
        style == Style::Plain ==> out@ == text@,
        out@ == text@ || out@ == code(style) + text@ + "\u{1b}[0m"@ || out@ == text@
            + "\u{1b}[0m"@,
{
    codes_are_known();
    nothing_to_resume(text@, crate::paint::start(style));
    assert(crate::paint::start(style) =~= code(style));
    assert(crate::paint::reset() =~= "\u{1b}[0m"@);
}

proof fn codes_are_known()
    ensures
        crate::paint::reset() == "\u{1b}[0m"@,
        forall|style: Style| #[trigger] crate::paint::start(style) == code(style),
{
    reveal_strlit("\u{1b}[0m");
    reveal_strlit("");
    reveal_strlit("\u{1b}[31m");
    reveal_strlit("\u{1b}[32m");
    reveal_strlit("\u{1b}[33m");
    reveal_strlit("\u{1b}[34m");
    reveal_strlit("\u{1b}[37m");
    reveal_strlit("\u{1b}[1;37m");
    assert(crate::paint::reset() =~= "\u{1b}[0m"@);
    assert forall|style: Style| #[trigger] crate::paint::start(style) == code(style) by {
        assert(crate::paint::start(style) =~= code(style));
    }
}

proof fn nothing_to_resume(text: Seq<char>, begin: Seq<char>)
    requires
        !crate::text::occurs(text, crate::paint::reset()),
    ensures
        crate::paint::resumed(text, begin) == text,
    decreases text.len(),
{
    let reset = crate::paint::reset();
    if text.len() > 0 {
        let rest = text.skip(1);
        assert(!crate::text::occurs_at(text, reset, 0));
        assert forall|i: int| !crate::text::occurs_at(rest, reset, i) by {
            if crate::text::occurs_at(rest, reset, i) {
                assert(text.subrange(i + 1, i + 1 + reset.len()) =~= rest.subrange(
                    i,
                    i + reset.len(),
                ));
                assert(crate::text::occurs_at(text, reset, i + 1));
            }
        }
        nothing_to_resume(rest, begin);
        assert(seq![text[0]] + rest =~= text);
    }
}

/// A line is shown as what comes before its last piece and then that piece.
pub proof fn a_line_is_shown_piece_by_piece(
    line: Seq<(Style, Seq<char>)>,
    last: (Style, Seq<char>),
    out: Seq<char>,
)
    requires
        crate::paint::shown(line.push(last), out),
    ensures
        exists|before: Seq<char>, behind: Seq<char>|
            {
                &&& #[trigger] crate::paint::shown(line, before)
                &&& #[trigger] crate::paint::painted(last.0, last.1, behind)
                &&& last.0 == Style::Plain ==> behind == last.1
                &&& out == before + behind
            },
{
    let whole = line.push(last);
    let pieces = choose|pieces: Seq<Seq<char>>| #[trigger]
        crate::paint::pieces_of(whole, pieces) && out == crate::text::joined(pieces);
    let before = pieces.drop_last();
    assert forall|i: int| 0 <= i < line.len() implies crate::paint::segment_shown(
        #[trigger] line[i],
        before[i],
    ) by {
        assert(whole[i] == line[i]);
        assert(crate::paint::segment_shown(whole[i], pieces[i]));
    }
    assert(crate::paint::pieces_of(line, before));
    assert(crate::paint::shown(line, crate::text::joined(before)));
    assert(whole[line.len() as int] == last);
    assert(crate::paint::segment_shown(last, pieces.last()));
    assert(crate::paint::painted(last.0, last.1, pieces.last()));
}

/// What a line of nothing is shown as is empty.
pub proof fn an_empty_line_is_shown_as_nothing(out: Seq<char>)
    requires
        crate::paint::shown(Seq::empty(), out),
    ensures
        out == Seq::<char>::empty(),
{
    let pieces = choose|pieces: Seq<Seq<char>>| #[trigger]
        crate::paint::pieces_of(Seq::empty(), pieces) && out == crate::text::joined(pieces);
    assert(pieces =~= Seq::empty());
}

/// A line is shown as its pieces one after the other, each as it can be shown in its style, a
/// plain one as it is.
pub proof fn a_line_is_shown_as_all_its_pieces(line: &Line, out: String)
    requires
        call_ensures(Line::render, (line,), out),
    ensures
        exists|pieces: Seq<Seq<char>>|
            {
                &&& pieces.len() == line.segments@.len()
                &&& out@ == #[trigger] crate::text::joined(pieces)
                &&& forall|i: int|
                    0 <= i < pieces.len() ==> crate::paint::painted(
                        (#[trigger] line.segments@[i]).style,
                        line.segments@[i].text@,
                        pieces[i],
                    ) && (line.segments@[i].style == Style::Plain ==> pieces[i]
                        == line.segments@[i].text@)
            },
{
    a_line_is_its_pieces(*line, line@);
    let pieces = choose|pieces: Seq<Seq<char>>| #[trigger]
        crate::paint::pieces_of(line@, pieces) && out@ == crate::text::joined(pieces);
    assert forall|i: int| 0 <= i < pieces.len() implies crate::paint::painted(
        (#[trigger] line.segments@[i]).style,
        line.segments@[i].text@,
        pieces[i],
    ) && (line.segments@[i].style == Style::Plain ==> pieces[i] == line.segments@[i].text@) by {
        assert(crate::paint::segment_shown(line@[i], pieces[i]));
    }
    assert(out@ == crate::text::joined(pieces));
}

/// What can be shown of a text: the text, or it between the sequence of its style and the one
/// that turns it off; and where styles are switched in between, with either left out.
pub proof fn what_a_text_can_be_shown_as(style: Style, text: Seq<char>, out: Seq<char>)
    ensures
        crate::paint::painted(style, text, out) <==> {
            let inside = crate::paint::resumed(text, code(style));
            ||| out == text
            ||| out == code(style) + inside + "\u{1b}[0m"@
            ||| out == code(style) + text + "\u{1b}[0m"@
            ||| out == inside + "\u{1b}[0m"@
            ||| out == text + "\u{1b}[0m"@
        },
{
    codes_are_known();
}

/// Where something in a text turns styles off, the style is turned on again behind it, and
/// nothing else is changed.
pub proof fn a_style_goes_on_behind_what_turns_it_off(
    before: Seq<char>,
    behind: Seq<char>,
    begin: Seq<char>,
)
    requires
        forall|i: int|
            0 <= i < before.len() ==> !(#[trigger] crate::text::occurs_at(
                before + "\u{1b}[0m"@ + behind,
                "\u{1b}[0m"@,
                i,
            )),
    ensures
        crate::paint::resumed(before + "\u{1b}[0m"@ + behind, begin) == before + "\u{1b}[0m"@
            + begin + crate::paint::resumed(behind, begin),
    decreases before.len(),
{
    codes_are_known();
    let off = "\u{1b}[0m"@;
    assert(off == crate::paint::reset());
    assert(off.len() == 4);
    let text = before + off + behind;
    let resumed = crate::paint::resumed(text, begin);
    if before.len() == 0 {
        assert(text =~= off + behind);
        assert(text.subrange(0, 4) =~= off);
        assert(crate::text::occurs_at(text, off, 0));
        assert(text.skip(4) =~= behind);
        assert(resumed =~= before + off + begin + crate::paint::resumed(behind, begin));
    } else {
        let rest = before.skip(1);
        let shorter = rest + off + behind;
        assert(!crate::text::occurs_at(text, off, 0));
        assert(text.skip(1) =~= shorter);
        assert forall|i: int| 0 <= i < rest.len() implies !(#[trigger] crate::text::occurs_at(
            shorter,
            off,
            i,
        )) by {
            if crate::text::occurs_at(shorter, off, i) {
                assert(text.subrange(i + 1, i + 1 + 4) =~= shorter.subrange(i, i + 4));
                assert(crate::text::occurs_at(text, off, i + 1));
            }
        }
        a_style_goes_on_behind_what_turns_it_off(rest, behind, begin);
        assert(seq![text[0]] + rest =~= before);
        assert(resumed =~= before + off + begin + crate::paint::resumed(behind, begin));
    }
}

} // verus!
