use github_audit::paint::{paint, Line, Style};

#[test]
fn paints_where_colours_are_on() {
    colored::control::set_override(true);
    assert_eq!(paint(Style::Plain, "x"), "x");
    assert_eq!(paint(Style::Red, "x"), "\u{1b}[31mx\u{1b}[0m");
    assert_eq!(paint(Style::Green, "x"), "\u{1b}[32mx\u{1b}[0m");
    assert_eq!(paint(Style::Yellow, "x"), "\u{1b}[33mx\u{1b}[0m");
    assert_eq!(paint(Style::Blue, "x"), "\u{1b}[34mx\u{1b}[0m");
    assert_eq!(paint(Style::White, "x"), "\u{1b}[37mx\u{1b}[0m");
    assert_eq!(paint(Style::BoldWhite, "x"), "\u{1b}[1;37mx\u{1b}[0m");
    assert_eq!(paint(Style::Red, ""), "\u{1b}[31m\u{1b}[0m");
    assert_eq!(
        paint(Style::Red, "a\u{1b}[0mb"),
        "\u{1b}[31ma\u{1b}[0m\u{1b}[31mb\u{1b}[0m"
    );
    let line = Line::of(Style::White, "repo")
        .then_text(Style::Plain, " has ")
        .then_text(Style::Red, "it");
    assert_eq!(
        line.render(),
        "\u{1b}[37mrepo\u{1b}[0m has \u{1b}[31mit\u{1b}[0m"
    );
    colored::control::set_override(false);
    assert_eq!(paint(Style::Red, "x"), "x");
    assert_eq!(paint(Style::Red, "a\u{1b}[0mb"), "a\u{1b}[0mb");
    assert_eq!(line.render(), "repo has it");
}

#[test]
fn a_plain_line_is_its_text() {
    let line = Line::of(Style::Plain, "one ").then_text(Style::Plain, "two");
    assert_eq!(line.render(), "one two");
    assert_eq!(Line { segments: vec![] }.render(), "");
}
