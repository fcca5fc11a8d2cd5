use manfile::factories::bold_str;
use manfile::factories::italic_str;
use manfile::factories::roman_str;
use manfile::factories::roman_txt;
use manfile::factories::styled_str;
use manfile::styled_text::escape_segment;
use manfile::styled_text::eat_text;
use manfile::styled_text::prefix_to_string_style;
use manfile::styled_text::process_first_segment;
use manfile::styled_text::process_segment;
use manfile::styled_text::StringStyle;

#[test]
fn eat_text_can_digest_word() {
    assert_eq!(eat_text("Foo"), roman_txt("Foo"));
}

#[test]
fn eat_text_can_handle_empty_strings() {
    assert_eq!(eat_text(""), vec![]);
}

#[test]
fn eat_text_works_with_umlauts() {
    assert_eq!(eat_text("Föö"), roman_txt("Föö"));
}

#[test]
fn eat_text_can_digest_quote_delimited_sentence() {
    assert_eq!(
        eat_text(r#""Some" Fi Fa "Foo Bär""#),
        roman_txt(r#""Some" Fi Fa "Foo Bär""#)
    );
}

#[test]
fn eat_text_can_handle_a_style_mode() {
    let given = r#"\fBFoo"#;
    let expected = vec![bold_str("Foo")];

    assert_eq!(eat_text(given), expected);
}

#[test]
fn eat_text_can_handle_a_trailing_style_mode() {
    let given = r#"\fBFoo\fR"#;
    let expected = vec![bold_str("Foo"), roman_str("")];

    assert_eq!(eat_text(given), expected);
}

#[test]
fn eat_text_can_switch_between_different_style_modes() {
    let given = r#"\fRFoo\fBBar\fIBaz"#;
    let expected = vec![roman_str("Foo"), bold_str("Bar"), italic_str("Baz")];

    assert_eq!(eat_text(given), expected);
}

#[test]
fn eat_text_can_return_to_the_previous_style_mode() {
    let given = r#"\fRFoo\fBBar\fPBaz\fIBem\fPBum"#;
    let expected = vec![
        roman_str("Foo"),
        bold_str("Bar"),
        roman_str("Baz"),
        italic_str("Bem"),
        roman_str("Bum"),
    ];

    assert_eq!(eat_text(given), expected);
}

#[test]
fn eat_text_replaces_escape_sequences_correctly() {
    let given = r"\e \- \& \(ti \(ha \(ga \(en \(em \(lq \(rq \(dq \(oq \(cq \(aq";
    let expected = vec![roman_str(r#"\ -  ~ ^ ` – — “ ” " ‘ ’ '"#)];

    assert_eq!(eat_text(given), expected);
}

#[test]
fn escape_segment_expands_each_token_to_its_literal() {
    assert_eq!(escape_segment(r"\e"), "\\");
    assert_eq!(escape_segment(r"\-"), "-");
    assert_eq!(escape_segment(r"\&"), "");
    assert_eq!(escape_segment(r"\(ti"), "~");
    assert_eq!(escape_segment(r"\(ha"), "^");
    assert_eq!(escape_segment(r"\(ga"), "`");
    assert_eq!(escape_segment(r"\(en"), "–");
    assert_eq!(escape_segment(r"\(em"), "—");
    assert_eq!(escape_segment(r"\(lq"), "“");
    assert_eq!(escape_segment(r"\(rq"), "”");
    assert_eq!(escape_segment(r"\(dq"), "\"");
    assert_eq!(escape_segment(r"\(oq"), "‘");
    assert_eq!(escape_segment(r"\(cq"), "’");
    assert_eq!(escape_segment(r"\(aq"), "'");
}

#[test]
fn escape_segment_passes_plain_text_through() {
    assert_eq!(escape_segment("Foo Bär 123"), "Foo Bär 123");
}

#[test]
fn escape_segment_yields_empty_on_unrecognized_escape() {
    assert_eq!(escape_segment(r"Foo\qBar"), "");
    assert_eq!(escape_segment(r"Foo\"), "");
    assert_eq!(escape_segment(r"\(zz"), "");
}

#[test]
fn eat_text_yields_empty_content_for_undecodable_run() {
    assert_eq!(eat_text(r"Foo\q"), vec![roman_str("")]);
}

#[test]
fn eat_text_keeps_style_on_unrecognized_switch_letter() {
    assert_eq!(
        eat_text(r"\fBFoo\fXBar"),
        vec![bold_str("Foo"), bold_str("Bar")]
    );
}

#[test]
fn eat_text_records_a_trailing_bare_switch() {
    assert_eq!(eat_text("Foo\\f"), vec![roman_str("Foo"), roman_str("")]);
}

#[test]
fn escape_segment_resolves_every_token_in_one_fragment() {
    assert_eq!(escape_segment(r"\-\&\(ti"), "-~");
}

#[test]
fn prefix_to_string_style_resolves_each_letter() {
    let bold = StringStyle::Bold;
    let italic = StringStyle::Italic;
    let roman = StringStyle::Roman;

    assert_eq!(prefix_to_string_style(Some('B'), roman, roman), bold);
    assert_eq!(prefix_to_string_style(Some('I'), roman, roman), italic);
    assert_eq!(prefix_to_string_style(Some('R'), bold, roman), roman);
    assert_eq!(prefix_to_string_style(Some('P'), italic, bold), bold);
    assert_eq!(prefix_to_string_style(Some('X'), italic, bold), italic);
    assert_eq!(prefix_to_string_style(None, bold, roman), bold);
}

#[test]
fn process_segment_splits_letter_and_content() {
    let roman = StringStyle::Roman;
    let bold = StringStyle::Bold;

    assert_eq!(process_segment("BFoo", roman, roman), bold_str("Foo"));
    assert_eq!(process_segment(r"R\(ti", bold, roman), roman_str("~"));
    assert_eq!(process_segment("", bold, roman), bold_str(""));
}

#[test]
fn process_first_segment_keeps_the_style_when_unstyled() {
    let roman = StringStyle::Roman;
    let italic = StringStyle::Italic;

    assert_eq!(process_first_segment("Foo", false, italic, roman), italic_str("Foo"));
    assert_eq!(process_first_segment("BFoo", true, italic, roman), bold_str("Foo"));
}

#[test]
fn styled_str_builds_one_run() {
    assert_eq!(styled_str("Foo", StringStyle::Bold), bold_str("Foo"));
}
