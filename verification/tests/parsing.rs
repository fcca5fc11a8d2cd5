use manfile::doc_structure::PageTitle;
use manfile::factories::default_page_title;
use manfile::factories::roman_txt;
use manfile::helpers::num_arg;
use manfile::helpers::txt_arg;
use manfile::parse;
use manfile::parse_file;
use manfile::ManfileComponent;

#[test]
fn parse_file_works() {
    assert_eq!(parse_file(&Vec::new()), vec![]);
}

#[test]
fn parse_file_assembles_components_in_line_order() {
    let lines: Vec<String> = vec![
        String::from(".TH Title 7"),
        String::from("some body text"),
        String::from(".SH NAME"),
        String::from(".XX unrecognized"),
    ];

    let expected = vec![
        ManfileComponent::PageTitle(PageTitle {
            title: roman_txt("Title"),
            section: Some(7),
            ..default_page_title()
        }),
        ManfileComponent::SectionHeading(roman_txt("NAME")),
    ];

    assert_eq!(parse_file(&lines), expected);
}

#[test]
fn parse_skips_malformed_macro_lines() {
    let lines: Vec<String> = vec![String::from(".TH"), String::from(".SH NAME")];

    let expected = vec![ManfileComponent::SectionHeading(roman_txt("NAME"))];

    assert_eq!(parse_file(&lines), expected);
}

#[test]
fn parse_starts_at_the_given_line_and_keeps_prior_results() {
    let lines: Vec<String> = vec![String::from(".SH ONE"), String::from(".SH TWO")];
    let seed = vec![ManfileComponent::SectionHeading(roman_txt("ZERO"))];

    let expected = vec![
        ManfileComponent::SectionHeading(roman_txt("ZERO")),
        ManfileComponent::SectionHeading(roman_txt("TWO")),
    ];

    assert_eq!(parse(&lines, 1, seed), expected);
}

#[test]
fn txt_arg_takes_a_bare_word() {
    assert_eq!(txt_arg(" Foo bar"), Some((" bar", roman_txt("Foo"))));
}

#[test]
fn txt_arg_takes_a_quoted_phrase() {
    assert_eq!(txt_arg(" \"Fi Fa\" rest"), Some((" rest", roman_txt("Fi Fa"))));
}

#[test]
fn txt_arg_falls_back_to_a_word_on_an_unclosed_quote() {
    assert_eq!(txt_arg(" \"Foo bar"), Some((" bar", roman_txt("\"Foo"))));
}

#[test]
fn txt_arg_fails_without_leading_whitespace_or_content() {
    assert_eq!(txt_arg("Foo"), None);
    assert_eq!(txt_arg(" "), None);
    assert_eq!(txt_arg(""), None);
}

#[test]
fn num_arg_takes_a_decimal_number() {
    assert_eq!(num_arg(" 7 rest"), Some((" rest", 7)));
    assert_eq!(num_arg(" 255"), Some(("", 255)));
}

#[test]
fn num_arg_fails_out_of_the_eight_bit_range() {
    assert_eq!(num_arg(" 256"), None);
    assert_eq!(num_arg(" 999"), None);
}

#[test]
fn num_arg_fails_without_a_digit_or_whitespace() {
    assert_eq!(num_arg("7"), None);
    assert_eq!(num_arg(" x"), None);
    assert_eq!(num_arg(" "), None);
}
