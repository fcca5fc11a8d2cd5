use manfile::doc_structure::eat_page_title;
use manfile::doc_structure::eat_section_heading;
use manfile::doc_structure::PageTitle;
use manfile::factories::default_page_title;
use manfile::factories::roman_txt;
use manfile::ManfileComponent;

#[test]
fn eat_page_title_returns_page_title() {
    let title_line = ".TH Title";

    let title = roman_txt("Title");
    let expected = ManfileComponent::PageTitle(PageTitle { title, ..default_page_title() });

    assert_eq!(eat_page_title(title_line), Some(("", expected)));
}

#[test]
fn eat_page_title_works_with_quoted_title() {
    let title_line = r#".TH "Multi Word Title""#;

    let title = roman_txt("Multi Word Title");
    let expected = ManfileComponent::PageTitle(PageTitle { title, ..default_page_title() });

    assert_eq!(eat_page_title(title_line), Some(("", expected)));
}

#[test]
fn eat_page_title_works_with_some_options_quoted() {
    let title_line = r#".TH "Multi Title" 7 FtrMiddle "Ftrleft" Header"#;

    let expected = ManfileComponent::PageTitle(PageTitle {
        title: roman_txt("Multi Title"),
        section: Some(7),
        footer_middle: Some(roman_txt("FtrMiddle")),
        footer_outside: Some(roman_txt("Ftrleft")),
        header_middle: Some(roman_txt("Header")),
    });

    assert_eq!(eat_page_title(title_line), Some(("", expected)));
}

#[test]
fn eat_page_title_works_with_all_options_unquoted() {
    let title_line = r#".TH Title 7 FtrMiddle FtrLeft Header"#;

    let expected = ManfileComponent::PageTitle(PageTitle {
        title: roman_txt("Title"),
        section: Some(7),
        footer_middle: Some(roman_txt("FtrMiddle")),
        footer_outside: Some(roman_txt("FtrLeft")),
        header_middle: Some(roman_txt("Header")),
    });

    assert_eq!(eat_page_title(title_line), Some(("", expected)));
}

#[test]
fn eat_page_title_fails_without_a_title() {
    assert_eq!(eat_page_title(".TH"), None);
    assert_eq!(eat_page_title(".TH "), None);
}

#[test]
fn eat_page_title_fails_on_another_line() {
    assert_eq!(eat_page_title("Foo"), None);
    assert_eq!(eat_page_title(".SH NAME"), None);
}

#[test]
fn eat_page_title_out_of_range_section_fails_only_that_field() {
    let expected = ManfileComponent::PageTitle(PageTitle {
        title: roman_txt("Title"),
        section: None,
        footer_middle: Some(roman_txt("999")),
        ..default_page_title()
    });

    assert_eq!(eat_page_title(".TH Title 999"), Some(("", expected)));
}

#[test]
fn eat_section_heading_returns_heading() {
    assert_eq!(eat_section_heading(".SH NAME"), Some(("", roman_txt("NAME"))));
}

#[test]
fn eat_section_heading_fails_without_an_argument() {
    assert_eq!(eat_section_heading(".SH"), None);
    assert_eq!(eat_section_heading(".TH Title"), None);
}
