//! Small constructors for styled text and page titles, convenient for
//! callers and tests.

use vstd::prelude::*;
use vstd::string::*;

use crate::doc_structure::PageTitle;
use crate::styled_text::text_view;
use crate::styled_text::StringStyle;
use crate::styled_text::StyledString;
use crate::styled_text::StyledText;

verus! {

/// One run of `content` in the given style.
pub fn styled_str(content: &str, style: StringStyle) -> (r: StyledString)
    ensures
        r@ == (style, content@),
{
    StyledString { style, content: String::from_str(content) }
}

/// One Roman run.
pub fn roman_str(given: &str) -> (r: StyledString)
    ensures
        r@ == (StringStyle::Roman, given@),
{
    styled_str(given, StringStyle::Roman)
}

/// One bold run.
pub fn bold_str(given: &str) -> (r: StyledString)
    ensures
        r@ == (StringStyle::Bold, given@),
{
    styled_str(given, StringStyle::Bold)
}

/// One italic run.
pub fn italic_str(given: &str) -> (r: StyledString)
    ensures
        r@ == (StringStyle::Italic, given@),
{
    styled_str(given, StringStyle::Italic)
}

/// Styled text of a single Roman run.
pub fn roman_txt(given: &str) -> (r: StyledText)
    ensures
        text_view(r@) == seq![(StringStyle::Roman, given@)],
{
    let mut t: Vec<StyledString> = Vec::new();
    t.push(roman_str(given));
    proof {
        assert(text_view(t@) =~= seq![(StringStyle::Roman, given@)]);
    }
    t
}

/// A page title whose title reads "Title", with every optional field
/// absent.
pub fn default_page_title() -> (r: PageTitle)
    ensures
        text_view(r.title@) == seq![(StringStyle::Roman, "Title"@)],
        r.section is None,
        r.footer_middle is None,
        r.footer_outside is None,
        r.header_middle is None,
{
    PageTitle {
        title: roman_txt("Title"),
        section: None,
        footer_middle: None,
        footer_outside: None,
        header_middle: None,
    }
}

} // verus!
