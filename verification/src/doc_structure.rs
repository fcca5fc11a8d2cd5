//! The macro-line parsers: the page title (`.TH`) and the section
//! heading (`.SH`). Each matches its leading macro token and then runs a
//! fixed pipeline of argument extractors over the rest of the line; on
//! success it hands back the parsed value and the unconsumed remainder
//! of the line (which is not itself validated to be empty).

use vstd::prelude::*;
use vstd::string::*;

use crate::helpers::num_arg;
use crate::helpers::num_arg_spec;
use crate::helpers::txt_arg;
use crate::helpers::txt_arg_spec;
use crate::styled_text::text_view;
use crate::styled_text::StringStyle;
use crate::styled_text::StyledText;
use crate::ManfileComponent;
use crate::ComponentV;

verus! {

/// The manual-section number of a page title.
pub type PageSection = u8;

/// A parsed `.TH` line: the page's title and its optional section
/// number, footers and header. Optional fields not supplied on the line
/// stay absent.
#[derive(Debug, PartialEq, Eq)]
pub struct PageTitle {
    pub title: StyledText,
    pub section: Option<PageSection>,
    pub footer_middle: Option<StyledText>,
    pub footer_outside: Option<StyledText>,
    pub header_middle: Option<StyledText>,
}

/// The parts of a page title, as mathematical values.
#[verifier::ext_equal]
pub ghost struct PageTitleV {
    pub title: Seq<(StringStyle, Seq<char>)>,
    pub section: Option<u8>,
    pub footer_middle: Option<Seq<(StringStyle, Seq<char>)>>,
    pub footer_outside: Option<Seq<(StringStyle, Seq<char>)>>,
    pub header_middle: Option<Seq<(StringStyle, Seq<char>)>>,
}

impl View for PageTitle {
    type V = PageTitleV;

    open spec fn view(&self) -> PageTitleV {
        PageTitleV {
            title: text_view(self.title@),
            section: self.section,
            footer_middle: match self.footer_middle {
                Some(t) => Some(text_view(t@)),
                None => None,
            },
            footer_outside: match self.footer_outside {
                Some(t) => Some(text_view(t@)),
                None => None,
            },
            header_middle: match self.header_middle {
                Some(t) => Some(text_view(t@)),
                None => None,
            },
        }
    }
}

/// A parsed `.SH` line: the heading's styled text.
pub type SectionHeading = StyledText;

/// Whether the line begins with the macro token `.` `a` `b`.
pub open spec fn has_macro_token(s: Seq<char>, a: char, b: char) -> bool {
    s.len() >= 3 && s[0] == '.' && s[1] == a && s[2] == b
}

/// An optional text argument: when extraction fails, the field is absent
/// and the line is left untouched, so a later argument may still parse.
pub open spec fn opt_txt(s: Seq<char>) -> (Option<Seq<(StringStyle, Seq<char>)>>, Seq<char>) {
    match txt_arg_spec(s) {
        Some(p) => (Some(p.1), p.0),
        None => (None, s),
    }
}

/// An optional numeric argument: when extraction fails — a missing
/// number as much as one out of the 8-bit range — the field is absent
/// and the line is left untouched.
pub open spec fn opt_num(s: Seq<char>) -> (Option<u8>, Seq<char>) {
    match num_arg_spec(s) {
        Some(p) => (Some(p.1), p.0),
        None => (None, s),
    }
}

/// What parsing a `.TH` line yields: the unconsumed remainder and the
/// page title — a required title text, then an optional section number
/// and up to three optional further texts, each attempted in turn on
/// whatever the previous one left.
pub open spec fn page_title_spec(s: Seq<char>) -> Option<(Seq<char>, PageTitleV)> {
    if !has_macro_token(s, 'T', 'H') {
        None
    } else {
        match txt_arg_spec(s.subrange(3, s.len() as int)) {
            None => None,
            Some(p1) => {
                let (section, r2) = opt_num(p1.0);
                let (footer_middle, r3) = opt_txt(r2);
                let (footer_outside, r4) = opt_txt(r3);
                let (header_middle, r5) = opt_txt(r4);
                Some(
                    (
                        r5,
                        PageTitleV {
                            title: p1.1,
                            section,
                            footer_middle,
                            footer_outside,
                            header_middle,
                        },
                    ),
                )
            },
        }
    }
}

/// What parsing a `.SH` line yields: the unconsumed remainder and the
/// heading's styled runs; the one text argument is required.
pub open spec fn section_heading_spec(s: Seq<char>) -> Option<
    (Seq<char>, Seq<(StringStyle, Seq<char>)>),
> {
    if !has_macro_token(s, 'S', 'H') {
        None
    } else {
        txt_arg_spec(s.subrange(3, s.len() as int))
    }
}

/// The page-title parser: `.TH`, a required title, then the optional
/// section number, footers and header.
pub fn eat_page_title<'a>(line: &'a str) -> (r: Option<(&'a str, ManfileComponent)>)
    ensures
        match r {
            Some((rest, c)) => {
                &&& page_title_spec(line@) matches Some(p)
                &&& rest@ == p.0
                &&& c@ == ComponentV::PageTitle(p.1)
            },
            None => page_title_spec(line@) is None,
        },
{
    let n = line.unicode_len();
    if n < 3 {
        return None;
    }
    if !(line.get_char(0) == '.' && line.get_char(1) == 'T' && line.get_char(2) == 'H') {
        return None;
    }
    let rest0 = line.substring_char(3, n);
    match txt_arg(rest0) {
        None => None,
        Some((r1, title)) => {
            let (section, r2) = match num_arg(r1) {
                Some((rr, v)) => (Some(v), rr),
                None => (None, r1),
            };
            let (footer_middle, r3) = match txt_arg(r2) {
                Some((rr, t)) => (Some(t), rr),
                None => (None, r2),
            };
            let (footer_outside, r4) = match txt_arg(r3) {
                Some((rr, t)) => (Some(t), rr),
                None => (None, r3),
            };
            let (header_middle, r5) = match txt_arg(r4) {
                Some((rr, t)) => (Some(t), rr),
                None => (None, r4),
            };
            let title = PageTitle { title, section, footer_middle, footer_outside, header_middle };
            Some((r5, ManfileComponent::PageTitle(title)))
        },
    }
}

/// The section-heading parser: `.SH`, then one required text argument.
pub fn eat_section_heading<'a>(line: &'a str) -> (r: Option<(&'a str, SectionHeading)>)
    ensures
        match r {
            Some((rest, t)) => {
                &&& section_heading_spec(line@) matches Some(p)
                &&& rest@ == p.0
                &&& text_view(t@) == p.1
            },
            None => section_heading_spec(line@) is None,
        },
{
    let n = line.unicode_len();
    if n < 3 {
        return None;
    }
    if !(line.get_char(0) == '.' && line.get_char(1) == 'S' && line.get_char(2) == 'H') {
        return None;
    }
    let rest0 = line.substring_char(3, n);
    match txt_arg(rest0) {
        None => None,
        Some((r1, t)) => Some((r1, t)),
    }
}

} // verus!
