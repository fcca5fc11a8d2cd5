//! A parser for troff/groff manual-page source: it decodes escape
//! sequences, splits text into style-tagged runs, parses the page-title
//! and section-heading macro lines, and assembles an ordered document
//! from a sequence of raw lines.
//!
//! The crate never performs I/O: a caller hands it the document's lines
//! (each with its line ending already stripped) and receives the ordered
//! list of parsed components back.
#![verifier::loop_isolation(false)]

pub mod doc_structure;
pub mod factories;
pub mod helpers;
pub mod styled_text;

use vstd::prelude::*;

use crate::doc_structure::eat_page_title;
use crate::doc_structure::eat_section_heading;
use crate::doc_structure::page_title_spec;
use crate::doc_structure::section_heading_spec;
use crate::doc_structure::PageTitle;
use crate::doc_structure::PageTitleV;
use crate::styled_text::text_view;
use crate::styled_text::StringStyle;
use crate::styled_text::StyledText;

verus! {

/// One parsed structural unit of a manual page.
#[derive(Debug, PartialEq, Eq)]
pub enum ManfileComponent {
    PageTitle(PageTitle),
    SectionHeading(StyledText),
}

/// A parsed component, as mathematical values.
pub ghost enum ComponentV {
    PageTitle(PageTitleV),
    SectionHeading(Seq<(StringStyle, Seq<char>)>),
}

impl View for ManfileComponent {
    type V = ComponentV;

    open spec fn view(&self) -> ComponentV {
        match self {
            ManfileComponent::PageTitle(t) => ComponentV::PageTitle(t@),
            ManfileComponent::SectionHeading(t) => ComponentV::SectionHeading(text_view(t@)),
        }
    }
}

/// What one line contributes to the document: a page title for a
/// well-formed `.TH` line, a section heading for a well-formed `.SH`
/// line. Any other line — an unrecognized macro as much as a recognized
/// one with malformed arguments — contributes nothing: the line is
/// skipped and parsing continues, the one fallback policy of this crate.
pub open spec fn line_spec(s: Seq<char>) -> Option<ComponentV> {
    match page_title_spec(s) {
        Some(p) => Some(ComponentV::PageTitle(p.1)),
        None => match section_heading_spec(s) {
            Some(p) => Some(ComponentV::SectionHeading(p.1)),
            None => None,
        },
    }
}

/// The components contributed by the lines of `lines`, from index `i`
/// on, in line order.
pub open spec fn doc_spec(lines: Seq<Seq<char>>, i: nat) -> Seq<ComponentV>
    decreases lines.len() - i,
{
    if i >= lines.len() {
        Seq::<ComponentV>::empty()
    } else {
        match line_spec(lines[i as int]) {
            Some(c) => seq![c] + doc_spec(lines, (i + 1) as nat),
            None => doc_spec(lines, (i + 1) as nat),
        }
    }
}

/// The characters of each line.
pub open spec fn lines_view(lines: Seq<String>) -> Seq<Seq<char>> {
    lines.map(|i: int, l: String| l@)
}

/// The view of each component.
pub open spec fn comps_view(cs: Seq<ManfileComponent>) -> Seq<ComponentV> {
    cs.map(|i: int, c: ManfileComponent| c@)
}

/// The line dispatcher: inspects the line's leading macro token, runs
/// the matching macro parser, and yields the parsed component — or
/// nothing, for a line that is skipped. Every macro this crate
/// recognizes consumes exactly one line.
pub fn eat_line(line: &str) -> (r: Option<ManfileComponent>)
    ensures
        match r {
            Some(c) => line_spec(line@) == Some(c@),
            None => line_spec(line@) is None,
        },
{
    match eat_page_title(line) {
        Some((_rest, c)) => Some(c),
        None => match eat_section_heading(line) {
            Some((_rest, t)) => Some(ManfileComponent::SectionHeading(t)),
            None => None,
        },
    }
}

/// The document assembler: consumes the lines from index `n` on, one
/// line per step, and appends each parsed component to `result`. A line
/// that yields no component is skipped; the assembler never gives up on
/// the rest of the document. The drive is an explicit loop over a line
/// cursor, so a large document never grows the call depth.
pub fn parse(lines: &Vec<String>, n: usize, result: Vec<ManfileComponent>) -> (r: Vec<
    ManfileComponent,
>)
    ensures
        comps_view(r@) == comps_view(result@) + doc_spec(lines_view(lines@), n as nat),
{
    let mut result = result;
    let ghost result0 = result@;
    let ghost lv = lines_view(lines@);
    let len = lines.len();
    let mut i: usize = n;
    while i < len
        invariant
            n <= i,
            comps_view(result0) + doc_spec(lv, n as nat) == comps_view(result@) + doc_spec(
                lv,
                i as nat,
            ),
        decreases len - i,
    {
        let ghost before = result@;
        proof {
            assert(lv[i as int] == lines@[i as int]@);
        }
        match eat_line(lines[i].as_str()) {
            Some(comp) => {
                let ghost cv = comp@;
                result.push(comp);
                proof {
                    assert(comps_view(result@) =~= comps_view(before).push(cv));
                    assert(comps_view(before) + (seq![cv] + doc_spec(lv, (i + 1) as nat))
                        =~= comps_view(before).push(cv) + doc_spec(lv, (i + 1) as nat));
                }
            },
            None => {},
        }
        i = i + 1;
    }
    proof {
        assert(doc_spec(lv, i as nat) =~= Seq::<ComponentV>::empty());
        assert(comps_view(result@) + Seq::<ComponentV>::empty() =~= comps_view(result@));
    }
    result
}

/// Parses a whole document: every line in order, assembled into the
/// ordered component list.
pub fn parse_file(lines: &Vec<String>) -> (r: Vec<ManfileComponent>)
    ensures
        comps_view(r@) == doc_spec(lines_view(lines@), 0),
{
    let result: Vec<ManfileComponent> = Vec::new();
    proof {
        assert(comps_view(Seq::<ManfileComponent>::empty()) =~= Seq::<ComponentV>::empty());
    }
    let r = parse(lines, 0, result);
    proof {
        assert(Seq::<ComponentV>::empty() + doc_spec(lines_view(lines@), 0) =~= doc_spec(
            lines_view(lines@),
            0,
        ));
    }
    r
}

} // verus!
